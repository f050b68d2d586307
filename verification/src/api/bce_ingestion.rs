//! Submission of billing records to a pipeline and the answers given.
use vstd::prelude::*;
use crate::bce_pipeline::{
    bce_rates, bce_record_fits, proof_inputs_result, rates_total, record_mb, record_minutes, BCEPipeline, BCERecord,
};
use crate::clock::now_seconds;
use crate::encoding::{decimal_text, push_decimal_text};
use crate::primitives::error::error_message;

verus! {

/// A record submitted by an operator's billing system, with the operator's
/// signature where it gave one.
pub struct BCERecordRequest {
    pub record: BCERecord,
    pub operator_signature: Option<String>,
}

/// Answer to a submission.
pub struct BCEResponse {
    pub success: bool,
    pub message: String,
    pub batch_id: Option<String>,
}

/// State of a batch as the status query reports it.
pub struct BatchStatus {
    pub batch_id: String,
    pub record_count: usize,
    pub total_charges_cents: u64,
    pub processing_status: String,
}

/// Whether the rates of a record give its charge back exactly, so that the
/// pipeline accepts it.
pub open spec fn record_accepted(r: BCERecord) -> bool {
    let cm = record_minutes(r);
    let dm = record_mb(r);
    rates_total(cm, dm, bce_rates(cm, dm, r.wholesale_charge as int)) == r.wholesale_charge as int
}

/// Number of accepted records among the first `n` requests.
pub open spec fn accepted_count(rs: Seq<BCERecordRequest>, n: int) -> nat
    decreases n,
{
    if n <= 0 || rs.len() < n {
        0
    } else {
        accepted_count(rs, n - 1) + if record_accepted(rs[n - 1].record) {
            1nat
        } else {
            0nat
        }
    }
}

/// Answer text for a record that was processed.
pub open spec fn accepted_message(record_id: Seq<char>) -> Seq<char> {
    "BCE record "@ + record_id + " processed successfully"@
}

/// Batch that an accepted record is reported under: its two PLMN codes.
pub open spec fn plmn_batch_name(home: Seq<char>, visited: Seq<char>) -> Seq<char> {
    "batch_"@ + home + "_"@ + visited
}

/// Answer text of a batch submission.
pub open spec fn batch_message(successful: nat, failed: nat) -> Seq<char> {
    "Processed "@ + decimal_text(successful) + " records successfully, "@ + decimal_text(failed) + " failed"@
}

/// Submits one record. The answer is a success naming the record and the
/// batch of its PLMN pair when the pipeline accepts it, else a failure with
/// the pipeline's error text; `None`, changing nothing, where processing
/// would not stay within 64-bit words.
pub fn submit_bce_record(pipeline: &mut BCEPipeline, request: BCERecordRequest) -> (r: Option<BCEResponse>)
    ensures
        r is None <==> !bce_record_fits(*old(pipeline), request.record),
        r is None ==> *final(pipeline) == *old(pipeline),
        r matches Some(resp) ==> {
            &&& resp.success == record_accepted(request.record)
            &&& resp.success ==> resp.message@ == accepted_message(request.record.record_id@)
            &&& resp.success ==> (resp.batch_id matches Some(b) && b@ == plmn_batch_name(
                request.record.home_plmn@,
                request.record.visited_plmn@,
            ))
            &&& !resp.success ==> resp.batch_id is None && exists|e|
                proof_inputs_result(request.record, Err(e)) && resp.message@ == "Failed to process BCE record: "@
                    + error_message(e)
        },
{
    let record_id = request.record.record_id.clone();
    let home = request.record.home_plmn.clone();
    let visited = request.record.visited_plmn.clone();
    let ghost record = request.record;
    match pipeline.process_bce_record_checked(request.record) {
        None => None,
        Some(Ok(_)) => {
            let mut message = "BCE record ".to_string();
            message.append(record_id.as_str());
            message.append(" processed successfully");
            let mut batch = "batch_".to_string();
            batch.append(home.as_str());
            batch.append("_");
            batch.append(visited.as_str());
            proof {
                reveal_strlit("BCE record ");
                reveal_strlit(" processed successfully");
                reveal_strlit("batch_");
                reveal_strlit("_");
            }
            assert(message@ =~= accepted_message(record.record_id@));
            assert(batch@ =~= plmn_batch_name(record.home_plmn@, record.visited_plmn@));
            Some(BCEResponse { success: true, message, batch_id: Some(batch) })
        },
        Some(Err(e)) => {
            let mut message = "Failed to process BCE record: ".to_string();
            let text = e.message();
            message.append(text.as_str());
            Some(BCEResponse { success: false, message, batch_id: None })
        },
    }
}

/// Submits records in turn and answers with how many were accepted and how
/// many refused, a success when none was refused, under a batch named by
/// the time `now`; `None` where a record would not stay within 64-bit words,
/// the records before it having been processed.
pub fn submit_bce_batch_at(pipeline: &mut BCEPipeline, records: Vec<BCERecordRequest>, now: i64) -> (r: Option<
    BCEResponse,
>)
    requires
        now >= 0,
    ensures
        final(pipeline).local() == old(pipeline).local(),
        final(pipeline).settings() == old(pipeline).settings(),
        final(pipeline).proposals() == old(pipeline).proposals(),
        records@.len() == 0 ==> r is Some,
        r matches Some(resp) ==> {
            let successful = accepted_count(records@, records@.len() as int);
            let failed = (records@.len() - successful) as nat;
            &&& resp.success == (failed == 0)
            &&& resp.message@ == batch_message(successful, failed)
            &&& (resp.batch_id matches Some(b) && b@ == "batch_"@ + decimal_text(now as nat))
        },
{
    let ghost all = records@;
    let n = records.len();
    let mut successful: u64 = 0;
    let mut failed: u64 = 0;
    let mut rest = records;
    let mut i: usize = 0;
    assert(rest@ =~= all.subrange(0, n as int));
    while i < n
        invariant
            0 <= i <= n,
            n == all.len(),
            all == records@,
            rest@ =~= all.subrange(i as int, n as int),
            successful == accepted_count(all, i as int),
            successful + failed == i,
            pipeline.local() == old(pipeline).local(),
            pipeline.settings() == old(pipeline).settings(),
            pipeline.proposals() == old(pipeline).proposals(),
        decreases n - i,
    {
        let request = rest.remove(0);
        assert(request == all[i as int]);
        let ghost record = request.record;
        match pipeline.process_bce_record_checked(request.record) {
            None => {
                return None;
            },
            Some(Ok(_)) => {
                successful = successful + 1;
            },
            Some(Err(_)) => {
                failed = failed + 1;
            },
        }
        i = i + 1;
    }
    let mut message = "Processed ".to_string();
    push_decimal_text(&mut message, successful);
    message.append(" records successfully, ");
    push_decimal_text(&mut message, failed);
    message.append(" failed");
    let mut batch = "batch_".to_string();
    push_decimal_text(&mut batch, now as u64);
    proof {
        reveal_strlit("Processed ");
        reveal_strlit(" records successfully, ");
        reveal_strlit(" failed");
        reveal_strlit("batch_");
    }
    assert(message@ =~= batch_message(successful as nat, failed as nat));
    Some(BCEResponse { success: failed == 0, message, batch_id: Some(batch) })
}

/// `submit_bce_batch_at` at the present time of the system clock.
pub fn submit_bce_batch(pipeline: &mut BCEPipeline, records: Vec<BCERecordRequest>) -> (r: Option<BCEResponse>)
    ensures
        final(pipeline).local() == old(pipeline).local(),
        final(pipeline).settings() == old(pipeline).settings(),
        final(pipeline).proposals() == old(pipeline).proposals(),
        records@.len() == 0 ==> r is Some,
        r matches Some(resp) ==> {
            let successful = accepted_count(records@, records@.len() as int);
            let failed = (records@.len() - successful) as nat;
            &&& resp.success == (failed == 0)
            &&& resp.message@ == batch_message(successful, failed)
            &&& (resp.batch_id matches Some(b) && exists|t: nat| b@ == "batch_"@ + decimal_text(t))
        },
{
    let now = now_seconds() as i64;
    submit_bce_batch_at(pipeline, records, now)
}

/// Status reported for a batch: batches are not tracked yet, so every batch
/// is reported completed, with no records and no charges.
pub fn get_batch_status(batch_id: String) -> (s: BatchStatus)
    ensures
        s.batch_id@ == batch_id@,
        s.record_count == 0,
        s.total_charges_cents == 0,
        s.processing_status@ == "completed"@,
{
    BatchStatus { batch_id, record_count: 0, total_charges_cents: 0, processing_status: "completed".to_string() }
}

} // verus!
