//! Messages that operators' pipelines broadcast about batches of records
//! and settlements.
use vstd::prelude::*;
use crate::encoding::{decimal_text, push_decimal_text};
use crate::primitives::primitives::{hash_data, sha256, Blake2bHash, NetworkId, NetworkIdView};
use crate::primitives::text::{network_debug, network_debug_text, text_bytes};

verus! {

/// Announcements and answers between operators' pipelines.
#[derive(Debug)]
pub enum OperatorMessage {
    /// A creditor asks a debtor to settle an amount for a period.
    SettlementProposal {
        creditor: NetworkId,
        debtor: NetworkId,
        amount_cents: u64,
        period_hash: Blake2bHash,
        nonce: u64,
    },
    /// A debtor accepts a settlement.
    SettlementAccept { proposal_hash: Blake2bHash, signature: Vec<u8> },
    /// A batch of records between two networks is ready.
    CDRBatchReady {
        batch_id: Blake2bHash,
        network_pair: (NetworkId, NetworkId),
        record_count: u32,
        total_amount: u64,
    },
}

/// A message to broadcast on a topic.
#[derive(Debug)]
pub struct Broadcast {
    pub topic: String,
    pub message: OperatorMessage,
}

/// Text whose hash identifies a settlement between two networks: the
/// creditor's and debtor's `Debug` texts and the amount, separated by colons.
pub open spec fn proposal_text(creditor: NetworkIdView, debtor: NetworkIdView, amount: u64) -> Seq<char> {
    network_debug(creditor) + ":"@ + network_debug(debtor) + ":"@ + decimal_text(amount as nat)
}

/// Identifier of the settlement of `amount` owed by `debtor` to `creditor`.
pub fn proposal_hash(creditor: &NetworkId, debtor: &NetworkId, amount: u64) -> (h: Blake2bHash)
    ensures
        h@ == sha256(vstd::utf8::encode_utf8(proposal_text(creditor@, debtor@, amount))),
{
    let mut text = network_debug_text(creditor);
    text.append(":");
    text.append(network_debug_text(debtor).as_str());
    text.append(":");
    push_decimal_text(&mut text, amount);
    assert(text@ =~= proposal_text(creditor@, debtor@, amount));
    hash_data(text_bytes(&text).as_slice())
}

/// Text whose hash identifies the authorisation of a pair of networks: their
/// `Debug` texts separated by a colon.
pub open spec fn pair_text(a: NetworkIdView, b: NetworkIdView) -> Seq<char> {
    network_debug(a) + ":"@ + network_debug(b)
}

/// Hash of the `Debug` texts of two networks separated by a colon.
pub fn pair_hash(a: &NetworkId, b: &NetworkId) -> (h: Blake2bHash)
    ensures
        h@ == sha256(vstd::utf8::encode_utf8(pair_text(a@, b@))),
{
    let mut text = network_debug_text(a);
    text.append(":");
    text.append(network_debug_text(b).as_str());
    assert(text@ =~= pair_text(a@, b@));
    hash_data(text_bytes(&text).as_slice())
}

} // verus!
