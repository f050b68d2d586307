//! Netting of bilateral obligations between operators: net positions,
//! cycles netted out, and what netting saves.
use vstd::prelude::*;
use crate::primitives::error::{BlockchainError, Result};
use crate::primitives::primitives::{Blake2bHash, NetworkId, NetworkIdView};

verus! {

/// Obligations (from, to, amount) as plain values.
pub open spec fn flows_view(b: Seq<(NetworkId, NetworkId, u64)>) -> Seq<(NetworkIdView, NetworkIdView, u64)> {
    b.map_values(|e: (NetworkId, NetworkId, u64)| (e.0@, e.1@, e.2))
}

/// Sum of the amounts owed.
pub open spec fn gross(b: Seq<(NetworkIdView, NetworkIdView, u64)>) -> nat
    decreases b.len(),
{
    if b.len() == 0 {
        0
    } else {
        gross(b.drop_last()) + b.last().2 as nat
    }
}

/// Net position of a network: what it is owed less what it owes.
pub open spec fn raw_net(b: Seq<(NetworkIdView, NetworkIdView, u64)>, x: NetworkIdView) -> int
    decreases b.len(),
{
    if b.len() == 0 {
        0
    } else {
        raw_net(b.drop_last(), x) + (if b.last().1 == x { b.last().2 as int } else { 0 }) - (if b.last().0 == x {
            b.last().2 as int
        } else {
            0
        })
    }
}

/// What a network owes under the obligations, in all.
pub open spec fn outflow(b: Seq<(NetworkIdView, NetworkIdView, u64)>, x: NetworkIdView) -> nat
    decreases b.len(),
{
    if b.len() == 0 {
        0
    } else {
        outflow(b.drop_last(), x) + if b.last().0 == x {
            b.last().2 as nat
        } else {
            0nat
        }
    }
}

/// What a network is owed under the obligations, in all.
pub open spec fn inflow(b: Seq<(NetworkIdView, NetworkIdView, u64)>, x: NetworkIdView) -> nat
    decreases b.len(),
{
    if b.len() == 0 {
        0
    } else {
        inflow(b.drop_last(), x) + if b.last().1 == x {
            b.last().2 as nat
        } else {
            0nat
        }
    }
}

/// Whether what each network owes, and what it is owed, fits in an `i64`.
pub open spec fn flows_fit(b: Seq<(NetworkIdView, NetworkIdView, u64)>) -> bool {
    forall|x: NetworkIdView|
        #![trigger outflow(b, x)]
        #![trigger inflow(b, x)]
        outflow(b, x) <= i64::MAX && inflow(b, x) <= i64::MAX
}

/// A network's net position is what it is owed less what it owes.
pub proof fn lemma_net_in_out(b: Seq<(NetworkIdView, NetworkIdView, u64)>, x: NetworkIdView)
    ensures
        raw_net(b, x) == inflow(b, x) - outflow(b, x),
    decreases b.len(),
{
    if b.len() > 0 {
        lemma_net_in_out(b.drop_last(), x);
    }
}

/// What a network owes, or is owed, under a prefix of the obligations is
/// at most what it owes, or is owed, under all of them.
pub proof fn lemma_flow_prefix(b: Seq<(NetworkIdView, NetworkIdView, u64)>, k: int, x: NetworkIdView)
    requires
        0 <= k <= b.len(),
    ensures
        outflow(b.subrange(0, k), x) <= outflow(b, x),
        inflow(b.subrange(0, k), x) <= inflow(b, x),
    decreases b.len() - k,
{
    if k < b.len() {
        lemma_flow_prefix(b, k + 1, x);
        assert(b.subrange(0, k + 1).drop_last() =~= b.subrange(0, k));
    } else {
        assert(b.subrange(0, k) =~= b);
    }
}

/// No network owes, or is owed, more than the gross of the obligations.
pub proof fn lemma_flows_within_gross(b: Seq<(NetworkIdView, NetworkIdView, u64)>, x: NetworkIdView)
    ensures
        outflow(b, x) <= gross(b),
        inflow(b, x) <= gross(b),
    decreases b.len(),
{
    if b.len() > 0 {
        lemma_flows_within_gross(b.drop_last(), x);
    }
}

/// Obligations whose gross fits in an `i64` fit network by network.
pub proof fn lemma_gross_fits(b: Seq<(NetworkIdView, NetworkIdView, u64)>)
    requires
        gross(b) <= i64::MAX,
    ensures
        flows_fit(b),
{
    assert forall|x: NetworkIdView| outflow(b, x) <= i64::MAX && inflow(b, x) <= i64::MAX by {
        lemma_flows_within_gross(b, x);
    }
}

/// `l` with `x` at the end unless it already holds it.
pub open spec fn add_new(l: Seq<NetworkIdView>, x: NetworkIdView) -> Seq<NetworkIdView> {
    if l.contains(x) {
        l
    } else {
        l.push(x)
    }
}

/// The networks of the obligations, each once, in order of first
/// appearance (a debtor before its creditor).
pub open spec fn first_seen(b: Seq<(NetworkIdView, NetworkIdView, u64)>) -> Seq<NetworkIdView>
    decreases b.len(),
{
    if b.len() == 0 {
        Seq::empty()
    } else {
        add_new(add_new(first_seen(b.drop_last()), b.last().0), b.last().1)
    }
}

/// Sum of the first `k` entries of row `i` of an `n`-by-`n` matrix held
/// row by row: what network `i` owes to the first `k` networks.
pub open spec fn row_sum(m: Seq<u64>, n: int, i: int, k: int) -> int
    decreases k,
{
    if k <= 0 {
        0
    } else {
        row_sum(m, n, i, k - 1) + m[i * n + k - 1] as int
    }
}

/// Sum of the first `k` entries of column `i`: what the first `k` networks
/// owe to network `i`.
pub open spec fn col_sum(m: Seq<u64>, n: int, i: int, k: int) -> int
    decreases k,
{
    if k <= 0 {
        0
    } else {
        col_sum(m, n, i, k - 1) + m[(k - 1) * n + i] as int
    }
}

/// Net position of network `i` under the matrix of obligations.
pub open spec fn matrix_net(m: Seq<u64>, n: int, i: int) -> int {
    col_sum(m, n, i, n) - row_sum(m, n, i, n)
}

proof fn lemma_index(n: int, i: int, j: int, a: int, b: int)
    requires
        0 <= i < n,
        0 <= j < n,
        0 <= a < n,
        0 <= b < n,
    ensures
        (i * n + j == a * n + b) <==> (i == a && j == b),
        0 <= i * n + j < n * n,
{
    assert(0 <= i * n + j < n * n) by (nonlinear_arith)
        requires
            0 <= i < n,
            0 <= j < n,
    ;
    if i < a {
        assert(i * n + j < a * n + b) by (nonlinear_arith)
            requires
                0 <= i < a,
                0 <= j < n,
                0 <= b,
        ;
    } else if i > a {
        assert(i * n + j > a * n + b) by (nonlinear_arith)
            requires
                0 <= a < i,
                0 <= b < n,
                0 <= j,
        ;
    }
}

proof fn lemma_row_update(m: Seq<u64>, n: int, i: int, k: int, a: int, b: int, v: u64)
    requires
        0 <= a < n,
        0 <= b < n,
        0 <= i < n,
        0 <= k <= n,
        m.len() == n * n,
    ensures
        row_sum(m.update(a * n + b, v), n, i, k) == row_sum(m, n, i, k) + (if i == a && b < k {
            v - m[a * n + b]
        } else {
            0
        }),
    decreases k,
{
    if k > 0 {
        lemma_row_update(m, n, i, k - 1, a, b, v);
        lemma_index(n, i, k - 1, a, b);
        lemma_index(n, a, b, a, b);
    }
}

proof fn lemma_col_update(m: Seq<u64>, n: int, i: int, k: int, a: int, b: int, v: u64)
    requires
        0 <= a < n,
        0 <= b < n,
        0 <= i < n,
        0 <= k <= n,
        m.len() == n * n,
    ensures
        col_sum(m.update(a * n + b, v), n, i, k) == col_sum(m, n, i, k) + (if i == b && a < k {
            v - m[a * n + b]
        } else {
            0
        }),
    decreases k,
{
    if k > 0 {
        lemma_col_update(m, n, i, k - 1, a, b, v);
        lemma_index(n, k - 1, i, a, b);
        lemma_index(n, a, b, a, b);
    }
}

/// Changing what `a` owes `b` by `d` moves `b`'s position by `d` and `a`'s
/// by `-d`, and no other.
proof fn lemma_net_update(m: Seq<u64>, n: int, a: int, b: int, v: u64, p: int)
    requires
        0 <= a < n,
        0 <= b < n,
        0 <= p < n,
        m.len() == n * n,
    ensures
        matrix_net(m.update(a * n + b, v), n, p) == matrix_net(m, n, p) + (if p == b { v - m[a * n + b] } else { 0 })
            - (if p == a { v - m[a * n + b] } else { 0 }),
{
    lemma_row_update(m, n, p, n, a, b, v);
    lemma_col_update(m, n, p, n, a, b, v);
}

/// Whether `l` names every network of the obligations.
pub open spec fn names_all(b: Seq<(NetworkIdView, NetworkIdView, u64)>, l: Seq<NetworkIdView>) -> bool {
    forall|k: int| 0 <= k < b.len() ==> l.contains(#[trigger] b[k].0) && l.contains(b[k].1)
}

/// Sum of the net positions of the networks of `l`.
pub open spec fn net_total(b: Seq<(NetworkIdView, NetworkIdView, u64)>, l: Seq<NetworkIdView>) -> int
    decreases l.len(),
{
    if l.len() == 0 {
        0
    } else {
        net_total(b, l.drop_last()) + raw_net(b, l.last())
    }
}

/// `a` for each place of `l` that holds `x`.
pub open spec fn mark_sum(l: Seq<NetworkIdView>, x: NetworkIdView, a: int) -> int
    decreases l.len(),
{
    if l.len() == 0 {
        0
    } else {
        mark_sum(l.drop_last(), x, a) + if l.last() == x { a } else { 0 }
    }
}

proof fn lemma_add_new(l: Seq<NetworkIdView>, x: NetworkIdView)
    ensures
        l.no_duplicates() ==> add_new(l, x).no_duplicates(),
        add_new(l, x).contains(x),
        forall|y: NetworkIdView| l.contains(y) ==> add_new(l, x).contains(y),
        forall|y: NetworkIdView| add_new(l, x).contains(y) ==> l.contains(y) || y == x,
        add_new(l, x).len() <= l.len() + 1,
        forall|i: int| 0 <= i < l.len() ==> add_new(l, x)[i] == l[i],
{
    if !l.contains(x) {
        let r = l.push(x);
        assert(r[l.len() as int] == x);
        assert forall|y: NetworkIdView| l.contains(y) implies r.contains(y) by {
            let i = choose|i: int| 0 <= i < l.len() && l[i] == y;
            assert(r[i] == y);
        }
        assert forall|y: NetworkIdView| r.contains(y) implies l.contains(y) || y == x by {
            let i = choose|i: int| 0 <= i < r.len() && r[i] == y;
            if i < l.len() {
                assert(l[i] == y);
            }
        }
    }
}

/// The networks seen are distinct and name every network of the
/// obligations.
pub proof fn lemma_first_seen(b: Seq<(NetworkIdView, NetworkIdView, u64)>)
    ensures
        first_seen(b).no_duplicates(),
        names_all(b, first_seen(b)),
        forall|y: NetworkIdView| first_seen(b).contains(y) ==> exists|k: int| 0 <= k < b.len() && (b[k].0 == y || b[k].1 == y),
        first_seen(b).len() <= 2 * b.len(),
    decreases b.len(),
{
    if b.len() > 0 {
        let p = b.drop_last();
        lemma_first_seen(p);
        let l0 = first_seen(p);
        let l1 = add_new(l0, b.last().0);
        lemma_add_new(l0, b.last().0);
        lemma_add_new(l1, b.last().1);
        assert forall|k: int| 0 <= k < b.len() implies first_seen(b).contains(#[trigger] b[k].0) && first_seen(b).contains(b[k].1) by {
            if k < b.len() - 1 {
                assert(p[k] == b[k]);
            }
        }
        assert forall|y: NetworkIdView| first_seen(b).contains(y) implies exists|k: int| 0 <= k < b.len() && (b[k].0 == y || b[k].1 == y) by {
            if l0.contains(y) {
                let k = choose|k: int| 0 <= k < p.len() && (p[k].0 == y || p[k].1 == y);
                assert(b[k] == p[k]);
            } else {
                assert(b[b.len() - 1].0 == y || b[b.len() - 1].1 == y);
            }
        }
    }
}

/// A network's net position is at most the gross of the obligations either
/// way.
pub proof fn lemma_raw_net_bound(b: Seq<(NetworkIdView, NetworkIdView, u64)>, x: NetworkIdView)
    ensures
        -(gross(b) as int) <= raw_net(b, x) <= gross(b),
    decreases b.len(),
{
    if b.len() > 0 {
        lemma_raw_net_bound(b.drop_last(), x);
    }
}

proof fn lemma_mark_sum(l: Seq<NetworkIdView>, x: NetworkIdView, a: int)
    ensures
        !l.contains(x) ==> mark_sum(l, x, a) == 0,
        l.no_duplicates() && l.contains(x) ==> mark_sum(l, x, a) == a,
    decreases l.len(),
{
    if l.len() > 0 {
        let p = l.drop_last();
        lemma_mark_sum(p, x, a);
        if !l.contains(x) {
            assert(!p.contains(x)) by {
                if p.contains(x) {
                    let i = choose|i: int| 0 <= i < p.len() && p[i] == x;
                    assert(l[i] == x);
                }
            }
            assert(l[l.len() - 1] != x);
        }
        if l.no_duplicates() && l.contains(x) {
            assert(p.no_duplicates()) by {
                assert forall|i: int, j: int| 0 <= i < p.len() && 0 <= j < p.len() && i != j implies p[i] != p[j] by {
                    assert(l[i] == p[i] && l[j] == p[j]);
                }
            }
            if l.last() == x {
                assert(!p.contains(x)) by {
                    if p.contains(x) {
                        let i = choose|i: int| 0 <= i < p.len() && p[i] == x;
                        assert(l[i] == x && l[l.len() - 1] == x);
                    }
                }
            } else {
                let i = choose|i: int| 0 <= i < l.len() && l[i] == x;
                assert(i < l.len() - 1);
                assert(p[i] == x);
            }
        }
    }
}

proof fn lemma_net_total_push(b: Seq<(NetworkIdView, NetworkIdView, u64)>, e: (NetworkIdView, NetworkIdView, u64), l: Seq<NetworkIdView>)
    ensures
        net_total(b.push(e), l) == net_total(b, l) + mark_sum(l, e.1, e.2 as int) - mark_sum(l, e.0, e.2 as int),
    decreases l.len(),
{
    if l.len() > 0 {
        lemma_net_total_push(b, e, l.drop_last());
        assert(b.push(e).drop_last() =~= b);
    }
}

proof fn lemma_net_total_empty(b: Seq<(NetworkIdView, NetworkIdView, u64)>, l: Seq<NetworkIdView>)
    requires
        b.len() == 0,
    ensures
        net_total(b, l) == 0,
    decreases l.len(),
{
    if l.len() > 0 {
        lemma_net_total_empty(b, l.drop_last());
    }
}

proof fn lemma_net_total_zero(b: Seq<(NetworkIdView, NetworkIdView, u64)>, l: Seq<NetworkIdView>)
    requires
        l.no_duplicates(),
        names_all(b, l),
    ensures
        net_total(b, l) == 0,
    decreases b.len(),
{
    if b.len() == 0 {
        lemma_net_total_empty(b, l);
    } else {
        let p = b.drop_last();
        assert(names_all(p, l)) by {
            assert forall|k: int| 0 <= k < p.len() implies l.contains(#[trigger] p[k].0) && l.contains(p[k].1) by {
                assert(p[k] == b[k]);
            }
        }
        lemma_net_total_zero(p, l);
        let e = b.last();
        assert(b =~= p.push(e));
        lemma_net_total_push(p, e, l);
        assert(l.contains(b[b.len() - 1].0));
        lemma_mark_sum(l, e.1, e.2 as int);
        lemma_mark_sum(l, e.0, e.2 as int);
    }
}

/// Net positions balance: over the networks of the obligations, the net
/// positions sum to zero.
pub proof fn law_net_positions_sum_to_zero(b: Seq<(NetworkIdView, NetworkIdView, u64)>)
    ensures
        net_total(b, first_seen(b)) == 0,
{
    lemma_first_seen(b);
    lemma_net_total_zero(b, first_seen(b));
}

/// Views of a list of networks.
pub open spec fn network_views(l: Seq<NetworkId>) -> Seq<NetworkIdView> {
    l.map_values(|x: NetworkId| x@)
}

proof fn lemma_gross_prefix(b: Seq<(NetworkIdView, NetworkIdView, u64)>, k: int)
    requires
        0 <= k <= b.len(),
    ensures
        gross(b.subrange(0, k)) <= gross(b),
    decreases b.len() - k,
{
    if k < b.len() {
        lemma_gross_prefix(b, k + 1);
        assert(b.subrange(0, k + 1).drop_last() =~= b.subrange(0, k));
    } else {
        assert(b.subrange(0, k) =~= b);
    }
}

proof fn lemma_zero_matrix(m: Seq<u64>, n: int, i: int, k: int)
    requires
        0 <= i < n,
        0 <= k <= n,
        m.len() == n * n,
        forall|x: int| 0 <= x < m.len() ==> m[x] == 0,
    ensures
        row_sum(m, n, i, k) == 0,
        col_sum(m, n, i, k) == 0,
    decreases k,
{
    if k > 0 {
        lemma_zero_matrix(m, n, i, k - 1);
        lemma_index(n, i, k - 1, 0, 0);
        lemma_index(n, k - 1, i, 0, 0);
    }
}

proof fn lemma_sum_bounds(m: Seq<u64>, n: int, i: int, k: int)
    requires
        0 <= i < n,
        0 <= k <= n,
        m.len() == n * n,
    ensures
        0 <= row_sum(m, n, i, k) <= k * 0xffff_ffff_ffff_ffff,
        0 <= col_sum(m, n, i, k) <= k * 0xffff_ffff_ffff_ffff,
    decreases k,
{
    if k > 0 {
        lemma_sum_bounds(m, n, i, k - 1);
        lemma_index(n, i, k - 1, 0, 0);
        lemma_index(n, k - 1, i, 0, 0);
    }
}

/// Position of a network in a list, if it is there.
fn network_position(list: &Vec<NetworkId>, x: &NetworkId) -> (r: Option<usize>)
    ensures
        match r {
            Some(i) => i < list@.len() && list@[i as int]@ == x@,
            None => !network_views(list@).contains(x@),
        },
{
    let mut i: usize = 0;
    while i < list.len()
        invariant
            0 <= i <= list@.len(),
            forall|j: int| 0 <= j < i ==> list@[j]@ != x@,
        decreases list@.len() - i,
    {
        if list[i] == *x {
            return Some(i);
        }
        i = i + 1;
    }
    proof {
        if network_views(list@).contains(x@) {
            let j = choose|j: int| 0 <= j < network_views(list@).len() && network_views(list@)[j] == x@;
            assert(list@[j]@ == x@);
        }
    }
    None
}

/// The networks of the obligations, each once, in order of first
/// appearance.
fn seen_networks(bilateral: &[(NetworkId, NetworkId, u64)]) -> (list: Vec<NetworkId>)
    ensures
        network_views(list@) == first_seen(flows_view(bilateral@)),
{
    let ghost bv = flows_view(bilateral@);
    let mut list: Vec<NetworkId> = Vec::new();
    let mut k: usize = 0;
    while k < bilateral.len()
        invariant
            0 <= k <= bilateral@.len(),
            bv == flows_view(bilateral@),
            network_views(list@) == first_seen(bv.subrange(0, k as int)),
        decreases bilateral@.len() - k,
    {
        let ghost l0 = network_views(list@);
        proof {
            assert(bv.subrange(0, k + 1).drop_last() =~= bv.subrange(0, k as int));
            assert(bv.subrange(0, k + 1).last() == bv[k as int]);
        }
        assert(bv[k as int].0 == bilateral@[k as int].0@ && bv[k as int].1 == bilateral@[k as int].1@);
        match network_position(&list, &bilateral[k].0) {
            None => {
                list.push(bilateral[k].0.copy_id());
                assert(network_views(list@) =~= l0.push(bilateral@[k as int].0@));
            },
            Some(i) => {
                assert(l0[i as int] == bv[k as int].0);
            },
        }
        let ghost l1 = network_views(list@);
        assert(l1 == add_new(l0, bv[k as int].0));
        match network_position(&list, &bilateral[k].1) {
            None => {
                list.push(bilateral[k].1.copy_id());
                assert(network_views(list@) =~= l1.push(bilateral@[k as int].1@));
            },
            Some(i) => {
                assert(l1[i as int] == bv[k as int].1);
            },
        }
        assert(network_views(list@) == add_new(l1, bv[k as int].1));
        k = k + 1;
    }
    assert(bv.subrange(0, bilateral@.len() as int) =~= bv);
    list
}

/// The matrix of obligations, row by row: entry `i * n + j` is what the
/// `i`-th network of `list` owes the `j`-th.
fn obligation_matrix(bilateral: &[(NetworkId, NetworkId, u64)], list: &Vec<NetworkId>) -> (m: Vec<u64>)
    requires
        network_views(list@) == first_seen(flows_view(bilateral@)),
        flows_fit(flows_view(bilateral@)),
        list@.len() * list@.len() <= usize::MAX,
    ensures
        m@.len() == list@.len() * list@.len(),
        forall|p: int| 0 <= p < list@.len() ==> #[trigger] matrix_net(m@, list@.len() as int, p) == raw_net(
            flows_view(bilateral@),
            list@[p]@,
        ),
{
    let ghost bv = flows_view(bilateral@);
    let ghost l = network_views(list@);
    proof {
        lemma_first_seen(bv);
    }
    let n = list.len();
    let size = n * n;
    let mut m: Vec<u64> = Vec::new();
    while m.len() < size
        invariant
            m@.len() <= size,
            forall|x: int| 0 <= x < m@.len() ==> m@[x] == 0,
        decreases size - m@.len(),
    {
        m.push(0);
    }
    proof {
        assert forall|p: int| 0 <= p < n implies #[trigger] matrix_net(m@, n as int, p) == raw_net(bv.subrange(0, 0), l[p]) by {
            lemma_zero_matrix(m@, n as int, p, n as int);
        }
    }
    let mut k: usize = 0;
    while k < bilateral.len()
        invariant
            0 <= k <= bilateral@.len(),
            bv == flows_view(bilateral@),
            l == network_views(list@),
            l == first_seen(bv),
            l.no_duplicates(),
            names_all(bv, l),
            n == list@.len(),
            size == n * n,
            m@.len() == size,
            flows_fit(bv),
            n > 0 ==> forall|x: int| 0 <= x < m@.len() ==> #[trigger] m@[x] <= outflow(bv.subrange(0, k as int), l[x / n as int]),
            forall|p: int| 0 <= p < n ==> #[trigger] matrix_net(m@, n as int, p) == raw_net(bv.subrange(0, k as int), l[p]),
        decreases bilateral@.len() - k,
    {
        let ghost e = bv[k as int];
        assert(e.0 == bilateral@[k as int].0@ && e.1 == bilateral@[k as int].1@ && e.2 == bilateral@[k as int].2);
        assert(l.contains(bv[k as int].0) && l.contains(bv[k as int].1));
        let fi = match network_position(list, &bilateral[k].0) {
            Some(i) => i,
            None => {
                proof {
                    assert(false);
                }
                0
            },
        };
        let ti = match network_position(list, &bilateral[k].1) {
            Some(i) => i,
            None => {
                proof {
                    assert(false);
                }
                0
            },
        };
        proof {
            lemma_index(n as int, fi as int, ti as int, 0, 0);
            lemma_flow_prefix(bv, k + 1, e.0);
            assert(bv.subrange(0, k + 1).drop_last() =~= bv.subrange(0, k as int));
            assert(bv.subrange(0, k + 1).last() == e);
            assert((fi * n + ti) / (n as int) == fi) by (nonlinear_arith)
                requires
                    0 <= ti < n,
                    0 <= fi,
            ;
            assert(l[fi as int] == e.0);
            assert(outflow(bv.subrange(0, k + 1), e.0) == outflow(bv.subrange(0, k as int), e.0) + e.2);
            assert(outflow(bv, e.0) <= i64::MAX);
        }
        let idx = fi * n + ti;
        let old_v = m[idx];
        let new_v = old_v + bilateral[k].2;
        let ghost before = m@;
        m.set(idx, new_v);
        proof {
            assert forall|x: int| 0 <= x < m@.len() implies #[trigger] m@[x] <= outflow(bv.subrange(0, k + 1), l[x / n as int]) by {
                let y = l[x / n as int];
                assert(outflow(bv.subrange(0, k + 1), y) == outflow(bv.subrange(0, k as int), y) + if e.0 == y {
                    e.2 as nat
                } else {
                    0nat
                });
                if x != idx {
                    assert(m@[x] == before[x]);
                }
            }
            assert forall|p: int| 0 <= p < n implies #[trigger] matrix_net(m@, n as int, p) == raw_net(bv.subrange(0, k + 1), l[p]) by {
                lemma_net_update(before, n as int, fi as int, ti as int, new_v, p);
                assert(l[fi as int] == e.0 && l[ti as int] == e.1);
                assert((l[p] == e.1) <==> p == ti);
                assert((l[p] == e.0) <==> p == fi);
            }
        }
        k = k + 1;
    }
    assert(bv.subrange(0, bilateral@.len() as int) =~= bv);
    m
}

/// Whether two matrices give every network the same net position.
pub open spec fn same_positions(a: Seq<u64>, b: Seq<u64>, n: int) -> bool {
    forall|p: int| 0 <= p < n ==> #[trigger] matrix_net(a, n, p) == matrix_net(b, n, p)
}

fn min_u64(a: u64, b: u64) -> (r: u64)
    ensures
        r == if a < b { a } else { b },
{
    if a < b {
        a
    } else {
        b
    }
}

/// Takes `c` off what `a` owes `b`.
fn reduce(m: &mut Vec<u64>, n: usize, a: usize, b: usize, c: u64)
    requires
        a < n,
        b < n,
        old(m)@.len() == n * n,
        n * n <= usize::MAX,
        c <= old(m)@[a * n + b],
    ensures
        final(m)@ == old(m)@.update(a * n + b, (old(m)@[a * n + b] - c) as u64),
        forall|p: int| 0 <= p < n ==> #[trigger] matrix_net(final(m)@, n as int, p) == matrix_net(old(m)@, n as int, p) - (
            if p == b { c as int } else { 0 }) + (if p == a { c as int } else { 0 }),
{
    proof {
        lemma_index(n as int, a as int, b as int, 0, 0);
    }
    let idx = a * n + b;
    let v = m[idx] - c;
    let ghost before = m@;
    m.set(idx, v);
    proof {
        assert forall|p: int| 0 <= p < n implies #[trigger] matrix_net(m@, n as int, p) == matrix_net(before, n as int, p) - (
            if p == b { c as int } else { 0 }) + (if p == a { c as int } else { 0 }) by {
            lemma_net_update(before, n as int, a as int, b as int, v, p);
        }
    }
}

/// What the network at row `a` owes the one at column `b`.
spec fn owed(m: Seq<u64>, n: int, a: int, b: int) -> u64 {
    m[a * n + b]
}

/// Whether the cycle `i` owes `j` owes `k` owes `i` has a link with nothing
/// owed.
spec fn cycle_closed(m: Seq<u64>, n: int, i: int, j: int, k: int) -> bool {
    owed(m, n, i, j) == 0 || owed(m, n, j, k) == 0 || owed(m, n, k, i) == 0
}

/// Whether no cycle of three distinct networks carries obligations all round.
spec fn no_open_cycles(m: Seq<u64>, n: int) -> bool {
    forall|i: int, j: int, k: int|
        0 <= i < n && 0 <= j < n && 0 <= k < n && i != j && j != k && k != i ==> #[trigger] cycle_closed(m, n, i, j, k)
}

/// Whether of two networks at most one owes the other.
spec fn pair_closed(m: Seq<u64>, n: int, i: int, j: int) -> bool {
    owed(m, n, i, j) == 0 || owed(m, n, j, i) == 0
}

/// Whether no two networks owe each other.
spec fn no_mutual_debts(m: Seq<u64>, n: int) -> bool {
    forall|i: int, j: int| 0 <= i < n && 0 <= j < n && i != j ==> #[trigger] pair_closed(m, n, i, j)
}

/// Whether `a` has `b`'s shape and no entry larger.
spec fn no_larger(a: Seq<u64>, b: Seq<u64>) -> bool {
    a.len() == b.len() && forall|x: int| 0 <= x < a.len() ==> #[trigger] a[x] <= b[x]
}

/// Whether some entry of `a` is below that of `b`.
spec fn lowered(a: Seq<u64>, b: Seq<u64>) -> bool {
    exists|x: int| 0 <= x < a.len() && #[trigger] a[x] < b[x]
}

/// Whether every cycle before `(i, j, k)`, in the order the pass takes
/// them, is closed.
spec fn cycles_done(m: Seq<u64>, n: int, i: int, j: int, k: int) -> bool {
    forall|a: int, b: int, c: int|
        0 <= a < n && 0 <= b < n && 0 <= c < n && a != b && b != c && c != a && (a < i || (a == i && (b < j || (b == j
            && c < k)))) ==> #[trigger] cycle_closed(m, n, a, b, c)
}

/// Whether every pair `a < b` before `(i, j)`, in the order the pass takes
/// them, is closed.
spec fn pairs_done(m: Seq<u64>, n: int, i: int, j: int) -> bool {
    forall|a: int, b: int| 0 <= a < b < n && (a < i || (a == i && b < j)) ==> #[trigger] pair_closed(m, n, a, b)
}

proof fn lemma_cycle_stays(a: Seq<u64>, b: Seq<u64>, n: int, i: int, j: int, k: int)
    requires
        no_larger(a, b),
        a.len() == n * n,
        0 <= i < n,
        0 <= j < n,
        0 <= k < n,
        cycle_closed(b, n, i, j, k),
    ensures
        cycle_closed(a, n, i, j, k),
{
    lemma_index(n, i, j, 0, 0);
    lemma_index(n, j, k, 0, 0);
    lemma_index(n, k, i, 0, 0);
    assert(a[i * n + j] <= b[i * n + j]);
    assert(a[j * n + k] <= b[j * n + k]);
    assert(a[k * n + i] <= b[k * n + i]);
}

proof fn lemma_pair_stays(a: Seq<u64>, b: Seq<u64>, n: int, i: int, j: int)
    requires
        no_larger(a, b),
        a.len() == n * n,
        0 <= i < n,
        0 <= j < n,
        pair_closed(b, n, i, j),
    ensures
        pair_closed(a, n, i, j),
{
    lemma_index(n, i, j, 0, 0);
    lemma_index(n, j, i, 0, 0);
    assert(a[i * n + j] <= b[i * n + j]);
    assert(a[j * n + i] <= b[j * n + i]);
}

proof fn lemma_cycles_done_stay(a: Seq<u64>, b: Seq<u64>, n: int, i: int, j: int, k: int)
    requires
        no_larger(a, b),
        a.len() == n * n,
        cycles_done(b, n, i, j, k),
    ensures
        cycles_done(a, n, i, j, k),
{
    assert forall|x: int, y: int, z: int|
        0 <= x < n && 0 <= y < n && 0 <= z < n && x != y && y != z && z != x && (x < i || (x == i && (y < j || (y == j
            && z < k)))) implies #[trigger] cycle_closed(a, n, x, y, z) by {
        lemma_cycle_stays(a, b, n, x, y, z);
    }
}

proof fn lemma_pairs_done_stay(a: Seq<u64>, b: Seq<u64>, n: int, i: int, j: int)
    requires
        no_larger(a, b),
        a.len() == n * n,
        pairs_done(b, n, i, j),
    ensures
        pairs_done(a, n, i, j),
{
    assert forall|x: int, y: int| 0 <= x < y < n && (x < i || (x == i && y < j)) implies #[trigger] pair_closed(a, n, x, y) by {
        lemma_pair_stays(a, b, n, x, y);
    }
}

proof fn lemma_lowered_stays(a: Seq<u64>, b: Seq<u64>, start: Seq<u64>)
    requires
        no_larger(a, b),
        lowered(b, start),
    ensures
        lowered(a, start),
{
    let x = choose|x: int| 0 <= x < b.len() && #[trigger] b[x] < start[x];
    assert(a[x] < start[x]);
}

/// One pass over the cycles of three networks: each cycle i, j, k carrying
/// obligations all round has the least of them taken off all three. After
/// the pass no such cycle is left, no obligation has grown, every network
/// keeps its net position, and the pass reports whether it changed anything.
fn triangle_pass(m: &mut Vec<u64>, n: usize) -> (progress: bool)
    requires
        old(m)@.len() == n * n,
        n * n <= usize::MAX,
    ensures
        final(m)@.len() == n * n,
        same_positions(final(m)@, old(m)@, n as int),
        no_larger(final(m)@, old(m)@),
        no_open_cycles(final(m)@, n as int),
        progress <==> final(m)@ != old(m)@,
{
    let ghost start = m@;
    let mut progress = false;
    let mut i: usize = 0;
    while i < n
        invariant
            i <= n,
            m@.len() == n * n,
            n * n <= usize::MAX,
            same_positions(m@, start, n as int),
            no_larger(m@, start),
            progress ==> lowered(m@, start),
            !progress ==> m@ == start,
            cycles_done(m@, n as int, i as int, 0, 0),
        decreases n - i,
    {
        let mut j: usize = 0;
        while j < n
            invariant
                i < n,
                j <= n,
                m@.len() == n * n,
                n * n <= usize::MAX,
                same_positions(m@, start, n as int),
                no_larger(m@, start),
                progress ==> lowered(m@, start),
                !progress ==> m@ == start,
                cycles_done(m@, n as int, i as int, j as int, 0),
            decreases n - j,
        {
            let mut k: usize = 0;
            while k < n
                invariant
                    i < n,
                    j < n,
                    k <= n,
                    m@.len() == n * n,
                    n * n <= usize::MAX,
                    same_positions(m@, start, n as int),
                    no_larger(m@, start),
                    progress ==> lowered(m@, start),
                    !progress ==> m@ == start,
                    cycles_done(m@, n as int, i as int, j as int, k as int),
                decreases n - k,
            {
                let ghost m_before = m@;
                if i != j && j != k && k != i {
                    proof {
                        lemma_index(n as int, i as int, j as int, 0, 0);
                        lemma_index(n as int, j as int, k as int, 0, 0);
                        lemma_index(n as int, k as int, i as int, 0, 0);
                    }
                    let cycle_min = min_u64(min_u64(m[i * n + j], m[j * n + k]), m[k * n + i]);
                    if cycle_min > 0 {
                        let ghost m0 = m@;
                        reduce(m, n, i, j, cycle_min);
                        proof {
                            lemma_index(n as int, j as int, k as int, i as int, j as int);
                        }
                        reduce(m, n, j, k, cycle_min);
                        proof {
                            lemma_index(n as int, k as int, i as int, i as int, j as int);
                            lemma_index(n as int, k as int, i as int, j as int, k as int);
                        }
                        reduce(m, n, k, i, cycle_min);
                        proof {
                            assert(m@[i * n + j] == m0[i * n + j] - cycle_min);
                            assert(m@[j * n + k] == m0[j * n + k] - cycle_min);
                            assert(m@[k * n + i] == m0[k * n + i] - cycle_min);
                            assert(no_larger(m@, m0));
                            assert(cycle_closed(m@, n as int, i as int, j as int, k as int));
                            assert(m@[i * n + j] < start[i * n + j]);
                            assert(lowered(m@, start));
                        }
                        progress = true;
                    }
                }
                proof {
                    assert(no_larger(m@, m_before));
                    lemma_cycles_done_stay(m@, m_before, n as int, i as int, j as int, k as int);
                    if progress {
                        if lowered(m_before, start) {
                            lemma_lowered_stays(m@, m_before, start);
                        }
                    }
                    assert forall|a: int, b: int, c: int|
                        0 <= a < n && 0 <= b < n && 0 <= c < n && a != b && b != c && c != a && (a < i || (a == i && (b
                            < j || (b == j && c < k + 1)))) implies #[trigger] cycle_closed(m@, n as int, a, b, c) by {
                        if !(a == i && b == j && c == k) {
                            assert(a < i || (a == i && (b < j || (b == j && c < k))));
                        } else {
                            if !(i != j && j != k && k != i) {
                            } else if m@ == m_before {
                                assert(cycle_closed(m@, n as int, a, b, c));
                            }
                        }
                    }
                }
                k = k + 1;
            }
            proof {
                assert forall|a: int, b: int, c: int|
                    0 <= a < n && 0 <= b < n && 0 <= c < n && a != b && b != c && c != a && (a < i || (a == i && (b
                        < j + 1 || (b == j + 1 && c < 0)))) implies #[trigger] cycle_closed(m@, n as int, a, b, c) by {
                    assert(a < i || (a == i && (b < j || (b == j && c < n))));
                }
            }
            j = j + 1;
        }
        proof {
            assert forall|a: int, b: int, c: int|
                0 <= a < n && 0 <= b < n && 0 <= c < n && a != b && b != c && c != a && (a < i + 1 || (a == i + 1 && (b
                    < 0 || (b == 0 && c < 0)))) implies #[trigger] cycle_closed(m@, n as int, a, b, c) by {
                assert(a < i || (a == i && (b < n || (b == n && c < 0))));
            }
        }
        i = i + 1;
    }
    proof {
        assert forall|a: int, b: int, c: int|
            0 <= a < n && 0 <= b < n && 0 <= c < n && a != b && b != c && c != a implies #[trigger] cycle_closed(
            m@,
            n as int,
            a,
            b,
            c,
        ) by {
            assert(a < n);
        }
        if progress {
            let x = choose|x: int| 0 <= x < m@.len() && #[trigger] m@[x] < start[x];
            assert(m@[x] != start[x]);
        }
    }
    progress
}

/// One pass over the pairs of networks owing each other: the lesser of the
/// two obligations is taken off both. After the pass no two networks owe
/// each other, no obligation has grown, every network keeps its net
/// position, and the pass reports whether it changed anything.
fn mutual_pass(m: &mut Vec<u64>, n: usize) -> (progress: bool)
    requires
        old(m)@.len() == n * n,
        n * n <= usize::MAX,
    ensures
        final(m)@.len() == n * n,
        same_positions(final(m)@, old(m)@, n as int),
        no_larger(final(m)@, old(m)@),
        no_mutual_debts(final(m)@, n as int),
        progress <==> final(m)@ != old(m)@,
{
    let ghost start = m@;
    let mut progress = false;
    let mut i: usize = 0;
    while i < n
        invariant
            i <= n,
            m@.len() == n * n,
            n * n <= usize::MAX,
            same_positions(m@, start, n as int),
            no_larger(m@, start),
            progress ==> lowered(m@, start),
            !progress ==> m@ == start,
            pairs_done(m@, n as int, i as int, 0),
        decreases n - i,
    {
        let mut j: usize = i + 1;
        while j < n
            invariant
                i < n,
                i < j <= n,
                m@.len() == n * n,
                n * n <= usize::MAX,
                same_positions(m@, start, n as int),
                no_larger(m@, start),
                progress ==> lowered(m@, start),
                !progress ==> m@ == start,
                pairs_done(m@, n as int, i as int, j as int),
            decreases n - j,
        {
            let ghost m_before = m@;
            proof {
                lemma_index(n as int, i as int, j as int, 0, 0);
                lemma_index(n as int, j as int, i as int, 0, 0);
            }
            let mutual_min = min_u64(m[i * n + j], m[j * n + i]);
            if mutual_min > 0 {
                let ghost m0 = m@;
                reduce(m, n, i, j, mutual_min);
                proof {
                    lemma_index(n as int, j as int, i as int, i as int, j as int);
                }
                reduce(m, n, j, i, mutual_min);
                proof {
                    assert(m@[i * n + j] == m0[i * n + j] - mutual_min);
                    assert(m@[j * n + i] == m0[j * n + i] - mutual_min);
                    assert(pair_closed(m@, n as int, i as int, j as int));
                    assert(m@[i * n + j] < start[i * n + j]);
                    assert(lowered(m@, start));
                }
                progress = true;
            }
            proof {
                assert(no_larger(m@, m_before));
                lemma_pairs_done_stay(m@, m_before, n as int, i as int, j as int);
                if progress && lowered(m_before, start) {
                    lemma_lowered_stays(m@, m_before, start);
                }
                assert forall|a: int, b: int| 0 <= a < b < n && (a < i || (a == i && b < j + 1)) implies #[trigger] pair_closed(
                    m@,
                    n as int,
                    a,
                    b,
                ) by {
                    if !(a == i && b == j) {
                        assert(a < i || (a == i && b < j));
                    }
                }
            }
            j = j + 1;
        }
        proof {
            assert forall|a: int, b: int| 0 <= a < b < n && (a < i + 1 || (a == i + 1 && b < 0)) implies #[trigger] pair_closed(
                m@,
                n as int,
                a,
                b,
            ) by {
                assert(a < i || (a == i && b < n));
            }
        }
        i = i + 1;
    }
    proof {
        assert forall|a: int, b: int| 0 <= a < n && 0 <= b < n && a != b implies #[trigger] pair_closed(m@, n as int, a, b) by {
            if a < b {
                assert(pair_closed(m@, n as int, a, b));
            } else {
                assert(pair_closed(m@, n as int, b, a));
            }
        }
        if progress {
            let x = choose|x: int| 0 <= x < m@.len() && #[trigger] m@[x] < start[x];
            assert(m@[x] != start[x]);
        }
    }
    progress
}

/// Nets out cycles of three and mutual obligations until a pass changes
/// nothing, or for at most 101 passes. Afterwards no cycle of three and no
/// pair of networks owe each other all round, no obligation has grown, and
/// every network keeps its net position.
fn net_out_cycles(m: &mut Vec<u64>, n: usize)
    requires
        old(m)@.len() == n * n,
        n * n <= usize::MAX,
    ensures
        final(m)@.len() == n * n,
        same_positions(final(m)@, old(m)@, n as int),
        no_larger(final(m)@, old(m)@),
        no_open_cycles(final(m)@, n as int),
        no_mutual_debts(final(m)@, n as int),
{
    let ghost start = m@;
    let mut iterations: u32 = 0;
    loop
        invariant_except_break
            iterations <= 100,
        invariant
            m@.len() == n * n,
            n * n <= usize::MAX,
            same_positions(m@, start, n as int),
            no_larger(m@, start),
        ensures
            m@.len() == n * n,
            same_positions(m@, start, n as int),
            no_larger(m@, start),
            no_open_cycles(m@, n as int),
            no_mutual_debts(m@, n as int),
        decreases 101 - iterations,
    {
        iterations = iterations + 1;
        let triangles = triangle_pass(m, n);
        let ghost after_triangles = m@;
        let mutual = mutual_pass(m, n);
        proof {
            assert forall|i: int, j: int, k: int|
                0 <= i < n && 0 <= j < n && 0 <= k < n && i != j && j != k && k != i implies #[trigger] cycle_closed(
                m@,
                n as int,
                i,
                j,
                k,
            ) by {
                lemma_cycle_stays(m@, after_triangles, n as int, i, j, k);
            }
        }
        if !(triangles || mutual) || iterations > 100 {
            break;
        }
    }
}

/// Each network of the obligations, in order of first appearance, with its
/// net position.
pub open spec fn net_positions(b: Seq<(NetworkIdView, NetworkIdView, u64)>) -> Seq<(NetworkIdView, int)> {
    first_seen(b).map_values(|x: NetworkIdView| (x, raw_net(b, x)))
}

/// Net positions as plain values.
pub open spec fn positions_view(v: Seq<(NetworkId, i64)>) -> Seq<(NetworkIdView, int)> {
    v.map_values(|e: (NetworkId, i64)| (e.0@, e.1 as int))
}

/// Net position of each network under an `n`-by-`n` matrix of obligations.
fn matrix_positions(m: &Vec<u64>, n: usize) -> (r: Vec<i64>)
    requires
        m@.len() == n * n,
        n * n <= usize::MAX,
        forall|p: int| 0 <= p < n ==> i64::MIN <= #[trigger] matrix_net(m@, n as int, p) <= i64::MAX,
    ensures
        r@.len() == n,
        forall|p: int| 0 <= p < n ==> r@[p] == #[trigger] matrix_net(m@, n as int, p),
{
    assert(n <= 0x1_0000_0000) by (nonlinear_arith)
        requires
            n * n <= 0xffff_ffff_ffff_ffff,
            0 <= n,
    ;
    let mut r: Vec<i64> = Vec::new();
    let mut i: usize = 0;
    while i < n
        invariant
            i <= n,
            n <= 0x1_0000_0000,
            r@.len() == i,
            m@.len() == n * n,
            n * n <= usize::MAX,
            forall|p: int| 0 <= p < n ==> i64::MIN <= #[trigger] matrix_net(m@, n as int, p) <= i64::MAX,
            forall|p: int| 0 <= p < i ==> r@[p] == #[trigger] matrix_net(m@, n as int, p),
        decreases n - i,
    {
        let mut acc: i128 = 0;
        let mut j: usize = 0;
        while j < n
            invariant
                i < n,
                j <= n,
                n <= 0x1_0000_0000,
                m@.len() == n * n,
                n * n <= usize::MAX,
                acc == col_sum(m@, n as int, i as int, j as int) - row_sum(m@, n as int, i as int, j as int),
            decreases n - j,
        {
            proof {
                lemma_index(n as int, i as int, j as int, 0, 0);
                lemma_index(n as int, j as int, i as int, 0, 0);
                lemma_sum_bounds(m@, n as int, i as int, j as int);
                assert(j * 0xffff_ffff_ffff_ffff <= 0x1_0000_0000 * 0xffff_ffff_ffff_ffff) by (nonlinear_arith)
                    requires
                        j <= 0x1_0000_0000,
                ;
            }
            if i != j {
                acc = acc + m[j * n + i] as i128 - m[i * n + j] as i128;
            }
            j = j + 1;
        }
        assert(acc == matrix_net(m@, n as int, i as int));
        r.push(acc as i64);
        i = i + 1;
    }
    r
}

/// Nets the bilateral obligations (from, to, amount): cycles of three
/// networks and pairs owing each other are netted out, and each network of
/// the obligations, in order of first appearance, is given with its net
/// position, what it is owed less what it owes. Netting keeps every net
/// position, and these always sum to zero (`law_net_positions_sum_to_zero`),
/// so the result is always `Ok`.
pub fn calculate_triangular_netting(bilateral: &[(NetworkId, NetworkId, u64)]) -> (r: Result<Vec<(NetworkId, i64)>>)
    requires
        flows_fit(flows_view(bilateral@)),
        4 * bilateral@.len() * bilateral@.len() <= usize::MAX,
    ensures
        r matches Ok(v) && positions_view(v@) == net_positions(flows_view(bilateral@)),
{
    let ghost bv = flows_view(bilateral@);
    let list = seen_networks(bilateral);
    proof {
        lemma_first_seen(bv);
    }
    let n = list.len();
    assert(n * n <= usize::MAX) by (nonlinear_arith)
        requires
            n <= 2 * bilateral@.len(),
            4 * bilateral@.len() * bilateral@.len() <= usize::MAX,
    ;
    let mut m = obligation_matrix(bilateral, &list);
    let ghost m0 = m@;
    net_out_cycles(&mut m, n);
    proof {
        assert forall|p: int| 0 <= p < n implies i64::MIN <= #[trigger] matrix_net(m@, n as int, p) <= i64::MAX by {
            assert(matrix_net(m@, n as int, p) == matrix_net(m0, n as int, p));
            lemma_net_in_out(bv, list@[p]@);
            assert(outflow(bv, list@[p]@) <= i64::MAX && inflow(bv, list@[p]@) <= i64::MAX);
        }
    }
    let pos = matrix_positions(&m, n);
    let mut out: Vec<(NetworkId, i64)> = Vec::new();
    let mut i: usize = 0;
    while i < n
        invariant
            i <= n,
            n == list@.len(),
            pos@.len() == n,
            out@.len() == i,
            network_views(list@) == first_seen(bv),
            forall|p: int| 0 <= p < n ==> pos@[p] == #[trigger] matrix_net(m@, n as int, p),
            forall|p: int| 0 <= p < n ==> #[trigger] matrix_net(m@, n as int, p) == matrix_net(m0, n as int, p),
            forall|p: int| 0 <= p < n ==> #[trigger] matrix_net(m0, n as int, p) == raw_net(bv, list@[p]@),
            forall|p: int| 0 <= p < i ==> (#[trigger] out@[p]).0@ == list@[p]@ && out@[p].1 == raw_net(bv, list@[p]@),
        decreases n - i,
    {
        assert(matrix_net(m@, n as int, i as int) == matrix_net(m0, n as int, i as int));
        out.push((list[i].copy_id(), pos[i]));
        i = i + 1;
    }
    proof {
        assert forall|p: int| 0 <= p < n implies network_views(list@)[p] == list@[p]@ by {}
        assert(positions_view(out@) =~= net_positions(bv));
    }
    Ok(out)
}

/// Net position of each network of the obligations, in order of first
/// appearance, summed obligation by obligation without netting.
pub fn calculate_net_positions(bilateral: &[(NetworkId, NetworkId, u64)]) -> (r: Vec<(NetworkId, i64)>)
    requires
        flows_fit(flows_view(bilateral@)),
    ensures
        positions_view(r@) == net_positions(flows_view(bilateral@)),
{
    let ghost bv = flows_view(bilateral@);
    let list = seen_networks(bilateral);
    let ghost l = network_views(list@);
    proof {
        lemma_first_seen(bv);
    }
    let n = list.len();
    let mut pos: Vec<i64> = Vec::new();
    while pos.len() < n
        invariant
            pos@.len() <= n,
            forall|p: int| 0 <= p < pos@.len() ==> pos@[p] == 0,
        decreases n - pos@.len(),
    {
        pos.push(0);
    }
    let mut k: usize = 0;
    while k < bilateral.len()
        invariant
            0 <= k <= bilateral@.len(),
            bv == flows_view(bilateral@),
            l == network_views(list@),
            l == first_seen(bv),
            l.no_duplicates(),
            names_all(bv, l),
            n == list@.len(),
            pos@.len() == n,
            flows_fit(bv),
            forall|p: int| 0 <= p < n ==> #[trigger] pos@[p] == raw_net(bv.subrange(0, k as int), l[p]),
        decreases bilateral@.len() - k,
    {
        let ghost e = bv[k as int];
        let ghost pre = bv.subrange(0, k as int);
        assert(e.0 == bilateral@[k as int].0@ && e.1 == bilateral@[k as int].1@ && e.2 == bilateral@[k as int].2);
        assert(l.contains(bv[k as int].0) && l.contains(bv[k as int].1));
        let fi = match network_position(&list, &bilateral[k].0) {
            Some(i) => i,
            None => {
                proof {
                    assert(false);
                }
                0
            },
        };
        let ti = match network_position(&list, &bilateral[k].1) {
            Some(i) => i,
            None => {
                proof {
                    assert(false);
                }
                0
            },
        };
        proof {
            assert(bv.subrange(0, k + 1).drop_last() =~= pre);
            assert(bv.subrange(0, k + 1).last() == e);
            assert(l[fi as int] == e.0 && l[ti as int] == e.1);
            lemma_flow_prefix(bv, k + 1, e.0);
            lemma_flow_prefix(bv, k + 1, e.1);
            lemma_net_in_out(pre, e.0);
            lemma_net_in_out(pre, e.1);
            assert(outflow(bv, e.0) <= i64::MAX && inflow(bv, e.0) <= i64::MAX);
            assert(outflow(bv, e.1) <= i64::MAX && inflow(bv, e.1) <= i64::MAX);
        }
        let amount = bilateral[k].2;
        let from_balance = pos[fi] - amount as i64;
        pos.set(fi, from_balance);
        let to_balance = pos[ti] + amount as i64;
        pos.set(ti, to_balance);
        proof {
            assert forall|p: int| 0 <= p < n implies #[trigger] pos@[p] == raw_net(bv.subrange(0, k + 1), l[p]) by {
                assert((l[p] == e.1) <==> p == ti);
                assert((l[p] == e.0) <==> p == fi);
            }
        }
        k = k + 1;
    }
    assert(bv.subrange(0, bilateral@.len() as int) =~= bv);
    let mut out: Vec<(NetworkId, i64)> = Vec::new();
    let mut i: usize = 0;
    while i < n
        invariant
            i <= n,
            n == list@.len(),
            pos@.len() == n,
            out@.len() == i,
            l == network_views(list@),
            l == first_seen(bv),
            forall|p: int| 0 <= p < n ==> #[trigger] pos@[p] == raw_net(bv, l[p]),
            forall|p: int| 0 <= p < i ==> (#[trigger] out@[p]).0@ == list@[p]@ && out@[p].1 == raw_net(bv, list@[p]@),
        decreases n - i,
    {
        assert(l[i as int] == list@[i as int]@);
        out.push((list[i].copy_id(), pos[i]));
        i = i + 1;
    }
    proof {
        assert forall|p: int| 0 <= p < n implies network_views(list@)[p] == list@[p]@ by {}
        assert(positions_view(out@) =~= net_positions(bv));
    }
    out
}

/// Absolute value.
pub open spec fn abs(x: int) -> int {
    if x < 0 {
        -x
    } else {
        x
    }
}

/// Sum of the absolute net positions of the networks of `l`.
pub open spec fn abs_total(b: Seq<(NetworkIdView, NetworkIdView, u64)>, l: Seq<NetworkIdView>) -> int
    decreases l.len(),
{
    if l.len() == 0 {
        0
    } else {
        abs_total(b, l.drop_last()) + abs(raw_net(b, l.last()))
    }
}

/// Sum of the absolute amounts of a list of positions.
pub open spec fn pos_abs_sum(s: Seq<(NetworkIdView, int)>) -> int
    decreases s.len(),
{
    if s.len() == 0 {
        0
    } else {
        pos_abs_sum(s.drop_last()) + abs(s.last().1)
    }
}

proof fn lemma_abs_total_push(
    p: Seq<(NetworkIdView, NetworkIdView, u64)>,
    e: (NetworkIdView, NetworkIdView, u64),
    l: Seq<NetworkIdView>,
)
    ensures
        abs_total(p.push(e), l) <= abs_total(p, l) + mark_sum(l, e.1, e.2 as int) + mark_sum(l, e.0, e.2 as int),
    decreases l.len(),
{
    assert(p.push(e).drop_last() =~= p);
    if l.len() > 0 {
        lemma_abs_total_push(p, e, l.drop_last());
    }
}

proof fn lemma_abs_total_empty(b: Seq<(NetworkIdView, NetworkIdView, u64)>, l: Seq<NetworkIdView>)
    requires
        b.len() == 0,
    ensures
        abs_total(b, l) == 0,
    decreases l.len(),
{
    if l.len() > 0 {
        lemma_abs_total_empty(b, l.drop_last());
    }
}

/// Netting never asks more than the gross: over distinct networks, the
/// absolute net positions sum to at most twice the gross of the obligations.
pub proof fn law_net_within_gross(b: Seq<(NetworkIdView, NetworkIdView, u64)>, l: Seq<NetworkIdView>)
    requires
        l.no_duplicates(),
    ensures
        abs_total(b, l) <= 2 * gross(b),
    decreases b.len(),
{
    if b.len() == 0 {
        lemma_abs_total_empty(b, l);
    } else {
        let p = b.drop_last();
        let e = b.last();
        assert(b =~= p.push(e));
        law_net_within_gross(p, l);
        lemma_abs_total_push(p, e, l);
        lemma_mark_sum(l, e.1, e.2 as int);
        lemma_mark_sum(l, e.0, e.2 as int);
    }
}

proof fn lemma_pos_abs_sum(b: Seq<(NetworkIdView, NetworkIdView, u64)>, l: Seq<NetworkIdView>)
    ensures
        pos_abs_sum(l.map_values(|x: NetworkIdView| (x, raw_net(b, x)))) == abs_total(b, l),
    decreases l.len(),
{
    if l.len() > 0 {
        lemma_pos_abs_sum(b, l.drop_last());
        assert(l.map_values(|x: NetworkIdView| (x, raw_net(b, x))).drop_last() =~= l.drop_last().map_values(
            |x: NetworkIdView| (x, raw_net(b, x)),
        ));
    }
}

/// Half the absolute net positions of the netting of `b` is at most its
/// gross.
pub proof fn lemma_netting_abs_sum(b: Seq<(NetworkIdView, NetworkIdView, u64)>)
    ensures
        pos_abs_sum(net_positions(b)) == abs_total(b, first_seen(b)),
        abs_total(b, first_seen(b)) <= 2 * gross(b),
{
    lemma_first_seen(b);
    lemma_pos_abs_sum(b, first_seen(b));
    law_net_within_gross(b, first_seen(b));
}

/// Percentage of the gross that netting saves: the gross less half the
/// absolute net positions, over the gross; 0 when there is no gross.
pub open spec fn savings_percentage(gross: int, abs_sum: int) -> int {
    if gross == 0 {
        0
    } else {
        ((gross - abs_sum / 2) * 100) / gross
    }
}

proof fn lemma_pos_abs_sum_prefix(s: Seq<(NetworkIdView, int)>, k: int)
    requires
        0 <= k <= s.len(),
    ensures
        0 <= pos_abs_sum(s.subrange(0, k)) <= pos_abs_sum(s),
    decreases s.len() - k,
{
    if k < s.len() {
        lemma_pos_abs_sum_prefix(s, k + 1);
        assert(s.subrange(0, k + 1).drop_last() =~= s.subrange(0, k));
        lemma_pos_abs_sum_nonneg(s.subrange(0, k));
    } else {
        assert(s.subrange(0, k) =~= s);
        lemma_pos_abs_sum_nonneg(s);
    }
}

proof fn lemma_pos_abs_sum_nonneg(s: Seq<(NetworkIdView, int)>)
    ensures
        0 <= pos_abs_sum(s),
    decreases s.len(),
{
    if s.len() > 0 {
        lemma_pos_abs_sum_nonneg(s.drop_last());
    }
}

/// Percentage that netting the obligations into the given net positions
/// saves: the gross less half the absolute net amounts, times 100, over the
/// gross; 0 when there is no gross.
pub fn calculate_savings_percentage(bilateral: &[(NetworkId, NetworkId, u64)], net: &[(NetworkId, i64)]) -> (r: u32)
    requires
        gross(flows_view(bilateral@)) <= u64::MAX,
        forall|i: int| 0 <= i < net@.len() ==> (#[trigger] net@[i]).1 != i64::MIN,
        pos_abs_sum(positions_view(net@)) <= u64::MAX,
        gross(flows_view(bilateral@)) != 0 ==> pos_abs_sum(positions_view(net@)) / 2 <= gross(flows_view(bilateral@)),
        gross(flows_view(bilateral@)) != 0 ==> (gross(flows_view(bilateral@)) - pos_abs_sum(positions_view(net@)) / 2)
            * 100 <= u64::MAX,
    ensures
        r == savings_percentage(gross(flows_view(bilateral@)) as int, pos_abs_sum(positions_view(net@))),
{
    let ghost bv = flows_view(bilateral@);
    let ghost nv = positions_view(net@);
    let mut gross_total: u64 = 0;
    let mut k: usize = 0;
    while k < bilateral.len()
        invariant
            k <= bilateral@.len(),
            bv == flows_view(bilateral@),
            gross(bv) <= u64::MAX,
            gross_total == gross(bv.subrange(0, k as int)),
        decreases bilateral@.len() - k,
    {
        proof {
            lemma_gross_prefix(bv, k + 1);
            assert(bv.subrange(0, k + 1).drop_last() =~= bv.subrange(0, k as int));
        }
        gross_total = gross_total + bilateral[k].2;
        k = k + 1;
    }
    assert(bv.subrange(0, bilateral@.len() as int) =~= bv);
    let mut abs_sum: u64 = 0;
    let mut j: usize = 0;
    while j < net.len()
        invariant
            j <= net@.len(),
            nv == positions_view(net@),
            pos_abs_sum(nv) <= u64::MAX,
            forall|i: int| 0 <= i < net@.len() ==> (#[trigger] net@[i]).1 != i64::MIN,
            abs_sum == pos_abs_sum(nv.subrange(0, j as int)),
        decreases net@.len() - j,
    {
        proof {
            lemma_pos_abs_sum_prefix(nv, j + 1);
            assert(nv.subrange(0, j + 1).drop_last() =~= nv.subrange(0, j as int));
            assert(nv[j as int].1 == net@[j as int].1);
        }
        let a = net[j].1;
        let magnitude: u64 = if a < 0 {
            (-a) as u64
        } else {
            a as u64
        };
        abs_sum = abs_sum + magnitude;
        j = j + 1;
    }
    assert(nv.subrange(0, net@.len() as int) =~= nv);
    let net_total = abs_sum / 2;
    if gross_total == 0 {
        return 0;
    }
    let savings = ((gross_total - net_total) * 100) / gross_total;
    assert(savings <= 100) by (nonlinear_arith)
        requires
            savings as int == ((gross_total as int - net_total as int) * 100) / (gross_total as int),
            0 <= net_total,
            net_total <= gross_total,
            gross_total > 0,
    ;
    savings as u32
}

/// What netting saves, in whole percent of the gross: the share of the
/// gross that no longer has to be paid once each network pays or receives
/// only its net position (half the absolute net positions), rounded down.
/// It is 100 when everything nets out, 0 when nothing does or there is no
/// gross, never outside 0 to 100, and larger when less is left to pay.
pub proof fn law_savings_percentage(gross: int, abs_sum: int, other_abs: int)
    requires
        gross > 0,
        0 <= abs_sum,
        abs_sum / 2 <= gross,
        0 <= other_abs,
        other_abs / 2 <= gross,
    ensures
        savings_percentage(gross, abs_sum) * gross <= (gross - abs_sum / 2) * 100,
        (gross - abs_sum / 2) * 100 < (savings_percentage(gross, abs_sum) + 1) * gross,
        0 <= savings_percentage(gross, abs_sum) <= 100,
        abs_sum <= 1 ==> savings_percentage(gross, abs_sum) == 100,
        abs_sum / 2 == gross ==> savings_percentage(gross, abs_sum) == 0,
        other_abs / 2 <= abs_sum / 2 ==> savings_percentage(gross, abs_sum) <= savings_percentage(gross, other_abs),
        savings_percentage(0, abs_sum) == 0,
{
    let x = (gross - abs_sum / 2) * 100;
    let y = (gross - other_abs / 2) * 100;
    assert(savings_percentage(gross, abs_sum) == x / gross);
    assert(savings_percentage(gross, other_abs) == y / gross);
    assert((x / gross) * gross <= x && x < (x / gross + 1) * gross) by (nonlinear_arith)
        requires
            gross > 0,
            x >= 0,
    ;
    assert(0 <= x / gross <= 100) by (nonlinear_arith)
        requires
            gross > 0,
            0 <= x <= gross * 100,
    ;
    if abs_sum <= 1 {
        assert(x == gross * 100);
        assert(x / gross == 100) by (nonlinear_arith)
            requires
                gross > 0,
                x == gross * 100,
        ;
    }
    if other_abs / 2 <= abs_sum / 2 {
        assert(x / gross <= y / gross) by (nonlinear_arith)
            requires
                gross > 0,
                0 <= x <= y,
        ;
    }
}

} // verus!
