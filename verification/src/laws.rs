//! Laws of the engine, proved from the run's specification: the sinks
//! partition the checked pairs, and the filter is idempotent — a second
//! run over its own kept output removes nothing.

use vstd::prelude::*;

use crate::engine::accepted_count;
use crate::engine::aborts_at;
use crate::engine::chunk_readable;
use crate::engine::is_stop_point;
use crate::engine::lemma_stop_point_unique;
use crate::engine::pair_accepted;
use crate::engine::rec_lines;
use crate::engine::routed_lines;
use crate::engine::stop_point;
use crate::engine::stops_at;
use crate::record::header_ok;
use crate::text::content_len;
use crate::text::seq_contains_str;

verus! {

/// Record `j` of the two kept streams is whole, its headers are
/// well-formed, and both its sequence lines are strictly longer than the
/// threshold.
pub open spec fn kept_record_ok(k1: Seq<Seq<char>>, k2: Seq<Seq<char>>, t: int, j: int) -> bool {
    &&& chunk_readable(k1, j)
    &&& chunk_readable(k2, j)
    &&& header_ok(k1[4 * j])
    &&& header_ok(k2[4 * j])
    &&& content_len(k1[4 * j + 1]) > t
    &&& content_len(k2[4 * j + 1]) > t
}

/// Law: every checked pair is routed to exactly one sink. Over `n`
/// processed pairs, the kept sinks hold the four lines of each accepted
/// pair and the filtered sinks those of each rejected pair: together,
/// four lines per pair per mate — no record duplicated or dropped.
pub proof fn lemma_routing_partition(
    l1: Seq<Seq<char>>,
    l2: Seq<Seq<char>>,
    t: int,
    ts: Seq<String>,
    rs: Seq<String>,
    n: int,
)
    requires
        0 <= n,
        forall|k: int| 0 <= k < n ==> !stops_at(l1, l2, k),
    ensures
        0 <= accepted_count(l1, l2, t, ts, rs, n) <= n,
        routed_lines(l1, l2, t, ts, rs, true, true, n).len() == 4 * accepted_count(
            l1,
            l2,
            t,
            ts,
            rs,
            n,
        ),
        routed_lines(l1, l2, t, ts, rs, false, true, n).len() == 4 * accepted_count(
            l1,
            l2,
            t,
            ts,
            rs,
            n,
        ),
        routed_lines(l1, l2, t, ts, rs, true, false, n).len() == 4 * (n - accepted_count(
            l1,
            l2,
            t,
            ts,
            rs,
            n,
        )),
        routed_lines(l1, l2, t, ts, rs, false, false, n).len() == 4 * (n - accepted_count(
            l1,
            l2,
            t,
            ts,
            rs,
            n,
        )),
    decreases n,
{
    if n > 0 {
        lemma_routing_partition(l1, l2, t, ts, rs, n - 1);
        assert(!stops_at(l1, l2, n - 1));
        assert(chunk_readable(l1, n - 1));
        assert(chunk_readable(l2, n - 1));
        assert(rec_lines(l1, n - 1).len() == 4);
        assert(rec_lines(l2, n - 1).len() == 4);
    }
}

/// If every one of the first `n` pairs passes the chain, all are counted
/// as accepted.
pub proof fn lemma_accepted_count_all(
    l1: Seq<Seq<char>>,
    l2: Seq<Seq<char>>,
    t: int,
    ts: Seq<String>,
    rs: Seq<String>,
    n: int,
)
    requires
        0 <= n,
        forall|j: int| 0 <= j < n ==> pair_accepted(l1, l2, t, ts, rs, j),
    ensures
        accepted_count(l1, l2, t, ts, rs, n) == n,
    decreases n,
{
    if n > 0 {
        lemma_accepted_count_all(l1, l2, t, ts, rs, n - 1);
    }
}

/// Every record that a run routes to its kept sinks is whole, has a
/// well-formed header, and passed the length rule.
pub proof fn lemma_kept_records(
    l1: Seq<Seq<char>>,
    l2: Seq<Seq<char>>,
    t: int,
    ts: Seq<String>,
    rs: Seq<String>,
    n: int,
)
    requires
        0 <= n,
        forall|k: int| 0 <= k < n ==> !stops_at(l1, l2, k),
    ensures
        ({
            let a = accepted_count(l1, l2, t, ts, rs, n);
            let k1 = routed_lines(l1, l2, t, ts, rs, true, true, n);
            let k2 = routed_lines(l1, l2, t, ts, rs, false, true, n);
            &&& k1.len() == 4 * a
            &&& k2.len() == 4 * a
            &&& forall|j: int| 0 <= j < a ==> kept_record_ok(k1, k2, t, j)
        }),
    decreases n,
{
    lemma_routing_partition(l1, l2, t, ts, rs, n);
    if n > 0 {
        lemma_kept_records(l1, l2, t, ts, rs, n - 1);
        lemma_routing_partition(l1, l2, t, ts, rs, n - 1);
        let a0 = accepted_count(l1, l2, t, ts, rs, n - 1);
        let p1 = routed_lines(l1, l2, t, ts, rs, true, true, n - 1);
        let p2 = routed_lines(l1, l2, t, ts, rs, false, true, n - 1);
        let a = accepted_count(l1, l2, t, ts, rs, n);
        let k1 = routed_lines(l1, l2, t, ts, rs, true, true, n);
        let k2 = routed_lines(l1, l2, t, ts, rs, false, true, n);
        if pair_accepted(l1, l2, t, ts, rs, n - 1) {
            assert(k1 == p1 + rec_lines(l1, n - 1));
            assert(k2 == p2 + rec_lines(l2, n - 1));
            assert(!stops_at(l1, l2, n - 1));
            assert forall|j: int| 0 <= j < a implies kept_record_ok(k1, k2, t, j) by {
                if j < a0 {
                    assert(kept_record_ok(p1, p2, t, j));
                    assert(k1[4 * j] == p1[4 * j]);
                    assert(k1[4 * j + 1] == p1[4 * j + 1]);
                    assert(k1[4 * j + 2] == p1[4 * j + 2]);
                    assert(k1[4 * j + 3] == p1[4 * j + 3]);
                    assert(k2[4 * j] == p2[4 * j]);
                    assert(k2[4 * j + 1] == p2[4 * j + 1]);
                    assert(k2[4 * j + 2] == p2[4 * j + 2]);
                    assert(k2[4 * j + 3] == p2[4 * j + 3]);
                } else {
                    assert(j == a0);
                    assert(k1[4 * j] == rec_lines(l1, n - 1)[0]);
                    assert(k1[4 * j + 1] == rec_lines(l1, n - 1)[1]);
                    assert(k1[4 * j + 2] == rec_lines(l1, n - 1)[2]);
                    assert(k1[4 * j + 3] == rec_lines(l1, n - 1)[3]);
                    assert(k2[4 * j] == rec_lines(l2, n - 1)[0]);
                    assert(k2[4 * j + 1] == rec_lines(l2, n - 1)[1]);
                    assert(k2[4 * j + 2] == rec_lines(l2, n - 1)[2]);
                    assert(k2[4 * j + 3] == rec_lines(l2, n - 1)[3]);
                    assert(rec_lines(l1, n - 1)[0] == l1[4 * (n - 1)]);
                    assert(rec_lines(l1, n - 1)[1] == l1[4 * (n - 1) + 1]);
                    assert(rec_lines(l1, n - 1)[2] == l1[4 * (n - 1) + 2]);
                    assert(rec_lines(l1, n - 1)[3] == l1[4 * (n - 1) + 3]);
                    assert(rec_lines(l2, n - 1)[0] == l2[4 * (n - 1)]);
                    assert(rec_lines(l2, n - 1)[1] == l2[4 * (n - 1) + 1]);
                    assert(rec_lines(l2, n - 1)[2] == l2[4 * (n - 1) + 2]);
                    assert(rec_lines(l2, n - 1)[3] == l2[4 * (n - 1) + 3]);
                }
            }
        } else {
            assert(k1 == p1);
            assert(k2 == p2);
        }
    }
}

/// A pair of streams made of whole, well-formed records that all pass the
/// length rule is processed to its very end, without an abort, and with
/// every pair accepted when no exclusion set is configured.
pub proof fn lemma_clean_full_run(g1: Seq<Seq<char>>, g2: Seq<Seq<char>>, t: int, n: int)
    requires
        0 <= n,
        g1.len() == 4 * n,
        g2.len() == 4 * n,
        forall|j: int| 0 <= j < n ==> kept_record_ok(g1, g2, t, j),
    ensures
        is_stop_point(g1, g2, n),
        stop_point(g1, g2) == n,
        !aborts_at(g1, g2, n),
        accepted_count(g1, g2, t, Seq::<String>::empty(), Seq::<String>::empty(), n) == n,
{
    assert(!chunk_readable(g1, n));
    assert(stops_at(g1, g2, n));
    assert forall|k: int| 0 <= k < n implies !stops_at(g1, g2, k) by {
        assert(kept_record_ok(g1, g2, t, k));
    }
    assert(is_stop_point(g1, g2, n));
    lemma_stop_point_unique(g1, g2, n);
    assert forall|j: int| 0 <= j < n implies pair_accepted(
        g1,
        g2,
        t,
        Seq::<String>::empty(),
        Seq::<String>::empty(),
        j,
    ) by {
        assert(kept_record_ok(g1, g2, t, j));
        assert(!seq_contains_str(Seq::<String>::empty(), crate::record::spec_tile_id(g1[4 * j])));
        assert(!seq_contains_str(Seq::<String>::empty(), crate::record::spec_read_id(g1[4 * j])));
    }
    lemma_accepted_count_all(g1, g2, t, Seq::<String>::empty(), Seq::<String>::empty(), n);
}

/// Law: the filter is idempotent. Whatever a run kept — under any
/// exclusion sets — a second run over that kept output, with the same
/// threshold and no exclusion sets, processes in full and accepts
/// entirely: its removed counter (stop point minus accepted count) is
/// zero.
pub proof fn lemma_rerun_of_kept_output(
    l1: Seq<Seq<char>>,
    l2: Seq<Seq<char>>,
    t: int,
    ts: Seq<String>,
    rs: Seq<String>,
    p: int,
)
    requires
        0 <= p,
        forall|k: int| 0 <= k < p ==> !stops_at(l1, l2, k),
    ensures
        ({
            let a = accepted_count(l1, l2, t, ts, rs, p);
            let k1 = routed_lines(l1, l2, t, ts, rs, true, true, p);
            let k2 = routed_lines(l1, l2, t, ts, rs, false, true, p);
            &&& stop_point(k1, k2) == a
            &&& !aborts_at(k1, k2, a)
            &&& accepted_count(k1, k2, t, Seq::<String>::empty(), Seq::<String>::empty(), a) == a
        }),
{
    lemma_kept_records(l1, l2, t, ts, rs, p);
    lemma_routing_partition(l1, l2, t, ts, rs, p);
    let a = accepted_count(l1, l2, t, ts, rs, p);
    let k1 = routed_lines(l1, l2, t, ts, rs, true, true, p);
    let k2 = routed_lines(l1, l2, t, ts, rs, false, true, p);
    lemma_clean_full_run(k1, k2, t, a);
}

} // verus!
