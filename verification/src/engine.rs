//! The dual-stream engine: both mate streams are walked in lockstep, one
//! record pair per step; each pair is evaluated by the predicate chain and
//! its eight lines are routed verbatim to the kept or the filtered sinks,
//! while the run counters advance. The loop stops at the first step where
//! either stream has no whole record left, or aborts at the first
//! malformed header.

use vstd::prelude::*;

use crate::checker::FilterConfig;
use crate::checker::spec_accept;
use crate::record::FastqEntry;
use crate::record::HeaderFormatError;
use crate::record::header_ok;
use crate::record::read_entry;
use crate::record::spec_read_id;
use crate::record::spec_tile_id;
use crate::stats::RunStats;
use crate::text::chunk_readable_at;
use crate::text::str_views;

verus! {

/// A whole, non-empty record (four lines) starts at record index `k`.
pub open spec fn chunk_readable(l: Seq<Seq<char>>, k: int) -> bool {
    chunk_readable_at(l, 4 * k)
}

/// The four lines of record `k`.
pub open spec fn rec_lines(l: Seq<Seq<char>>, k: int) -> Seq<Seq<char>> {
    l.subrange(4 * k, 4 * k + 4)
}

/// Record `k` can be read but its header is malformed.
pub open spec fn rec_bad(l: Seq<Seq<char>>, k: int) -> bool {
    chunk_readable(l, k) && !header_ok(l[4 * k])
}

/// The run cannot process pair `k`: a malformed header on either side, or
/// either stream out of whole records.
pub open spec fn stops_at(l1: Seq<Seq<char>>, l2: Seq<Seq<char>>, k: int) -> bool {
    ||| rec_bad(l1, k)
    ||| rec_bad(l2, k)
    ||| !chunk_readable(l1, k)
    ||| !chunk_readable(l2, k)
}

/// Stopping at pair `k` is an abort: a malformed header, not stream end.
pub open spec fn aborts_at(l1: Seq<Seq<char>>, l2: Seq<Seq<char>>, k: int) -> bool {
    rec_bad(l1, k) || rec_bad(l2, k)
}

/// `p` is the number of pairs a run processes: every earlier pair goes
/// through, and pair `p` cannot.
pub open spec fn is_stop_point(l1: Seq<Seq<char>>, l2: Seq<Seq<char>>, p: int) -> bool {
    &&& 0 <= p
    &&& stops_at(l1, l2, p)
    &&& forall|k: int| 0 <= k < p ==> !stops_at(l1, l2, k)
}

/// The number of pairs a run over these two streams processes.
pub open spec fn stop_point(l1: Seq<Seq<char>>, l2: Seq<Seq<char>>) -> int {
    choose|p: int| is_stop_point(l1, l2, p)
}

/// The stop point is unique.
pub proof fn lemma_stop_point_unique(l1: Seq<Seq<char>>, l2: Seq<Seq<char>>, p: int)
    requires
        is_stop_point(l1, l2, p),
    ensures
        stop_point(l1, l2) == p,
{
    let q = stop_point(l1, l2);
    assert(is_stop_point(l1, l2, q));
    if q < p {
        assert(!stops_at(l1, l2, q));
    }
    if q > p {
        assert(!stops_at(l1, l2, p));
    }
}

/// Whether pair `k` passes the whole predicate chain.
pub open spec fn pair_accepted(
    l1: Seq<Seq<char>>,
    l2: Seq<Seq<char>>,
    t: int,
    tiles: Seq<String>,
    reads: Seq<String>,
    k: int,
) -> bool {
    spec_accept(
        t,
        tiles,
        reads,
        l1[4 * k + 1],
        l2[4 * k + 1],
        spec_tile_id(l1[4 * k]),
        spec_read_id(l1[4 * k]),
    )
}

/// How many of the first `n` pairs pass the predicate chain.
pub open spec fn accepted_count(
    l1: Seq<Seq<char>>,
    l2: Seq<Seq<char>>,
    t: int,
    tiles: Seq<String>,
    reads: Seq<String>,
    n: int,
) -> int
    decreases n,
{
    if n <= 0 {
        0
    } else {
        accepted_count(l1, l2, t, tiles, reads, n - 1) + if pair_accepted(
            l1,
            l2,
            t,
            tiles,
            reads,
            n - 1,
        ) {
            1int
        } else {
            0int
        }
    }
}

/// The lines one sink receives from the first `n` pairs: the four lines of
/// each routed record, verbatim, in input order. `from_first` picks the
/// mate-1 or the mate-2 stream; `kept_side` picks the kept or the filtered
/// sink.
pub open spec fn routed_lines(
    l1: Seq<Seq<char>>,
    l2: Seq<Seq<char>>,
    t: int,
    tiles: Seq<String>,
    reads: Seq<String>,
    from_first: bool,
    kept_side: bool,
    n: int,
) -> Seq<Seq<char>>
    decreases n,
{
    if n <= 0 {
        Seq::<Seq<char>>::empty()
    } else {
        let rest = routed_lines(l1, l2, t, tiles, reads, from_first, kept_side, n - 1);
        if pair_accepted(l1, l2, t, tiles, reads, n - 1) == kept_side {
            rest + rec_lines(
                if from_first {
                    l1
                } else {
                    l2
                },
                n - 1,
            )
        } else {
            rest
        }
    }
}

/// Everything a run produces: the lines for the four sinks, the counters,
/// and the error that aborted the run, if one did. Whatever was routed
/// before an abort stands.
pub struct RunOutcome {
    pub kept1: Vec<String>,
    pub kept2: Vec<String>,
    pub filtered1: Vec<String>,
    pub filtered2: Vec<String>,
    pub stats: RunStats,
    pub error: Option<HeaderFormatError>,
}

/// The full behaviour of a run of `cfg` over the two line streams: the
/// counters equal the stop point and the accepted count there, an error is
/// reported exactly when the run stopped on a malformed header, and each
/// sink holds exactly its routed records' lines.
pub open spec fn run_post(
    cfg: FilterConfig,
    lines1: Seq<String>,
    lines2: Seq<String>,
    out: RunOutcome,
) -> bool {
    let l1 = str_views(lines1);
    let l2 = str_views(lines2);
    let t = cfg.threshold as int;
    let ts = cfg.rm_tiles@;
    let rs = cfg.rm_reads@;
    let p = stop_point(l1, l2);
    &&& is_stop_point(l1, l2, p)
    &&& out.stats.read_pairs_checked == p
    &&& out.stats.read_pairs_remaining == accepted_count(l1, l2, t, ts, rs, p)
    &&& out.stats.read_pairs_removed == p - accepted_count(l1, l2, t, ts, rs, p)
    &&& (out.error is Some <==> aborts_at(l1, l2, p))
    &&& str_views(out.kept1@) == routed_lines(l1, l2, t, ts, rs, true, true, p)
    &&& str_views(out.kept2@) == routed_lines(l1, l2, t, ts, rs, false, true, p)
    &&& str_views(out.filtered1@) == routed_lines(l1, l2, t, ts, rs, true, false, p)
    &&& str_views(out.filtered2@) == routed_lines(l1, l2, t, ts, rs, false, false, p)
}

impl FilterConfig {
    /// Walks both streams in lockstep: reads one record from each, counts
    /// the pair, evaluates every rule of the chain, and routes both
    /// records' lines verbatim to the kept sinks (pair accepted) or the
    /// filtered sinks (pair rejected). Stops when either stream has no
    /// whole record left; aborts at the first malformed header, keeping
    /// everything routed before it.
    pub fn run(&self, lines1: &Vec<String>, lines2: &Vec<String>) -> (out: RunOutcome)
        requires
            self.wf(),
        ensures
            run_post(*self, lines1@, lines2@, out),
            out.stats.consistent(),
    {
        let ghost l1 = str_views(lines1@);
        let ghost l2 = str_views(lines2@);
        let ghost t = self.threshold as int;
        let ghost ts = self.rm_tiles@;
        let ghost rs = self.rm_reads@;
        let mut kept1: Vec<String> = Vec::new();
        let mut kept2: Vec<String> = Vec::new();
        let mut filtered1: Vec<String> = Vec::new();
        let mut filtered2: Vec<String> = Vec::new();
        let mut checked: u64 = 0;
        let mut removed: u64 = 0;
        let mut remaining: u64 = 0;
        let mut pos: usize = 0;
        let mut error: Option<HeaderFormatError> = None;
        let mut done = false;
        proof {
            assert(str_views(kept1@) =~= routed_lines(l1, l2, t, ts, rs, true, true, 0));
            assert(str_views(kept2@) =~= routed_lines(l1, l2, t, ts, rs, false, true, 0));
            assert(str_views(filtered1@) =~= routed_lines(l1, l2, t, ts, rs, true, false, 0));
            assert(str_views(filtered2@) =~= routed_lines(l1, l2, t, ts, rs, false, false, 0));
        }
        while !done
            invariant
                self.wf(),
                l1 == str_views(lines1@),
                l2 == str_views(lines2@),
                t == self.threshold as int,
                ts == self.rm_tiles@,
                rs == self.rm_reads@,
                pos == 4 * (checked as int),
                pos <= lines1@.len() || pos == 0,
                checked as int == removed as int + remaining as int,
                remaining as int == accepted_count(l1, l2, t, ts, rs, checked as int),
                forall|k: int| 0 <= k < checked as int ==> !stops_at(l1, l2, k),
                str_views(kept1@) == routed_lines(l1, l2, t, ts, rs, true, true, checked as int),
                str_views(kept2@) == routed_lines(l1, l2, t, ts, rs, false, true, checked as int),
                str_views(filtered1@) == routed_lines(
                    l1,
                    l2,
                    t,
                    ts,
                    rs,
                    true,
                    false,
                    checked as int,
                ),
                str_views(filtered2@) == routed_lines(
                    l1,
                    l2,
                    t,
                    ts,
                    rs,
                    false,
                    false,
                    checked as int,
                ),
                done ==> stops_at(l1, l2, checked as int),
                error is Some <==> (done && aborts_at(l1, l2, checked as int)),
            decreases (if done {
                0int
            } else {
                lines1@.len() - pos + 1
            }),
        {
            let ghost k = checked as int;
            proof {
                assert(l1.len() == lines1@.len());
                assert(l2.len() == lines2@.len());
                if chunk_readable_at(l1, pos as int) {
                    assert(l1[4 * k] == lines1@[pos as int]@);
                }
                if chunk_readable_at(l2, pos as int) {
                    assert(l2[4 * k] == lines2@[pos as int]@);
                }
            }
            let r1 = read_entry(lines1, pos);
            match r1 {
                Err(e) => {
                    proof {
                        assert(rec_bad(l1, k));
                    }
                    error = Some(e);
                    done = true;
                },
                Ok(o1) => {
                    let r2 = read_entry(lines2, pos);
                    match r2 {
                        Err(e) => {
                            proof {
                                assert(rec_bad(l2, k));
                            }
                            error = Some(e);
                            done = true;
                        },
                        Ok(o2) => {
                            match (o1, o2) {
                                (Some(e1), Some(e2)) => {
                                    proof {
                                        assert(chunk_readable(l1, k) && header_ok(l1[4 * k]));
                                        assert(chunk_readable(l2, k) && header_ok(l2[4 * k]));
                                        assert(!stops_at(l1, l2, k));
                                        assert(e1.seq@ == lines1@[pos as int + 1]@);
                                        assert(l1[4 * k + 1] == lines1@[pos as int + 1]@);
                                        assert(l2[4 * k + 1] == lines2@[pos as int + 1]@);
                                        assert(lines1.len() == lines1@.len());
                                        assert(lines1@.len() <= usize::MAX);
                                    }
                                    let acc = self.check_reads(&e1, &e2);
                                    proof {
                                        assert(acc == pair_accepted(l1, l2, t, ts, rs, k));
                                    }
                                    checked = checked + 1;
                                    pos = pos + 4;
                                    if acc {
                                        remaining = remaining + 1;
                                        kept1.push(e1.id);
                                        kept1.push(e1.seq);
                                        kept1.push(e1.strand);
                                        kept1.push(e1.qual);
                                        kept2.push(e2.id);
                                        kept2.push(e2.seq);
                                        kept2.push(e2.strand);
                                        kept2.push(e2.qual);
                                        proof {
                                            assert(str_views(kept1@) =~= routed_lines(
                                                l1,
                                                l2,
                                                t,
                                                ts,
                                                rs,
                                                true,
                                                true,
                                                k + 1,
                                            ));
                                            assert(str_views(kept2@) =~= routed_lines(
                                                l1,
                                                l2,
                                                t,
                                                ts,
                                                rs,
                                                false,
                                                true,
                                                k + 1,
                                            ));
                                            assert(str_views(filtered1@) =~= routed_lines(
                                                l1,
                                                l2,
                                                t,
                                                ts,
                                                rs,
                                                true,
                                                false,
                                                k + 1,
                                            ));
                                            assert(str_views(filtered2@) =~= routed_lines(
                                                l1,
                                                l2,
                                                t,
                                                ts,
                                                rs,
                                                false,
                                                false,
                                                k + 1,
                                            ));
                                        }
                                    } else {
                                        removed = removed + 1;
                                        filtered1.push(e1.id);
                                        filtered1.push(e1.seq);
                                        filtered1.push(e1.strand);
                                        filtered1.push(e1.qual);
                                        filtered2.push(e2.id);
                                        filtered2.push(e2.seq);
                                        filtered2.push(e2.strand);
                                        filtered2.push(e2.qual);
                                        proof {
                                            assert(str_views(filtered1@) =~= routed_lines(
                                                l1,
                                                l2,
                                                t,
                                                ts,
                                                rs,
                                                true,
                                                false,
                                                k + 1,
                                            ));
                                            assert(str_views(filtered2@) =~= routed_lines(
                                                l1,
                                                l2,
                                                t,
                                                ts,
                                                rs,
                                                false,
                                                false,
                                                k + 1,
                                            ));
                                            assert(str_views(kept1@) =~= routed_lines(
                                                l1,
                                                l2,
                                                t,
                                                ts,
                                                rs,
                                                true,
                                                true,
                                                k + 1,
                                            ));
                                            assert(str_views(kept2@) =~= routed_lines(
                                                l1,
                                                l2,
                                                t,
                                                ts,
                                                rs,
                                                false,
                                                true,
                                                k + 1,
                                            ));
                                        }
                                    }
                                },
                                _ => {
                                    proof {
                                        assert(stops_at(l1, l2, k));
                                        assert(!aborts_at(l1, l2, k));
                                    }
                                    done = true;
                                },
                            }
                        },
                    }
                },
            }
        }
        proof {
            assert(is_stop_point(l1, l2, checked as int));
            lemma_stop_point_unique(l1, l2, checked as int);
        }
        RunOutcome {
            kept1,
            kept2,
            filtered1,
            filtered2,
            stats: RunStats {
                read_pairs_checked: checked,
                read_pairs_removed: removed,
                read_pairs_remaining: remaining,
            },
            error,
        }
    }
}

} // verus!
