//! The run counters, and the plain-text report rendered from them.

use vstd::prelude::*;
use vstd::string::StringExecFns;

use crate::checker::FilterConfig;
use crate::text::str_views;

verus! {

/// The counters of one run: pairs checked, pairs routed to the filtered
/// sinks, pairs routed to the kept sinks. Once a run has completed,
/// `read_pairs_checked == read_pairs_removed + read_pairs_remaining`.
pub struct RunStats {
    pub read_pairs_checked: u64,
    pub read_pairs_removed: u64,
    pub read_pairs_remaining: u64,
}

impl RunStats {
    /// Counter consistency: every checked pair went to exactly one sink.
    pub open spec fn consistent(&self) -> bool {
        self.read_pairs_checked == self.read_pairs_removed + self.read_pairs_remaining
    }
}

/// The decimal digit character for `d` (meaningful for 0 through 9).
pub open spec fn dec_digit(d: int) -> char {
    if d == 0 {
        '0'
    } else if d == 1 {
        '1'
    } else if d == 2 {
        '2'
    } else if d == 3 {
        '3'
    } else if d == 4 {
        '4'
    } else if d == 5 {
        '5'
    } else if d == 6 {
        '6'
    } else if d == 7 {
        '7'
    } else if d == 8 {
        '8'
    } else {
        '9'
    }
}

/// The decimal digits of `n`, most significant first, without leading
/// zeros (`0` itself is the single digit `0`).
pub open spec fn spec_u64_digits(n: int) -> Seq<char>
    decreases n,
{
    if n < 10 {
        seq![dec_digit(n)]
    } else {
        spec_u64_digits(n / 10).push(dec_digit(n % 10))
    }
}

/// One decimal digit as a string.
fn digit_str(d: u64) -> (r: String)
    requires
        d < 10,
    ensures
        r@ == seq![dec_digit(d as int)],
{
    if d == 0 {
        proof {
            reveal_strlit("0");
            assert("0"@ =~= seq!['0']);
        }
        "0".to_owned()
    } else if d == 1 {
        proof {
            reveal_strlit("1");
            assert("1"@ =~= seq!['1']);
        }
        "1".to_owned()
    } else if d == 2 {
        proof {
            reveal_strlit("2");
            assert("2"@ =~= seq!['2']);
        }
        "2".to_owned()
    } else if d == 3 {
        proof {
            reveal_strlit("3");
            assert("3"@ =~= seq!['3']);
        }
        "3".to_owned()
    } else if d == 4 {
        proof {
            reveal_strlit("4");
            assert("4"@ =~= seq!['4']);
        }
        "4".to_owned()
    } else if d == 5 {
        proof {
            reveal_strlit("5");
            assert("5"@ =~= seq!['5']);
        }
        "5".to_owned()
    } else if d == 6 {
        proof {
            reveal_strlit("6");
            assert("6"@ =~= seq!['6']);
        }
        "6".to_owned()
    } else if d == 7 {
        proof {
            reveal_strlit("7");
            assert("7"@ =~= seq!['7']);
        }
        "7".to_owned()
    } else if d == 8 {
        proof {
            reveal_strlit("8");
            assert("8"@ =~= seq!['8']);
        }
        "8".to_owned()
    } else {
        proof {
            reveal_strlit("9");
            assert("9"@ =~= seq!['9']);
        }
        "9".to_owned()
    }
}

/// Renders `n` in decimal.
pub fn u64_to_string(n: u64) -> (r: String)
    ensures
        r@ == spec_u64_digits(n as int),
    decreases n,
{
    if n < 10 {
        digit_str(n)
    } else {
        let mut s = u64_to_string(n / 10);
        let d = digit_str(n % 10);
        s.append(d.as_str());
        proof {
            assert(s@ =~= spec_u64_digits(n as int));
        }
        s
    }
}

/// The excluded tile ids joined by commas, in the set's (sorted) order.
pub open spec fn joined_tiles(ts: Seq<Seq<char>>) -> Seq<char>
    decreases ts.len(),
{
    if ts.len() == 0 {
        Seq::<char>::empty()
    } else if ts.len() == 1 {
        ts[0]
    } else {
        joined_tiles(ts.drop_last()) + ","@ + ts.last()
    }
}

/// Joins the tile ids with commas.
fn join_tiles(tiles: &Vec<String>) -> (r: String)
    ensures
        r@ == joined_tiles(str_views(tiles@)),
{
    let mut r = String::new();
    let mut i: usize = 0;
    proof {
        assert(str_views(tiles@.take(0)) =~= Seq::<Seq<char>>::empty());
        assert(r@ =~= joined_tiles(str_views(tiles@.take(0))));
    }
    while i < tiles.len()
        invariant
            0 <= i <= tiles@.len(),
            r@ == joined_tiles(str_views(tiles@.take(i as int))),
        decreases tiles@.len() - i,
    {
        let ghost pre = str_views(tiles@.take(i as int));
        let ghost post = str_views(tiles@.take(i + 1));
        proof {
            assert(post.drop_last() =~= pre);
            assert(post.last() == tiles@[i as int]@);
            assert(post.len() == i + 1);
        }
        if i > 0 {
            r.append(",");
        }
        r.append(tiles[i].as_str());
        proof {
            if i == 0 {
                assert(r@ =~= joined_tiles(post));
            } else {
                assert(joined_tiles(post) == joined_tiles(pre) + ","@ + tiles@[i as int]@);
            }
        }
        i = i + 1;
    }
    proof {
        assert(tiles@.take(tiles@.len() as int) =~= tiles@);
    }
    r
}

/// The view of an optional string.
pub open spec fn opt_view(o: Option<String>) -> Option<Seq<char>> {
    match o {
        Some(s) => Some(s@),
        None => None,
    }
}

/// The six path roles of a run, and the exclusion-file path if one was
/// configured, as they appear in the report.
pub struct ReportPaths {
    pub i1: String,
    pub o1: String,
    pub f1: String,
    pub i2: String,
    pub o2: String,
    pub f2: String,
    pub remove_reads: Option<String>,
}

/// The exact text of the report: `key value` lines for the six paths, the
/// three counters and the threshold; then the sorted excluded tile ids,
/// only if any were given; then the exclusion-file path, only if one was
/// configured.
pub open spec fn spec_report(
    i1: Seq<char>,
    o1: Seq<char>,
    f1: Seq<char>,
    i2: Seq<char>,
    o2: Seq<char>,
    f2: Seq<char>,
    checked: int,
    removed: int,
    remaining: int,
    threshold: int,
    tiles: Seq<Seq<char>>,
    rr: Option<Seq<char>>,
) -> Seq<char> {
    let base = "r1i "@ + i1 + "\n"@ + "r1o "@ + o1 + "\n"@ + "r1f "@ + f1 + "\n"@ + "r2i "@ + i2
        + "\n"@ + "r2o "@ + o2 + "\n"@ + "r2f "@ + f2 + "\n"@ + "read_pairs_checked "@
        + spec_u64_digits(checked) + "\n"@ + "read_pairs_removed "@ + spec_u64_digits(removed)
        + "\n"@ + "read_pairs_remaining "@ + spec_u64_digits(remaining) + "\n"@
        + "filter_threshold "@ + spec_u64_digits(threshold) + "\n"@;
    let with_tiles = if tiles.len() > 0 {
        base + "remove_tiles "@ + joined_tiles(tiles) + "\n"@
    } else {
        base
    };
    match rr {
        Some(p) => with_tiles + "remove_reads "@ + p + "\n"@,
        None => with_tiles,
    }
}

/// Renders the report exactly as `spec_report` describes it.
pub fn render_report(cfg: &FilterConfig, stats: &RunStats, paths: &ReportPaths) -> (r: String)
    ensures
        r@ == spec_report(
            paths.i1@,
            paths.o1@,
            paths.f1@,
            paths.i2@,
            paths.o2@,
            paths.f2@,
            stats.read_pairs_checked as int,
            stats.read_pairs_removed as int,
            stats.read_pairs_remaining as int,
            cfg.threshold as int,
            str_views(cfg.rm_tiles@),
            opt_view(paths.remove_reads),
        ),
{
    let mut r = String::new();
    r.append("r1i ");
    proof {
        assert(r@ =~= "r1i "@);
    }
    r.append(paths.i1.as_str());
    r.append("\n");
    r.append("r1o ");
    r.append(paths.o1.as_str());
    r.append("\n");
    r.append("r1f ");
    r.append(paths.f1.as_str());
    r.append("\n");
    r.append("r2i ");
    r.append(paths.i2.as_str());
    r.append("\n");
    r.append("r2o ");
    r.append(paths.o2.as_str());
    r.append("\n");
    r.append("r2f ");
    r.append(paths.f2.as_str());
    r.append("\n");
    r.append("read_pairs_checked ");
    let checked = u64_to_string(stats.read_pairs_checked);
    r.append(checked.as_str());
    r.append("\n");
    r.append("read_pairs_removed ");
    let removed = u64_to_string(stats.read_pairs_removed);
    r.append(removed.as_str());
    r.append("\n");
    r.append("read_pairs_remaining ");
    let remaining = u64_to_string(stats.read_pairs_remaining);
    r.append(remaining.as_str());
    r.append("\n");
    r.append("filter_threshold ");
    let threshold = u64_to_string(cfg.threshold as u64);
    r.append(threshold.as_str());
    r.append("\n");
    if cfg.rm_tiles.len() > 0 {
        r.append("remove_tiles ");
        let jt = join_tiles(&cfg.rm_tiles);
        r.append(jt.as_str());
        r.append("\n");
    }
    match &paths.remove_reads {
        Some(p) => {
            r.append("remove_reads ");
            r.append(p.as_str());
            r.append("\n");
        },
        None => {},
    }
    r
}

} // verus!
