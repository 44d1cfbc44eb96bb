//! The predicate chain: an ordered list of acceptance rules, all evaluated
//! for every pair and combined by logical AND, together with the immutable
//! configuration they read (threshold and exclusion sets).

use vstd::prelude::*;
use vstd::string::StrSliceExecFns;
use vstd::string::StringExecFns;

use crate::order::insert_sorted;
use crate::order::sorted_unique;
use crate::record::FastqEntry;
use crate::text::content_len;
use crate::text::content_length;
use crate::text::find_token_end;
use crate::text::seq_contains_str;
use crate::text::str_views;
use crate::text::token_end_at;
use crate::text::token_of;
use crate::text::vec_contains_string;

verus! {

/// The closed set of acceptance rules. Every pair is tested by every rule
/// of the configured chain; a pair is accepted only if all of them hold.
#[derive(Clone, Copy, Debug, PartialEq, Eq, Structural)]
pub enum Rule {
    /// Both mates' sequences must be strictly longer than the threshold.
    LengthThreshold,
    /// Mate 1's tile id must not be excluded. Mate 2's tile is never
    /// checked: mates share their acquisition position.
    TileExclusion,
    /// Mate 1's read id must not be excluded. Mate 2's id is never checked.
    ReadExclusion,
}

/// An exclusion-file line, normalized to the form of a derived read id:
/// the leading sigil, then the line's first whitespace-delimited token.
pub open spec fn normalized_read_id(line: Seq<char>) -> Seq<char> {
    seq!['@'] + token_of(line)
}

/// The normalized read ids of a sequence of exclusion-file lines.
pub open spec fn normalized_views(lines: Seq<String>) -> Seq<Seq<char>> {
    lines.map_values(|s: String| normalized_read_id(s@))
}

/// The rule chain that a configuration builds: the length rule always,
/// then the tile rule if tile ids were given, then the read rule if an
/// exclusion file was given — in this fixed order.
pub open spec fn spec_criteria(tiles_on: bool, reads_on: bool) -> Seq<Rule> {
    seq![Rule::LengthThreshold] + (if tiles_on {
        seq![Rule::TileExclusion]
    } else {
        Seq::<Rule>::empty()
    }) + (if reads_on {
        seq![Rule::ReadExclusion]
    } else {
        Seq::<Rule>::empty()
    })
}

/// Acceptance of one pair, in terms of its decisive fields: both sequence
/// lines strictly longer than the threshold, mate 1's tile id not excluded,
/// mate 1's read id not excluded.
pub open spec fn spec_accept(
    threshold: int,
    tiles: Seq<String>,
    reads: Seq<String>,
    seq1: Seq<char>,
    seq2: Seq<char>,
    tile1: Seq<char>,
    read1: Seq<char>,
) -> bool {
    &&& content_len(seq1) > threshold
    &&& content_len(seq2) > threshold
    &&& !seq_contains_str(tiles, tile1)
    &&& !seq_contains_str(reads, read1)
}

/// The immutable run configuration: the length threshold, the two
/// exclusion sets, and the rule chain built from them.
pub struct FilterConfig {
    pub threshold: usize,
    pub rm_tiles: Vec<String>,
    pub rm_reads: Vec<String>,
    pub criteria: Vec<Rule>,
}

impl FilterConfig {
    /// Well-formed: the tile set is sorted and duplicate-free, the length
    /// rule is always in the chain, and a rule missing from the chain has
    /// an empty set behind it, so that skipping it never changes the AND.
    pub open spec fn wf(&self) -> bool {
        &&& sorted_unique(self.rm_tiles@)
        &&& self.criteria@.contains(Rule::LengthThreshold)
        &&& !self.criteria@.contains(Rule::TileExclusion) ==> self.rm_tiles@.len() == 0
        &&& !self.criteria@.contains(Rule::ReadExclusion) ==> self.rm_reads@.len() == 0
    }

    /// What one rule says of a pair.
    pub open spec fn rule_holds(&self, r: Rule, e1: FastqEntry, e2: FastqEntry) -> bool {
        match r {
            Rule::LengthThreshold => content_len(e1.seq@) > self.threshold && content_len(e2.seq@)
                > self.threshold,
            Rule::TileExclusion => !seq_contains_str(self.rm_tiles@, e1.tile_id@),
            Rule::ReadExclusion => !seq_contains_str(self.rm_reads@, e1.read_id@),
        }
    }

    /// Builds a configuration: tile ids become a sorted, duplicate-free
    /// set; exclusion-file lines become normalized read ids; the rule
    /// chain holds the length rule, then the tile rule if any tile id was
    /// given, then the read rule if an exclusion file was given.
    pub fn new(
        threshold: usize,
        remove_tiles: &Vec<String>,
        remove_reads: Option<&Vec<String>>,
    ) -> (cfg: FilterConfig)
        ensures
            cfg.wf(),
            cfg.threshold == threshold,
            forall|x: Seq<char>| #[trigger]
                seq_contains_str(cfg.rm_tiles@, x) == seq_contains_str(remove_tiles@, x),
            str_views(cfg.rm_reads@) == (match remove_reads {
                Some(ls) => normalized_views(ls@),
                None => Seq::<Seq<char>>::empty(),
            }),
            cfg.criteria@ == spec_criteria(remove_tiles@.len() > 0, remove_reads is Some),
    {
        let mut rm_tiles: Vec<String> = Vec::new();
        let mut rm_reads: Vec<String> = Vec::new();
        let mut criteria: Vec<Rule> = Vec::new();
        criteria.push(Rule::LengthThreshold);
        if remove_tiles.len() > 0 {
            build_rm_tiles(remove_tiles, &mut rm_tiles);
            criteria.push(Rule::TileExclusion);
        }
        match remove_reads {
            Some(file_lines) => {
                build_rm_reads(file_lines, &mut rm_reads);
                proof {
                    assert(str_views(rm_reads@) =~= normalized_views(file_lines@));
                }
                criteria.push(Rule::ReadExclusion);
            },
            None => {},
        }
        proof {
            assert(criteria@ =~= spec_criteria(remove_tiles@.len() > 0, remove_reads is Some));
            if remove_tiles@.len() == 0 {
                assert(forall|x: Seq<char>| #[trigger]
                    seq_contains_str(rm_tiles@, x) == seq_contains_str(remove_tiles@, x));
            }
            if remove_reads is None {
                assert(str_views(rm_reads@) =~= Seq::<Seq<char>>::empty());
            }
            assert(criteria@.contains(Rule::LengthThreshold)) by {
                assert(criteria@[0] == Rule::LengthThreshold);
            }
            if remove_tiles@.len() > 0 {
                assert(criteria@.contains(Rule::TileExclusion)) by {
                    assert(criteria@[1] == Rule::TileExclusion);
                }
            }
            if remove_reads is Some {
                assert(criteria@.contains(Rule::ReadExclusion)) by {
                    assert(criteria@[criteria@.len() - 1] == Rule::ReadExclusion);
                }
            }
        }
        FilterConfig { threshold, rm_tiles, rm_reads, criteria }
    }

    /// The length rule: both sequence lines strictly longer than the
    /// threshold. A sequence exactly at the threshold is rejected.
    pub fn check_read(&self, e1: &FastqEntry, e2: &FastqEntry) -> (r: bool)
        ensures
            r == (content_len(e1.seq@) > self.threshold && content_len(e2.seq@) > self.threshold),
    {
        content_length(e1.seq.as_str()) > self.threshold && content_length(e2.seq.as_str())
            > self.threshold
    }

    /// The tile rule: mate 1's tile id must not be in the excluded set.
    pub fn tile_check_read(&self, e1: &FastqEntry) -> (r: bool)
        ensures
            r == !seq_contains_str(self.rm_tiles@, e1.tile_id@),
    {
        !vec_contains_string(&self.rm_tiles, &e1.tile_id)
    }

    /// The read rule: mate 1's read id must not be in the excluded set.
    pub fn id_check_read(&self, e1: &FastqEntry) -> (r: bool)
        ensures
            r == !seq_contains_str(self.rm_reads@, e1.read_id@),
    {
        !vec_contains_string(&self.rm_reads, &e1.read_id)
    }

    /// Dispatches one rule of the chain.
    pub fn eval_rule(&self, r: Rule, e1: &FastqEntry, e2: &FastqEntry) -> (b: bool)
        ensures
            b == self.rule_holds(r, *e1, *e2),
    {
        match r {
            Rule::LengthThreshold => self.check_read(e1, e2),
            Rule::TileExclusion => self.tile_check_read(e1),
            Rule::ReadExclusion => self.id_check_read(e1),
        }
    }

    /// Evaluates every rule of the chain — none is skipped, even after a
    /// failure — and ANDs the results: the pair is accepted only if every
    /// rule holds.
    pub fn check_reads(&self, e1: &FastqEntry, e2: &FastqEntry) -> (r: bool)
        requires
            self.wf(),
        ensures
            r == spec_accept(
                self.threshold as int,
                self.rm_tiles@,
                self.rm_reads@,
                e1.seq@,
                e2.seq@,
                e1.tile_id@,
                e1.read_id@,
            ),
    {
        let mut result: bool = true;
        let mut i: usize = 0;
        while i < self.criteria.len()
            invariant
                self.wf(),
                0 <= i <= self.criteria@.len(),
                result ==> forall|j: int|
                    0 <= j < i ==> self.rule_holds(#[trigger] self.criteria@[j], *e1, *e2),
                !result ==> exists|j: int|
                    0 <= j < i && !self.rule_holds(#[trigger] self.criteria@[j], *e1, *e2),
            decreases self.criteria@.len() - i,
        {
            let passes = self.eval_rule(self.criteria[i], e1, e2);
            if !passes {
                result = false;
            }
            i = i + 1;
        }
        proof {
            let t = self.threshold as int;
            if result {
                let j0 = choose|j: int|
                    0 <= j < self.criteria@.len() && self.criteria@[j] == Rule::LengthThreshold;
                assert(self.rule_holds(self.criteria@[j0], *e1, *e2));
                if self.criteria@.contains(Rule::TileExclusion) {
                    let j1 = choose|j: int|
                        0 <= j < self.criteria@.len() && self.criteria@[j] == Rule::TileExclusion;
                    assert(self.rule_holds(self.criteria@[j1], *e1, *e2));
                }
                if self.criteria@.contains(Rule::ReadExclusion) {
                    let j2 = choose|j: int|
                        0 <= j < self.criteria@.len() && self.criteria@[j] == Rule::ReadExclusion;
                    assert(self.rule_holds(self.criteria@[j2], *e1, *e2));
                }
            } else {
                let j = choose|j: int|
                    0 <= j < self.criteria@.len() && !self.rule_holds(
                        #[trigger] self.criteria@[j],
                        *e1,
                        *e2,
                    );
                assert(!self.rule_holds(self.criteria@[j], *e1, *e2));
            }
        }
        result
    }
}

/// Copies the literal tile-id strings into the exclusion set, keeping it
/// sorted and duplicate-free; membership afterwards is membership before
/// plus the given tiles.
pub fn build_rm_tiles(input_tiles: &Vec<String>, output_tiles: &mut Vec<String>)
    requires
        sorted_unique(old(output_tiles)@),
    ensures
        sorted_unique(final(output_tiles)@),
        forall|x: Seq<char>| #[trigger]
            seq_contains_str(final(output_tiles)@, x) == (seq_contains_str(old(output_tiles)@, x)
                || seq_contains_str(input_tiles@, x)),
{
    let mut i: usize = 0;
    while i < input_tiles.len()
        invariant
            sorted_unique(output_tiles@),
            0 <= i <= input_tiles@.len(),
            forall|x: Seq<char>| #[trigger]
                seq_contains_str(output_tiles@, x) == (seq_contains_str(old(output_tiles)@, x)
                    || exists|k: int| 0 <= k < i && input_tiles@[k]@ == x),
        decreases input_tiles@.len() - i,
    {
        let t = input_tiles[i].clone();
        insert_sorted(output_tiles, t);
        proof {
            assert forall|x: Seq<char>| #[trigger]
                seq_contains_str(output_tiles@, x) == (seq_contains_str(old(output_tiles)@, x)
                    || exists|k: int| 0 <= k < i + 1 && input_tiles@[k]@ == x) by {
                if exists|k: int| 0 <= k < i + 1 && input_tiles@[k]@ == x {
                    let k = choose|k: int| 0 <= k < i + 1 && input_tiles@[k]@ == x;
                    if k < i {
                        assert(exists|k2: int| 0 <= k2 < i && input_tiles@[k2]@ == x);
                    } else {
                        assert(x == input_tiles@[i as int]@);
                    }
                }
                if exists|k: int| 0 <= k < i && input_tiles@[k]@ == x {
                    let k = choose|k: int| 0 <= k < i && input_tiles@[k]@ == x;
                    assert(0 <= k < i + 1 && input_tiles@[k]@ == x);
                }
                if x == input_tiles@[i as int]@ {
                    assert(0 <= i < i + 1 && input_tiles@[i as int]@ == x);
                }
            }
        }
        i = i + 1;
    }
}

/// Normalizes each exclusion-file line — the sigil, then the line's first
/// whitespace-delimited token — and appends it to the read exclusion set.
pub fn build_rm_reads(input_reads: &Vec<String>, output_reads: &mut Vec<String>)
    ensures
        str_views(final(output_reads)@) == str_views(old(output_reads)@) + normalized_views(
            input_reads@,
        ),
{
    let mut i: usize = 0;
    proof {
        assert(str_views(output_reads@) =~= str_views(old(output_reads)@) + normalized_views(
            input_reads@.take(0),
        ));
    }
    while i < input_reads.len()
        invariant
            0 <= i <= input_reads@.len(),
            str_views(output_reads@) == str_views(old(output_reads)@) + normalized_views(
                input_reads@.take(i as int),
            ),
        decreases input_reads@.len() - i,
    {
        let line = &input_reads[i];
        let e = find_token_end(line.as_str());
        let tok = line.as_str().substring_char(0, e);
        let mut rid = String::new();
        rid.append("@");
        rid.append(tok);
        proof {
            reveal_strlit("@");
            let le = choose|k: int| token_end_at(line@, k);
            assert(token_end_at(line@, le));
            assert(le == e as int) by {
                if le < e as int {
                    assert(!crate::text::is_ws_char(line@[le]));
                }
                if le > e as int {
                    assert(!crate::text::is_ws_char(line@[e as int]));
                }
            }
            assert(rid@ =~= normalized_read_id(line@));
            assert(output_reads@.push(rid).map_values(|s: String| s@) =~= str_views(
                output_reads@,
            ).push(rid@));
            assert((str_views(old(output_reads)@) + normalized_views(
                input_reads@.take(i as int),
            )).push(rid@) =~= str_views(old(output_reads)@) + normalized_views(
                input_reads@.take(i + 1),
            ));
        }
        output_reads.push(rid);
        i = i + 1;
    }
    proof {
        assert(input_reads@.take(input_reads@.len() as int) =~= input_reads@);
    }
}

} // verus!
