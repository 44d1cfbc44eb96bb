//! Lexicographic order on character sequences, and insertion into a
//! strictly sorted vector of strings. The excluded tile ids are kept
//! sorted and without duplicates so that the run report can list them
//! in order.

use vstd::prelude::*;

use crate::text::seq_contains_str;

verus! {

/// Strict lexicographic order on character sequences, by unicode scalar
/// value: a proper prefix comes before its extensions.
pub open spec fn str_lt(a: Seq<char>, b: Seq<char>) -> bool
    decreases b.len(),
{
    if b.len() == 0 {
        false
    } else if a.len() == 0 {
        true
    } else if (a[0] as u32) < (b[0] as u32) {
        true
    } else if (a[0] as u32) > (b[0] as u32) {
        false
    } else {
        str_lt(a.drop_first(), b.drop_first())
    }
}

/// Strictly ascending: sorted, with no duplicates.
pub open spec fn sorted_unique(v: Seq<String>) -> bool {
    forall|i: int, j: int| 0 <= i < j < v.len() ==> str_lt(v[i]@, v[j]@)
}

/// Of two sequences, the smaller comes first, or they are equal.
pub proof fn lemma_str_lt_trichotomy(a: Seq<char>, b: Seq<char>)
    ensures
        str_lt(a, b) || str_lt(b, a) || a == b,
    decreases b.len(),
{
    if b.len() == 0 {
        if a.len() == 0 {
            assert(a =~= b);
        }
    } else if a.len() == 0 {
    } else if (a[0] as u32) == (b[0] as u32) {
        vstd::utf8::char_u32_cast(a[0], a[0] as u32);
        vstd::utf8::char_u32_cast(b[0], b[0] as u32);
        assert(a[0] == b[0]);
        lemma_str_lt_trichotomy(a.drop_first(), b.drop_first());
        if !str_lt(a, b) && !str_lt(b, a) {
            assert(a.drop_first() == b.drop_first());
            assert(a.drop_first().len() == b.drop_first().len());
            assert forall|i: int| 0 <= i < a.len() implies a[i] == b[i] by {
                if i > 0 {
                    assert(a[i] == a.drop_first()[i - 1]);
                    assert(b[i] == b.drop_first()[i - 1]);
                }
            }
            assert(a =~= b);
        }
    }
}

/// The order is transitive.
pub proof fn lemma_str_lt_trans(a: Seq<char>, b: Seq<char>, c: Seq<char>)
    requires
        str_lt(a, b),
        str_lt(b, c),
    ensures
        str_lt(a, c),
    decreases c.len(),
{
    if c.len() == 0 {
    } else if a.len() == 0 {
    } else {
        if b.len() == 0 {
        } else {
            if (a[0] as u32) == (b[0] as u32) && (b[0] as u32) == (c[0] as u32) {
                lemma_str_lt_trans(a.drop_first(), b.drop_first(), c.drop_first());
            }
        }
    }
}

/// A common prefix does not decide the order: comparison continues on the
/// remainders.
proof fn lemma_str_lt_skip(a: Seq<char>, b: Seq<char>, i: int)
    requires
        0 <= i <= a.len(),
        i <= b.len(),
        forall|j: int| 0 <= j < i ==> a[j] == b[j],
    ensures
        str_lt(a, b) == str_lt(a.skip(i), b.skip(i)),
    decreases i,
{
    if i == 0 {
        assert(a.skip(0) =~= a);
        assert(b.skip(0) =~= b);
    } else {
        assert(a[0] == b[0]);
        lemma_str_lt_skip(a.drop_first(), b.drop_first(), i - 1);
        assert(a.drop_first().skip(i - 1) =~= a.skip(i));
        assert(b.drop_first().skip(i - 1) =~= b.skip(i));
    }
}

/// Whether `a` comes strictly before `b` in lexicographic order.
pub fn str_less(a: &str, b: &str) -> (r: bool)
    ensures
        r == str_lt(a@, b@),
{
    let na = a.unicode_len();
    let nb = b.unicode_len();
    let m = if na < nb {
        na
    } else {
        nb
    };
    let mut i: usize = 0;
    while i < m
        invariant
            na == a@.len(),
            nb == b@.len(),
            m == if na < nb {
                na
            } else {
                nb
            },
            0 <= i <= m,
            forall|j: int| 0 <= j < i ==> a@[j] == b@[j],
        decreases m - i,
    {
        let ca = a.get_char(i);
        let cb = b.get_char(i);
        if ca != cb {
            proof {
                lemma_str_lt_skip(a@, b@, i as int);
                assert(a@.skip(i as int)[0] == a@[i as int]);
                assert(b@.skip(i as int)[0] == b@[i as int]);
            }
            let x = ca as u32;
            let y = cb as u32;
            return x < y;
        }
        i = i + 1;
    }
    proof {
        lemma_str_lt_skip(a@, b@, m as int);
        if na < nb {
            assert(a@.skip(m as int).len() == 0);
            assert(b@.skip(m as int).len() > 0);
        } else {
            assert(b@.skip(m as int).len() == 0);
        }
    }
    na < nb
}

/// Inserts `x` into a strictly sorted vector, keeping it strictly sorted;
/// a string already present is not inserted again. Membership afterwards
/// is membership before, plus `x`.
pub fn insert_sorted(v: &mut Vec<String>, x: String)
    requires
        sorted_unique(old(v)@),
    ensures
        sorted_unique(final(v)@),
        forall|y: Seq<char>| #[trigger]
            seq_contains_str(final(v)@, y) == (seq_contains_str(old(v)@, y) || y == x@),
{
    let mut p: usize = 0;
    let mut stop = false;
    while !stop && p < v.len()
        invariant
            sorted_unique(v@),
            0 <= p <= v@.len(),
            forall|j: int| 0 <= j < p ==> str_lt(v@[j]@, x@),
            stop ==> p < v@.len() && !str_lt(v@[p as int]@, x@),
        decreases v@.len() - p + if stop {
            0int
        } else {
            1int
        },
    {
        if str_less(v[p].as_str(), x.as_str()) {
            p = p + 1;
        } else {
            stop = true;
        }
    }
    if p < v.len() && v[p].eq(&x) {
        proof {
            assert forall|y: Seq<char>| #[trigger]
                seq_contains_str(v@, y) == (seq_contains_str(v@, y) || y == x@) by {
                if y == x@ {
                    assert(v@[p as int]@ == y);
                }
            }
        }
        return ;
    }
    proof {
        if p < v@.len() {
            assert(!str_lt(v@[p as int]@, x@));
            assert(v@[p as int]@ != x@);
            lemma_str_lt_trichotomy(v@[p as int]@, x@);
            assert(str_lt(x@, v@[p as int]@));
        }
    }
    let ghost oldv = v@;
    let ghost pp = p as int;
    v.insert(p, x);
    proof {
        assert forall|i: int, j: int| 0 <= i < j < v@.len() implies str_lt(v@[i]@, v@[j]@) by {
            if j < pp {
                assert(v@[i]@ == oldv[i]@);
                assert(v@[j]@ == oldv[j]@);
            } else if j == pp {
                assert(v@[i]@ == oldv[i]@);
            } else {
                assert(v@[j]@ == oldv[j - 1]@);
                if i < pp {
                    assert(v@[i]@ == oldv[i]@);
                    if i < j - 1 {
                        assert(str_lt(oldv[i]@, oldv[j - 1]@));
                    } else {
                        assert(str_lt(oldv[i]@, x@));
                        lemma_str_lt_trans(oldv[i]@, x@, oldv[j - 1]@);
                        assert(str_lt(x@, oldv[pp]@));
                        if pp < j - 1 {
                            lemma_str_lt_trans(x@, oldv[pp]@, oldv[j - 1]@);
                        }
                    }
                } else if i == pp {
                    assert(v@[i]@ == x@);
                    assert(str_lt(x@, oldv[pp]@));
                    if pp < j - 1 {
                        lemma_str_lt_trans(x@, oldv[pp]@, oldv[j - 1]@);
                    }
                } else {
                    assert(v@[i]@ == oldv[i - 1]@);
                    assert(str_lt(oldv[i - 1]@, oldv[j - 1]@));
                }
            }
        }
        assert forall|y: Seq<char>| #[trigger]
            seq_contains_str(v@, y) == (seq_contains_str(oldv, y) || y == x@) by {
            if seq_contains_str(v@, y) {
                let idx = choose|i: int| 0 <= i < v@.len() && v@[i]@ == y;
                if idx < pp {
                    assert(oldv[idx]@ == y);
                } else if idx == pp {
                    assert(y == x@);
                } else {
                    assert(oldv[idx - 1]@ == y);
                }
            }
            if seq_contains_str(oldv, y) {
                let idx = choose|i: int| 0 <= i < oldv.len() && oldv[i]@ == y;
                if idx < pp {
                    assert(v@[idx]@ == y);
                } else {
                    assert(v@[idx + 1]@ == y);
                }
            }
            if y == x@ {
                assert(v@[pp]@ == y);
            }
        }
    }
}

} // verus!
