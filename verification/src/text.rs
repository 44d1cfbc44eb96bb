//! Character-level helpers: locating the first space of a header,
//! splitting on colons, token extraction, and line content length.

use vstd::prelude::*;

verus! {

/// The views of a sequence of strings.
pub open spec fn str_views(v: Seq<String>) -> Seq<Seq<char>> {
    v.map_values(|s: String| s@)
}

/// Whether some entry of `v` has view `x`.
pub open spec fn seq_contains_str(v: Seq<String>, x: Seq<char>) -> bool {
    exists|i: int| 0 <= i < v.len() && v[i]@ == x
}

/// `i` is the index of the first space character of `s`.
pub open spec fn first_space_at(s: Seq<char>, i: int) -> bool {
    &&& 0 <= i < s.len()
    &&& s[i] == ' '
    &&& forall|j: int| 0 <= j < i ==> s[j] != ' '
}

/// `s` contains at least one space character.
pub open spec fn has_space(s: Seq<char>) -> bool {
    exists|i: int| first_space_at(s, i)
}

/// The index of the first space character of `s` (meaningful only when
/// `has_space(s)` holds).
pub open spec fn first_space_of(s: Seq<char>) -> int {
    choose|i: int| first_space_at(s, i)
}

/// The fields of `s` delimited by `sep`, in order. A sequence without the
/// separator has exactly one field; every separator ends one field and
/// begins another, so there is always at least one field.
pub open spec fn split_on(s: Seq<char>, sep: char) -> Seq<Seq<char>>
    decreases s.len(),
{
    if s.len() == 0 {
        seq![Seq::<char>::empty()]
    } else if s.last() == sep {
        split_on(s.drop_last(), sep).push(Seq::<char>::empty())
    } else {
        let r = split_on(s.drop_last(), sep);
        r.update(r.len() - 1, r.last().push(s.last()))
    }
}

/// The number of characters of a line, a trailing newline not counted.
pub open spec fn content_len(s: Seq<char>) -> nat {
    if s.len() > 0 && s.last() == '\n' {
        (s.len() - 1) as nat
    } else {
        s.len()
    }
}

/// Four whole, non-empty lines start at `pos`: one record can be read
/// there. An empty line, like a missing one, is treated as stream end.
pub open spec fn chunk_readable_at(l: Seq<Seq<char>>, pos: int) -> bool {
    &&& 0 <= pos
    &&& pos + 4 <= l.len()
    &&& l[pos].len() > 0
    &&& l[pos + 1].len() > 0
    &&& l[pos + 2].len() > 0
    &&& l[pos + 3].len() > 0
}

/// ASCII whitespace, as used to delimit the identifier token of an
/// exclusion-file line.
pub open spec fn is_ws_char(c: char) -> bool {
    c == ' ' || c == '\t' || c == '\r' || c == '\n'
}

/// `i` is the end of the leading token of `s`: everything before `i` is
/// non-whitespace, and `i` is either the first whitespace index or the end.
pub open spec fn token_end_at(s: Seq<char>, i: int) -> bool {
    &&& 0 <= i <= s.len()
    &&& (i == s.len() || is_ws_char(s[i]))
    &&& forall|j: int| 0 <= j < i ==> !is_ws_char(s[j])
}

/// The leading token of `s`: its characters up to the first whitespace
/// character, or all of `s` if it has none.
pub open spec fn token_of(s: Seq<char>) -> Seq<char> {
    s.take(choose|i: int| token_end_at(s, i))
}

/// The index of the first space of `s`, if `s` has one.
pub fn find_first_space(s: &str) -> (r: Option<usize>)
    ensures
        match r {
            Some(i) => first_space_at(s@, i as int),
            None => !has_space(s@),
        },
{
    let n = s.unicode_len();
    let mut i: usize = 0;
    while i < n
        invariant
            n == s@.len(),
            0 <= i <= n,
            forall|j: int| 0 <= j < i ==> s@[j] != ' ',
        decreases n - i,
    {
        if s.get_char(i) == ' ' {
            return Some(i);
        }
        i = i + 1;
    }
    assert(forall|k: int| !first_space_at(s@, k));
    None
}

/// The end of the leading non-whitespace token of `s`.
pub fn find_token_end(s: &str) -> (r: usize)
    ensures
        token_end_at(s@, r as int),
{
    let n = s.unicode_len();
    let mut i: usize = 0;
    while i < n
        invariant
            n == s@.len(),
            0 <= i <= n,
            forall|j: int| 0 <= j < i ==> !is_ws_char(s@[j]),
        decreases n - i,
    {
        let c = s.get_char(i);
        if c == ' ' || c == '\t' || c == '\r' || c == '\n' {
            return i;
        }
        i = i + 1;
    }
    n
}

/// Splits `s` on `:`, exactly as `split_on(s@, ':')` describes.
pub fn split_colons(s: &str) -> (r: Vec<String>)
    ensures
        str_views(r@) == split_on(s@, ':'),
        r@.len() >= 1,
{
    let n = s.unicode_len();
    let mut fields: Vec<String> = Vec::new();
    let mut start: usize = 0;
    let mut i: usize = 0;
    proof {
        assert(s@.take(0) =~= Seq::<char>::empty());
        assert(str_views(fields@).push(s@.subrange(0, 0)) =~= seq![Seq::<char>::empty()]);
    }
    while i < n
        invariant
            n == s@.len(),
            0 <= start <= i <= n,
            str_views(fields@).push(s@.subrange(start as int, i as int)) == split_on(
                s@.take(i as int),
                ':',
            ),
        decreases n - i,
    {
        let ghost pre = s@.take(i as int);
        let ghost post = s@.take(i + 1int);
        assert(post.drop_last() =~= pre);
        assert(post.last() == s@[i as int]);
        if s.get_char(i) == ':' {
            let f = s.substring_char(start, i).to_owned();
            proof {
                assert(fields@.push(f).map_values(|t: String| t@) =~= str_views(fields@).push(
                    f@,
                ));
                assert(s@.subrange(start as int, i + 1int).len() == i + 1 - start);
            }
            fields.push(f);
            start = i + 1;
            proof {
                assert(s@.subrange(start as int, i + 1int) =~= Seq::<char>::empty());
                assert(str_views(fields@).push(s@.subrange(start as int, i + 1int)) =~= split_on(
                    post,
                    ':',
                ));
            }
        } else {
            proof {
                let r = split_on(pre, ':');
                assert(r == str_views(fields@).push(s@.subrange(start as int, i as int)));
                assert(r.len() == str_views(fields@).len() + 1);
                assert(r.last() == s@.subrange(start as int, i as int));
                assert(s@.subrange(start as int, i as int).push(s@[i as int]) =~= s@.subrange(
                    start as int,
                    i + 1int,
                ));
                assert(r.update(r.len() - 1, r.last().push(post.last())) =~= str_views(
                    fields@,
                ).push(s@.subrange(start as int, i + 1int)));
            }
        }
        i = i + 1;
    }
    let f = s.substring_char(start, n).to_owned();
    proof {
        assert(s@.take(n as int) =~= s@);
        assert(fields@.push(f).map_values(|t: String| t@) =~= str_views(fields@).push(f@));
    }
    fields.push(f);
    fields
}

/// The content length of a line: its character count, not counting one
/// trailing newline.
pub fn content_length(s: &str) -> (r: usize)
    ensures
        r == content_len(s@),
{
    let n = s.unicode_len();
    if n > 0 && s.get_char(n - 1) == '\n' {
        n - 1
    } else {
        n
    }
}

/// Whether some entry of `v` equals the string `x`.
pub fn vec_contains_string(v: &Vec<String>, x: &String) -> (r: bool)
    ensures
        r == seq_contains_str(v@, x@),
{
    let mut i: usize = 0;
    while i < v.len()
        invariant
            0 <= i <= v@.len(),
            forall|j: int| 0 <= j < i ==> v@[j]@ != x@,
        decreases v@.len() - i,
    {
        if v[i].eq(x) {
            return true;
        }
        i = i + 1;
    }
    false
}

} // verus!
