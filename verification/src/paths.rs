//! The derived-path rule: when an output path is not given explicitly, it
//! is derived from the input path by stripping its compression suffix and
//! appending a fixed one.

use vstd::prelude::*;
use vstd::string::StrSliceExecFns;
use vstd::string::StringExecFns;

verus! {

/// `s` ends with `suffix`.
pub open spec fn spec_ends_with(s: Seq<char>, suffix: Seq<char>) -> bool {
    &&& s.len() >= suffix.len()
    &&& s.subrange(s.len() - suffix.len(), s.len() as int) == suffix
}

/// Whether `s` ends with `suffix`.
pub fn ends_with_str(s: &str, suffix: &str) -> (r: bool)
    ensures
        r == spec_ends_with(s@, suffix@),
{
    let n = s.unicode_len();
    let m = suffix.unicode_len();
    if n < m {
        return false;
    }
    let mut j: usize = 0;
    while j < m
        invariant
            n == s@.len(),
            m == suffix@.len(),
            m <= n,
            0 <= j <= m,
            forall|q: int| 0 <= q < j ==> s@[s@.len() - suffix@.len() + q] == suffix@[q],
        decreases m - j,
    {
        if s.get_char(n - m + j) != suffix.get_char(j) {
            proof {
                assert(s@.subrange(s@.len() - suffix@.len(), s@.len() as int)[j as int]
                    == s@[s@.len() - suffix@.len() + j]);
            }
            return false;
        }
        j = j + 1;
    }
    proof {
        assert(s@.subrange(s@.len() - suffix@.len(), s@.len() as int) =~= suffix@);
    }
    true
}

/// The path a sink uses: the explicit path when one was given; otherwise
/// the input path with a trailing `.fastq.gz` (or any other six-character
/// suffix, taken to be `.gz`-class) stripped, and the fixed suffix
/// appended.
pub fn infer_output_path(fp: Option<&String>, input_file: &String, default_file_ext: &str) -> (r:
    String)
    requires
        fp is None && !spec_ends_with(input_file@, ".fastq.gz"@) ==> input_file@.len() >= 6,
    ensures
        match fp {
            Some(p) => r@ == p@,
            None => r@ == (if spec_ends_with(input_file@, ".fastq.gz"@) {
                input_file@.take(input_file@.len() - 9)
            } else {
                input_file@.take(input_file@.len() - 6)
            }) + default_file_ext@,
        },
{
    match fp {
        Some(file_path) => file_path.clone(),
        None => {
            let n = input_file.as_str().unicode_len();
            let base: String;
            if ends_with_str(input_file.as_str(), ".fastq.gz") {
                proof {
                    reveal_strlit(".fastq.gz");
                }
                base = input_file.as_str().substring_char(0, n - 9).to_owned();
                proof {
                    assert(base@ =~= input_file@.take(input_file@.len() - 9));
                }
            } else {
                base = input_file.as_str().substring_char(0, n - 6).to_owned();
                proof {
                    assert(base@ =~= input_file@.take(input_file@.len() - 6));
                }
            }
            let mut output_file = base;
            output_file.append(default_file_ext);
            output_file
        },
    }
}

} // verus!
