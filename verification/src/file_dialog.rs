//! What the file dialogs offer.

use vstd::prelude::*;

use crate::text::{chars_of, has_prefix, slice_of, string_of};

verus! {

/// A file type: what the user sees, and the pattern.
#[derive(Debug, Clone, Copy)]
pub struct Filter {
    pub label: &'static str,
    pub pattern: &'static str,
}

/// The file type of a dictionary.
pub fn csv() -> (filter: Filter)
    ensures
        filter.label@ == "Comma-separated values (*.csv)"@,
        filter.pattern@ == "*.csv"@,
{
    Filter { label: "Comma-separated values (*.csv)", pattern: "*.csv" }
}

/// A pattern without the wildcards it begins with.
pub open spec fn extension(pattern: Seq<char>) -> Seq<char>
    decreases pattern.len(),
{
    if seq!['*', '.'].is_prefix_of(pattern) {
        extension(pattern.skip(2))
    } else {
        pattern
    }
}

impl Filter {
    /// The extension for a name typed without one.
    pub fn default_extension(&self) -> (out: String)
        ensures
            out@ == extension(self.pattern@),
    {
        let pattern = chars_of(self.pattern);
        let star = vec!['*', '.'];
        assert(star@ =~= seq!['*', '.']);
        let n: usize = pattern.len();
        let mut from: usize = 0;
        assert(pattern@.skip(0) =~= pattern@);
        let mut rest = slice_of(&pattern, 0, n);
        assert(rest@ =~= pattern@.skip(0));
        while has_prefix(&rest, &star)
            invariant
                n == pattern@.len(),
                from <= n,
                star@ == seq!['*', '.'],
                rest@ == pattern@.skip(from as int),
                extension(pattern@) == extension(rest@),
            decreases n - from,
        {
            proof {
                assert(rest@.len() >= 2);
                assert(rest@.skip(2) =~= pattern@.skip(from + 2));
            }
            from += 2;
            rest = slice_of(&pattern, from, n);
            assert(rest@ =~= pattern@.skip(from as int));
        }
        string_of(&rest)
    }
}

} // verus!
