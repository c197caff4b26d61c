//! Display width of text, as measured by the `unicode-width` crate.

use unicode_width::UnicodeWidthStr;
use vstd::prelude::*;

verus! {

/// The number of terminal columns that `unicode-width` assigns to a string.
pub uninterp spec fn display_width(s: Seq<char>) -> usize;

/// `c` is a printable ASCII character (space to `~`).
pub open spec fn is_printable_ascii(c: char) -> bool {
    ' ' <= c && c <= '~'
}

/// `UnicodeWidthStr::width`: the displayed width of `s` in columns (ambiguous
/// characters count as one column). The result is a function of the
/// characters of `s` alone. Claimed beyond that, from the crate's rules
/// for determining width: a string of printable ASCII characters is one
/// column per character (none of them takes part in the special
/// sequences, and each has width 1). Other strings' widths are not stated.
#[verifier::external_body]
pub(crate) fn str_width(s: &str) -> (r: usize)
    ensures
        r == display_width(s@),
        (forall|i: int| 0 <= i < s@.len() ==> is_printable_ascii(#[trigger] s@[i])) ==> r == s@.len(),
{
    UnicodeWidthStr::width(s)
}

} // verus!
