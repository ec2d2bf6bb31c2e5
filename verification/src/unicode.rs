//! What std knows of characters beyond ASCII.

use vstd::prelude::*;

use crate::text::{ascii_lowered, ascii_uppered, plain};

verus! {

/// The text in lower case, by the Unicode rules.
pub uninterp spec fn lowercase(s: Seq<char>) -> Seq<char>;

/// The text in upper case, by the Unicode rules.
pub uninterp spec fn uppercase(s: Seq<char>) -> Seq<char>;

/// Whether a character is a letter or a digit, by the Unicode rules.
pub uninterp spec fn alphanumeric(c: char) -> bool;

/// Whether a character is upper case, by the Unicode rules.
pub uninterp spec fn upper(c: char) -> bool;

pub open spec fn ascii_alphanumeric(c: char) -> bool {
    ||| '0' <= c && c <= '9'
    ||| 'A' <= c && c <= 'Z'
    ||| 'a' <= c && c <= 'z'
}

/// Whether a character is a letter or a digit.
pub open spec fn letter_or_digit(c: char) -> bool {
    if (c as int) < 128 {
        ascii_alphanumeric(c)
    } else {
        alphanumeric(c)
    }
}

/// The text in lower case.
pub open spec fn in_lower_case(s: Seq<char>) -> Seq<char> {
    if plain(s) {
        ascii_lowered(s)
    } else {
        lowercase(s)
    }
}

/// `str::to_lowercase`. On ASCII text it changes the letters A to Z alone.
#[verifier::external_body]
pub(crate) fn to_lowercase(s: &str) -> (lower: String)
    ensures
        lower@ == lowercase(s@),
        plain(s@) ==> lower@ == ascii_lowered(s@),
{
    s.to_lowercase()
}

/// `str::to_uppercase`. On ASCII text it changes the letters a to z alone.
#[verifier::external_body]
pub(crate) fn to_uppercase(s: &str) -> (upper: String)
    ensures
        upper@ == uppercase(s@),
        plain(s@) ==> upper@ == ascii_uppered(s@),
{
    s.to_uppercase()
}

/// `char::is_alphanumeric`. Of the ASCII characters it holds of letters and
/// digits alone.
#[verifier::external_body]
pub(crate) fn is_alphanumeric(c: char) -> (yes: bool)
    ensures
        yes == alphanumeric(c),
        (c as int) < 128 ==> yes == ascii_alphanumeric(c),
{
    c.is_alphanumeric()
}

/// `char::is_uppercase`. Of the ASCII characters it holds of A to Z alone.
#[verifier::external_body]
pub(crate) fn is_uppercase(c: char) -> (yes: bool)
    ensures
        yes == upper(c),
        (c as int) < 128 ==> yes == ('A' <= c && c <= 'Z'),
{
    c.is_uppercase()
}

} // verus!
