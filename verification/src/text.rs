//! ASCII case mapping over text, as the runtime canonicalises names.

use vstd::prelude::*;

verus! {

/// ASCII upper case of one character; every other character is unchanged.
pub open spec fn ascii_upper_char(c: char) -> char {
    if 97 <= c as u32 && c as u32 <= 122 {
        ((c as u32) - 32) as char
    } else {
        c
    }
}

/// ASCII lower case of one character; every other character is unchanged.
pub open spec fn ascii_lower_char(c: char) -> char {
    if 65 <= c as u32 && c as u32 <= 90 {
        ((c as u32) + 32) as char
    } else {
        c
    }
}

/// ASCII upper case of a text.
pub open spec fn ascii_upper(s: Seq<char>) -> Seq<char> {
    s.map_values(|c: char| ascii_upper_char(c))
}

/// ASCII lower case of a text.
pub open spec fn ascii_lower(s: Seq<char>) -> Seq<char> {
    s.map_values(|c: char| ascii_lower_char(c))
}

/// Two texts are equal ignoring ASCII case.
pub open spec fn eq_ci(a: Seq<char>, b: Seq<char>) -> bool {
    ascii_lower(a) == ascii_lower(b)
}

/// Calls `str::to_ascii_uppercase`, documented to map `'a'..='z'` to
/// `'A'..='Z'` and leave every other character unchanged.
#[verifier::external_body]
pub(crate) fn to_upper(s: &str) -> (r: String)
    ensures
        r@ == ascii_upper(s@),
{
    s.to_ascii_uppercase()
}

/// Calls `str::to_ascii_lowercase`, documented to map `'A'..='Z'` to
/// `'a'..='z'` and leave every other character unchanged.
#[verifier::external_body]
pub(crate) fn to_lower(s: &str) -> (r: String)
    ensures
        r@ == ascii_lower(s@),
{
    s.to_ascii_lowercase()
}

/// Calls `str::eq_ignore_ascii_case`, documented to be equivalent to
/// comparing the two texts' ASCII lower cases.
#[verifier::external_body]
pub(crate) fn same_ci(a: &str, b: &str) -> (r: bool)
    ensures
        r == eq_ci(a@, b@),
{
    a.eq_ignore_ascii_case(b)
}

/// Calls `str::contains` with a `char` pattern, documented to be true iff the
/// character occurs in the text.
#[verifier::external_body]
pub(crate) fn has_char(s: &str, c: char) -> (r: bool)
    ensures
        r == s@.contains(c),
{
    s.contains(c)
}

} // verus!
