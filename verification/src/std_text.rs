//! Character and string functions of std that vstd gives no specification, each
//! behind one wrapper whose contract states what std documents of it.
use vstd::prelude::*;

verus! {

/// An ASCII character: one below U+0080.
pub open spec fn is_ascii_char(c: char) -> bool {
    (c as u32) < 0x80
}

/// ASCII lower-casing of a single character (`char::to_ascii_lowercase`).
pub open spec fn ascii_lower(c: char) -> char {
    if 'A' <= c <= 'Z' {
        ((c as u32) + 32) as char
    } else {
        c
    }
}

/// The string whose characters are those of `v`.
///
/// Calls `String::from_iter` over the characters of `v` (`v.iter().collect()`); the contract
/// claims that the result holds exactly those characters in order, which std documents
/// for collecting characters into a `String`.
#[verifier::external_body]
pub(crate) fn string_from_chars(v: &[char]) -> (r: String)
    ensures
        r@ == v@,
{
    v.iter().collect()
}

/// What `str::to_lowercase` makes of a character sequence under Unicode's case mapping.
pub uninterp spec fn unicode_lowercase(s: Seq<char>) -> Seq<char>;

/// Lower-cases `s` with `str::to_lowercase`.
///
/// The contract names the Unicode result and states what std documents of it on ASCII
/// input: every character is mapped by ASCII lower-casing and the length is kept.
/// The full Unicode case mapping is left to the name.
#[verifier::external_body]
pub(crate) fn to_lowercase(s: &str) -> (r: String)
    ensures
        r@ == unicode_lowercase(s@),
        (forall|i: int| 0 <= i < s@.len() ==> is_ascii_char(#[trigger] s@[i])) ==> r@ == s@.map_values(
            |c: char| ascii_lower(c),
        ),
{
    s.to_lowercase()
}

/// What `char::to_uppercase` yields for a character under Unicode's case mapping.
pub uninterp spec fn unicode_uppercase(c: char) -> Seq<char>;

/// The characters of `c.to_uppercase()`, collected into a string.
///
/// The contract names the Unicode result and states the ASCII part that std documents:
/// a lower-case ASCII letter becomes the matching capital, any other ASCII character
/// stays as it is.
#[verifier::external_body]
pub(crate) fn char_to_uppercase(c: char) -> (r: String)
    ensures
        r@ == unicode_uppercase(c),
        'a' <= c <= 'z' ==> r@ == seq![((c as u32) - 32) as char],
        is_ascii_char(c) && !('a' <= c <= 'z') ==> r@ == seq![c],
{
    c.to_uppercase().collect()
}

/// Whether `char::is_alphanumeric` holds of a character (Unicode `Alphabetic` or `Numeric`).
pub uninterp spec fn unicode_alphanumeric(c: char) -> bool;

/// Tests `c` with `char::is_alphanumeric`.
///
/// The contract names the Unicode answer and states the ASCII part: on ASCII characters the
/// test holds of exactly the digits and the letters.
#[verifier::external_body]
pub(crate) fn char_is_alphanumeric(c: char) -> (r: bool)
    ensures
        r == unicode_alphanumeric(c),
        is_ascii_char(c) ==> (r <==> ('0' <= c <= '9' || 'a' <= c <= 'z' || 'A' <= c <= 'Z')),
{
    c.is_alphanumeric()
}

} // verus!
