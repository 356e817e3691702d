//! The few string operations of the standard library that the rules need.

use vstd::prelude::*;

verus! {

/// The texts of a sequence of strings.
pub open spec fn texts(strings: Seq<String>) -> Seq<Seq<char>> {
    Seq::new(strings.len(), |i: int| strings[i]@)
}

/// `text` with every occurrence of the character `from` replaced by `to`.
pub open spec fn substituted(text: Seq<char>, from: char, to: Seq<char>) -> Seq<char>
    decreases text.len(),
{
    if text.len() == 0 {
        Seq::empty()
    } else if text[0] == from {
        to + substituted(text.drop_first(), from, to)
    } else {
        seq![text[0]] + substituted(text.drop_first(), from, to)
    }
}

/// Whether `needle` occurs in `haystack` as a run of consecutive characters.
pub open spec fn occurs_in(needle: Seq<char>, haystack: Seq<char>) -> bool {
    exists|start: int|
        0 <= start && start + needle.len() <= haystack.len() && #[trigger] haystack.subrange(
            start,
            start + needle.len(),
        ) == needle
}

/// The lowercase form that `str::to_lowercase` gives to a text. It follows the
/// Unicode case tables, so it is named here and not written out.
pub uninterp spec fn lowercase(text: Seq<char>) -> Seq<char>;

/// `str::eq` of the standard library: two string slices are equal exactly
/// when they hold the same characters.
#[verifier::external_body]
pub(crate) fn str_eq(a: &str, b: &str) -> (equal: bool)
    ensures
        equal == (a@ == b@),
{
    a == b
}

/// `str::replace` of the standard library with a character as its pattern:
/// every occurrence of `from` gives way to `to`, and all else stays in place.
#[verifier::external_body]
pub(crate) fn replace_char(text: &str, from: char, to: &str) -> (replaced: String)
    ensures
        replaced@ == substituted(text@, from, to@),
{
    text.replace(from, to)
}

/// `str::to_lowercase` of the standard library. The contract names its
/// result: the same text always has the same lowercase form.
#[verifier::external_body]
pub(crate) fn to_lowercase(text: &str) -> (lowered: String)
    ensures
        lowered@ == lowercase(text@),
{
    text.to_lowercase()
}

/// `str::contains` of the standard library with a string slice as its
/// pattern: true exactly when the pattern is a run of characters of the text.
#[verifier::external_body]
pub(crate) fn contains(haystack: &str, needle: &str) -> (found: bool)
    ensures
        found == occurs_in(needle@, haystack@),
{
    haystack.contains(needle)
}

} // verus!
