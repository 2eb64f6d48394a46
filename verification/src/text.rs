//! Strings of the standard library.
use vstd::prelude::*;

verus! {

/// `String::push`: appends a character.
#[verifier::external_body]
pub(crate) fn text_push(s: &mut String, c: char)
    ensures
        final(s)@ == old(s)@.push(c),
{
    s.push(c)
}

/// `==` on two texts: whether they have the same characters.
#[verifier::external_body]
pub(crate) fn text_same(a: &str, b: &str) -> (r: bool)
    ensures
        r == (a@ == b@),
{
    a == b
}

/// Whether all characters of a text are ASCII characters.
pub open spec fn is_ascii(text: Seq<char>) -> bool {
    forall|i: int| 0 <= i < text.len() ==> (#[trigger] text[i]) as u32 <= 127
}

/// An ASCII character in lower case.
pub open spec fn ascii_lowercase(c: char) -> char {
    if 'A' <= c && c <= 'Z' {
        (c as u32 + 32) as char
    } else {
        c
    }
}

/// The text that `str::to_lowercase` makes of a text that is not all ASCII.
pub uninterp spec fn odd_lowercase(text: Seq<char>) -> Seq<char>;

/// A text in lower case.
pub open spec fn lowercase(text: Seq<char>) -> Seq<char> {
    if is_ascii(text) {
        text.map_values(|c: char| ascii_lowercase(c))
    } else {
        odd_lowercase(text)
    }
}

/// `str::to_lowercase`: the text in lower case. Which other characters than the letters of
/// ASCII are which in lower case is not said.
#[verifier::external_body]
pub(crate) fn text_lowercase(text: &str) -> (r: String)
    ensures
        is_ascii(text@) ==> r@ == text@.map_values(|c: char| ascii_lowercase(c)),
        !is_ascii(text@) ==> r@ == odd_lowercase(text@),
{
    text.to_lowercase()
}

} // verus!
