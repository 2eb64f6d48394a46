//! Shared immutable text: the `ArcStr` of the `arcstr` crate.
use arcstr::ArcStr;
use vstd::prelude::*;

verus! {

/// `arcstr::ArcStr`, a reference counted string.
#[verifier::external_type_specification]
#[verifier::external_body]
pub struct ExArcStr(ArcStr);

/// The characters that an `ArcStr` holds.
pub uninterp spec fn arc_chars(s: ArcStr) -> Seq<char>;

/// Whether `a` comes before `b` when texts are ordered character by character.
pub open spec fn text_less(a: Seq<char>, b: Seq<char>) -> bool
    decreases a.len(),
{
    if b.len() == 0 {
        false
    } else if a.len() == 0 {
        true
    } else if a[0] == b[0] {
        text_less(a.drop_first(), b.drop_first())
    } else {
        a[0] < b[0]
    }
}

/// `ArcStr::from(&str)`: the new string holds the characters of `text`.
#[verifier::external_body]
pub(crate) fn arc_from(text: &str) -> (s: ArcStr)
    ensures
        arc_chars(s) == text@,
{
    ArcStr::from(text)
}

/// `ArcStr::as_str`: the characters.
#[verifier::external_body]
pub(crate) fn arc_str(s: &ArcStr) -> (r: &str)
    ensures
        r@ == arc_chars(*s),
{
    s.as_str()
}

/// `ArcStr::clone`: another handle on the same text.
pub assume_specification[ <ArcStr as Clone>::clone ](s: &ArcStr) -> (r: ArcStr)
    ensures
        arc_chars(r) == arc_chars(*s),
;

/// `<` on two `ArcStr`s: the order of their texts. Texts are ordered by their bytes in
/// UTF-8, which is the order of their characters' code points.
#[verifier::external_body]
pub(crate) fn arc_less(a: &ArcStr, b: &ArcStr) -> (r: bool)
    ensures
        r == text_less(arc_chars(*a), arc_chars(*b)),
{
    a < b
}

/// `==` on two `ArcStr`s: whether they hold the same text.
#[verifier::external_body]
pub(crate) fn arc_same(a: &ArcStr, b: &ArcStr) -> (r: bool)
    ensures
        r == (arc_chars(*a) == arc_chars(*b)),
{
    a == b
}

} // verus!
