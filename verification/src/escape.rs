//! Escapes in the text of string literals: the `unescaper` crate.
use vstd::prelude::*;

verus! {

/// `unescaper::Error`, why the escapes of a text cannot be resolved.
#[verifier::external_type_specification]
#[verifier::external_body]
pub struct ExUnescaperError(unescaper::Error);

/// The character that a backslash and `c` stand for, if they stand for one by themselves.
pub open spec fn simple_escape(c: char) -> Option<char> {
    if c == 'b' {
        Some('\u{8}')
    } else if c == 'f' {
        Some('\u{c}')
    } else if c == 'n' {
        Some('\n')
    } else if c == 'r' {
        Some('\r')
    } else if c == 't' {
        Some('\t')
    } else if c == 'v' {
        Some('\u{b}')
    } else if c == '\'' || c == '"' || c == '\\' || c == '/' {
        Some(c)
    } else {
        None
    }
}

/// The text `raw` with its escapes resolved, if each of them is a backslash and a character
/// that stand for a character by themselves.
pub open spec fn simply_unescaped(raw: Seq<char>) -> Option<Seq<char>>
    decreases raw.len(),
{
    if raw.len() == 0 {
        Some(Seq::empty())
    } else if raw[0] != '\\' {
        match simply_unescaped(raw.skip(1)) {
            Some(rest) => Some(seq![raw[0]] + rest),
            None => None,
        }
    } else if raw.len() == 1 {
        None
    } else {
        match (simple_escape(raw[1]), simply_unescaped(raw.skip(2))) {
            (Some(c), Some(rest)) => Some(seq![c] + rest),
            _ => None,
        }
    }
}

/// The text that `unescaper::unescape` makes of a text with other escapes, if it can resolve
/// them.
pub uninterp spec fn oddly_unescaped(raw: Seq<char>) -> Option<Seq<char>>;

/// The text `raw` with its escapes resolved, if they can be.
pub open spec fn unescaped(raw: Seq<char>) -> Option<Seq<char>> {
    match simply_unescaped(raw) {
        Some(text) => Some(text),
        None => oddly_unescaped(raw),
    }
}

/// A text without a backslash has no escapes to resolve.
pub proof fn unescaped_without_backslash(raw: Seq<char>)
    requires
        forall|i: int| 0 <= i < raw.len() ==> raw[i] != '\\',
    ensures
        simply_unescaped(raw) == Some(raw),
        unescaped(raw) == Some(raw),
    decreases raw.len(),
{
    if raw.len() == 0 {
        assert(raw =~= Seq::empty());
    } else {
        unescaped_without_backslash(raw.skip(1));
        assert(raw =~= seq![raw[0]] + raw.skip(1));
    }
}

/// `unescaper::unescape`: the text with its escapes resolved. What is made of the escapes of
/// characters by their numbers is not said, nor which texts have escapes that cannot be
/// resolved.
#[verifier::external_body]
pub(crate) fn unescape(raw: &str) -> (r: Result<String, unescaper::Error>)
    ensures
        simply_unescaped(raw@) matches Some(text) ==> r is Ok && r->Ok_0@ == text,
        simply_unescaped(raw@) is None ==> match r {
            Ok(text) => oddly_unescaped(raw@) == Some(text@),
            Err(_) => oddly_unescaped(raw@) is None,
        },
{
    unescaper::unescape(raw)
}

} // verus!
