//! How a failure is put into words: the `winnow` crate's `ContextError`.
use super::error::{StrContext, StrContextValue};
use vstd::prelude::*;

verus! {

/// The first label among the contexts, if there is one.
pub open spec fn first_label(contexts: Seq<StrContext>) -> Option<&'static str>
    decreases contexts.len(),
{
    if contexts.len() == 0 {
        None
    } else {
        match contexts[0] {
            StrContext::Label(label) => Some(label),
            StrContext::Expected(_) => first_label(contexts.drop_first()),
        }
    }
}

/// What was expected, in the order of the contexts.
pub open spec fn expected_values(contexts: Seq<StrContext>) -> Seq<StrContextValue>
    decreases contexts.len(),
{
    if contexts.len() == 0 {
        Seq::empty()
    } else {
        let rest = expected_values(contexts.drop_first());
        match contexts[0] {
            StrContext::Label(_) => rest,
            StrContext::Expected(value) => seq![value] + rest,
        }
    }
}

/// What was expected, as it is written: literals in backquotes, descriptions as they are.
pub open spec fn value_text(value: StrContextValue) -> Seq<char> {
    match value {
        StrContextValue::CharLiteral(c) => seq!['`', c, '`'],
        StrContextValue::StringLiteral(s) => seq!['`'] + s@ + seq!['`'],
        StrContextValue::Description(s) => s@,
    }
}

/// The values as they are written, with commas between them.
pub open spec fn listed(values: Seq<StrContextValue>) -> Seq<char>
    decreases values.len(),
{
    if values.len() == 0 {
        Seq::empty()
    } else if values.len() == 1 {
        value_text(values[0])
    } else {
        listed(values.drop_last()) + seq![',', ' '] + value_text(values.last())
    }
}

/// A line that says what was invalid, if anything is said to be, and a line of what was
/// expected, if anything was.
pub open spec fn plain_text(contexts: Seq<StrContext>) -> Seq<char> {
    let expected = expected_values(contexts);
    let first = match first_label(contexts) {
        Some(label) => "invalid "@ + label@,
        None => Seq::empty(),
    };
    let second = if expected.len() > 0 {
        "expected "@ + listed(expected)
    } else {
        Seq::empty()
    };
    if first_label(contexts) is Some && expected.len() > 0 {
        first + seq!['\n'] + second
    } else {
        first + second
    }
}

/// Whether `c` is neither a control character nor a backquote.
pub open spec fn is_plain_char(c: char) -> bool {
    &&& c as u32 >= 32
    &&& c as u32 != 127
    &&& c != '`'
}

/// Whether every character that was expected is neither a control character nor a backquote.
pub open spec fn is_plain(contexts: Seq<StrContext>) -> bool {
    forall|i: int| 0 <= i < contexts.len() ==> match #[trigger] contexts[i] {
        StrContext::Expected(StrContextValue::CharLiteral(c)) => is_plain_char(c),
        _ => true,
    }
}

/// The text that `winnow` makes of contexts with a control character or a backquote among
/// what was expected.
pub uninterp spec fn odd_text(contexts: Seq<StrContext>) -> Seq<char>;

/// The text of a failure with these contexts.
pub open spec fn context_text(contexts: Seq<StrContext>) -> Seq<char> {
    if is_plain(contexts) {
        plain_text(contexts)
    } else {
        odd_text(contexts)
    }
}

/// The `Display` of `winnow::error::ContextError`, filled by `ContextError::extend`: what was
/// invalid and what was expected. How control characters and backquotes are written is not
/// said.
#[verifier::external_body]
pub(crate) fn context_error_text(contexts: &Vec<StrContext>) -> (r: String)
    ensures
        is_plain(contexts@) ==> r@ == plain_text(contexts@),
        !is_plain(contexts@) ==> r@ == odd_text(contexts@),
{
    let mut error = winnow::error::ContextError::<winnow::error::StrContext>::new();
    error.extend(contexts.iter().map(|context| match context {
        StrContext::Label(s) => winnow::error::StrContext::Label(s),
        StrContext::Expected(value) => winnow::error::StrContext::Expected(match value {
            StrContextValue::CharLiteral(c) => winnow::error::StrContextValue::CharLiteral(*c),
            StrContextValue::StringLiteral(s) => winnow::error::StrContextValue::StringLiteral(s),
            StrContextValue::Description(s) => winnow::error::StrContextValue::Description(s),
        }),
    }));
    error.to_string()
}

} // verus!
