//! What failures come to.
use super::super::error::{failure_at, with_context, ErrorModel, StrContext, StrContextValue};
use super::super::grammar::{t, token_is_valid, without_underscores};
use super::super::outcome::Outcome;
use super::super::report::context_text;
use super::super::{blamed, help_text, pointed_at, SyntaxError};
use super::expressions::underscores_count_for_nothing;
use super::token_at;
use crate::big_int::is_digit;
use crate::escape::unescaped_without_backslash;
use crate::model::{Span, Token};
use crate::token::TokenKind;
use vstd::prelude::*;

verus! {

/// That the text of the tokens of a kind was expected.
pub open spec fn wanted(kind: TokenKind) -> StrContext {
    StrContext::Expected(StrContextValue::StringLiteral(kind.expected()))
}

/// Where a token of the kind `kind` is wanted and does not stand, the parse fails there and leaves
/// room for other alternatives, and what was expected is the text of such tokens.
pub proof fn missing_token(ts: Seq<Token>, i: int, kind: TokenKind)
    requires
        !token_at(ts, i, kind),
    ensures
        (t(ts, i, kind) matches Outcome::Failed { cut, at, error } && !cut && at == i && error
            == seq![(ts.len() - i, seq![wanted(kind)])]),
{
    let failed = failure_at(ts.len() - i);
    let context = wanted(kind);
    assert(failed.last().1.push(context) =~= seq![context]);
    assert(failed.drop_last().push((ts.len() - i, seq![context])) =~= seq![
        (ts.len() - i, seq![context]),
    ]);
}

/// A failure that gets a context has it last in its last entry, which is where the context was
/// added. What the entry said before stays if it was there too, and all other entries stay.
pub proof fn context_is_added_last(error: ErrorModel, left: int, context: StrContext, k: int)
    ensures
        ({
            let after = with_context(error, left, context);
            &&& after.len() == if error.len() == 0 {
                1
            } else {
                error.len()
            }
            &&& after.last().0 == left
            &&& after.last().1.last() == context
            &&& after.last().1.drop_last() == if error.len() > 0 && error.last().0 == left {
                error.last().1
            } else {
                Seq::empty()
            }
            &&& 0 <= k < after.len() - 1 ==> after[k] == error[k]
        }),
{
    let after = with_context(error, left, context);
    assert(after.last().1.drop_last() =~= if error.len() > 0 && error.last().0 == left {
        error.last().1
    } else {
        Seq::empty()
    });
}

/// If all alternatives fail and leave room for others, the failures of the earlier ones come before
/// those of the later ones, and the last one says where. The first alternative that does not fail
/// so is the outcome.
pub proof fn alternatives_in_order<T>(a: Outcome<T>, b: Outcome<T>, c: Outcome<T>)
    ensures
        a.or(b).or(c) == a.or(b.or(c)),
        a is Done ==> a.or(b) == a,
        a matches Outcome::Failed { cut: true, .. } ==> a.or(b) == a,
        a matches Outcome::Failed { cut: false, .. } ==> (b is Done ==> a.or(b) == b),
        a matches Outcome::Failed { cut: false, error: first, .. } ==> (
        b matches Outcome::Failed { cut: false, at, error: second } ==> a.or(b) == (
        Outcome::<T>::Failed { cut: false, at, error: first + second })),
{
    if let (
        Outcome::Failed { cut: false, error: first, .. },
        Outcome::Failed { cut: false, error: second, .. },
        Outcome::Failed { cut: false, error: third, .. },
    ) = (a, b, c) {
        assert((first + second) + third =~= first + (second + third));
    }
}

/// The words for failures are the words for each of them, in order, each with a line break after
/// it.
pub proof fn help_is_in_order(first: ErrorModel, second: ErrorModel, left: int, contexts: Seq<
    StrContext,
>)
    ensures
        help_text(first + second) == help_text(first) + help_text(second),
        help_text(seq![(left, contexts)]) == context_text(contexts) + seq!['\n'],
        help_text(Seq::empty()) == Seq::<char>::empty(),
    decreases second.len(),
{
    let one = seq![(left, contexts)];
    let none: ErrorModel = Seq::empty();
    assert(one.drop_last() =~= none);
    assert(help_text(none) =~= Seq::empty());
    assert(one.last().1 == contexts);
    assert(help_text(one) =~= context_text(contexts) + seq!['\n']);
    if second.len() == 0 {
        assert(first + second =~= first);
        assert(help_text(first) + help_text(second) =~= help_text(first));
    } else {
        let all = first + second;
        help_is_in_order(first, second.drop_last(), left, contexts);
        assert(all.drop_last() =~= first + second.drop_last());
        assert(help_text(all) =~= help_text(first) + help_text(second));
    }
}

/// A failure is blamed on the token where it was, or on the last one if that is past the end.
pub proof fn blame(ts: Seq<Token>, at: int)
    requires
        0 <= at,
        ts.len() > 0,
    ensures
        at < ts.len() ==> blamed(ts, at) == ts[at],
        at >= ts.len() ==> blamed(ts, at) == ts[ts.len() - 1],
{
}

/// The stretch that is pointed at starts where the token does, and ends where the token does,
/// unless
/// the token is one byte long: then it is empty. A token that is nowhere is pointed at as the whole
/// text.
pub proof fn pointed_stretch(span: Span, size: nat)
    ensures
        match span {
            Span::Nowhere => pointed_at(span, size) == (0int, size as int),
            Span::At { start, end, .. } => {
                let (offset, length) = pointed_at(span, size);
                &&& offset == start.offset
                &&& end.offset - start.offset != 1 ==> offset + length == end.offset
                &&& end.offset - start.offset == 1 ==> length == 0
            },
        },
{
}

/// A report of a failure at a place is about the token there, or about the last one if the place is
/// past the end: it covers the stretch of that token, points at it, and has the words for the
/// failures.
pub proof fn report_says(
    report: SyntaxError,
    ts: Seq<Token>,
    size: nat,
    at: int,
    error: ErrorModel,
    token: Token,
)
    requires
        ts.len() > 0,
        0 <= at,
        token == if at < ts.len() {
            ts[at]
        } else {
            ts[ts.len() - 1]
        },
        report.reports(ts, size, at, error),
    ensures
        report.span@ == token.span,
        report.help@ == help_text(error),
        match token.span {
            Span::Nowhere => report.source_span.offset == 0 && report.source_span.length == size,
            Span::At { start, end, .. } => {
                &&& report.source_span.offset == start.offset
                &&& end.offset - start.offset != 1 ==> report.source_span.offset
                    + report.source_span.length == end.offset
                &&& end.offset - start.offset == 1 ==> report.source_span.length == 0
            },
        },
{
}

/// A number of digits, at least one, and underscores denotes a value, and so does a text without a
/// backslash, and every token that is neither a number nor a text.
pub proof fn valid_tokens(token: Token)
    ensures
        token.kind != TokenKind::Integer && token.kind != TokenKind::String ==> token_is_valid(
            token,
        ),
        token.kind == TokenKind::String && (forall|k: int|
            0 <= k < token.raw.len() ==> token.raw[k] != '\\') ==> token_is_valid(token),
        token.kind == TokenKind::Integer && (forall|k: int|
            0 <= k < token.raw.len() ==> is_digit(#[trigger] token.raw[k]) || token.raw[k] == '_')
            && (exists|k: int| 0 <= k < token.raw.len() && is_digit(#[trigger] token.raw[k]))
            ==> token_is_valid(token),
{
    if forall|k: int| 0 <= k < token.raw.len() ==> token.raw[k] != '\\' {
        unescaped_without_backslash(token.raw);
    }
    if (forall|k: int|
        0 <= k < token.raw.len() ==> is_digit(#[trigger] token.raw[k]) || token.raw[k] == '_') && (
    exists|k: int| 0 <= k < token.raw.len() && is_digit(#[trigger] token.raw[k])) {
        underscores_count_for_nothing(token.raw);
        assert(is_digit(without_underscores(token.raw)[0]));
    }
}

} // verus!
