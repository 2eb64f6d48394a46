//! The grammar of patterns.
use super::super::outcome::Outcome;
use super::types::annotation;
use super::{Rules, label, list1, local_name, open_type, t};
use crate::model::{Expression, LocalName, Pattern, Span, Token, Type};
use crate::token::TokenKind;
use vstd::prelude::*;

verus! {

/// A pattern.
#[verifier::opaque]
pub open spec fn pattern(ts: Seq<Token>, r: Rules, i: int) -> Outcome<Pattern> {
    pattern_name(ts, r, i)
        .or(pattern_receive_type(ts, r, i))
        .or(pattern_receive(ts, r, i))
        .or(pattern_continue(ts, i))
        .or(pattern_default(ts, r, i))
        .or(pattern_try(ts, r, i))
}

/// `x: a`
#[verifier::opaque]
pub open spec fn pattern_name(ts: Seq<Token>, r: Rules, i: int) -> Outcome<Pattern> {
    local_name(ts, i).and_then(
        |i: int, name: LocalName|
            annotation(ts, r, i).map(
                |annotation: Option<Type>|
                    {
                        let span = match annotation {
                            Some(typ) => name.span.join(typ.span()),
                            None => name.span,
                        };
                        Pattern::Name(span, name, annotation)
                    },
            ),
    )
}

/// What is received, and what follows.
pub open spec fn receive_step(span: Span) -> spec_fn(Pattern, Pattern) -> Pattern {
    |x: Pattern, rest: Pattern| Pattern::Receive(span, Box::new(x), Box::new(rest))
}

/// `(p, q) s`
#[verifier::opaque]
pub open spec fn pattern_receive(ts: Seq<Token>, r: Rules, i: int) -> Outcome<Pattern> {
    t(ts, i, TokenKind::LParen).and_then(
        |i: int, open: Token|
            list1(ts, r.pattern, i).and_then(
                |i: int, args: Seq<Pattern>|
                    t(ts, i, TokenKind::RParen).and_then(
                        |i: int, close: Token|
                            (r.pattern)(i).map(
                                |rest: Pattern|
                                    {
                                        let span = open.span.join(rest.span());
                                        args.fold_right(receive_step(span), rest)
                                    },
                            ),
                    ),
            ).cut(),
    )
}

/// `!`
#[verifier::opaque]
pub open spec fn pattern_continue(ts: Seq<Token>, i: int) -> Outcome<Pattern> {
    t(ts, i, TokenKind::Bang).map(|token: Token| Pattern::Continue(token.span))
}

/// `try@l p`
#[verifier::opaque]
pub open spec fn pattern_try(ts: Seq<Token>, r: Rules, i: int) -> Outcome<Pattern> {
    t(ts, i, TokenKind::Try).and_then(
        |i: int, pre: Token|
            label(ts, i).and_then(
                |i: int, label: Option<LocalName>|
                    (r.pattern)(i).map(
                        |rest: Pattern|
                            Pattern::Try(pre.span.join(rest.span()), label, Box::new(rest)),
                    ),
            ).cut(),
    )
}

/// `default(e) p`
#[verifier::opaque]
pub open spec fn pattern_default(ts: Seq<Token>, r: Rules, i: int) -> Outcome<Pattern> {
    t(ts, i, TokenKind::Default).and_then(
        |i: int, pre: Token|
            t(ts, i, TokenKind::LParen).and_then(
                |i: int, open: Token|
                    (r.expression)(i).and_then(
                        |i: int, value: Expression|
                            t(ts, i, TokenKind::RParen).and_then(
                                |i: int, close: Token|
                                    (r.pattern)(i).map(
                                        |rest: Pattern|
                                            Pattern::Default(
                                                pre.span.join(rest.span()),
                                                Box::new(value),
                                                Box::new(rest),
                                            ),
                                    ),
                            ),
                    ).cut(),
            ),
    )
}

/// The name of a type that is received, and what follows.
pub open spec fn receive_type_step(span: Span) -> spec_fn(LocalName, Pattern) -> Pattern {
    |x: LocalName, rest: Pattern| Pattern::ReceiveType(span, x, Box::new(rest))
}

/// `(type a, b) p`
#[verifier::opaque]
pub open spec fn pattern_receive_type(ts: Seq<Token>, r: Rules, i: int) -> Outcome<Pattern> {
    open_type(ts, i, TokenKind::LParen, "(type").and_then(
        |i: int, open: Token|
            list1(ts, |i: int| local_name(ts, i), i).and_then(
                |i: int, args: Seq<LocalName>|
                    t(ts, i, TokenKind::RParen).and_then(
                        |i: int, close: Token|
                            (r.pattern)(i).map(
                                |rest: Pattern|
                                    {
                                        let span = open.span.join(rest.span());
                                        args.fold_right(receive_type_step(span), rest)
                                    },
                            ),
                    ),
            ).cut(),
    )
}

} // verus!
