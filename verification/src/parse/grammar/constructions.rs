//! The grammar of constructions.
use super::super::error::StrContext;
use super::super::outcome::Outcome;
use super::applications::application;
use super::expressions::{
    expr_box, expr_catch, expr_chan, expr_do, expr_grouped, expr_let, expr_list, expr_literal,
};
use super::{Rules, branches_body, label, list1, local_name, open_type, t};
use crate::model::{Construct, ConstructBranch, Expression, LocalName, Pattern, Span, Token, Type};
use crate::token::TokenKind;
use vstd::prelude::*;

verus! {

/// A construction.
#[verifier::opaque]
pub open spec fn construction(ts: Seq<Token>, r: Rules, i: int) -> Outcome<Construct> {
    cons_begin(ts, r, i)
        .or(cons_unfounded(ts, r, i))
        .or(cons_loop(ts, i))
        .or(cons_then(ts, r, i))
        .or(cons_signal(ts, r, i))
        .or(cons_case(ts, r, i))
        .or(cons_break(ts, i))
        .or(cons_send_type(ts, r, i))
        .or(cons_send(ts, r, i))
        .or(cons_recv_type(ts, r, i))
        .or(cons_receive(ts, r, i))
        .context(ts.len(), StrContext::Label("construction"))
}

/// An expression that ends a construction.
#[verifier::opaque]
pub open spec fn cons_then_value(ts: Seq<Token>, r: Rules, i: int) -> Outcome<Expression> {
    expr_literal(ts, i)
        .or(expr_list(ts, r, i))
        .or(expr_box(ts, r, i))
        .or(expr_chan(ts, r, i))
        .or(expr_let(ts, r, i))
        .or(expr_catch(ts, r, i))
        .or(expr_do(ts, r, i))
        .or(application(ts, r, i))
        .or(expr_grouped(ts, r, i))
}

/// `e`
pub open spec fn cons_then(ts: Seq<Token>, r: Rules, i: int) -> Outcome<Construct> {
    cons_then_value(ts, r, i).map(|e: Expression| Construct::Then(Box::new(e)))
}

/// What is sent, and what follows.
pub open spec fn send_step(span: Span) -> spec_fn(Expression, Construct) -> Construct {
    |x: Expression, rest: Construct| Construct::Send(span, Box::new(x), Box::new(rest))
}

/// `(e, f) c`
#[verifier::opaque]
pub open spec fn cons_send(ts: Seq<Token>, r: Rules, i: int) -> Outcome<Construct> {
    t(ts, i, TokenKind::LParen).and_then(
        |i: int, open: Token|
            list1(ts, r.expression, i).and_then(
                |i: int, args: Seq<Expression>|
                    t(ts, i, TokenKind::RParen).and_then(
                        |i: int, close: Token|
                            (r.construction)(i).map(
                                |rest: Construct|
                                    {
                                        let span = open.span.join(rest.span());
                                        args.fold_right(send_step(span), rest)
                                    },
                            ),
                    ),
            ).cut(),
    )
}

/// What is received, and what follows.
pub open spec fn receive_step(span: Span) -> spec_fn(Pattern, Construct) -> Construct {
    |x: Pattern, rest: Construct| Construct::Receive(span, x, Box::new(rest))
}

/// `[p, q] c`
#[verifier::opaque]
pub open spec fn cons_receive(ts: Seq<Token>, r: Rules, i: int) -> Outcome<Construct> {
    t(ts, i, TokenKind::LBrack).and_then(
        |i: int, open: Token|
            list1(ts, r.pattern, i).and_then(
                |i: int, args: Seq<Pattern>|
                    t(ts, i, TokenKind::RBrack).and_then(
                        |i: int, close: Token|
                            (r.construction)(i).map(
                                |rest: Construct|
                                    {
                                        let span = open.span.join(rest.span());
                                        args.fold_right(receive_step(span), rest)
                                    },
                            ),
                    ),
            ).cut(),
    )
}

/// `.x c`
#[verifier::opaque]
pub open spec fn cons_signal(ts: Seq<Token>, r: Rules, i: int) -> Outcome<Construct> {
    t(ts, i, TokenKind::Dot).and_then(
        |i: int, pre: Token|
            local_name(ts, i).and_then(
                |i: int, chosen: LocalName|
                    (r.construction)(i).map(
                        |rest: Construct|
                            Construct::Signal(pre.span.join(rest.span()), chosen, Box::new(rest)),
                    ),
            ),
    )
}

/// `case { .x => e, .y => f }`
#[verifier::opaque]
pub open spec fn cons_case(ts: Seq<Token>, r: Rules, i: int) -> Outcome<Construct> {
    t(ts, i, TokenKind::Case).and_then(
        |i: int, pre: Token|
            branches_body(ts, r.cons_branch, i).map(
                |body: (Span, Seq<(LocalName, ConstructBranch)>)|
                    Construct::Case(pre.span.join(body.0), body.1),
            ).cut(),
    )
}

/// `!`
#[verifier::opaque]
pub open spec fn cons_break(ts: Seq<Token>, i: int) -> Outcome<Construct> {
    t(ts, i, TokenKind::Bang).map(|token: Token| Construct::Break(token.span))
}

/// `begin@l c`
#[verifier::opaque]
pub open spec fn cons_begin(ts: Seq<Token>, r: Rules, i: int) -> Outcome<Construct> {
    t(ts, i, TokenKind::Begin).and_then(
        |i: int, pre: Token|
            label(ts, i).and_then(
                |i: int, label: Option<LocalName>|
                    (r.construction)(i).map(
                        |rest: Construct|
                            Construct::Begin {
                                span: pre.span.join(rest.span()),
                                unfounded: false,
                                label,
                                then: Box::new(rest),
                            },
                    ),
            ).cut(),
    )
}

/// `unfounded@l c`
#[verifier::opaque]
pub open spec fn cons_unfounded(ts: Seq<Token>, r: Rules, i: int) -> Outcome<Construct> {
    t(ts, i, TokenKind::Unfounded).and_then(
        |i: int, pre: Token|
            label(ts, i).and_then(
                |i: int, label: Option<LocalName>|
                    (r.construction)(i).map(
                        |rest: Construct|
                            Construct::Begin {
                                span: pre.span.join(rest.span()),
                                unfounded: true,
                                label,
                                then: Box::new(rest),
                            },
                    ),
            ).cut(),
    )
}

/// `loop@l`
#[verifier::opaque]
pub open spec fn cons_loop(ts: Seq<Token>, i: int) -> Outcome<Construct> {
    t(ts, i, TokenKind::Loop).and_then(
        |i: int, token: Token|
            label(ts, i).map(
                |label: Option<LocalName>|
                    {
                        let span = match label {
                            Some(label) => token.span.join(label.span),
                            None => token.span,
                        };
                        Construct::Loop(span, label)
                    },
            ).cut(),
    )
}

/// A type that is sent, and what follows.
pub open spec fn send_type_step(span: Span) -> spec_fn(Type, Construct) -> Construct {
    |x: Type, rest: Construct| Construct::SendType(span, x, Box::new(rest))
}

/// `(type a, b) c`
#[verifier::opaque]
pub open spec fn cons_send_type(ts: Seq<Token>, r: Rules, i: int) -> Outcome<Construct> {
    open_type(ts, i, TokenKind::LParen, "(type").and_then(
        |i: int, open: Token|
            list1(ts, r.typ, i).and_then(
                |i: int, args: Seq<Type>|
                    t(ts, i, TokenKind::RParen).and_then(
                        |i: int, close: Token|
                            (r.construction)(i).map(
                                |rest: Construct|
                                    {
                                        let span = open.span.join(rest.span());
                                        args.fold_right(send_type_step(span), rest)
                                    },
                            ),
                    ),
            ).cut(),
    )
}

/// The name of a type that is received, and what follows.
pub open spec fn receive_type_step(span: Span) -> spec_fn(LocalName, Construct) -> Construct {
    |x: LocalName, rest: Construct| Construct::ReceiveType(span, x, Box::new(rest))
}

/// `[type a, b] c`
#[verifier::opaque]
pub open spec fn cons_recv_type(ts: Seq<Token>, r: Rules, i: int) -> Outcome<Construct> {
    open_type(ts, i, TokenKind::LBrack, "[type").and_then(
        |i: int, open: Token|
            list1(ts, |i: int| local_name(ts, i), i).and_then(
                |i: int, args: Seq<LocalName>|
                    t(ts, i, TokenKind::RBrack).and_then(
                        |i: int, close: Token|
                            (r.construction)(i).map(
                                |rest: Construct|
                                    {
                                        let span = open.span.join(rest.span());
                                        args.fold_right(receive_type_step(span), rest)
                                    },
                            ),
                    ),
            ).cut(),
    )
}

/// What stands after a signal in `case`.
#[verifier::opaque]
pub open spec fn cons_branch(ts: Seq<Token>, r: Rules, i: int) -> Outcome<ConstructBranch> {
    cons_branch_then(ts, r, i)
        .or(cons_branch_recv_type(ts, r, i))
        .or(cons_branch_receive(ts, r, i))
}

/// `=> e`
#[verifier::opaque]
pub open spec fn cons_branch_then(ts: Seq<Token>, r: Rules, i: int) -> Outcome<ConstructBranch> {
    t(ts, i, TokenKind::FatArrow).and_then(
        |i: int, pre: Token|
            (r.expression)(i).map(
                |value: Expression|
                    ConstructBranch::Then(pre.span.join(value.span()), value),
            ).cut(),
    )
}

/// What a branch receives, and what follows.
pub open spec fn branch_receive_step(
    span: Span,
) -> spec_fn(Pattern, ConstructBranch) -> ConstructBranch {
    |x: Pattern, rest: ConstructBranch| ConstructBranch::Receive(span, x, Box::new(rest))
}

/// `(p, q) b`
#[verifier::opaque]
pub open spec fn cons_branch_receive(ts: Seq<Token>, r: Rules, i: int) -> Outcome<ConstructBranch> {
    t(ts, i, TokenKind::LParen).and_then(
        |i: int, open: Token|
            list1(ts, r.pattern, i).and_then(
                |i: int, args: Seq<Pattern>|
                    t(ts, i, TokenKind::RParen).and_then(
                        |i: int, close: Token|
                            (r.cons_branch)(i).map(
                                |rest: ConstructBranch|
                                    {
                                        let span = open.span.join(rest.span());
                                        args.fold_right(branch_receive_step(span), rest)
                                    },
                            ),
                    ),
            ).cut(),
    )
}

/// The name of a type that a branch receives, and what follows.
pub open spec fn branch_receive_type_step(
    span: Span,
) -> spec_fn(LocalName, ConstructBranch) -> ConstructBranch {
    |x: LocalName, rest: ConstructBranch| ConstructBranch::ReceiveType(span, x, Box::new(rest))
}

/// `(type a, b) c`
#[verifier::opaque]
pub open spec fn cons_branch_recv_type(
    ts: Seq<Token>,
    r: Rules,
    i: int,
) -> Outcome<ConstructBranch> {
    open_type(ts, i, TokenKind::LParen, "(type").and_then(
        |i: int, open: Token|
            list1(ts, |i: int| local_name(ts, i), i).and_then(
                |i: int, args: Seq<LocalName>|
                    t(ts, i, TokenKind::RParen).and_then(
                        |i: int, close: Token|
                            (r.cons_branch)(i).map(
                                |rest: ConstructBranch|
                                    {
                                        let span = open.span.join(rest.span());
                                        args.fold_right(branch_receive_type_step(span), rest)
                                    },
                            ),
                    ),
            ).cut(),
    )
}

} // verus!
