//! The grammar of applications.
use super::super::error::StrContext;
use super::super::outcome::Outcome;
use super::expressions::operand;
use super::{Rules, branches_body, label, list1, local_name, open_type, t};
use crate::model::{Apply, ApplyBranch, Expression, LocalName, Pattern, Span, Token, Type};
use crate::token::TokenKind;
use vstd::prelude::*;

verus! {

/// An operand and what is applied to it.
#[verifier::opaque]
pub open spec fn application(ts: Seq<Token>, r: Rules, i: int) -> Outcome<Expression> {
    operand(ts, r, i).and_then(
        |i: int, expr: Expression|
            (r.apply)(i).map(
                |apply: Option<Apply>|
                    match apply {
                        Some(apply) => Expression::Application(
                            expr.span().join(apply.span()),
                            Box::new(expr),
                            apply,
                        ),
                        None => expr,
                    },
            ),
    ).context(ts.len(), StrContext::Label("application"))
}

/// What is applied to an operand, if anything is.
#[verifier::opaque]
pub open spec fn apply(ts: Seq<Token>, r: Rules, i: int) -> Outcome<Option<Apply>> {
    apply_begin(ts, r, i)
        .or(apply_unfounded(ts, r, i))
        .or(apply_loop(ts, i))
        .or(apply_signal(ts, r, i))
        .or(apply_case(ts, r, i))
        .or(apply_send_type(ts, r, i))
        .or(apply_send(ts, r, i))
        .or(apply_default(ts, r, i))
        .or(apply_try(ts, r, i))
        .or(apply_pipe(ts, r, i))
        .opt(i)
}

/// What is sent, and what follows.
pub open spec fn send_step(span: Span) -> spec_fn(Expression, Apply) -> Apply {
    |x: Expression, rest: Apply| Apply::Send(span, Box::new(x), Box::new(rest))
}

/// `(e, f) a`
#[verifier::opaque]
pub open spec fn apply_send(ts: Seq<Token>, r: Rules, i: int) -> Outcome<Apply> {
    t(ts, i, TokenKind::LParen).and_then(
        |i: int, open: Token|
            list1(ts, r.expression, i).and_then(
                |i: int, args: Seq<Expression>|
                    t(ts, i, TokenKind::RParen).and_then(
                        |i: int, close: Token|
                            (r.apply)(i).map(
                                |rest: Option<Apply>|
                                    {
                                        let rest = match rest {
                                            Some(rest) => rest,
                                            None => Apply::Noop(close.span.only_end()),
                                        };
                                        let span = open.span.join(rest.span());
                                        args.fold_right(send_step(span), rest)
                                    },
                            ),
                    ),
            ).cut(),
    )
}

/// `.x a`
#[verifier::opaque]
pub open spec fn apply_signal(ts: Seq<Token>, r: Rules, i: int) -> Outcome<Apply> {
    t(ts, i, TokenKind::Dot).and_then(
        |i: int, pre: Token|
            local_name(ts, i).and_then(
                |i: int, chosen: LocalName|
                    (r.apply)(i).map(
                        |rest: Option<Apply>|
                            {
                                let rest = match rest {
                                    Some(rest) => rest,
                                    None => Apply::Noop(chosen.span.only_end()),
                                };
                                Apply::Signal(pre.span.join(rest.span()), chosen, Box::new(rest))
                            },
                    ),
            ),
    )
}

/// `.case { .x y => e }`
#[verifier::opaque]
pub open spec fn apply_case(ts: Seq<Token>, r: Rules, i: int) -> Outcome<Apply> {
    t(ts, i, TokenKind::Dot).and_then(
        |i: int, pre: Token|
            t(ts, i, TokenKind::Case).and_then(
                |i: int, kw: Token|
                    branches_body(ts, r.apply_branch, i).map(
                        |body: (Span, Seq<(LocalName, ApplyBranch)>)|
                            Apply::Case(pre.span.join(body.0), body.1),
                    ).cut(),
            ),
    )
}

/// `.begin@l a`
#[verifier::opaque]
pub open spec fn apply_begin(ts: Seq<Token>, r: Rules, i: int) -> Outcome<Apply> {
    t(ts, i, TokenKind::Dot).and_then(
        |i: int, pre: Token|
            t(ts, i, TokenKind::Begin).and_then(
                |i: int, kw: Token|
                    label(ts, i).and_then(
                        |i: int, label: Option<LocalName>|
                            (r.apply)(i).map(
                                |rest: Option<Apply>|
                                    {
                                        let rest = match (label, rest) {
                                            (_, Some(rest)) => rest,
                                            (Some(label), None) => Apply::Noop(
                                                label.span.only_end(),
                                            ),
                                            (None, None) => Apply::Noop(pre.span.only_end()),
                                        };
                                        Apply::Begin {
                                            span: pre.span.join(rest.span()),
                                            unfounded: false,
                                            label,
                                            then: Box::new(rest),
                                        }
                                    },
                            ),
                    ).cut(),
            ),
    )
}

/// `.unfounded@l a`
#[verifier::opaque]
pub open spec fn apply_unfounded(ts: Seq<Token>, r: Rules, i: int) -> Outcome<Apply> {
    t(ts, i, TokenKind::Dot).and_then(
        |i: int, pre: Token|
            t(ts, i, TokenKind::Unfounded).and_then(
                |i: int, kw: Token|
                    label(ts, i).and_then(
                        |i: int, label: Option<LocalName>|
                            (r.apply)(i).map(
                                |rest: Option<Apply>|
                                    {
                                        let rest = match (label, rest) {
                                            (_, Some(rest)) => rest,
                                            (Some(label), None) => Apply::Noop(
                                                label.span.only_end(),
                                            ),
                                            (None, None) => Apply::Noop(pre.span.only_end()),
                                        };
                                        Apply::Begin {
                                            span: pre.span.join(rest.span()),
                                            unfounded: true,
                                            label,
                                            then: Box::new(rest),
                                        }
                                    },
                            ),
                    ).cut(),
            ),
    )
}

/// `.loop@l`
#[verifier::opaque]
pub open spec fn apply_loop(ts: Seq<Token>, i: int) -> Outcome<Apply> {
    t(ts, i, TokenKind::Dot).and_then(
        |i: int, pre: Token|
            t(ts, i, TokenKind::Loop).and_then(
                |i: int, kw: Token|
                    label(ts, i).map(
                        |label: Option<LocalName>|
                            {
                                let span = match label {
                                    Some(label) => pre.span.join(label.span),
                                    None => pre.span.join(kw.span),
                                };
                                Apply::Loop(span, label)
                            },
                    ).cut(),
            ),
    )
}

/// A type that is sent, and what follows.
pub open spec fn send_type_step(span: Span) -> spec_fn(Type, Apply) -> Apply {
    |x: Type, rest: Apply| Apply::SendType(span, x, Box::new(rest))
}

/// `(type a, b) f`
#[verifier::opaque]
pub open spec fn apply_send_type(ts: Seq<Token>, r: Rules, i: int) -> Outcome<Apply> {
    open_type(ts, i, TokenKind::LParen, "(type").and_then(
        |i: int, open: Token|
            list1(ts, r.typ, i).and_then(
                |i: int, args: Seq<Type>|
                    t(ts, i, TokenKind::RParen).and_then(
                        |i: int, close: Token|
                            (r.apply)(i).map(
                                |rest: Option<Apply>|
                                    {
                                        let rest = match rest {
                                            Some(rest) => rest,
                                            None => Apply::Noop(close.span.only_end()),
                                        };
                                        let span = open.span.join(rest.span());
                                        args.fold_right(send_type_step(span), rest)
                                    },
                            ),
                    ),
            ).cut(),
    )
}

/// `.try@l a`
#[verifier::opaque]
pub open spec fn apply_try(ts: Seq<Token>, r: Rules, i: int) -> Outcome<Apply> {
    t(ts, i, TokenKind::Dot).and_then(
        |i: int, dot: Token|
            t(ts, i, TokenKind::Try).and_then(
                |i: int, pre: Token|
                    label(ts, i).and_then(
                        |i: int, label: Option<LocalName>|
                            (r.apply)(i).map(
                                |rest: Option<Apply>|
                                    {
                                        let rest = match rest {
                                            Some(rest) => rest,
                                            None => Apply::Noop(pre.span.only_end()),
                                        };
                                        Apply::Try(pre.span.join(pre.span), label, Box::new(rest))
                                    },
                            ),
                    ).cut(),
            ),
    )
}

/// `.default(e) a`
#[verifier::opaque]
pub open spec fn apply_default(ts: Seq<Token>, r: Rules, i: int) -> Outcome<Apply> {
    t(ts, i, TokenKind::Dot).and_then(
        |i: int, dot: Token|
            t(ts, i, TokenKind::Default).and_then(
                |i: int, pre: Token|
                    t(ts, i, TokenKind::LParen).and_then(
                        |i: int, open: Token|
                            (r.expression)(i).and_then(
                                |i: int, value: Expression|
                                    t(ts, i, TokenKind::RParen).and_then(
                                        |i: int, close: Token|
                                            (r.apply)(i).map(
                                                |rest: Option<Apply>|
                                                    {
                                                        let rest = match rest {
                                                            Some(rest) => rest,
                                                            None => Apply::Noop(
                                                                close.span.only_end(),
                                                            ),
                                                        };
                                                        Apply::Default(
                                                            pre.span.join(rest.span()),
                                                            Box::new(value),
                                                            Box::new(rest),
                                                        )
                                                    },
                                            ),
                                    ),
                            ),
                    ).cut(),
            ),
    )
}

/// `->f a`
#[verifier::opaque]
pub open spec fn apply_pipe(ts: Seq<Token>, r: Rules, i: int) -> Outcome<Apply> {
    t(ts, i, TokenKind::ThinArrow).and_then(
        |i: int, pre: Token|
            (r.operand)(i).and_then(
                |i: int, function: Expression|
                    (r.apply)(i).map(
                        |rest: Option<Apply>|
                            {
                                let rest = match rest {
                                    Some(rest) => rest,
                                    None => Apply::Noop(function.span().only_end()),
                                };
                                Apply::Pipe(
                                    pre.span.join(function.span()),
                                    Box::new(function),
                                    Box::new(rest),
                                )
                            },
                    ),
            ).cut(),
    )
}

/// What stands after a signal in `.case`.
#[verifier::opaque]
pub open spec fn apply_branch(ts: Seq<Token>, r: Rules, i: int) -> Outcome<ApplyBranch> {
    apply_branch_then(ts, r, i)
        .or(apply_branch_recv_type(ts, r, i))
        .or(apply_branch_receive(ts, r, i))
        .or(apply_branch_continue(ts, r, i))
        .or(apply_branch_try(ts, r, i))
        .or(apply_branch_default(ts, r, i))
}

/// `x => e`
#[verifier::opaque]
pub open spec fn apply_branch_then(ts: Seq<Token>, r: Rules, i: int) -> Outcome<ApplyBranch> {
    local_name(ts, i).and_then(
        |i: int, name: LocalName|
            t(ts, i, TokenKind::FatArrow).and_then(
                |i: int, arrow: Token|
                    (r.expression)(i).map(
                        |value: Expression|
                            ApplyBranch::Then(name.span.join(value.span()), name, value),
                    ),
            ).cut(),
    )
}

/// What a branch receives, and what follows.
pub open spec fn branch_receive_step(span: Span) -> spec_fn(Pattern, ApplyBranch) -> ApplyBranch {
    |x: Pattern, rest: ApplyBranch| ApplyBranch::Receive(span, x, Box::new(rest))
}

/// `(p, q) b`
#[verifier::opaque]
pub open spec fn apply_branch_receive(ts: Seq<Token>, r: Rules, i: int) -> Outcome<ApplyBranch> {
    t(ts, i, TokenKind::LParen).and_then(
        |i: int, open: Token|
            list1(ts, r.pattern, i).and_then(
                |i: int, args: Seq<Pattern>|
                    t(ts, i, TokenKind::RParen).and_then(
                        |i: int, close: Token|
                            (r.apply_branch)(i).map(
                                |rest: ApplyBranch|
                                    {
                                        let span = open.span.join(rest.span());
                                        args.fold_right(branch_receive_step(span), rest)
                                    },
                            ),
                    ),
            ).cut(),
    )
}

/// `! => e`
#[verifier::opaque]
pub open spec fn apply_branch_continue(ts: Seq<Token>, r: Rules, i: int) -> Outcome<ApplyBranch> {
    t(ts, i, TokenKind::Bang).and_then(
        |i: int, token: Token|
            t(ts, i, TokenKind::FatArrow).and_then(
                |i: int, arrow: Token|
                    (r.expression)(i).map(
                        |value: Expression|
                            ApplyBranch::Continue(token.span.join(value.span()), value),
                    ),
            ).cut(),
    )
}

/// The name of a type that a branch receives, and what follows.
pub open spec fn branch_receive_type_step(
    span: Span,
) -> spec_fn(LocalName, ApplyBranch) -> ApplyBranch {
    |x: LocalName, rest: ApplyBranch| ApplyBranch::ReceiveType(span, x, Box::new(rest))
}

/// `(type a, b) c`
#[verifier::opaque]
pub open spec fn apply_branch_recv_type(ts: Seq<Token>, r: Rules, i: int) -> Outcome<ApplyBranch> {
    open_type(ts, i, TokenKind::LParen, "(type").and_then(
        |i: int, open: Token|
            list1(ts, |i: int| local_name(ts, i), i).and_then(
                |i: int, args: Seq<LocalName>|
                    t(ts, i, TokenKind::RParen).and_then(
                        |i: int, close: Token|
                            (r.apply_branch)(i).map(
                                |rest: ApplyBranch|
                                    {
                                        let span = open.span.join(rest.span());
                                        args.fold_right(branch_receive_type_step(span), rest)
                                    },
                            ),
                    ),
            ).cut(),
    )
}

/// `try@l b`
#[verifier::opaque]
pub open spec fn apply_branch_try(ts: Seq<Token>, r: Rules, i: int) -> Outcome<ApplyBranch> {
    t(ts, i, TokenKind::Try).and_then(
        |i: int, kw: Token|
            label(ts, i).and_then(
                |i: int, label: Option<LocalName>|
                    (r.apply_branch)(i).map(
                        |rest: ApplyBranch|
                            ApplyBranch::Try(kw.span.join(rest.span()), label, Box::new(rest)),
                    ),
            ).cut(),
    )
}

/// `default(e) b`
#[verifier::opaque]
pub open spec fn apply_branch_default(ts: Seq<Token>, r: Rules, i: int) -> Outcome<ApplyBranch> {
    t(ts, i, TokenKind::Default).and_then(
        |i: int, kw: Token|
            t(ts, i, TokenKind::LParen).and_then(
                |i: int, open: Token|
                    (r.expression)(i).and_then(
                        |i: int, value: Expression|
                            t(ts, i, TokenKind::RParen).and_then(
                                |i: int, close: Token|
                                    (r.apply_branch)(i).map(
                                        |rest: ApplyBranch|
                                            ApplyBranch::Default(
                                                kw.span.join(rest.span()),
                                                Box::new(value),
                                                Box::new(rest),
                                            ),
                                    ),
                            ),
                    ).cut(),
            ),
    )
}

} // verus!
