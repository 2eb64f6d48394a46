//! The grammar of types.
use super::super::error::StrContext;
use super::super::outcome::Outcome;
use super::{Rules, branches_body, global_name, label, list1, local_name, open_type, t};
use crate::model::{GlobalName, LocalName, Span, Token, Type};
use crate::token::TokenKind;
use vstd::prelude::*;

verus! {

/// A type.
#[verifier::opaque]
pub open spec fn typ(ts: Seq<Token>, r: Rules, i: int) -> Outcome<Type> {
    typ_var(ts, i)
        .or(typ_name(ts, r, i))
        .or(typ_box(ts, r, i))
        .or(typ_chan(ts, r, i))
        .or(typ_either(ts, r, i))
        .or(typ_choice(ts, r, i))
        .or(typ_break(ts, i))
        .or(typ_continue(ts, i))
        .or(typ_recursive(ts, r, i))
        .or(typ_iterative(ts, r, i))
        .or(typ_self(ts, i))
        .or(typ_send_type(ts, r, i))
        .or(typ_send(ts, r, i))
        .or(typ_recv_type(ts, r, i))
        .or(typ_receive(ts, r, i))
        .context(ts.len(), StrContext::Label("type"))
}

/// `a`
#[verifier::opaque]
pub open spec fn typ_var(ts: Seq<Token>, i: int) -> Outcome<Type> {
    local_name(ts, i).map(|name: LocalName| Type::Var(name.span, name))
}

/// `Name<a, b>`
#[verifier::opaque]
pub open spec fn typ_name(ts: Seq<Token>, r: Rules, i: int) -> Outcome<Type> {
    global_name(ts, i).and_then(
        |i: int, name: GlobalName|
            type_args(ts, r, i).map(
                |args: Option<(Span, Seq<Type>)>|
                    match args {
                        Some((span, args)) => Type::Name(name.span.join(span), name, args),
                        None => Type::Name(name.span, name, Seq::empty()),
                    },
            ),
    )
}

/// `box a`
#[verifier::opaque]
pub open spec fn typ_box(ts: Seq<Token>, r: Rules, i: int) -> Outcome<Type> {
    t(ts, i, TokenKind::Box).and_then(
        |i: int, pre: Token|
            (r.typ)(i).context(ts.len(), StrContext::Label("box type")).map(
                |inner: Type|
                    Type::Box(pre.span, Box::new(inner)),
            ).cut(),
    )
}

/// `dual a`
#[verifier::opaque]
pub open spec fn typ_chan(ts: Seq<Token>, r: Rules, i: int) -> Outcome<Type> {
    t(ts, i, TokenKind::Dual).and_then(
        |i: int, pre: Token|
            (r.typ)(i).context(ts.len(), StrContext::Label("dual type")).map(
                |inner: Type|
                    Type::Dual(pre.span, Box::new(inner)),
            ).cut(),
    )
}

/// What is sent, and what follows.
pub open spec fn pair_step(span: Span) -> spec_fn(Type, Type) -> Type {
    |x: Type, rest: Type| Type::Pair(span, Box::new(x), Box::new(rest))
}

/// `(a, b) c`
#[verifier::opaque]
pub open spec fn typ_send(ts: Seq<Token>, r: Rules, i: int) -> Outcome<Type> {
    t(ts, i, TokenKind::LParen).and_then(
        |i: int, open: Token|
            list1(ts, r.typ, i).and_then(
                |i: int, args: Seq<Type>|
                    t(ts, i, TokenKind::RParen).and_then(
                        |i: int, close: Token|
                            (r.typ)(i).map(
                                |rest: Type|
                                    {
                                        let span = open.span.join(rest.span());
                                        args.fold_right(pair_step(span), rest)
                                    },
                            ),
                    ),
            ).cut(),
    )
}

/// What is received, and what follows.
pub open spec fn function_step(span: Span) -> spec_fn(Type, Type) -> Type {
    |x: Type, rest: Type| Type::Function(span, Box::new(x), Box::new(rest))
}

/// `[a, b] c`
#[verifier::opaque]
pub open spec fn typ_receive(ts: Seq<Token>, r: Rules, i: int) -> Outcome<Type> {
    t(ts, i, TokenKind::LBrack).and_then(
        |i: int, open: Token|
            list1(ts, r.typ, i).and_then(
                |i: int, args: Seq<Type>|
                    t(ts, i, TokenKind::RBrack).and_then(
                        |i: int, close: Token|
                            (r.typ)(i).map(
                                |rest: Type|
                                    {
                                        let span = open.span.join(rest.span());
                                        args.fold_right(function_step(span), rest)
                                    },
                            ),
                    ),
            ).cut(),
    )
}

/// `either { .x a, .y b }`
#[verifier::opaque]
pub open spec fn typ_either(ts: Seq<Token>, r: Rules, i: int) -> Outcome<Type> {
    t(ts, i, TokenKind::Either).and_then(
        |i: int, pre: Token|
            branches_body(ts, r.typ, i).map(
                |body: (Span, Seq<(LocalName, Type)>)| Type::Either(pre.span.join(body.0), body.1),
            ).cut(),
    )
}

/// `choice { .x => a, .y => b }`
#[verifier::opaque]
pub open spec fn typ_choice(ts: Seq<Token>, r: Rules, i: int) -> Outcome<Type> {
    t(ts, i, TokenKind::Choice).and_then(
        |i: int, pre: Token|
            branches_body(ts, r.typ_branch, i).map(
                |body: (Span, Seq<(LocalName, Type)>)|
                    Type::Choice(pre.span.join(body.0), body.1),
            ).cut(),
    )
}

/// `!`
#[verifier::opaque]
pub open spec fn typ_break(ts: Seq<Token>, i: int) -> Outcome<Type> {
    t(ts, i, TokenKind::Bang).map(|token: Token| Type::Break(token.span))
}

/// `?`
#[verifier::opaque]
pub open spec fn typ_continue(ts: Seq<Token>, i: int) -> Outcome<Type> {
    t(ts, i, TokenKind::Quest).map(|token: Token| Type::Continue(token.span))
}

/// `recursive@l a`
#[verifier::opaque]
pub open spec fn typ_recursive(ts: Seq<Token>, r: Rules, i: int) -> Outcome<Type> {
    t(ts, i, TokenKind::Recursive).and_then(
        |i: int, pre: Token|
            label(ts, i).and_then(
                |i: int, label: Option<LocalName>|
                    (r.typ)(i).map(
                        |body: Type|
                            Type::Recursive {
                                span: pre.span.join(body.span()),
                                asc: Seq::empty(),
                                label,
                                body: Box::new(body),
                            },
                    ),
            ).cut(),
    )
}

/// `iterative@l a`
#[verifier::opaque]
pub open spec fn typ_iterative(ts: Seq<Token>, r: Rules, i: int) -> Outcome<Type> {
    t(ts, i, TokenKind::Iterative).and_then(
        |i: int, pre: Token|
            label(ts, i).and_then(
                |i: int, label: Option<LocalName>|
                    (r.typ)(i).map(
                        |body: Type|
                            Type::Iterative {
                                span: pre.span.join(body.span()),
                                asc: Seq::empty(),
                                label,
                                body: Box::new(body),
                            },
                    ),
            ).context(ts.len(), StrContext::Label("iterative type body")).cut(),
    )
}

/// `self@l`
#[verifier::opaque]
pub open spec fn typ_self(ts: Seq<Token>, i: int) -> Outcome<Type> {
    t(ts, i, TokenKind::Self_).and_then(
        |i: int, token: Token|
            label(ts, i).context(ts.len(), StrContext::Label("self type loop label")).map(
                |label: Option<LocalName>|
                    {
                        let span = match label {
                            Some(label) => token.span.join(label.span),
                            None => token.span,
                        };
                        Type::Self_(span, label)
                    },
            ).cut(),
    )
}

/// The name of a type that is sent, and what follows.
pub open spec fn exists_step(span: Span) -> spec_fn(LocalName, Type) -> Type {
    |x: LocalName, rest: Type| Type::Exists(span, x, Box::new(rest))
}

/// `(type a, b) c`
#[verifier::opaque]
pub open spec fn typ_send_type(ts: Seq<Token>, r: Rules, i: int) -> Outcome<Type> {
    open_type(ts, i, TokenKind::LParen, "(type").and_then(
        |i: int, open: Token|
            list1(ts, |i: int| local_name(ts, i), i).context(
                ts.len(),
                StrContext::Label("list of type names to send"),
            ).and_then(
                |i: int, args: Seq<LocalName>|
                    t(ts, i, TokenKind::RParen).and_then(
                        |i: int, close: Token|
                            (r.typ)(i).map(
                                |rest: Type|
                                    {
                                        let span = open.span.join(rest.span());
                                        args.fold_right(exists_step(span), rest)
                                    },
                            ),
                    ),
            ).cut(),
    )
}

/// The name of a type that is received, and what follows.
pub open spec fn forall_step(span: Span) -> spec_fn(LocalName, Type) -> Type {
    |x: LocalName, rest: Type| Type::Forall(span, x, Box::new(rest))
}

/// `[type a, b] c`
#[verifier::opaque]
pub open spec fn typ_recv_type(ts: Seq<Token>, r: Rules, i: int) -> Outcome<Type> {
    open_type(ts, i, TokenKind::LBrack, "[type").and_then(
        |i: int, open: Token|
            list1(ts, |i: int| local_name(ts, i), i).context(
                ts.len(),
                StrContext::Label("list of type names to receive"),
            ).and_then(
                |i: int, args: Seq<LocalName>|
                    t(ts, i, TokenKind::RBrack).and_then(
                        |i: int, close: Token|
                            (r.typ)(i).map(
                                |rest: Type|
                                    {
                                        let span = open.span.join(rest.span());
                                        args.fold_right(forall_step(span), rest)
                                    },
                            ),
                    ),
            ).cut(),
    )
}

/// `<a, b>` with names, or nothing.
#[verifier::opaque]
pub open spec fn type_params(ts: Seq<Token>, i: int) -> Outcome<Option<(Span, Seq<LocalName>)>> {
    t(ts, i, TokenKind::Lt).and_then(
        |i: int, open: Token|
            list1(ts, |i: int| local_name(ts, i), i).and_then(
                |i: int, names: Seq<LocalName>|
                    t(ts, i, TokenKind::Gt).map(
                        |close: Token| (open.span.join(close.span), names),
                    ),
            ).cut(),
    ).opt(i)
}

/// `<a, b>` with types, or nothing.
#[verifier::opaque]
pub open spec fn type_args(ts: Seq<Token>, r: Rules, i: int) -> Outcome<Option<(Span, Seq<Type>)>> {
    t(ts, i, TokenKind::Lt).and_then(
        |i: int, open: Token|
            list1(ts, r.typ, i).and_then(
                |i: int, types: Seq<Type>|
                    t(ts, i, TokenKind::Gt).map(
                        |close: Token| (open.span.join(close.span), types),
                    ),
            ).cut(),
    ).opt(i)
}

/// What stands after a signal in `choice`.
#[verifier::opaque]
pub open spec fn typ_branch(ts: Seq<Token>, r: Rules, i: int) -> Outcome<Type> {
    typ_branch_then(ts, r, i)
        .or(typ_branch_recv_type(ts, r, i))
        .or(typ_branch_receive(ts, r, i))
}

/// `=> a`
#[verifier::opaque]
pub open spec fn typ_branch_then(ts: Seq<Token>, r: Rules, i: int) -> Outcome<Type> {
    t(ts, i, TokenKind::FatArrow).and_then(
        |i: int, pre: Token|
            (r.typ)(i).map(|rest: Type| rest).cut(),
    )
}

/// `(a, b) c`
#[verifier::opaque]
pub open spec fn typ_branch_receive(ts: Seq<Token>, r: Rules, i: int) -> Outcome<Type> {
    t(ts, i, TokenKind::LParen).and_then(
        |i: int, open: Token|
            list1(ts, r.typ, i).and_then(
                |i: int, args: Seq<Type>|
                    t(ts, i, TokenKind::RParen).and_then(
                        |i: int, close: Token|
                            (r.typ_branch)(i).map(
                                |rest: Type|
                                    {
                                        let span = open.span.join(rest.span());
                                        args.fold_right(function_step(span), rest)
                                    },
                            ),
                    ),
            ).cut(),
    )
}

/// `(type a, b) c`
#[verifier::opaque]
pub open spec fn typ_branch_recv_type(ts: Seq<Token>, r: Rules, i: int) -> Outcome<Type> {
    open_type(ts, i, TokenKind::LParen, "(type").and_then(
        |i: int, open: Token|
            list1(ts, |i: int| local_name(ts, i), i).and_then(
                |i: int, args: Seq<LocalName>|
                    t(ts, i, TokenKind::RParen).and_then(
                        |i: int, close: Token|
                            (r.typ_branch)(i).map(
                                |rest: Type|
                                    {
                                        let span = open.span.join(rest.span());
                                        args.fold_right(forall_step(span), rest)
                                    },
                            ),
                    ),
            ).cut(),
    )
}

/// `: a`, or nothing.
#[verifier::opaque]
pub open spec fn annotation(ts: Seq<Token>, r: Rules, i: int) -> Outcome<Option<Type>> {
    t(ts, i, TokenKind::Colon).and_then(|i: int, colon: Token| (r.typ)(i).cut()).opt(i)
}

} // verus!
