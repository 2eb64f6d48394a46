//! The grammar of expressions.
use super::super::error::StrContext;
use super::super::outcome::Outcome;
use super::applications::application;
use super::constructions::construction;
use super::{Rules, global_name, label, list0, local_name, t, without_underscores};
use crate::big_int::decimal;
use crate::escape::unescaped;
use crate::model::{
    Construct, Expression, GlobalName, LocalName, Pattern, Primitive, Process, Span, Token,
};
use crate::token::TokenKind;
use vstd::prelude::*;

verus! {

/// An expression.
#[verifier::opaque]
pub open spec fn expression(ts: Seq<Token>, r: Rules, i: int) -> Outcome<Expression> {
    expr_literal(ts, i)
        .or(expr_list(ts, r, i))
        .or(expr_let(ts, r, i))
        .or(expr_catch(ts, r, i))
        .or(expr_throw(ts, r, i))
        .or(expr_do(ts, r, i))
        .or(expr_box(ts, r, i))
        .or(expr_chan(ts, r, i))
        .or(application(ts, r, i))
        .or(construction(ts, r, i).map(|c: Construct| Expression::Construction(c)))
        .or(expr_grouped(ts, r, i))
        .context(ts.len(), StrContext::Label("expression"))
}

/// `{ e }`
#[verifier::opaque]
pub open spec fn expr_grouped(ts: Seq<Token>, r: Rules, i: int) -> Outcome<Expression> {
    t(ts, i, TokenKind::LCurly).and_then(
        |i: int, open: Token|
            (r.expression)(i).and_then(
                |i: int, inner: Expression|
                    t(ts, i, TokenKind::RCurly).map(
                        |close: Token|
                            Expression::Grouped(open.span.join(close.span), Box::new(inner)),
                    ),
            ),
    )
}

/// A name or a grouped expression, to which something can be applied.
#[verifier::opaque]
pub open spec fn operand(ts: Seq<Token>, r: Rules, i: int) -> Outcome<Expression> {
    global_name(ts, i).map(|name: GlobalName| Expression::Global(name.span, name))
        .or(local_name(ts, i).map(|name: LocalName| Expression::Variable(name.span, name)))
        .or(expr_grouped(ts, r, i))
}

/// A literal.
#[verifier::opaque]
pub open spec fn expr_literal(ts: Seq<Token>, i: int) -> Outcome<Expression> {
    expr_literal_int(ts, i)
        .or(expr_literal_string(ts, i))
        .or(expr_literal_bytes(ts, i))
}

/// `*(e, f)`
#[verifier::opaque]
pub open spec fn expr_list(ts: Seq<Token>, r: Rules, i: int) -> Outcome<Expression> {
    t(ts, i, TokenKind::Star).and_then(
        |i: int, pre: Token|
            t(ts, i, TokenKind::LParen).and_then(
                |i: int, open: Token|
                    list0(ts, r.expression, i).and_then(
                        |i: int, items: Seq<Expression>|
                            t(ts, i, TokenKind::RParen).map(
                                |post: Token|
                                    Expression::List(pre.span.join(post.span), items),
                            ),
                    ),
            ).cut(),
    )
}

/// `12`
#[verifier::opaque]
pub open spec fn expr_literal_int(ts: Seq<Token>, i: int) -> Outcome<Expression> {
    literal_int(ts, i).map(|n: (Span, int)| Expression::Primitive(n.0, Primitive::Int(n.1)))
}

/// The number that a token denotes; underscores between its digits count for nothing.
pub open spec fn integer_value(token: Token) -> int {
    decimal(without_underscores(token.raw))->0
}

/// A number and where it stands.
#[verifier::opaque]
pub open spec fn literal_int(ts: Seq<Token>, i: int) -> Outcome<(Span, int)> {
    t(ts, i, TokenKind::Integer).map(|token: Token| (token.span, integer_value(token)))
}

/// `"text"`, with its escapes resolved.
#[verifier::opaque]
pub open spec fn expr_literal_string(ts: Seq<Token>, i: int) -> Outcome<Expression> {
    t(ts, i, TokenKind::String).map(
        |token: Token|
            Expression::Primitive(token.span, Primitive::String(unescaped(token.raw)->0)),
    )
}

/// Bytes.
#[verifier::opaque]
pub open spec fn expr_literal_bytes(ts: Seq<Token>, i: int) -> Outcome<Expression> {
    expr_literal_bytes_empty(ts, i)
        .or(expr_literal_bytes_nonempty(ts, i))
}

/// `<<>>`, of which the middle is one token.
#[verifier::opaque]
pub open spec fn expr_literal_bytes_empty(ts: Seq<Token>, i: int) -> Outcome<Expression> {
    t(ts, i, TokenKind::Lt).and_then(
        |i: int, pre: Token|
            t(ts, i, TokenKind::Link).and_then(
                |i: int, link: Token|
                    t(ts, i, TokenKind::Gt).map(
                        |post: Token|
                            Expression::Primitive(
                                pre.span.join(post.span),
                                Primitive::Bytes(Seq::empty()),
                            ),
                    ).cut(),
            ),
    )
}

/// `<<1 2>>`
#[verifier::opaque]
pub open spec fn expr_literal_bytes_nonempty(ts: Seq<Token>, i: int) -> Outcome<Expression> {
    t(ts, i, TokenKind::Lt).and_then(
        |i: int, pre: Token|
            t(ts, i, TokenKind::Lt).and_then(
                |i: int, second: Token|
                    literal_bytes_inner(ts, i).and_then(
                        |i: int, bytes: Seq<u8>|
                            t(ts, i, TokenKind::Gt).and_then(
                                |i: int, close: Token|
                                    t(ts, i, TokenKind::Gt).map(
                                        |post: Token|
                                            Expression::Primitive(
                                                pre.span.join(post.span),
                                                Primitive::Bytes(bytes),
                                            ),
                                    ),
                            ),
                    ).cut(),
            ),
    )
}

/// Numbers, as often as they come, each taken as a byte.
pub open spec fn literal_bytes_inner(ts: Seq<Token>, i: int) -> Outcome<Seq<u8>>
    decreases ts.len() - i,
{
    match literal_byte(ts, i) {
        Outcome::Failed { .. } => Outcome::Done(i, Seq::empty()),
        Outcome::Done(j, byte) => if i < j <= ts.len() {
            literal_bytes_inner(ts, j).map(|bytes: Seq<u8>| seq![byte] + bytes)
        } else {
            arbitrary()
        },
    }
}

/// A number, taken as a byte: its remainder modulo 256.
pub open spec fn literal_byte(ts: Seq<Token>, i: int) -> Outcome<u8> {
    literal_int(ts, i).map(|n: (Span, int)| (n.1 % 256) as u8)
}

/// `let p = e in f`
#[verifier::opaque]
pub open spec fn expr_let(ts: Seq<Token>, r: Rules, i: int) -> Outcome<Expression> {
    t(ts, i, TokenKind::Let).and_then(
        |i: int, pre: Token|
            (r.pattern)(i).and_then(
                |i: int, pattern: Pattern|
                    t(ts, i, TokenKind::Eq).and_then(
                        |i: int, eq: Token|
                            (r.expression)(i).and_then(
                                |i: int, expression: Expression|
                                    t(ts, i, TokenKind::In).and_then(
                                        |i: int, kw: Token|
                                            (r.expression)(i).map(
                                                |rest: Expression|
                                                    Expression::Let {
                                                        span: pre.span.join(rest.span()),
                                                        pattern,
                                                        expression: Box::new(expression),
                                                        then: Box::new(rest),
                                                    },
                                            ),
                                    ),
                            ),
                    ),
            ).cut(),
    )
}

/// `catch@l p => e in f`
#[verifier::opaque]
pub open spec fn expr_catch(ts: Seq<Token>, r: Rules, i: int) -> Outcome<Expression> {
    t(ts, i, TokenKind::Catch).and_then(
        |i: int, pre: Token|
            label(ts, i).and_then(
                |i: int, label: Option<LocalName>|
                    (r.pattern)(i).and_then(
                        |i: int, pattern: Pattern|
                            t(ts, i, TokenKind::FatArrow).and_then(
                                |i: int, arrow: Token|
                                    (r.expression)(i).and_then(
                                        |i: int, block: Expression|
                                            t(ts, i, TokenKind::In).and_then(
                                                |i: int, kw: Token|
                                                    (r.expression)(i).map(
                                                        |rest: Expression|
                                                            Expression::Catch {
                                                                span: pre.span.join(rest.span()),
                                                                label,
                                                                pattern,
                                                                block: Box::new(block),
                                                                then: Box::new(rest),
                                                            },
                                                    ),
                                            ),
                                    ),
                            ),
                    ),
            ).cut(),
    )
}

/// `throw@l e`
#[verifier::opaque]
pub open spec fn expr_throw(ts: Seq<Token>, r: Rules, i: int) -> Outcome<Expression> {
    t(ts, i, TokenKind::Throw).and_then(
        |i: int, pre: Token|
            label(ts, i).and_then(
                |i: int, label: Option<LocalName>|
                    (r.expression)(i).map(
                        |value: Expression|
                            Expression::Throw(pre.span.join(value.span()), label, Box::new(value)),
                    ),
            ).cut(),
    )
}

/// `do { process } in e`
#[verifier::opaque]
pub open spec fn expr_do(ts: Seq<Token>, r: Rules, i: int) -> Outcome<Expression> {
    t(ts, i, TokenKind::Do).and_then(
        |i: int, pre: Token|
            t(ts, i, TokenKind::LCurly).and_then(
                |i: int, open: Token|
                    (r.process)(i).opt(i).and_then(
                        |i: int, process: Option<Process>|
                            t(ts, i, TokenKind::RCurly).and_then(
                                |i: int, close: Token|
                                    t(ts, i, TokenKind::In).and_then(
                                        |i: int, kw: Token|
                                            (r.expression)(i).map(
                                                |rest: Expression|
                                                    {
                                                        let process = match process {
                                                            Some(process) => process,
                                                            None => Process::Noop(
                                                                open.span.only_end(),
                                                            ),
                                                        };
                                                        Expression::Do {
                                                            span: pre.span.join(rest.span()),
                                                            process: Box::new(process),
                                                            then: Box::new(rest),
                                                        }
                                                    },
                                            ),
                                    ),
                            ),
                    ),
            ).cut(),
    )
}

/// `box e`
#[verifier::opaque]
pub open spec fn expr_box(ts: Seq<Token>, r: Rules, i: int) -> Outcome<Expression> {
    t(ts, i, TokenKind::Box).and_then(
        |i: int, pre: Token|
            (r.expression)(i).map(
                |value: Expression| Expression::Box(pre.span, Box::new(value)),
            ).cut(),
    )
}

/// `chan p { process }`
#[verifier::opaque]
pub open spec fn expr_chan(ts: Seq<Token>, r: Rules, i: int) -> Outcome<Expression> {
    t(ts, i, TokenKind::Chan).and_then(
        |i: int, pre: Token|
            (r.pattern)(i).and_then(
                |i: int, pattern: Pattern|
                    t(ts, i, TokenKind::LCurly).and_then(
                        |i: int, open: Token|
                            (r.process)(i).opt(i).and_then(
                                |i: int, process: Option<Process>|
                                    t(ts, i, TokenKind::RCurly).map(
                                        |close: Token|
                                            {
                                                let process = match process {
                                                    Some(process) => process,
                                                    None => Process::Noop(open.span.only_end()),
                                                };
                                                Expression::Chan {
                                                    span: pre.span.join(close.span),
                                                    pattern,
                                                    process: Box::new(process),
                                                }
                                            },
                                    ),
                            ),
                    ),
            ).cut(),
    )
}

} // verus!
