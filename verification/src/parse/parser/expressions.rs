//! Parsing of expressions.
use super::super::error::{MyError, StrContext};
use super::super::grammar::{constructions, expressions, rules, token_is_valid, without_underscores};
use super::super::outcome::{
    cut, join_nothing, join_one, opt, or, prepend, retry, Failure, Outcome, Parsed,
};
use super::Parser;
use crate::big_int::{
    int_below_zero, int_digits, int_first_digit, int_parse_bytes, int_rem, int_value, magnitude,
};
use crate::byte_string::{bytes_from, bytes_new};
use crate::escape::unescape;
use crate::language::{Expression, ParString, Primitive, Process};
use crate::location::Span;
use crate::model;
use crate::text::text_push;
use crate::token::TokenKind;
use num_bigint::BigInt;
use vstd::prelude::*;

verus! {

broadcast use {
    crate::language::group_language_models,
    crate::parse::grammar::group_rules,
    crate::types::group_type_models,
};

/// A number and where it stands.
pub struct Number {
    pub span: Span,
    pub value: BigInt,
}

impl DeepView for Number {
    type V = (model::Span, int);

    open spec fn deep_view(&self) -> (model::Span, int) {
        (self.span@, int_value(self.value))
    }
}

/// The text without its underscores.
pub(crate) fn strip_underscores(text: &str) -> (r: String)
    ensures
        r@ == without_underscores(text@),
{
    let mut r = String::new();
    let ghost keep = |c: char| c != '_';
    proof {
        reveal(Seq::filter);
        assert(r@ =~= text@.take(0).filter(keep));
    }
    for c in it: text.chars()
        invariant
            keep == |c: char| c != '_',
            it.seq() == text@,
            r@ == text@.take(it.index() as int).filter(keep),
    {
        proof {
            reveal(Seq::filter);
            assert(text@.take(it.index() + 1).drop_last() =~= text@.take(it.index() as int));
        }
        if c != '_' {
            text_push(&mut r, c);
        }
    }
    assert(text@.take(text@.len() as int) =~= text@);
    r
}

/// The remainder of a number modulo 256.
fn byte_of(n: BigInt) -> (r: u8)
    ensures
        r == int_value(n) % 256,
{
    if int_below_zero(&n) {
        let rem = int_rem(n, 256);
        if int_below_zero(&rem) {
            let digit = int_first_digit(&rem).unwrap_or(0);
            proof {
                let digits = int_digits(rem);
                assert(magnitude(digits) == -int_value(rem));
                assert(digits.len() > 0);
                assert(digit == magnitude(digits));
            }
            (256 - digit) as u8
        } else {
            0
        }
    } else {
        let digit = int_first_digit(&n).unwrap_or(0);
        proof {
            let digits = int_digits(n);
            assert(magnitude(digits) == int_value(n));
        }
        (digit % 256) as u8
    }
}

impl<'t, 'i> Parser<'t, 'i> {
    /// An expression.
    pub(crate) fn expression(&self, i: usize) -> (r: Parsed<Expression>)
        requires
            self.ready(i),
        ensures
            self.parses(r, i, expressions::expression(self@, rules(self@, i as int), i as int)),
        decreases self@.len() - i, 7int,
    {
        reveal(expressions::expression);
        let r = self.expr_literal(i);
        let r = if retry(&r) { or(r, self.expr_list(i)) } else { r };
        let r = if retry(&r) { or(r, self.expr_let(i)) } else { r };
        let r = if retry(&r) { or(r, self.expr_catch(i)) } else { r };
        let r = if retry(&r) { or(r, self.expr_throw(i)) } else { r };
        let r = if retry(&r) { or(r, self.expr_do(i)) } else { r };
        let r = if retry(&r) { or(r, self.expr_box(i)) } else { r };
        let r = if retry(&r) { or(r, self.expr_chan(i)) } else { r };
        let r = if retry(&r) { or(r, self.application(i)) } else { r };
        let r = if retry(&r) { or(r, self.expr_construction(i)) } else { r };
        let r = if retry(&r) { or(r, self.expr_grouped(i)) } else { r };
        self.context(r, StrContext::Label("expression"))
    }

    /// A construction.
    fn expr_construction(&self, i: usize) -> (r: Parsed<Expression>)
        requires
            self.ready(i),
        ensures
            self.parses(
                r,
                i,
                constructions::construction(self@, rules(self@, i as int), i as int).map(
                    |c: model::Construct| model::Expression::Construction(c),
                ),
            ),
        decreases self@.len() - i, 6int,
    {
        let (i, construct) = self.construction(i)?;
        Ok((i, Expression::Construction(construct)))
    }

    /// `{ e }`
    pub(crate) fn expr_grouped(&self, i: usize) -> (r: Parsed<Expression>)
        requires
            self.ready(i),
        ensures
            self.parses(r, i, expressions::expr_grouped(self@, rules(self@, i as int), i as int)),
        decreases self@.len() - i, 0int,
    {
        reveal(expressions::expr_grouped);
        let (i, open) = self.t(i, TokenKind::LCurly)?;
        let (i, inner) = self.expression(i)?;
        let (i, close) = self.t(i, TokenKind::RCurly)?;
        Ok((i, Expression::Grouped(open.span.join(close.span.clone()), Box::new(inner))))
    }

    /// A name or a grouped expression, to which something can be applied.
    pub(crate) fn operand(&self, i: usize) -> (r: Parsed<Expression>)
        requires
            self.ready(i),
        ensures
            self.parses(r, i, expressions::operand(self@, rules(self@, i as int), i as int)),
        decreases self@.len() - i, 1int,
    {
        reveal(expressions::operand);
        let r = match self.global_name(i) {
            Ok((i, name)) => Ok((i, Expression::Global(name.span.clone(), name))),
            Err(f) => Err(f),
        };
        if !retry(&r) {
            return r;
        }
        let second = match self.local_name(i) {
            Ok((i, name)) => Ok((i, Expression::Variable(name.span.clone(), name))),
            Err(f) => Err(f),
        };
        let r = or(r, second);
        if retry(&r) { or(r, self.expr_grouped(i)) } else { r }
    }

    /// A literal.
    pub(crate) fn expr_literal(&self, i: usize) -> (r: Parsed<Expression>)
        requires
            self.ready(i),
        ensures
            self.parses(r, i, expressions::expr_literal(self@, i as int)),
    {
        reveal(expressions::expr_literal);
        let r = self.expr_literal_int(i);
        let r = if retry(&r) { or(r, self.expr_literal_string(i)) } else { r };
        if retry(&r) { or(r, self.expr_literal_bytes(i)) } else { r }
    }

    /// `*(e, f)`
    pub(crate) fn expr_list(&self, i: usize) -> (r: Parsed<Expression>)
        requires
            self.ready(i),
        ensures
            self.parses(r, i, expressions::expr_list(self@, rules(self@, i as int), i as int)),
        decreases self@.len() - i, 0int,
    {
        reveal(expressions::expr_list);
        let ghost from = i as int;
        let (i, pre) = self.t(i, TokenKind::Star)?;
        let (i, _) = cut(self.t(i, TokenKind::LParen))?;
        let (i, items) = cut(self.expression_list0(Ghost(from), i))?;
        let (i, post) = cut(self.t(i, TokenKind::RParen))?;
        Ok((i, Expression::List(pre.span.join(post.span.clone()), items)))
    }

    /// `12`
    pub(crate) fn expr_literal_int(&self, i: usize) -> (r: Parsed<Expression>)
        requires
            self.ready(i),
        ensures
            self.parses(r, i, expressions::expr_literal_int(self@, i as int)),
    {
        reveal(expressions::expr_literal_int);
        let (i, n) = self.literal_int(i)?;
        Ok((i, Expression::Primitive(n.span, Primitive::Int(n.value))))
    }

    /// A number and where it stands.
    pub(crate) fn literal_int(&self, i: usize) -> (r: Parsed<Number>)
        requires
            self.ready(i),
        ensures
            self.parses(r, i, expressions::literal_int(self@, i as int)),
    {
        reveal(expressions::literal_int);
        let (j, token) = self.t(i, TokenKind::Integer)?;
        assert(token_is_valid(self@[i as int]));
        let digits = strip_underscores(token.raw);
        let value = int_parse_bytes(digits.as_str()).unwrap();
        Ok((j, Number { span: token.span.clone(), value }))
    }

    /// `"text"`, with its escapes resolved.
    pub(crate) fn expr_literal_string(&self, i: usize) -> (r: Parsed<Expression>)
        requires
            self.ready(i),
        ensures
            self.parses(r, i, expressions::expr_literal_string(self@, i as int)),
    {
        reveal(expressions::expr_literal_string);
        let (j, token) = self.t(i, TokenKind::String)?;
        assert(token_is_valid(self@[i as int]));
        match unescape(token.raw) {
            Ok(string) => Ok(
                (
                    j,
                    Expression::Primitive(
                        token.span.clone(),
                        Primitive::String(ParString { string }),
                    ),
                ),
            ),
            Err(_) => {
                assert(false);
                Err(Failure { cut: false, at: i, error: MyError::from_input(0) })
            },
        }
    }

    /// Bytes.
    pub(crate) fn expr_literal_bytes(&self, i: usize) -> (r: Parsed<Expression>)
        requires
            self.ready(i),
        ensures
            self.parses(r, i, expressions::expr_literal_bytes(self@, i as int)),
    {
        reveal(expressions::expr_literal_bytes);
        let r = self.expr_literal_bytes_empty(i);
        if retry(&r) { or(r, self.expr_literal_bytes_nonempty(i)) } else { r }
    }

    /// `<<>>`, of which the middle is one token.
    pub(crate) fn expr_literal_bytes_empty(&self, i: usize) -> (r: Parsed<Expression>)
        requires
            self.ready(i),
        ensures
            self.parses(r, i, expressions::expr_literal_bytes_empty(self@, i as int)),
    {
        reveal(expressions::expr_literal_bytes_empty);
        let (i, pre) = self.t(i, TokenKind::Lt)?;
        let (i, _) = self.t(i, TokenKind::Link)?;
        let (i, post) = cut(self.t(i, TokenKind::Gt))?;
        let span = pre.span.join(post.span.clone());
        Ok((i, Expression::Primitive(span, Primitive::Bytes(bytes_new()))))
    }

    /// `<<1 2>>`
    pub(crate) fn expr_literal_bytes_nonempty(&self, i: usize) -> (r: Parsed<Expression>)
        requires
            self.ready(i),
        ensures
            self.parses(r, i, expressions::expr_literal_bytes_nonempty(self@, i as int)),
    {
        reveal(expressions::expr_literal_bytes_nonempty);
        let (i, pre) = self.t(i, TokenKind::Lt)?;
        let (i, _) = self.t(i, TokenKind::Lt)?;
        let (i, bytes) = cut(self.literal_bytes_inner(i))?;
        let (i, _) = cut(self.t(i, TokenKind::Gt))?;
        let (i, post) = cut(self.t(i, TokenKind::Gt))?;
        let span = pre.span.join(post.span.clone());
        assert(bytes.deep_view() =~= bytes@);
        Ok((i, Expression::Primitive(span, Primitive::Bytes(bytes_from(bytes)))))
    }

    /// Numbers, as often as they come, each taken as a byte.
    pub(crate) fn literal_bytes_inner(&self, i: usize) -> (r: Parsed<Vec<u8>>)
        requires
            self.ready(i),
        ensures
            self.tries(r, i, expressions::literal_bytes_inner(self@, i as int)),
    {
        let mut bytes: Vec<u8> = Vec::new();
        let mut k = i;
        let ghost all = expressions::literal_bytes_inner(self@, i as int);
        proof {
            join_nothing(all);
            assert(bytes.deep_view() =~= Seq::<u8>::empty());
        }
        loop
            invariant
                self.ready(k),
                i <= k,
                all == prepend(
                    bytes.deep_view(),
                    expressions::literal_bytes_inner(self@, k as int),
                ),
            ensures
                i <= k <= self@.len(),
                all == Outcome::Done(k as int, bytes.deep_view()),
            decreases self@.len() - k,
        {
            match self.literal_byte(k) {
                Err(_) => {
                    assert(bytes.deep_view() + Seq::<u8>::empty() =~= bytes.deep_view());
                    break;
                },
                Ok((j, byte)) => {
                    let ghost before = bytes.deep_view();
                    bytes.push(byte);
                    proof {
                        assert(bytes.deep_view() =~= before.push(byte));
                        join_one(before, byte, expressions::literal_bytes_inner(self@, j as int));
                    }
                    k = j;
                },
            }
        }
        Ok((k, bytes))
    }

    /// A number, taken as a byte: its remainder modulo 256.
    pub(crate) fn literal_byte(&self, i: usize) -> (r: Parsed<u8>)
        requires
            self.ready(i),
        ensures
            self.parses(r, i, expressions::literal_byte(self@, i as int)),
            r matches Err(f) ==> !f.cut,
    {
        reveal(expressions::literal_int);
        let (j, n) = self.literal_int(i)?;
        Ok((j, byte_of(n.value)))
    }

    /// `let p = e in f`
    pub(crate) fn expr_let(&self, i: usize) -> (r: Parsed<Expression>)
        requires
            self.ready(i),
        ensures
            self.parses(r, i, expressions::expr_let(self@, rules(self@, i as int), i as int)),
        decreases self@.len() - i, 0int,
    {
        reveal(expressions::expr_let);
        let (i, pre) = self.t(i, TokenKind::Let)?;
        let (i, pattern) = cut(self.pattern(i))?;
        let (i, _) = cut(self.t(i, TokenKind::Eq))?;
        let (i, expression) = cut(self.expression(i))?;
        let (i, _) = cut(self.t(i, TokenKind::In))?;
        let (i, rest) = cut(self.expression(i))?;
        Ok((
            i,
            Expression::Let {
                span: pre.span.join(rest.span()),
                pattern,
                expression: Box::new(expression),
                then: Box::new(rest),
            },
        ))
    }

    /// `catch@l p => e in f`
    pub(crate) fn expr_catch(&self, i: usize) -> (r: Parsed<Expression>)
        requires
            self.ready(i),
        ensures
            self.parses(r, i, expressions::expr_catch(self@, rules(self@, i as int), i as int)),
        decreases self@.len() - i, 0int,
    {
        reveal(expressions::expr_catch);
        let (i, pre) = self.t(i, TokenKind::Catch)?;
        let (i, label) = cut(self.label(i))?;
        let (i, pattern) = cut(self.pattern(i))?;
        let (i, _) = cut(self.t(i, TokenKind::FatArrow))?;
        let (i, block) = cut(self.expression(i))?;
        let (i, _) = cut(self.t(i, TokenKind::In))?;
        let (i, rest) = cut(self.expression(i))?;
        Ok((
            i,
            Expression::Catch {
                span: pre.span.join(rest.span()),
                label,
                pattern,
                block: Box::new(block),
                then: Box::new(rest),
            },
        ))
    }

    /// `throw@l e`
    pub(crate) fn expr_throw(&self, i: usize) -> (r: Parsed<Expression>)
        requires
            self.ready(i),
        ensures
            self.parses(r, i, expressions::expr_throw(self@, rules(self@, i as int), i as int)),
        decreases self@.len() - i, 0int,
    {
        reveal(expressions::expr_throw);
        let (i, pre) = self.t(i, TokenKind::Throw)?;
        let (i, label) = cut(self.label(i))?;
        let (i, value) = cut(self.expression(i))?;
        Ok((i, Expression::Throw(pre.span.join(value.span()), label, Box::new(value))))
    }

    /// `do { process } in e`
    pub(crate) fn expr_do(&self, i: usize) -> (r: Parsed<Expression>)
        requires
            self.ready(i),
        ensures
            self.parses(r, i, expressions::expr_do(self@, rules(self@, i as int), i as int)),
        decreases self@.len() - i, 0int,
    {
        reveal(expressions::expr_do);
        let (i, pre) = self.t(i, TokenKind::Do)?;
        let (i, open) = cut(self.t(i, TokenKind::LCurly))?;
        let (i, process) = cut(opt(i, self.process(i)))?;
        let (i, _) = cut(self.t(i, TokenKind::RCurly))?;
        let (i, _) = cut(self.t(i, TokenKind::In))?;
        let (i, rest) = cut(self.expression(i))?;
        let process = match process {
            Some(process) => process,
            None => Process::noop(open.span.only_end()),
        };
        Ok((
            i,
            Expression::Do {
                span: pre.span.join(rest.span()),
                process: Box::new(process),
                then: Box::new(rest),
            },
        ))
    }

    /// `box e`
    pub(crate) fn expr_box(&self, i: usize) -> (r: Parsed<Expression>)
        requires
            self.ready(i),
        ensures
            self.parses(r, i, expressions::expr_box(self@, rules(self@, i as int), i as int)),
        decreases self@.len() - i, 0int,
    {
        reveal(expressions::expr_box);
        let (i, pre) = self.t(i, TokenKind::Box)?;
        let (i, value) = cut(self.expression(i))?;
        Ok((i, Expression::Box(pre.span.clone(), Box::new(value))))
    }

    /// `chan p { process }`
    pub(crate) fn expr_chan(&self, i: usize) -> (r: Parsed<Expression>)
        requires
            self.ready(i),
        ensures
            self.parses(r, i, expressions::expr_chan(self@, rules(self@, i as int), i as int)),
        decreases self@.len() - i, 0int,
    {
        reveal(expressions::expr_chan);
        let (i, pre) = self.t(i, TokenKind::Chan)?;
        let (i, pattern) = cut(self.pattern(i))?;
        let (i, open) = cut(self.t(i, TokenKind::LCurly))?;
        let (i, process) = cut(opt(i, self.process(i)))?;
        let (i, close) = cut(self.t(i, TokenKind::RCurly))?;
        let process = match process {
            Some(process) => process,
            None => Process::noop(open.span.only_end()),
        };
        Ok((
            i,
            Expression::Chan {
                span: pre.span.join(close.span.clone()),
                pattern,
                process: Box::new(process),
            },
        ))
    }
}

} // verus!
