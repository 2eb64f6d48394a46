//! Expressions come to the same, whatever stands around them.
use super::super::grammar::expressions;
use super::applications::carry_application;
use super::constructions::carry_construction;
use super::{carries, carries_opt, carry_list0, stands_in, Frame};
use crate::token::TokenKind;
use vstd::prelude::*;

verus! {

/// An expression.
pub(crate) proof fn carry_expression(f: Frame, i: int)
    requires
        f.ready(i),
    ensures
        carries(
            f.inner,
            f.offset,
            i,
            expressions::expression(f.inner, f.inner_rules, i),
            expressions::expression(f.outer, f.outer_rules, i + f.offset),
        ),
{
    reveal(expressions::expression);
    carry_expr_literal(f, i);
    carry_expr_list(f, i);
    carry_expr_let(f, i);
    carry_expr_catch(f, i);
    carry_expr_throw(f, i);
    carry_expr_do(f, i);
    carry_expr_box(f, i);
    carry_expr_chan(f, i);
    carry_application(f, i);
    carry_construction(f, i);
    carry_expr_grouped(f, i);
}

/// `{ e }`
pub(crate) proof fn carry_expr_grouped(f: Frame, i: int)
    requires
        f.ready(i),
    ensures
        carries(
            f.inner,
            f.offset,
            i,
            expressions::expr_grouped(f.inner, f.inner_rules, i),
            expressions::expr_grouped(f.outer, f.outer_rules, i + f.offset),
        ),
{
    reveal(expressions::expr_grouped);
}

/// A name or a grouped expression, to which something can be applied.
pub(crate) proof fn carry_operand(f: Frame, i: int)
    requires
        f.ready(i),
    ensures
        carries(
            f.inner,
            f.offset,
            i,
            expressions::operand(f.inner, f.inner_rules, i),
            expressions::operand(f.outer, f.outer_rules, i + f.offset),
        ),
{
    reveal(expressions::operand);
    carry_expr_grouped(f, i);
}

/// A literal.
pub(crate) proof fn carry_expr_literal(f: Frame, i: int)
    requires
        f.ready(i),
    ensures
        carries(
            f.inner,
            f.offset,
            i,
            expressions::expr_literal(f.inner, i),
            expressions::expr_literal(f.outer, i + f.offset),
        ),
{
    reveal(expressions::expr_literal);
    carry_expr_literal_int(f, i);
    carry_expr_literal_string(f, i);
    carry_expr_literal_bytes(f, i);
}

/// `*(e, f)`
pub(crate) proof fn carry_expr_list(f: Frame, i: int)
    requires
        f.ready(i),
    ensures
        carries(
            f.inner,
            f.offset,
            i,
            expressions::expr_list(f.inner, f.inner_rules, i),
            expressions::expr_list(f.outer, f.outer_rules, i + f.offset),
        ),
{
    reveal(expressions::expr_list);
    if i + 2 <= f.inner.len() {
        carry_list0(f, f.inner_rules.expression, f.outer_rules.expression, i + 2);
    }
}

/// `12`
pub(crate) proof fn carry_expr_literal_int(f: Frame, i: int)
    requires
        f.ready(i),
    ensures
        carries(
            f.inner,
            f.offset,
            i,
            expressions::expr_literal_int(f.inner, i),
            expressions::expr_literal_int(f.outer, i + f.offset),
        ),
{
    reveal(expressions::expr_literal_int);
    carry_literal_int(f, i);
}

/// A number and where it stands.
pub(crate) proof fn carry_literal_int(f: Frame, i: int)
    requires
        f.ready(i),
    ensures
        carries(
            f.inner,
            f.offset,
            i,
            expressions::literal_int(f.inner, i),
            expressions::literal_int(f.outer, i + f.offset),
        ),
{
    reveal(expressions::literal_int);
}

/// `"text"`, with its escapes resolved.
pub(crate) proof fn carry_expr_literal_string(f: Frame, i: int)
    requires
        f.ready(i),
    ensures
        carries(
            f.inner,
            f.offset,
            i,
            expressions::expr_literal_string(f.inner, i),
            expressions::expr_literal_string(f.outer, i + f.offset),
        ),
{
    reveal(expressions::expr_literal_string);
}

/// Bytes.
pub(crate) proof fn carry_expr_literal_bytes(f: Frame, i: int)
    requires
        f.ready(i),
    ensures
        carries(
            f.inner,
            f.offset,
            i,
            expressions::expr_literal_bytes(f.inner, i),
            expressions::expr_literal_bytes(f.outer, i + f.offset),
        ),
{
    reveal(expressions::expr_literal_bytes);
    carry_expr_literal_bytes_empty(f, i);
    carry_expr_literal_bytes_nonempty(f, i);
}

/// `<<>>`, of which the middle is one token.
pub(crate) proof fn carry_expr_literal_bytes_empty(f: Frame, i: int)
    requires
        f.ready(i),
    ensures
        carries(
            f.inner,
            f.offset,
            i,
            expressions::expr_literal_bytes_empty(f.inner, i),
            expressions::expr_literal_bytes_empty(f.outer, i + f.offset),
        ),
{
    reveal(expressions::expr_literal_bytes_empty);
}

/// `<<1 2>>`
pub(crate) proof fn carry_expr_literal_bytes_nonempty(f: Frame, i: int)
    requires
        f.ready(i),
    ensures
        carries(
            f.inner,
            f.offset,
            i,
            expressions::expr_literal_bytes_nonempty(f.inner, i),
            expressions::expr_literal_bytes_nonempty(f.outer, i + f.offset),
        ),
{
    reveal(expressions::expr_literal_bytes_nonempty);
    if i + 2 <= f.inner.len() {
        carry_bytes(f, i + 2);
    }
}

/// `let p = e in f`
pub(crate) proof fn carry_expr_let(f: Frame, i: int)
    requires
        f.ready(i),
    ensures
        carries(
            f.inner,
            f.offset,
            i,
            expressions::expr_let(f.inner, f.inner_rules, i),
            expressions::expr_let(f.outer, f.outer_rules, i + f.offset),
        ),
{
    reveal(expressions::expr_let);
}

/// `catch@l p => e in f`
pub(crate) proof fn carry_expr_catch(f: Frame, i: int)
    requires
        f.ready(i),
    ensures
        carries(
            f.inner,
            f.offset,
            i,
            expressions::expr_catch(f.inner, f.inner_rules, i),
            expressions::expr_catch(f.outer, f.outer_rules, i + f.offset),
        ),
{
    reveal(expressions::expr_catch);
}

/// `throw@l e`
pub(crate) proof fn carry_expr_throw(f: Frame, i: int)
    requires
        f.ready(i),
    ensures
        carries(
            f.inner,
            f.offset,
            i,
            expressions::expr_throw(f.inner, f.inner_rules, i),
            expressions::expr_throw(f.outer, f.outer_rules, i + f.offset),
        ),
{
    reveal(expressions::expr_throw);
}

/// `do { process } in e`
pub(crate) proof fn carry_expr_do(f: Frame, i: int)
    requires
        f.ready(i),
    ensures
        carries(
            f.inner,
            f.offset,
            i,
            expressions::expr_do(f.inner, f.inner_rules, i),
            expressions::expr_do(f.outer, f.outer_rules, i + f.offset),
        ),
{
    reveal(expressions::expr_do);
}

/// `box e`
pub(crate) proof fn carry_expr_box(f: Frame, i: int)
    requires
        f.ready(i),
    ensures
        carries(
            f.inner,
            f.offset,
            i,
            expressions::expr_box(f.inner, f.inner_rules, i),
            expressions::expr_box(f.outer, f.outer_rules, i + f.offset),
        ),
{
    reveal(expressions::expr_box);
}

/// `chan p { process }`
pub(crate) proof fn carry_expr_chan(f: Frame, i: int)
    requires
        f.ready(i),
    ensures
        carries(
            f.inner,
            f.offset,
            i,
            expressions::expr_chan(f.inner, f.inner_rules, i),
            expressions::expr_chan(f.outer, f.outer_rules, i + f.offset),
        ),
{
    reveal(expressions::expr_chan);
}

/// Numbers, as often as they come, each taken as a byte.
proof fn carry_bytes(f: Frame, i: int)
    requires
        stands_in(f.inner, f.outer, f.offset),
        0 <= i <= f.inner.len(),
    ensures
        carries_opt(
            f.inner,
            f.offset,
            i,
            expressions::literal_bytes_inner(f.inner, i),
            expressions::literal_bytes_inner(f.outer, i + f.offset),
        ),
    decreases f.inner.len() - i,
{
    reveal(expressions::literal_int);
    if i < f.inner.len() && f.inner[i].kind == TokenKind::Integer {
        carry_bytes(f, i + 1);
    }
}

} // verus!
