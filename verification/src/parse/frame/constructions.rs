//! Constructions come to the same, whatever stands around them.
use super::super::grammar::constructions;
use super::applications::carry_application;
use super::expressions::{
    carry_expr_box, carry_expr_catch, carry_expr_chan, carry_expr_do, carry_expr_grouped,
    carry_expr_let, carry_expr_list, carry_expr_literal,
};
use super::{carries, carry_branches_body, carry_list1, carry_names, Frame};
use vstd::prelude::*;

verus! {

/// A construction.
pub(crate) proof fn carry_construction(f: Frame, i: int)
    requires
        f.ready(i),
    ensures
        carries(
            f.inner,
            f.offset,
            i,
            constructions::construction(f.inner, f.inner_rules, i),
            constructions::construction(f.outer, f.outer_rules, i + f.offset),
        ),
{
    reveal(constructions::construction);
    carry_cons_begin(f, i);
    carry_cons_unfounded(f, i);
    carry_cons_loop(f, i);
    carry_cons_then(f, i);
    carry_cons_signal(f, i);
    carry_cons_case(f, i);
    carry_cons_break(f, i);
    carry_cons_send_type(f, i);
    carry_cons_send(f, i);
    carry_cons_recv_type(f, i);
    carry_cons_receive(f, i);
}

/// An expression that ends a construction.
pub(crate) proof fn carry_cons_then_value(f: Frame, i: int)
    requires
        f.ready(i),
    ensures
        carries(
            f.inner,
            f.offset,
            i,
            constructions::cons_then_value(f.inner, f.inner_rules, i),
            constructions::cons_then_value(f.outer, f.outer_rules, i + f.offset),
        ),
{
    reveal(constructions::cons_then_value);
    carry_expr_literal(f, i);
    carry_expr_list(f, i);
    carry_expr_box(f, i);
    carry_expr_chan(f, i);
    carry_expr_let(f, i);
    carry_expr_catch(f, i);
    carry_expr_do(f, i);
    carry_application(f, i);
    carry_expr_grouped(f, i);
}

/// `e`
pub(crate) proof fn carry_cons_then(f: Frame, i: int)
    requires
        f.ready(i),
    ensures
        carries(
            f.inner,
            f.offset,
            i,
            constructions::cons_then(f.inner, f.inner_rules, i),
            constructions::cons_then(f.outer, f.outer_rules, i + f.offset),
        ),
{
    carry_cons_then_value(f, i);
}

/// `(e, f) c`
pub(crate) proof fn carry_cons_send(f: Frame, i: int)
    requires
        f.ready(i),
    ensures
        carries(
            f.inner,
            f.offset,
            i,
            constructions::cons_send(f.inner, f.inner_rules, i),
            constructions::cons_send(f.outer, f.outer_rules, i + f.offset),
        ),
{
    reveal(constructions::cons_send);
    if i + 1 <= f.inner.len() {
        carry_list1(f, f.inner_rules.expression, f.outer_rules.expression, i + 1);
    }
}

/// `[p, q] c`
pub(crate) proof fn carry_cons_receive(f: Frame, i: int)
    requires
        f.ready(i),
    ensures
        carries(
            f.inner,
            f.offset,
            i,
            constructions::cons_receive(f.inner, f.inner_rules, i),
            constructions::cons_receive(f.outer, f.outer_rules, i + f.offset),
        ),
{
    reveal(constructions::cons_receive);
    if i + 1 <= f.inner.len() {
        carry_list1(f, f.inner_rules.pattern, f.outer_rules.pattern, i + 1);
    }
}

/// `.x c`
pub(crate) proof fn carry_cons_signal(f: Frame, i: int)
    requires
        f.ready(i),
    ensures
        carries(
            f.inner,
            f.offset,
            i,
            constructions::cons_signal(f.inner, f.inner_rules, i),
            constructions::cons_signal(f.outer, f.outer_rules, i + f.offset),
        ),
{
    reveal(constructions::cons_signal);
}

/// `case { .x => e, .y => f }`
pub(crate) proof fn carry_cons_case(f: Frame, i: int)
    requires
        f.ready(i),
    ensures
        carries(
            f.inner,
            f.offset,
            i,
            constructions::cons_case(f.inner, f.inner_rules, i),
            constructions::cons_case(f.outer, f.outer_rules, i + f.offset),
        ),
{
    reveal(constructions::cons_case);
    if i + 1 <= f.inner.len() {
        carry_branches_body(f, f.inner_rules.cons_branch, f.outer_rules.cons_branch, i + 1);
    }
}

/// `!`
pub(crate) proof fn carry_cons_break(f: Frame, i: int)
    requires
        f.ready(i),
    ensures
        carries(
            f.inner,
            f.offset,
            i,
            constructions::cons_break(f.inner, i),
            constructions::cons_break(f.outer, i + f.offset),
        ),
{
    reveal(constructions::cons_break);
}

/// `begin@l c`
pub(crate) proof fn carry_cons_begin(f: Frame, i: int)
    requires
        f.ready(i),
    ensures
        carries(
            f.inner,
            f.offset,
            i,
            constructions::cons_begin(f.inner, f.inner_rules, i),
            constructions::cons_begin(f.outer, f.outer_rules, i + f.offset),
        ),
{
    reveal(constructions::cons_begin);
}

/// `unfounded@l c`
pub(crate) proof fn carry_cons_unfounded(f: Frame, i: int)
    requires
        f.ready(i),
    ensures
        carries(
            f.inner,
            f.offset,
            i,
            constructions::cons_unfounded(f.inner, f.inner_rules, i),
            constructions::cons_unfounded(f.outer, f.outer_rules, i + f.offset),
        ),
{
    reveal(constructions::cons_unfounded);
}

/// `loop@l`
pub(crate) proof fn carry_cons_loop(f: Frame, i: int)
    requires
        f.ready(i),
    ensures
        carries(
            f.inner,
            f.offset,
            i,
            constructions::cons_loop(f.inner, i),
            constructions::cons_loop(f.outer, i + f.offset),
        ),
{
    reveal(constructions::cons_loop);
}

/// `(type a, b) c`
pub(crate) proof fn carry_cons_send_type(f: Frame, i: int)
    requires
        f.ready(i),
    ensures
        carries(
            f.inner,
            f.offset,
            i,
            constructions::cons_send_type(f.inner, f.inner_rules, i),
            constructions::cons_send_type(f.outer, f.outer_rules, i + f.offset),
        ),
{
    reveal(constructions::cons_send_type);
    if i + 2 <= f.inner.len() {
        carry_list1(f, f.inner_rules.typ, f.outer_rules.typ, i + 2);
    }
}

/// `[type a, b] c`
pub(crate) proof fn carry_cons_recv_type(f: Frame, i: int)
    requires
        f.ready(i),
    ensures
        carries(
            f.inner,
            f.offset,
            i,
            constructions::cons_recv_type(f.inner, f.inner_rules, i),
            constructions::cons_recv_type(f.outer, f.outer_rules, i + f.offset),
        ),
{
    reveal(constructions::cons_recv_type);
    if i + 2 <= f.inner.len() {
        carry_names(f, i + 2);
    }
}

/// What stands after a signal in `case`.
pub(crate) proof fn carry_cons_branch(f: Frame, i: int)
    requires
        f.ready(i),
    ensures
        carries(
            f.inner,
            f.offset,
            i,
            constructions::cons_branch(f.inner, f.inner_rules, i),
            constructions::cons_branch(f.outer, f.outer_rules, i + f.offset),
        ),
{
    reveal(constructions::cons_branch);
    carry_cons_branch_then(f, i);
    carry_cons_branch_recv_type(f, i);
    carry_cons_branch_receive(f, i);
}

/// `=> e`
pub(crate) proof fn carry_cons_branch_then(f: Frame, i: int)
    requires
        f.ready(i),
    ensures
        carries(
            f.inner,
            f.offset,
            i,
            constructions::cons_branch_then(f.inner, f.inner_rules, i),
            constructions::cons_branch_then(f.outer, f.outer_rules, i + f.offset),
        ),
{
    reveal(constructions::cons_branch_then);
}

/// `(p, q) b`
pub(crate) proof fn carry_cons_branch_receive(f: Frame, i: int)
    requires
        f.ready(i),
    ensures
        carries(
            f.inner,
            f.offset,
            i,
            constructions::cons_branch_receive(f.inner, f.inner_rules, i),
            constructions::cons_branch_receive(f.outer, f.outer_rules, i + f.offset),
        ),
{
    reveal(constructions::cons_branch_receive);
    if i + 1 <= f.inner.len() {
        carry_list1(f, f.inner_rules.pattern, f.outer_rules.pattern, i + 1);
    }
}

/// `(type a, b) c`
pub(crate) proof fn carry_cons_branch_recv_type(f: Frame, i: int)
    requires
        f.ready(i),
    ensures
        carries(
            f.inner,
            f.offset,
            i,
            constructions::cons_branch_recv_type(f.inner, f.inner_rules, i),
            constructions::cons_branch_recv_type(f.outer, f.outer_rules, i + f.offset),
        ),
{
    reveal(constructions::cons_branch_recv_type);
    if i + 2 <= f.inner.len() {
        carry_names(f, i + 2);
    }
}

} // verus!
