//! Applications come to the same, whatever stands around them.
use super::super::grammar::applications;
use super::expressions::carry_operand;
use super::{carries, carries_opt, carry_branches_body, carry_list1, carry_names, Frame};
use vstd::prelude::*;

verus! {

/// An operand and what is applied to it.
pub(crate) proof fn carry_application(f: Frame, i: int)
    requires
        f.ready(i),
    ensures
        carries(
            f.inner,
            f.offset,
            i,
            applications::application(f.inner, f.inner_rules, i),
            applications::application(f.outer, f.outer_rules, i + f.offset),
        ),
{
    reveal(applications::application);
    carry_operand(f, i);
}

/// What is applied to an operand, if anything is.
pub(crate) proof fn carry_apply(f: Frame, i: int)
    requires
        f.ready(i),
    ensures
        carries_opt(
            f.inner,
            f.offset,
            i,
            applications::apply(f.inner, f.inner_rules, i),
            applications::apply(f.outer, f.outer_rules, i + f.offset),
        ),
{
    reveal(applications::apply);
    carry_apply_begin(f, i);
    carry_apply_unfounded(f, i);
    carry_apply_loop(f, i);
    carry_apply_signal(f, i);
    carry_apply_case(f, i);
    carry_apply_send_type(f, i);
    carry_apply_send(f, i);
    carry_apply_default(f, i);
    carry_apply_try(f, i);
    carry_apply_pipe(f, i);
}

/// `(e, f) a`
pub(crate) proof fn carry_apply_send(f: Frame, i: int)
    requires
        f.ready(i),
    ensures
        carries(
            f.inner,
            f.offset,
            i,
            applications::apply_send(f.inner, f.inner_rules, i),
            applications::apply_send(f.outer, f.outer_rules, i + f.offset),
        ),
{
    reveal(applications::apply_send);
    if i + 1 <= f.inner.len() {
        carry_list1(f, f.inner_rules.expression, f.outer_rules.expression, i + 1);
    }
}

/// `.x a`
pub(crate) proof fn carry_apply_signal(f: Frame, i: int)
    requires
        f.ready(i),
    ensures
        carries(
            f.inner,
            f.offset,
            i,
            applications::apply_signal(f.inner, f.inner_rules, i),
            applications::apply_signal(f.outer, f.outer_rules, i + f.offset),
        ),
{
    reveal(applications::apply_signal);
}

/// `.case { .x y => e }`
pub(crate) proof fn carry_apply_case(f: Frame, i: int)
    requires
        f.ready(i),
    ensures
        carries(
            f.inner,
            f.offset,
            i,
            applications::apply_case(f.inner, f.inner_rules, i),
            applications::apply_case(f.outer, f.outer_rules, i + f.offset),
        ),
{
    reveal(applications::apply_case);
    if i + 2 <= f.inner.len() {
        carry_branches_body(f, f.inner_rules.apply_branch, f.outer_rules.apply_branch, i + 2);
    }
}

/// `.begin@l a`
pub(crate) proof fn carry_apply_begin(f: Frame, i: int)
    requires
        f.ready(i),
    ensures
        carries(
            f.inner,
            f.offset,
            i,
            applications::apply_begin(f.inner, f.inner_rules, i),
            applications::apply_begin(f.outer, f.outer_rules, i + f.offset),
        ),
{
    reveal(applications::apply_begin);
}

/// `.unfounded@l a`
pub(crate) proof fn carry_apply_unfounded(f: Frame, i: int)
    requires
        f.ready(i),
    ensures
        carries(
            f.inner,
            f.offset,
            i,
            applications::apply_unfounded(f.inner, f.inner_rules, i),
            applications::apply_unfounded(f.outer, f.outer_rules, i + f.offset),
        ),
{
    reveal(applications::apply_unfounded);
}

/// `.loop@l`
pub(crate) proof fn carry_apply_loop(f: Frame, i: int)
    requires
        f.ready(i),
    ensures
        carries(
            f.inner,
            f.offset,
            i,
            applications::apply_loop(f.inner, i),
            applications::apply_loop(f.outer, i + f.offset),
        ),
{
    reveal(applications::apply_loop);
}

/// `(type a, b) f`
pub(crate) proof fn carry_apply_send_type(f: Frame, i: int)
    requires
        f.ready(i),
    ensures
        carries(
            f.inner,
            f.offset,
            i,
            applications::apply_send_type(f.inner, f.inner_rules, i),
            applications::apply_send_type(f.outer, f.outer_rules, i + f.offset),
        ),
{
    reveal(applications::apply_send_type);
    if i + 2 <= f.inner.len() {
        carry_list1(f, f.inner_rules.typ, f.outer_rules.typ, i + 2);
    }
}

/// `.try@l a`
pub(crate) proof fn carry_apply_try(f: Frame, i: int)
    requires
        f.ready(i),
    ensures
        carries(
            f.inner,
            f.offset,
            i,
            applications::apply_try(f.inner, f.inner_rules, i),
            applications::apply_try(f.outer, f.outer_rules, i + f.offset),
        ),
{
    reveal(applications::apply_try);
}

/// `.default(e) a`
pub(crate) proof fn carry_apply_default(f: Frame, i: int)
    requires
        f.ready(i),
    ensures
        carries(
            f.inner,
            f.offset,
            i,
            applications::apply_default(f.inner, f.inner_rules, i),
            applications::apply_default(f.outer, f.outer_rules, i + f.offset),
        ),
{
    reveal(applications::apply_default);
}

/// `->f a`
pub(crate) proof fn carry_apply_pipe(f: Frame, i: int)
    requires
        f.ready(i),
    ensures
        carries(
            f.inner,
            f.offset,
            i,
            applications::apply_pipe(f.inner, f.inner_rules, i),
            applications::apply_pipe(f.outer, f.outer_rules, i + f.offset),
        ),
{
    reveal(applications::apply_pipe);
}

/// What stands after a signal in `.case`.
pub(crate) proof fn carry_apply_branch(f: Frame, i: int)
    requires
        f.ready(i),
    ensures
        carries(
            f.inner,
            f.offset,
            i,
            applications::apply_branch(f.inner, f.inner_rules, i),
            applications::apply_branch(f.outer, f.outer_rules, i + f.offset),
        ),
{
    reveal(applications::apply_branch);
    carry_apply_branch_then(f, i);
    carry_apply_branch_recv_type(f, i);
    carry_apply_branch_receive(f, i);
    carry_apply_branch_continue(f, i);
    carry_apply_branch_try(f, i);
    carry_apply_branch_default(f, i);
}

/// `x => e`
pub(crate) proof fn carry_apply_branch_then(f: Frame, i: int)
    requires
        f.ready(i),
    ensures
        carries(
            f.inner,
            f.offset,
            i,
            applications::apply_branch_then(f.inner, f.inner_rules, i),
            applications::apply_branch_then(f.outer, f.outer_rules, i + f.offset),
        ),
{
    reveal(applications::apply_branch_then);
}

/// `(p, q) b`
pub(crate) proof fn carry_apply_branch_receive(f: Frame, i: int)
    requires
        f.ready(i),
    ensures
        carries(
            f.inner,
            f.offset,
            i,
            applications::apply_branch_receive(f.inner, f.inner_rules, i),
            applications::apply_branch_receive(f.outer, f.outer_rules, i + f.offset),
        ),
{
    reveal(applications::apply_branch_receive);
    if i + 1 <= f.inner.len() {
        carry_list1(f, f.inner_rules.pattern, f.outer_rules.pattern, i + 1);
    }
}

/// `! => e`
pub(crate) proof fn carry_apply_branch_continue(f: Frame, i: int)
    requires
        f.ready(i),
    ensures
        carries(
            f.inner,
            f.offset,
            i,
            applications::apply_branch_continue(f.inner, f.inner_rules, i),
            applications::apply_branch_continue(f.outer, f.outer_rules, i + f.offset),
        ),
{
    reveal(applications::apply_branch_continue);
}

/// `(type a, b) c`
pub(crate) proof fn carry_apply_branch_recv_type(f: Frame, i: int)
    requires
        f.ready(i),
    ensures
        carries(
            f.inner,
            f.offset,
            i,
            applications::apply_branch_recv_type(f.inner, f.inner_rules, i),
            applications::apply_branch_recv_type(f.outer, f.outer_rules, i + f.offset),
        ),
{
    reveal(applications::apply_branch_recv_type);
    if i + 2 <= f.inner.len() {
        carry_names(f, i + 2);
    }
}

/// `try@l b`
pub(crate) proof fn carry_apply_branch_try(f: Frame, i: int)
    requires
        f.ready(i),
    ensures
        carries(
            f.inner,
            f.offset,
            i,
            applications::apply_branch_try(f.inner, f.inner_rules, i),
            applications::apply_branch_try(f.outer, f.outer_rules, i + f.offset),
        ),
{
    reveal(applications::apply_branch_try);
}

/// `default(e) b`
pub(crate) proof fn carry_apply_branch_default(f: Frame, i: int)
    requires
        f.ready(i),
    ensures
        carries(
            f.inner,
            f.offset,
            i,
            applications::apply_branch_default(f.inner, f.inner_rules, i),
            applications::apply_branch_default(f.outer, f.outer_rules, i + f.offset),
        ),
{
    reveal(applications::apply_branch_default);
}

} // verus!
