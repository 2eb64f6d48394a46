//! Types come to the same, whatever stands around them.
use super::super::grammar::global_name;
use super::super::grammar::types;
use super::super::outcome::Outcome;
use super::{carries, carries_opt, carry_branches_body, carry_list1, carry_names, Frame};
use vstd::prelude::*;

verus! {

/// A type.
pub(crate) proof fn carry_typ(f: Frame, i: int)
    requires
        f.types_ready(i),
    ensures
        carries(
            f.inner,
            f.offset,
            i,
            types::typ(f.inner, f.inner_rules, i),
            types::typ(f.outer, f.outer_rules, i + f.offset),
        ),
{
    reveal(types::typ);
    carry_typ_var(f, i);
    carry_typ_name(f, i);
    carry_typ_box(f, i);
    carry_typ_chan(f, i);
    carry_typ_either(f, i);
    carry_typ_choice(f, i);
    carry_typ_break(f, i);
    carry_typ_continue(f, i);
    carry_typ_recursive(f, i);
    carry_typ_iterative(f, i);
    carry_typ_self(f, i);
    carry_typ_send_type(f, i);
    carry_typ_send(f, i);
    carry_typ_recv_type(f, i);
    carry_typ_receive(f, i);
}

/// `a`
pub(crate) proof fn carry_typ_var(f: Frame, i: int)
    requires
        f.types_ready(i),
    ensures
        carries(
            f.inner,
            f.offset,
            i,
            types::typ_var(f.inner, i),
            types::typ_var(f.outer, i + f.offset),
        ),
{
    reveal(types::typ_var);
}

/// `Name<a, b>`
pub(crate) proof fn carry_typ_name(f: Frame, i: int)
    requires
        f.types_ready(i),
    ensures
        carries(
            f.inner,
            f.offset,
            i,
            types::typ_name(f.inner, f.inner_rules, i),
            types::typ_name(f.outer, f.outer_rules, i + f.offset),
        ),
{
    reveal(types::typ_name);
    if let Outcome::Done(j, _) = global_name(f.inner, i) {
        carry_type_args(f, i, j);
    }
}

/// `box a`
pub(crate) proof fn carry_typ_box(f: Frame, i: int)
    requires
        f.types_ready(i),
    ensures
        carries(
            f.inner,
            f.offset,
            i,
            types::typ_box(f.inner, f.inner_rules, i),
            types::typ_box(f.outer, f.outer_rules, i + f.offset),
        ),
{
    reveal(types::typ_box);
}

/// `dual a`
pub(crate) proof fn carry_typ_chan(f: Frame, i: int)
    requires
        f.types_ready(i),
    ensures
        carries(
            f.inner,
            f.offset,
            i,
            types::typ_chan(f.inner, f.inner_rules, i),
            types::typ_chan(f.outer, f.outer_rules, i + f.offset),
        ),
{
    reveal(types::typ_chan);
}

/// `(a, b) c`
pub(crate) proof fn carry_typ_send(f: Frame, i: int)
    requires
        f.types_ready(i),
    ensures
        carries(
            f.inner,
            f.offset,
            i,
            types::typ_send(f.inner, f.inner_rules, i),
            types::typ_send(f.outer, f.outer_rules, i + f.offset),
        ),
{
    reveal(types::typ_send);
    if i + 1 <= f.inner.len() {
        carry_list1(f, f.inner_rules.typ, f.outer_rules.typ, i + 1);
    }
}

/// `[a, b] c`
pub(crate) proof fn carry_typ_receive(f: Frame, i: int)
    requires
        f.types_ready(i),
    ensures
        carries(
            f.inner,
            f.offset,
            i,
            types::typ_receive(f.inner, f.inner_rules, i),
            types::typ_receive(f.outer, f.outer_rules, i + f.offset),
        ),
{
    reveal(types::typ_receive);
    if i + 1 <= f.inner.len() {
        carry_list1(f, f.inner_rules.typ, f.outer_rules.typ, i + 1);
    }
}

/// `either { .x a, .y b }`
pub(crate) proof fn carry_typ_either(f: Frame, i: int)
    requires
        f.types_ready(i),
    ensures
        carries(
            f.inner,
            f.offset,
            i,
            types::typ_either(f.inner, f.inner_rules, i),
            types::typ_either(f.outer, f.outer_rules, i + f.offset),
        ),
{
    reveal(types::typ_either);
    if i + 1 <= f.inner.len() {
        carry_branches_body(f, f.inner_rules.typ, f.outer_rules.typ, i + 1);
    }
}

/// `choice { .x => a, .y => b }`
pub(crate) proof fn carry_typ_choice(f: Frame, i: int)
    requires
        f.types_ready(i),
    ensures
        carries(
            f.inner,
            f.offset,
            i,
            types::typ_choice(f.inner, f.inner_rules, i),
            types::typ_choice(f.outer, f.outer_rules, i + f.offset),
        ),
{
    reveal(types::typ_choice);
    if i + 1 <= f.inner.len() {
        carry_branches_body(f, f.inner_rules.typ_branch, f.outer_rules.typ_branch, i + 1);
    }
}

/// `!`
pub(crate) proof fn carry_typ_break(f: Frame, i: int)
    requires
        f.types_ready(i),
    ensures
        carries(
            f.inner,
            f.offset,
            i,
            types::typ_break(f.inner, i),
            types::typ_break(f.outer, i + f.offset),
        ),
{
    reveal(types::typ_break);
}

/// `?`
pub(crate) proof fn carry_typ_continue(f: Frame, i: int)
    requires
        f.types_ready(i),
    ensures
        carries(
            f.inner,
            f.offset,
            i,
            types::typ_continue(f.inner, i),
            types::typ_continue(f.outer, i + f.offset),
        ),
{
    reveal(types::typ_continue);
}

/// `recursive@l a`
pub(crate) proof fn carry_typ_recursive(f: Frame, i: int)
    requires
        f.types_ready(i),
    ensures
        carries(
            f.inner,
            f.offset,
            i,
            types::typ_recursive(f.inner, f.inner_rules, i),
            types::typ_recursive(f.outer, f.outer_rules, i + f.offset),
        ),
{
    reveal(types::typ_recursive);
}

/// `iterative@l a`
pub(crate) proof fn carry_typ_iterative(f: Frame, i: int)
    requires
        f.types_ready(i),
    ensures
        carries(
            f.inner,
            f.offset,
            i,
            types::typ_iterative(f.inner, f.inner_rules, i),
            types::typ_iterative(f.outer, f.outer_rules, i + f.offset),
        ),
{
    reveal(types::typ_iterative);
}

/// `self@l`
pub(crate) proof fn carry_typ_self(f: Frame, i: int)
    requires
        f.types_ready(i),
    ensures
        carries(
            f.inner,
            f.offset,
            i,
            types::typ_self(f.inner, i),
            types::typ_self(f.outer, i + f.offset),
        ),
{
    reveal(types::typ_self);
}

/// `(type a, b) c`
pub(crate) proof fn carry_typ_send_type(f: Frame, i: int)
    requires
        f.types_ready(i),
    ensures
        carries(
            f.inner,
            f.offset,
            i,
            types::typ_send_type(f.inner, f.inner_rules, i),
            types::typ_send_type(f.outer, f.outer_rules, i + f.offset),
        ),
{
    reveal(types::typ_send_type);
    if i + 2 <= f.inner.len() {
        carry_names(f, i + 2);
    }
}

/// `[type a, b] c`
pub(crate) proof fn carry_typ_recv_type(f: Frame, i: int)
    requires
        f.types_ready(i),
    ensures
        carries(
            f.inner,
            f.offset,
            i,
            types::typ_recv_type(f.inner, f.inner_rules, i),
            types::typ_recv_type(f.outer, f.outer_rules, i + f.offset),
        ),
{
    reveal(types::typ_recv_type);
    if i + 2 <= f.inner.len() {
        carry_names(f, i + 2);
    }
}

/// `<a, b>` with names, or nothing.
pub(crate) proof fn carry_type_params(f: Frame, from: int, i: int)
    requires
        f.types_ready(from),
        from <= i <= f.inner.len(),
    ensures
        carries_opt(
            f.inner,
            f.offset,
            i,
            types::type_params(f.inner, i),
            types::type_params(f.outer, i + f.offset),
        ),
{
    reveal(types::type_params);
    if i + 1 <= f.inner.len() {
        carry_names(f, i + 1);
    }
}

/// `<a, b>` with types, or nothing.
pub(crate) proof fn carry_type_args(f: Frame, from: int, i: int)
    requires
        f.types_ready(from),
        from <= i <= f.inner.len(),
    ensures
        carries_opt(
            f.inner,
            f.offset,
            i,
            types::type_args(f.inner, f.inner_rules, i),
            types::type_args(f.outer, f.outer_rules, i + f.offset),
        ),
{
    reveal(types::type_args);
    if i + 1 <= f.inner.len() {
        carry_list1(f, f.inner_rules.typ, f.outer_rules.typ, i + 1);
    }
}

/// What stands after a signal in `choice`.
pub(crate) proof fn carry_typ_branch(f: Frame, i: int)
    requires
        f.types_ready(i),
    ensures
        carries(
            f.inner,
            f.offset,
            i,
            types::typ_branch(f.inner, f.inner_rules, i),
            types::typ_branch(f.outer, f.outer_rules, i + f.offset),
        ),
{
    reveal(types::typ_branch);
    carry_typ_branch_then(f, i);
    carry_typ_branch_recv_type(f, i);
    carry_typ_branch_receive(f, i);
}

/// `=> a`
pub(crate) proof fn carry_typ_branch_then(f: Frame, i: int)
    requires
        f.types_ready(i),
    ensures
        carries(
            f.inner,
            f.offset,
            i,
            types::typ_branch_then(f.inner, f.inner_rules, i),
            types::typ_branch_then(f.outer, f.outer_rules, i + f.offset),
        ),
{
    reveal(types::typ_branch_then);
}

/// `(a, b) c`
pub(crate) proof fn carry_typ_branch_receive(f: Frame, i: int)
    requires
        f.types_ready(i),
    ensures
        carries(
            f.inner,
            f.offset,
            i,
            types::typ_branch_receive(f.inner, f.inner_rules, i),
            types::typ_branch_receive(f.outer, f.outer_rules, i + f.offset),
        ),
{
    reveal(types::typ_branch_receive);
    if i + 1 <= f.inner.len() {
        carry_list1(f, f.inner_rules.typ, f.outer_rules.typ, i + 1);
    }
}

/// `(type a, b) c`
pub(crate) proof fn carry_typ_branch_recv_type(f: Frame, i: int)
    requires
        f.types_ready(i),
    ensures
        carries(
            f.inner,
            f.offset,
            i,
            types::typ_branch_recv_type(f.inner, f.inner_rules, i),
            types::typ_branch_recv_type(f.outer, f.outer_rules, i + f.offset),
        ),
{
    reveal(types::typ_branch_recv_type);
    if i + 2 <= f.inner.len() {
        carry_names(f, i + 2);
    }
}

/// `: a`, or nothing.
pub(crate) proof fn carry_annotation(f: Frame, from: int, i: int)
    requires
        f.types_ready(from),
        from <= i <= f.inner.len(),
    ensures
        carries_opt(
            f.inner,
            f.offset,
            i,
            types::annotation(f.inner, f.inner_rules, i),
            types::annotation(f.outer, f.outer_rules, i + f.offset),
        ),
{
    reveal(types::annotation);
}

} // verus!
