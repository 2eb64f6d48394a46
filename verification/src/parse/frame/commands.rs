//! Commands come to the same, whatever stands around them.
use super::super::grammar::commands;
use super::processes::carry_process;
use super::{carries, carries_opt, carry_branches_body, carry_list1, carry_names, Frame};
use vstd::prelude::*;

verus! {

/// A command that starts with a step of its own.
pub(crate) proof fn carry_cmd_step(f: Frame, i: int)
    requires
        f.ready(i),
    ensures
        carries(
            f.inner,
            f.offset,
            i,
            commands::cmd_step(f.inner, f.inner_rules, i),
            commands::cmd_step(f.outer, f.outer_rules, i + f.offset),
        ),
{
    reveal(commands::cmd_step);
    carry_cmd_link(f, i);
    carry_cmd_signal(f, i);
    carry_cmd_case(f, i);
    carry_cmd_break(f, i);
    carry_cmd_continue(f, i);
    carry_cmd_begin(f, i);
    carry_cmd_unfounded(f, i);
    carry_cmd_loop(f, i);
    carry_cmd_send_type(f, i);
    carry_cmd_send(f, i);
    carry_cmd_recv_type(f, i);
    carry_cmd_receive(f, i);
    carry_cmd_try(f, i);
    carry_cmd_default(f, i);
    carry_cmd_pipe(f, i);
}

/// A command, if there is one.
pub(crate) proof fn carry_cmd(f: Frame, i: int)
    requires
        f.ready(i),
    ensures
        carries_opt(
            f.inner,
            f.offset,
            i,
            commands::cmd(f.inner, f.inner_rules, i),
            commands::cmd(f.outer, f.outer_rules, i + f.offset),
        ),
{
    reveal(commands::cmd);
    carry_cmd_step(f, i);
    carry_cmd_then(f, i);
}

/// The process that a command ends in, if it ends in one.
pub(crate) proof fn carry_cmd_then(f: Frame, i: int)
    requires
        f.ready(i),
    ensures
        carries_opt(
            f.inner,
            f.offset,
            i,
            commands::cmd_then(f.inner, f.inner_rules, i),
            commands::cmd_then(f.outer, f.outer_rules, i + f.offset),
        ),
{
    reveal(commands::cmd_then);
    carry_process(f, i);
}

/// `<> e`
pub(crate) proof fn carry_cmd_link(f: Frame, i: int)
    requires
        f.ready(i),
    ensures
        carries(
            f.inner,
            f.offset,
            i,
            commands::cmd_link(f.inner, f.inner_rules, i),
            commands::cmd_link(f.outer, f.outer_rules, i + f.offset),
        ),
{
    reveal(commands::cmd_link);
}

/// `(e, f) c`
pub(crate) proof fn carry_cmd_send(f: Frame, i: int)
    requires
        f.ready(i),
    ensures
        carries(
            f.inner,
            f.offset,
            i,
            commands::cmd_send(f.inner, f.inner_rules, i),
            commands::cmd_send(f.outer, f.outer_rules, i + f.offset),
        ),
{
    reveal(commands::cmd_send);
    if i + 1 <= f.inner.len() {
        carry_list1(f, f.inner_rules.expression, f.outer_rules.expression, i + 1);
    }
}

/// `[p, q] c`
pub(crate) proof fn carry_cmd_receive(f: Frame, i: int)
    requires
        f.ready(i),
    ensures
        carries(
            f.inner,
            f.offset,
            i,
            commands::cmd_receive(f.inner, f.inner_rules, i),
            commands::cmd_receive(f.outer, f.outer_rules, i + f.offset),
        ),
{
    reveal(commands::cmd_receive);
    if i + 1 <= f.inner.len() {
        carry_list1(f, f.inner_rules.pattern, f.outer_rules.pattern, i + 1);
    }
}

/// `.x c`
pub(crate) proof fn carry_cmd_signal(f: Frame, i: int)
    requires
        f.ready(i),
    ensures
        carries(
            f.inner,
            f.offset,
            i,
            commands::cmd_signal(f.inner, f.inner_rules, i),
            commands::cmd_signal(f.outer, f.outer_rules, i + f.offset),
        ),
{
    reveal(commands::cmd_signal);
}

/// `.case { .x => { process } } process`
pub(crate) proof fn carry_cmd_case(f: Frame, i: int)
    requires
        f.ready(i),
    ensures
        carries(
            f.inner,
            f.offset,
            i,
            commands::cmd_case(f.inner, f.inner_rules, i),
            commands::cmd_case(f.outer, f.outer_rules, i + f.offset),
        ),
{
    reveal(commands::cmd_case);
    if i + 2 <= f.inner.len() {
        carry_branches_body(f, f.inner_rules.cmd_branch, f.outer_rules.cmd_branch, i + 2);
    }
}

/// `!`
pub(crate) proof fn carry_cmd_break(f: Frame, i: int)
    requires
        f.ready(i),
    ensures
        carries(
            f.inner,
            f.offset,
            i,
            commands::cmd_break(f.inner, i),
            commands::cmd_break(f.outer, i + f.offset),
        ),
{
    reveal(commands::cmd_break);
}

/// `? process`
pub(crate) proof fn carry_cmd_continue(f: Frame, i: int)
    requires
        f.ready(i),
    ensures
        carries(
            f.inner,
            f.offset,
            i,
            commands::cmd_continue(f.inner, f.inner_rules, i),
            commands::cmd_continue(f.outer, f.outer_rules, i + f.offset),
        ),
{
    reveal(commands::cmd_continue);
}

/// `.begin@l c`
pub(crate) proof fn carry_cmd_begin(f: Frame, i: int)
    requires
        f.ready(i),
    ensures
        carries(
            f.inner,
            f.offset,
            i,
            commands::cmd_begin(f.inner, f.inner_rules, i),
            commands::cmd_begin(f.outer, f.outer_rules, i + f.offset),
        ),
{
    reveal(commands::cmd_begin);
}

/// `.unfounded@l c`
pub(crate) proof fn carry_cmd_unfounded(f: Frame, i: int)
    requires
        f.ready(i),
    ensures
        carries(
            f.inner,
            f.offset,
            i,
            commands::cmd_unfounded(f.inner, f.inner_rules, i),
            commands::cmd_unfounded(f.outer, f.outer_rules, i + f.offset),
        ),
{
    reveal(commands::cmd_unfounded);
}

/// `.loop@l`
pub(crate) proof fn carry_cmd_loop(f: Frame, i: int)
    requires
        f.ready(i),
    ensures
        carries(
            f.inner,
            f.offset,
            i,
            commands::cmd_loop(f.inner, i),
            commands::cmd_loop(f.outer, i + f.offset),
        ),
{
    reveal(commands::cmd_loop);
}

/// `(type a, b) c`
pub(crate) proof fn carry_cmd_send_type(f: Frame, i: int)
    requires
        f.ready(i),
    ensures
        carries(
            f.inner,
            f.offset,
            i,
            commands::cmd_send_type(f.inner, f.inner_rules, i),
            commands::cmd_send_type(f.outer, f.outer_rules, i + f.offset),
        ),
{
    reveal(commands::cmd_send_type);
    if i + 2 <= f.inner.len() {
        carry_list1(f, f.inner_rules.typ, f.outer_rules.typ, i + 2);
    }
}

/// `[type a, b] c`
pub(crate) proof fn carry_cmd_recv_type(f: Frame, i: int)
    requires
        f.ready(i),
    ensures
        carries(
            f.inner,
            f.offset,
            i,
            commands::cmd_recv_type(f.inner, f.inner_rules, i),
            commands::cmd_recv_type(f.outer, f.outer_rules, i + f.offset),
        ),
{
    reveal(commands::cmd_recv_type);
    if i + 2 <= f.inner.len() {
        carry_names(f, i + 2);
    }
}

/// `.try@l c`
pub(crate) proof fn carry_cmd_try(f: Frame, i: int)
    requires
        f.ready(i),
    ensures
        carries(
            f.inner,
            f.offset,
            i,
            commands::cmd_try(f.inner, f.inner_rules, i),
            commands::cmd_try(f.outer, f.outer_rules, i + f.offset),
        ),
{
    reveal(commands::cmd_try);
}

/// `.default(e) c`
pub(crate) proof fn carry_cmd_default(f: Frame, i: int)
    requires
        f.ready(i),
    ensures
        carries(
            f.inner,
            f.offset,
            i,
            commands::cmd_default(f.inner, f.inner_rules, i),
            commands::cmd_default(f.outer, f.outer_rules, i + f.offset),
        ),
{
    reveal(commands::cmd_default);
}

/// `->f c`
pub(crate) proof fn carry_cmd_pipe(f: Frame, i: int)
    requires
        f.ready(i),
    ensures
        carries(
            f.inner,
            f.offset,
            i,
            commands::cmd_pipe(f.inner, f.inner_rules, i),
            commands::cmd_pipe(f.outer, f.outer_rules, i + f.offset),
        ),
{
    reveal(commands::cmd_pipe);
}

/// What stands after a signal in `.case`.
pub(crate) proof fn carry_cmd_branch(f: Frame, i: int)
    requires
        f.ready(i),
    ensures
        carries(
            f.inner,
            f.offset,
            i,
            commands::cmd_branch(f.inner, f.inner_rules, i),
            commands::cmd_branch(f.outer, f.outer_rules, i + f.offset),
        ),
{
    reveal(commands::cmd_branch);
    carry_cmd_branch_then(f, i);
    carry_cmd_branch_bind_then(f, i);
    carry_cmd_branch_continue(f, i);
    carry_cmd_branch_recv_type(f, i);
    carry_cmd_branch_receive(f, i);
    carry_cmd_branch_try(f, i);
    carry_cmd_branch_default(f, i);
}

/// `=> { process }`
pub(crate) proof fn carry_cmd_branch_then(f: Frame, i: int)
    requires
        f.ready(i),
    ensures
        carries(
            f.inner,
            f.offset,
            i,
            commands::cmd_branch_then(f.inner, f.inner_rules, i),
            commands::cmd_branch_then(f.outer, f.outer_rules, i + f.offset),
        ),
{
    reveal(commands::cmd_branch_then);
}

/// `x => { process }`
pub(crate) proof fn carry_cmd_branch_bind_then(f: Frame, i: int)
    requires
        f.ready(i),
    ensures
        carries(
            f.inner,
            f.offset,
            i,
            commands::cmd_branch_bind_then(f.inner, f.inner_rules, i),
            commands::cmd_branch_bind_then(f.outer, f.outer_rules, i + f.offset),
        ),
{
    reveal(commands::cmd_branch_bind_then);
}

/// `(p, q) b`
pub(crate) proof fn carry_cmd_branch_receive(f: Frame, i: int)
    requires
        f.ready(i),
    ensures
        carries(
            f.inner,
            f.offset,
            i,
            commands::cmd_branch_receive(f.inner, f.inner_rules, i),
            commands::cmd_branch_receive(f.outer, f.outer_rules, i + f.offset),
        ),
{
    reveal(commands::cmd_branch_receive);
    if i + 1 <= f.inner.len() {
        carry_list1(f, f.inner_rules.pattern, f.outer_rules.pattern, i + 1);
    }
}

/// `! => { process }`
pub(crate) proof fn carry_cmd_branch_continue(f: Frame, i: int)
    requires
        f.ready(i),
    ensures
        carries(
            f.inner,
            f.offset,
            i,
            commands::cmd_branch_continue(f.inner, f.inner_rules, i),
            commands::cmd_branch_continue(f.outer, f.outer_rules, i + f.offset),
        ),
{
    reveal(commands::cmd_branch_continue);
}

/// `(type a, b) c`
pub(crate) proof fn carry_cmd_branch_recv_type(f: Frame, i: int)
    requires
        f.ready(i),
    ensures
        carries(
            f.inner,
            f.offset,
            i,
            commands::cmd_branch_recv_type(f.inner, f.inner_rules, i),
            commands::cmd_branch_recv_type(f.outer, f.outer_rules, i + f.offset),
        ),
{
    reveal(commands::cmd_branch_recv_type);
    if i + 2 <= f.inner.len() {
        carry_names(f, i + 2);
    }
}

/// `try@l b`
pub(crate) proof fn carry_cmd_branch_try(f: Frame, i: int)
    requires
        f.ready(i),
    ensures
        carries(
            f.inner,
            f.offset,
            i,
            commands::cmd_branch_try(f.inner, f.inner_rules, i),
            commands::cmd_branch_try(f.outer, f.outer_rules, i + f.offset),
        ),
{
    reveal(commands::cmd_branch_try);
}

/// `default(e) b`
pub(crate) proof fn carry_cmd_branch_default(f: Frame, i: int)
    requires
        f.ready(i),
    ensures
        carries(
            f.inner,
            f.offset,
            i,
            commands::cmd_branch_default(f.inner, f.inner_rules, i),
            commands::cmd_branch_default(f.outer, f.outer_rules, i + f.offset),
        ),
{
    reveal(commands::cmd_branch_default);
}

} // verus!
