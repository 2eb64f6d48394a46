//! Processes come to the same, whatever stands around them.
use super::super::grammar::processes;
use super::{carries, Frame};
use vstd::prelude::*;

verus! {

/// A process.
pub(crate) proof fn carry_process(f: Frame, i: int)
    requires
        f.ready(i),
    ensures
        carries(
            f.inner,
            f.offset,
            i,
            processes::process(f.inner, f.inner_rules, i),
            processes::process(f.outer, f.outer_rules, i + f.offset),
        ),
{
    reveal(processes::process);
    carry_proc_let(f, i);
    carry_proc_catch(f, i);
    carry_proc_throw(f, i);
    carry_proc_telltypes(f, i);
    carry_global_command(f, i);
    carry_command(f, i);
}

/// `let p = e process`
pub(crate) proof fn carry_proc_let(f: Frame, i: int)
    requires
        f.ready(i),
    ensures
        carries(
            f.inner,
            f.offset,
            i,
            processes::proc_let(f.inner, f.inner_rules, i),
            processes::proc_let(f.outer, f.outer_rules, i + f.offset),
        ),
{
    reveal(processes::proc_let);
}

/// `catch@l p => { process } process`
pub(crate) proof fn carry_proc_catch(f: Frame, i: int)
    requires
        f.ready(i),
    ensures
        carries(
            f.inner,
            f.offset,
            i,
            processes::proc_catch(f.inner, f.inner_rules, i),
            processes::proc_catch(f.outer, f.outer_rules, i + f.offset),
        ),
{
    reveal(processes::proc_catch);
}

/// `throw@l e`
pub(crate) proof fn carry_proc_throw(f: Frame, i: int)
    requires
        f.ready(i),
    ensures
        carries(
            f.inner,
            f.offset,
            i,
            processes::proc_throw(f.inner, f.inner_rules, i),
            processes::proc_throw(f.outer, f.outer_rules, i + f.offset),
        ),
{
    reveal(processes::proc_throw);
}

/// `telltypes process`
pub(crate) proof fn carry_proc_telltypes(f: Frame, i: int)
    requires
        f.ready(i),
    ensures
        carries(
            f.inner,
            f.offset,
            i,
            processes::proc_telltypes(f.inner, f.inner_rules, i),
            processes::proc_telltypes(f.outer, f.outer_rules, i + f.offset),
        ),
{
    reveal(processes::proc_telltypes);
}

/// A name and what is done with it.
pub(crate) proof fn carry_global_command(f: Frame, i: int)
    requires
        f.ready(i),
    ensures
        carries(
            f.inner,
            f.offset,
            i,
            processes::global_command(f.inner, f.inner_rules, i),
            processes::global_command(f.outer, f.outer_rules, i + f.offset),
        ),
{
    reveal(processes::global_command);
}

/// A name and what is done with it.
pub(crate) proof fn carry_command(f: Frame, i: int)
    requires
        f.ready(i),
    ensures
        carries(
            f.inner,
            f.offset,
            i,
            processes::command(f.inner, f.inner_rules, i),
            processes::command(f.outer, f.outer_rules, i + f.offset),
        ),
{
    reveal(processes::command);
}

/// A process that takes over after the branches of a command.
pub(crate) proof fn carry_pass_process(f: Frame, i: int)
    requires
        f.ready(i),
    ensures
        carries(
            f.inner,
            f.offset,
            i,
            processes::pass_process(f.inner, f.inner_rules, i),
            processes::pass_process(f.outer, f.outer_rules, i + f.offset),
        ),
{
    reveal(processes::pass_process);
    carry_proc_let(f, i);
    carry_proc_telltypes(f, i);
    carry_global_command(f, i);
    carry_command(f, i);
}

} // verus!
