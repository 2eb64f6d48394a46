//! Patterns come to the same, whatever stands around them.
use super::super::grammar::local_name;
use super::super::grammar::patterns;
use super::super::outcome::Outcome;
use super::types::carry_annotation;
use super::{carries, carry_list1, carry_names, Frame};
use vstd::prelude::*;

verus! {

/// A pattern.
pub(crate) proof fn carry_pattern(f: Frame, i: int)
    requires
        f.ready(i),
    ensures
        carries(
            f.inner,
            f.offset,
            i,
            patterns::pattern(f.inner, f.inner_rules, i),
            patterns::pattern(f.outer, f.outer_rules, i + f.offset),
        ),
{
    reveal(patterns::pattern);
    carry_pattern_name(f, i);
    carry_pattern_receive_type(f, i);
    carry_pattern_receive(f, i);
    carry_pattern_continue(f, i);
    carry_pattern_default(f, i);
    carry_pattern_try(f, i);
}

/// `x: a`
pub(crate) proof fn carry_pattern_name(f: Frame, i: int)
    requires
        f.ready(i),
    ensures
        carries(
            f.inner,
            f.offset,
            i,
            patterns::pattern_name(f.inner, f.inner_rules, i),
            patterns::pattern_name(f.outer, f.outer_rules, i + f.offset),
        ),
{
    reveal(patterns::pattern_name);
    if let Outcome::Done(j, _) = local_name(f.inner, i) {
        carry_annotation(f, i, j);
    }
}

/// `(p, q) s`
pub(crate) proof fn carry_pattern_receive(f: Frame, i: int)
    requires
        f.ready(i),
    ensures
        carries(
            f.inner,
            f.offset,
            i,
            patterns::pattern_receive(f.inner, f.inner_rules, i),
            patterns::pattern_receive(f.outer, f.outer_rules, i + f.offset),
        ),
{
    reveal(patterns::pattern_receive);
    if i + 1 <= f.inner.len() {
        carry_list1(f, f.inner_rules.pattern, f.outer_rules.pattern, i + 1);
    }
}

/// `!`
pub(crate) proof fn carry_pattern_continue(f: Frame, i: int)
    requires
        f.ready(i),
    ensures
        carries(
            f.inner,
            f.offset,
            i,
            patterns::pattern_continue(f.inner, i),
            patterns::pattern_continue(f.outer, i + f.offset),
        ),
{
    reveal(patterns::pattern_continue);
}

/// `try@l p`
pub(crate) proof fn carry_pattern_try(f: Frame, i: int)
    requires
        f.ready(i),
    ensures
        carries(
            f.inner,
            f.offset,
            i,
            patterns::pattern_try(f.inner, f.inner_rules, i),
            patterns::pattern_try(f.outer, f.outer_rules, i + f.offset),
        ),
{
    reveal(patterns::pattern_try);
}

/// `default(e) p`
pub(crate) proof fn carry_pattern_default(f: Frame, i: int)
    requires
        f.ready(i),
    ensures
        carries(
            f.inner,
            f.offset,
            i,
            patterns::pattern_default(f.inner, f.inner_rules, i),
            patterns::pattern_default(f.outer, f.outer_rules, i + f.offset),
        ),
{
    reveal(patterns::pattern_default);
}

/// `(type a, b) p`
pub(crate) proof fn carry_pattern_receive_type(f: Frame, i: int)
    requires
        f.ready(i),
    ensures
        carries(
            f.inner,
            f.offset,
            i,
            patterns::pattern_receive_type(f.inner, f.inner_rules, i),
            patterns::pattern_receive_type(f.outer, f.outer_rules, i + f.offset),
        ),
{
    reveal(patterns::pattern_receive_type);
    if i + 2 <= f.inner.len() {
        carry_names(f, i + 2);
    }
}

} // verus!
