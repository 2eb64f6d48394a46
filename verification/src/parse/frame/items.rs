//! Items come to the same, whatever stands around them.
use super::super::grammar::global_name;
use super::super::grammar::items;
use super::super::outcome::Outcome;
use super::types::{carry_annotation, carry_type_params};
use super::{all_carry, carries, ends_at_item, frame_at, stands_in, Frame};
use crate::model::Token;
use vstd::prelude::*;

verus! {

/// `type Name<a, b> = c`
proof fn carry_type_def(f: Frame, i: int)
    requires
        f.ready(i),
        i < f.inner.len(),
    ensures
        carries(
            f.inner,
            f.offset,
            i,
            items::type_def(f.inner, f.inner_rules, i),
            items::type_def(f.outer, f.outer_rules, i + f.offset),
        ),
{
    reveal(items::type_def);
    if let Outcome::Done(j, _) = global_name(f.inner, i + 1) {
        if j <= f.inner.len() {
            carry_type_params(f, i, j);
        }
    }
}

/// `dec Name : a`
proof fn carry_declaration(f: Frame, i: int)
    requires
        f.ready(i),
        i < f.inner.len(),
    ensures
        carries(
            f.inner,
            f.offset,
            i,
            items::declaration(f.inner, f.inner_rules, i),
            items::declaration(f.outer, f.outer_rules, i + f.offset),
        ),
{
    reveal(items::declaration);
}

/// `def Name : a = e`
proof fn carry_definition(f: Frame, i: int)
    requires
        f.ready(i),
        i < f.inner.len(),
    ensures
        carries(
            f.inner,
            f.offset,
            i,
            items::definition(f.inner, f.inner_rules, i),
            items::definition(f.outer, f.outer_rules, i + f.offset),
        ),
{
    reveal(items::definition);
    if let Outcome::Done(j, _) = global_name(f.inner, i + 1) {
        if j <= f.inner.len() {
            carry_annotation(f, i, j);
        }
    }
}

/// An item of a module.
pub(crate) proof fn carry_item(inner: Seq<Token>, outer: Seq<Token>, offset: int, i: int)
    requires
        stands_in(inner, outer, offset),
        ends_at_item(inner, outer, offset),
        0 <= i < inner.len(),
    ensures
        carries(inner, offset, i, items::item(inner, i), items::item(outer, i + offset)),
{
    let f = frame_at(inner, outer, offset, i);
    all_carry(inner, outer, offset, i);
    carry_type_def(f, i);
    carry_declaration(f, i);
    carry_definition(f, i);
    reveal(items::item);
}

} // verus!
