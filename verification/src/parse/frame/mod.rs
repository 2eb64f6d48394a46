//! What tokens are parsed to does not depend on the tokens around them.
pub mod applications;
pub mod commands;
pub mod constructions;
pub mod expressions;
pub mod items;
pub mod patterns;
pub mod processes;
pub mod types;

use super::grammar::{
    branch_row, branch_rows, branches_body, group_rules, list0, list1, list_after, local_name,
    more_items, rules, Rules,
};
use super::laws::starts_item;
use super::outcome::Outcome;
use crate::branches::inserted;
use crate::model::{LocalName, Token};
use crate::token::TokenKind;
use applications::{carry_apply, carry_apply_branch};
use commands::{carry_cmd, carry_cmd_branch};
use constructions::{carry_cons_branch, carry_construction};
use expressions::{carry_expression, carry_operand};
use patterns::carry_pattern;
use processes::{carry_pass_process, carry_process};
use types::{carry_typ, carry_typ_branch};
use vstd::prelude::*;

verus! {

/// Whether a token of this kind is never taken into what stands before it, whatever that is, if
/// that is complete.
pub open spec fn ends_all(kind: TokenKind) -> bool {
    kind == TokenKind::Eq || kind == TokenKind::In || starts_item(kind)
}

/// Whether a token of this kind is never taken into a type that stands before it, if that is
/// complete.
pub open spec fn ends(kind: TokenKind) -> bool {
    ||| kind == TokenKind::Comma
    ||| kind == TokenKind::RParen
    ||| kind == TokenKind::RBrack
    ||| ends_all(kind)
}

/// Whether a token of this kind opens something, so that nothing complete ends with it.
pub open spec fn opens(kind: TokenKind) -> bool {
    kind == TokenKind::LParen || kind == TokenKind::LBrack
}

/// Some tokens, the tokens among which they stand, from the place `offset` on, and the rules
/// for both.
pub struct Frame {
    pub inner: Seq<Token>,
    pub outer: Seq<Token>,
    pub offset: int,
    pub inner_rules: Rules,
    pub outer_rules: Rules,
}

/// Whether the tokens `inner` stand among the tokens `outer` from the place `offset` on, with
/// nothing after them that could be taken into them.
pub open spec fn stands_in(inner: Seq<Token>, outer: Seq<Token>, offset: int) -> bool {
    let end = offset + inner.len();
    &&& 0 <= offset
    &&& end <= outer.len()
    &&& forall|i: int| 0 <= i < inner.len() ==> #[trigger] inner[i] == outer[offset + i]
    &&& end < outer.len() ==> ends(outer[end].kind)
    &&& end < outer.len() && outer[end].kind == TokenKind::Type && inner.len() > 0 ==> !opens(
        inner.last().kind,
    )
}

/// Whether what stands after the tokens `inner`, which stand among the tokens `outer` from the
/// place `offset` on, is an item, or nothing.
pub open spec fn ends_at_item(inner: Seq<Token>, outer: Seq<Token>, offset: int) -> bool {
    offset + inner.len() < outer.len() ==> starts_item(outer[offset + inner.len()].kind)
}

/// Whether what stands after the tokens `inner`, which stand among the tokens `outer` from the
/// place `offset` on, is never taken into them, or is nothing.
pub open spec fn ends_before(inner: Seq<Token>, outer: Seq<Token>, offset: int) -> bool {
    offset + inner.len() < outer.len() ==> ends_all(outer[offset + inner.len()].kind)
}

/// Whether a parse `b` from the place `i` of the outer tokens comes to the same as the parse `a`
/// from there of the inner ones, if that finds something, and fails likewise if that fails and
/// leaves room for other alternatives.
pub open spec fn carries<T>(
    inner: Seq<Token>,
    offset: int,
    i: int,
    a: Outcome<T>,
    b: Outcome<T>,
) -> bool {
    match a {
        Outcome::Done(j, value) => {
            &&& i < j <= inner.len()
            &&& !opens(inner[j - 1].kind)
            &&& b == Outcome::Done(j + offset, value)
        },
        Outcome::Failed { cut: false, .. } => b matches Outcome::Failed { cut: false, .. },
        Outcome::Failed { .. } => true,
    }
}

/// Like [`carries`], for parses that may take no token.
pub open spec fn carries_opt<T>(
    inner: Seq<Token>,
    offset: int,
    i: int,
    a: Outcome<T>,
    b: Outcome<T>,
) -> bool {
    match a {
        Outcome::Done(j, value) => {
            &&& i <= j <= inner.len()
            &&& i < j ==> !opens(inner[j - 1].kind)
            &&& b == Outcome::Done(j + offset, value)
        },
        Outcome::Failed { cut: false, .. } => b matches Outcome::Failed { cut: false, .. },
        Outcome::Failed { .. } => true,
    }
}

/// Like [`carries`], for parses that may take no token, and are not complete at the end of the
/// inner tokens.
pub open spec fn carries_open<T>(
    inner: Seq<Token>,
    offset: int,
    i: int,
    a: Outcome<T>,
    b: Outcome<T>,
) -> bool {
    match a {
        Outcome::Done(j, value) => {
            &&& i <= j <= inner.len()
            &&& j < inner.len() ==> b == Outcome::Done(j + offset, value)
        },
        Outcome::Failed { cut: false, .. } => b matches Outcome::Failed { cut: false, .. },
        Outcome::Failed { .. } => true,
    }
}

/// Whether a production carries over at all places from `i` on.
pub open spec fn carries_from<T>(
    inner: Seq<Token>,
    offset: int,
    i: int,
    a: spec_fn(int) -> Outcome<T>,
    b: spec_fn(int) -> Outcome<T>,
) -> bool {
    forall|j: int|
        i <= j <= inner.len() ==> carries(inner, offset, j, #[trigger] a(j), b(j + offset))
}

impl Frame {
    /// Whether the inner tokens stand among the outer ones, and the rules of types for the outer
    /// ones carry over from those for the inner ones at places after `from`.
    pub open spec fn types_ready(self, from: int) -> bool {
        let n = self.inner;
        let d = self.offset;
        let r = self.inner_rules;
        let s = self.outer_rules;
        &&& stands_in(self.inner, self.outer, d)
        &&& 0 <= from <= n.len()
        &&& carries_from(n, d, from + 1, r.typ, s.typ)
        &&& carries_from(n, d, from + 1, r.typ_branch, s.typ_branch)
    }

    /// Whether the inner tokens stand among the outer ones, with nothing after them that is ever
    /// taken into what stands before it, and the rules for the outer ones carry over from those
    /// for the inner ones at places after `from`.
    pub open spec fn ready(self, from: int) -> bool {
        let n = self.inner;
        let d = self.offset;
        let r = self.inner_rules;
        let s = self.outer_rules;
        &&& self.types_ready(from)
        &&& ends_before(n, self.outer, d)
        &&& carries_from(n, d, from + 1, r.pattern, s.pattern)
        &&& carries_from(n, d, from + 1, r.expression, s.expression)
        &&& carries_from(n, d, from + 1, r.operand, s.operand)
        &&& carries_from(n, d, from + 1, r.construction, s.construction)
        &&& carries_from(n, d, from + 1, r.cons_branch, s.cons_branch)
        &&& carries_from(n, d, from + 1, r.apply_branch, s.apply_branch)
        &&& carries_from(n, d, from + 1, r.process, s.process)
        &&& carries_from(n, d, from + 1, r.pass_process, s.pass_process)
        &&& carries_from(n, d, from + 1, r.cmd_branch, s.cmd_branch)
        &&& forall|j: int|
            from < j <= n.len() ==> carries_opt(n, d, j, #[trigger] (r.apply)(j), (s.apply)(j + d))
        &&& forall|j: int|
            from < j <= n.len() ==> carries_opt(n, d, j, #[trigger] (r.cmd)(j), (s.cmd)(j + d))
    }
}

/// The items after the first one.
proof fn carry_more_items<T>(
    inner: Seq<Token>,
    outer: Seq<Token>,
    offset: int,
    a: spec_fn(int) -> Outcome<T>,
    b: spec_fn(int) -> Outcome<T>,
    i: int,
)
    requires
        stands_in(inner, outer, offset),
        0 <= i <= inner.len(),
        carries_from(inner, offset, i, a, b),
    ensures
        carries_open(
            inner,
            offset,
            i,
            more_items(inner, a, i),
            more_items(outer, b, i + offset),
        ),
    decreases inner.len() - i,
{
    if i < inner.len() && inner[i].kind == TokenKind::Comma {
        assert(carries(inner, offset, i + 1, a(i + 1), b(i + 1 + offset)));
        if let Outcome::Done(k, _) = a(i + 1) {
            carry_more_items(inner, outer, offset, a, b, k);
        }
    }
}

/// One or more items between commas.
pub(crate) proof fn carry_list1<T>(
    f: Frame,
    a: spec_fn(int) -> Outcome<T>,
    b: spec_fn(int) -> Outcome<T>,
    i: int,
)
    requires
        stands_in(f.inner, f.outer, f.offset),
        0 <= i <= f.inner.len(),
        carries_from(f.inner, f.offset, i, a, b),
    ensures
        carries_open(
            f.inner,
            f.offset,
            i,
            list1(f.inner, a, i),
            list1(f.outer, b, i + f.offset),
        ),
        list1(f.inner, a, i) matches Outcome::Done(j, _) ==> i < j,
{
    assert(carries(f.inner, f.offset, i, a(i), b(i + f.offset)));
    if let Outcome::Done(k, first) = a(i) {
        carry_more_items(f.inner, f.outer, f.offset, a, b, k);
        assert(carries_open(
            f.inner,
            f.offset,
            k,
            list_after(f.inner, a, k, first),
            list_after(f.outer, b, k + f.offset, first),
        ));
    }
}

/// Items between commas.
pub(crate) proof fn carry_list0<T>(
    f: Frame,
    a: spec_fn(int) -> Outcome<T>,
    b: spec_fn(int) -> Outcome<T>,
    i: int,
)
    requires
        stands_in(f.inner, f.outer, f.offset),
        0 <= i <= f.inner.len(),
        carries_from(f.inner, f.offset, i, a, b),
    ensures
        carries_open(
            f.inner,
            f.offset,
            i,
            list0(f.inner, a, i),
            list0(f.outer, b, i + f.offset),
        ),
{
    assert(carries(f.inner, f.offset, i, a(i), b(i + f.offset)));
    carry_list1(f, a, b, i);
}

/// Names between commas.
pub(crate) proof fn carry_names(f: Frame, i: int)
    requires
        stands_in(f.inner, f.outer, f.offset),
        0 <= i <= f.inner.len(),
    ensures
        carries_open(
            f.inner,
            f.offset,
            i,
            list1(f.inner, |i: int| local_name(f.inner, i), i),
            list1(f.outer, |i: int| local_name(f.outer, i), i + f.offset),
        ),
        list1(f.inner, |i: int| local_name(f.inner, i), i) matches Outcome::Done(j, _) ==> i < j,
{
    let a = |i: int| local_name(f.inner, i);
    let b = |i: int| local_name(f.outer, i);
    assert forall|j: int| i <= j <= f.inner.len() implies carries(
        f.inner,
        f.offset,
        j,
        #[trigger] a(j),
        b(j + f.offset),
    ) by {
        assert(a(j) == local_name(f.inner, j));
        assert(b(j + f.offset) == local_name(f.outer, j + f.offset));
    }
    carry_list1(f, a, b, i);
}

/// A branch under its signal.
proof fn carry_branch_row<T>(
    inner: Seq<Token>,
    outer: Seq<Token>,
    offset: int,
    a: spec_fn(int) -> Outcome<T>,
    b: spec_fn(int) -> Outcome<T>,
    i: int,
)
    requires
        stands_in(inner, outer, offset),
        0 <= i <= inner.len(),
        carries_from(inner, offset, i, a, b),
    ensures
        carries_open(
            inner,
            offset,
            i,
            branch_row(inner, a, i),
            branch_row(outer, b, i + offset),
        ),
        branch_row(inner, a, i) matches Outcome::Done(j, _) ==> i < j,
{
    if i + 1 < inner.len() && inner[i].kind == TokenKind::Dot && inner[i + 1].kind
        == TokenKind::LowercaseIdentifier {
        assert(carries(inner, offset, i + 2, a(i + 2), b(i + 2 + offset)));
    }
}

/// Branches, as often as they come.
proof fn carry_branch_rows<T>(
    inner: Seq<Token>,
    outer: Seq<Token>,
    offset: int,
    a: spec_fn(int) -> Outcome<T>,
    b: spec_fn(int) -> Outcome<T>,
    before: Seq<(LocalName, T)>,
    i: int,
)
    requires
        stands_in(inner, outer, offset),
        0 <= i <= inner.len(),
        carries_from(inner, offset, i, a, b),
    ensures
        carries_open(
            inner,
            offset,
            i,
            branch_rows(inner, a, before, i),
            branch_rows(outer, b, before, i + offset),
        ),
    decreases inner.len() - i,
{
    carry_branch_row(inner, outer, offset, a, b, i);
    if let Outcome::Done(j, row) = branch_row(inner, a, i) {
        let after = inserted(before, row.0, row.1);
        carry_branch_rows(inner, outer, offset, a, b, after, j);
        if j == inner.len() {
            carry_branch_row(inner, outer, offset, a, b, j);
        }
    }
}

/// `{ .name branch, .name branch }`
pub(crate) proof fn carry_branches_body<T>(
    f: Frame,
    a: spec_fn(int) -> Outcome<T>,
    b: spec_fn(int) -> Outcome<T>,
    i: int,
)
    requires
        stands_in(f.inner, f.outer, f.offset),
        0 <= i <= f.inner.len(),
        carries_from(f.inner, f.offset, i, a, b),
    ensures
        carries(
            f.inner,
            f.offset,
            i,
            branches_body(f.inner, a, i),
            branches_body(f.outer, b, i + f.offset),
        ),
{
    if i < f.inner.len() {
        carry_branch_rows(f.inner, f.outer, f.offset, a, b, Seq::empty(), i + 1);
    }
}

/// The tokens `inner` among the tokens `outer` from the place `offset` on, with the rules for
/// places after `from`.
pub open spec fn frame_at(
    inner: Seq<Token>,
    outer: Seq<Token>,
    offset: int,
    from: int,
) -> Frame {
    Frame {
        inner,
        outer,
        offset,
        inner_rules: rules(inner, from),
        outer_rules: rules(outer, from + offset),
    }
}

/// The rules of types carry over.
pub proof fn types_carry(inner: Seq<Token>, outer: Seq<Token>, offset: int, from: int)
    requires
        stands_in(inner, outer, offset),
        0 <= from <= inner.len(),
    ensures
        frame_at(inner, outer, offset, from).types_ready(from),
    decreases inner.len() - from,
{
    broadcast use group_rules;

    let f = frame_at(inner, outer, offset, from);
    assert forall|j: int| from + 1 <= j <= inner.len() implies carries(
        inner,
        offset,
        j,
        #[trigger] (f.inner_rules.typ)(j),
        (f.outer_rules.typ)(j + offset),
    ) by {
        types_carry(inner, outer, offset, j);
        carry_typ(frame_at(inner, outer, offset, j), j);
    }
    assert forall|j: int| from + 1 <= j <= inner.len() implies carries(
        inner,
        offset,
        j,
        #[trigger] (f.inner_rules.typ_branch)(j),
        (f.outer_rules.typ_branch)(j + offset),
    ) by {
        types_carry(inner, outer, offset, j);
        carry_typ_branch(frame_at(inner, outer, offset, j), j);
    }
}

/// All rules carry over.
pub proof fn all_carry(inner: Seq<Token>, outer: Seq<Token>, offset: int, from: int)
    requires
        stands_in(inner, outer, offset),
        ends_before(inner, outer, offset),
        0 <= from <= inner.len(),
    ensures
        frame_at(inner, outer, offset, from).ready(from),
    decreases inner.len() - from,
{
    broadcast use group_rules;

    let f = frame_at(inner, outer, offset, from);
    types_carry(inner, outer, offset, from);
    assert forall|j: int| from + 1 <= j <= inner.len() implies carries(
        inner,
        offset,
        j,
        #[trigger] (f.inner_rules.pattern)(j),
        (f.outer_rules.pattern)(j + offset),
    ) by {
        all_carry(inner, outer, offset, j);
        carry_pattern(frame_at(inner, outer, offset, j), j);
    }
    assert forall|j: int| from + 1 <= j <= inner.len() implies carries(
        inner,
        offset,
        j,
        #[trigger] (f.inner_rules.expression)(j),
        (f.outer_rules.expression)(j + offset),
    ) by {
        all_carry(inner, outer, offset, j);
        carry_expression(frame_at(inner, outer, offset, j), j);
    }
    assert forall|j: int| from + 1 <= j <= inner.len() implies carries(
        inner,
        offset,
        j,
        #[trigger] (f.inner_rules.operand)(j),
        (f.outer_rules.operand)(j + offset),
    ) by {
        all_carry(inner, outer, offset, j);
        carry_operand(frame_at(inner, outer, offset, j), j);
    }
    assert forall|j: int| from + 1 <= j <= inner.len() implies carries(
        inner,
        offset,
        j,
        #[trigger] (f.inner_rules.construction)(j),
        (f.outer_rules.construction)(j + offset),
    ) by {
        all_carry(inner, outer, offset, j);
        carry_construction(frame_at(inner, outer, offset, j), j);
    }
    assert forall|j: int| from + 1 <= j <= inner.len() implies carries(
        inner,
        offset,
        j,
        #[trigger] (f.inner_rules.cons_branch)(j),
        (f.outer_rules.cons_branch)(j + offset),
    ) by {
        all_carry(inner, outer, offset, j);
        carry_cons_branch(frame_at(inner, outer, offset, j), j);
    }
    assert forall|j: int| from + 1 <= j <= inner.len() implies carries(
        inner,
        offset,
        j,
        #[trigger] (f.inner_rules.apply_branch)(j),
        (f.outer_rules.apply_branch)(j + offset),
    ) by {
        all_carry(inner, outer, offset, j);
        carry_apply_branch(frame_at(inner, outer, offset, j), j);
    }
    assert forall|j: int| from + 1 <= j <= inner.len() implies carries(
        inner,
        offset,
        j,
        #[trigger] (f.inner_rules.process)(j),
        (f.outer_rules.process)(j + offset),
    ) by {
        all_carry(inner, outer, offset, j);
        carry_process(frame_at(inner, outer, offset, j), j);
    }
    assert forall|j: int| from + 1 <= j <= inner.len() implies carries(
        inner,
        offset,
        j,
        #[trigger] (f.inner_rules.pass_process)(j),
        (f.outer_rules.pass_process)(j + offset),
    ) by {
        all_carry(inner, outer, offset, j);
        carry_pass_process(frame_at(inner, outer, offset, j), j);
    }
    assert forall|j: int| from + 1 <= j <= inner.len() implies carries(
        inner,
        offset,
        j,
        #[trigger] (f.inner_rules.cmd_branch)(j),
        (f.outer_rules.cmd_branch)(j + offset),
    ) by {
        all_carry(inner, outer, offset, j);
        carry_cmd_branch(frame_at(inner, outer, offset, j), j);
    }
    assert forall|j: int| from + 1 <= j <= inner.len() implies carries_opt(
        inner,
        offset,
        j,
        #[trigger] (f.inner_rules.apply)(j),
        (f.outer_rules.apply)(j + offset),
    ) by {
        all_carry(inner, outer, offset, j);
        carry_apply(frame_at(inner, outer, offset, j), j);
    }
    assert forall|j: int| from + 1 <= j <= inner.len() implies carries_opt(
        inner,
        offset,
        j,
        #[trigger] (f.inner_rules.cmd)(j),
        (f.outer_rules.cmd)(j + offset),
    ) by {
        all_carry(inner, outer, offset, j);
        carry_cmd(frame_at(inner, outer, offset, j), j);
    }
}

} // verus!
