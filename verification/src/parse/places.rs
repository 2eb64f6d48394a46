//! Where tokens stand in a source does not change what type they are.
use super::grammar::{
    branch_row, branch_rows, branches_body, global_name, group_rules, list1, list_after, local_name,
    more_items, rules, types, Rules,
};
use super::outcome::Outcome;
use crate::branches::inserted;
use crate::model::{GlobalName, LocalName, Span, Token, Type};
use crate::token::TokenKind;
use types::{exists_step, forall_step, function_step, pair_step};
use vstd::prelude::*;

verus! {

/// Whether tokens are the same but for the places where they stand.
pub open spec fn same_text(one: Seq<Token>, other: Seq<Token>) -> bool {
    &&& one.len() == other.len()
    &&& forall|i: int|
        0 <= i < one.len() ==> (#[trigger] one[i]).kind == other[i].kind && one[i].raw
            == other[i].raw
}

/// Two rows of tokens, and the rules for both.
pub struct Texts {
    pub one: Seq<Token>,
    pub other: Seq<Token>,
    pub one_rules: Rules,
    pub other_rules: Rules,
}

/// Whether types are the same but for the places of their parts.
pub open spec fn same_type() -> spec_fn(Type, Type) -> bool {
    |a: Type, b: Type| a.placeless() == b.placeless()
}

/// Whether names are the same but for their places.
pub open spec fn same_name() -> spec_fn(LocalName, LocalName) -> bool {
    |a: LocalName, b: LocalName| a.placeless() == b.placeless()
}

/// Whether lists have the same items, as `same` has it.
pub open spec fn same_items<T>(same: spec_fn(T, T) -> bool) -> spec_fn(Seq<T>, Seq<T>) -> bool {
    |a: Seq<T>, b: Seq<T>|
        a.len() == b.len() && forall|k: int| 0 <= k < a.len() ==> same(#[trigger] a[k], b[k])
}

/// Whether branches are the same but for places.
pub open spec fn same_branch() -> spec_fn((LocalName, Type), (LocalName, Type)) -> bool {
    |a: (LocalName, Type), b: (LocalName, Type)|
        a.0.placeless() == b.0.placeless() && a.1.placeless() == b.1.placeless()
}

/// Whether the branches of `either` or `choice` are the same but for places.
pub open spec fn same_body() -> spec_fn(
    (Span, Seq<(LocalName, Type)>),
    (Span, Seq<(LocalName, Type)>),
) -> bool {
    |a: (Span, Seq<(LocalName, Type)>), b: (Span, Seq<(LocalName, Type)>)|
        same_items(same_branch())(a.1, b.1)
}

/// Whether the arguments of a type are the same but for places.
pub open spec fn same_args() -> spec_fn(
    Option<(Span, Seq<Type>)>,
    Option<(Span, Seq<Type>)>,
) -> bool {
    |a: Option<(Span, Seq<Type>)>, b: Option<(Span, Seq<Type>)>|
        match (a, b) {
            (Some(a), Some(b)) => same_items(same_type())(a.1, b.1),
            (None, None) => true,
            _ => false,
        }
}

/// Whether parses of `count` tokens from `i` find the same, as `same` has it, up to the same
/// place after `i`, or fail and both leave room for other alternatives or not.
pub open spec fn like<T>(
    same: spec_fn(T, T) -> bool,
    count: int,
    i: int,
    a: Outcome<T>,
    b: Outcome<T>,
) -> bool {
    match (a, b) {
        (Outcome::Done(j, x), Outcome::Done(k, y)) => i < j <= count && j == k && same(x, y),
        (Outcome::Failed { cut: c, .. }, Outcome::Failed { cut: d, .. }) => c == d,
        _ => false,
    }
}

/// Like [`like`], for parses that may take no token.
pub open spec fn like_opt<T>(
    same: spec_fn(T, T) -> bool,
    count: int,
    i: int,
    a: Outcome<T>,
    b: Outcome<T>,
) -> bool {
    match (a, b) {
        (Outcome::Done(j, x), Outcome::Done(k, y)) => i <= j <= count && j == k && same(x, y),
        (Outcome::Failed { cut: c, .. }, Outcome::Failed { cut: d, .. }) => c == d,
        _ => false,
    }
}

/// Whether two productions find the same at all places from `i` on.
pub open spec fn like_from<T>(
    same: spec_fn(T, T) -> bool,
    count: int,
    i: int,
    a: spec_fn(int) -> Outcome<T>,
    b: spec_fn(int) -> Outcome<T>,
) -> bool {
    forall|j: int| i <= j <= count ==> like(same, count, j, #[trigger] a(j), b(j))
}

impl Texts {
    /// Whether the tokens are the same but for their places, and the rules of types find the
    /// same at places after `from`.
    pub open spec fn ready(self, from: int) -> bool {
        let n = self.one.len() as int;
        &&& same_text(self.one, self.other)
        &&& 0 <= from <= n
        &&& like_from(same_type(), n, from + 1, self.one_rules.typ, self.other_rules.typ)
        &&& like_from(
            same_type(),
            n,
            from + 1,
            self.one_rules.typ_branch,
            self.other_rules.typ_branch,
        )
    }
}

/// The items after the first one.
proof fn like_more_items<T>(
    one: Seq<Token>,
    other: Seq<Token>,
    same: spec_fn(T, T) -> bool,
    a: spec_fn(int) -> Outcome<T>,
    b: spec_fn(int) -> Outcome<T>,
    i: int,
)
    requires
        same_text(one, other),
        0 <= i <= one.len(),
        like_from(same, one.len() as int, i, a, b),
    ensures
        like_opt(
            same_items(same),
            one.len() as int,
            i,
            more_items(one, a, i),
            more_items(other, b, i),
        ),
    decreases one.len() - i,
{
    if i < one.len() && one[i].kind == TokenKind::Comma {
        assert(like(same, one.len() as int, i + 1, a(i + 1), b(i + 1)));
        if let Outcome::Done(k, _) = a(i + 1) {
            like_more_items(one, other, same, a, b, k);
        }
    }
}

/// One or more items between commas.
proof fn like_items<T>(
    one: Seq<Token>,
    other: Seq<Token>,
    same: spec_fn(T, T) -> bool,
    a: spec_fn(int) -> Outcome<T>,
    b: spec_fn(int) -> Outcome<T>,
    i: int,
)
    requires
        same_text(one, other),
        0 <= i <= one.len(),
        like_from(same, one.len() as int, i, a, b),
    ensures
        like(same_items(same), one.len() as int, i, list1(one, a, i), list1(other, b, i)),
{
    let n = one.len() as int;
    assert(like(same, n, i, a(i), b(i)));
    if let (Outcome::Done(k, x), Outcome::Done(_, y)) = (a(i), b(i)) {
        like_more_items(one, other, same, a, b, k);
        assert(like_opt(
            same_items(same),
            n,
            k,
            list_after(one, a, k, x),
            list_after(other, b, k, y),
        ));
    }
}

/// Types between commas.
proof fn like_list1(
    p: Texts,
    a: spec_fn(int) -> Outcome<Type>,
    b: spec_fn(int) -> Outcome<Type>,
    i: int,
)
    requires
        same_text(p.one, p.other),
        0 <= i <= p.one.len(),
        like_from(same_type(), p.one.len() as int, i, a, b),
    ensures
        like(
            same_items(same_type()),
            p.one.len() as int,
            i,
            list1(p.one, a, i),
            list1(p.other, b, i),
        ),
{
    like_items(p.one, p.other, same_type(), a, b, i);
}

/// Names between commas.
proof fn like_names(p: Texts, i: int)
    requires
        same_text(p.one, p.other),
        0 <= i <= p.one.len(),
    ensures
        like(
            same_items(same_name()),
            p.one.len() as int,
            i,
            list1(p.one, |i: int| local_name(p.one, i), i),
            list1(p.other, |i: int| local_name(p.other, i), i),
        ),
{
    let a = |i: int| local_name(p.one, i);
    let b = |i: int| local_name(p.other, i);
    assert forall|j: int| i <= j <= p.one.len() implies like(
        same_name(),
        p.one.len() as int,
        j,
        #[trigger] a(j),
        b(j),
    ) by {
        assert(a(j) == local_name(p.one, j));
        assert(b(j) == local_name(p.other, j));
    }
    like_items(p.one, p.other, same_name(), a, b, i);
}

/// Branches that are the same but for places stay so with one more.
proof fn inserted_alike(
    a: Seq<(LocalName, Type)>,
    b: Seq<(LocalName, Type)>,
    x: (LocalName, Type),
    y: (LocalName, Type),
)
    requires
        same_items(same_branch())(a, b),
        same_branch()(x, y),
    ensures
        same_items(same_branch())(inserted(a, x.0, x.1), inserted(b, y.0, y.1)),
    decreases a.len(),
{
    if a.len() > 0 {
        assert(same_branch()(a[0], b[0]));
        assert(a[0].0.placeless().string == b[0].0.placeless().string);
        assert(x.0.placeless().string == y.0.placeless().string);
        assert forall|k: int| 0 <= k < a.drop_first().len() implies same_branch()(
            #[trigger] a.drop_first()[k],
            b.drop_first()[k],
        ) by {
            assert(same_branch()(a[k + 1], b[k + 1]));
        }
        inserted_alike(a.drop_first(), b.drop_first(), x, y);
    }
}

/// Branches, as often as they come.
proof fn like_branch_rows(
    p: Texts,
    a: spec_fn(int) -> Outcome<Type>,
    b: spec_fn(int) -> Outcome<Type>,
    before: Seq<(LocalName, Type)>,
    others: Seq<(LocalName, Type)>,
    i: int,
)
    requires
        same_text(p.one, p.other),
        0 <= i <= p.one.len(),
        like_from(same_type(), p.one.len() as int, i, a, b),
        same_items(same_branch())(before, others),
    ensures
        like_opt(
            same_items(same_branch()),
            p.one.len() as int,
            i,
            branch_rows(p.one, a, before, i),
            branch_rows(p.other, b, others, i),
        ),
    decreases p.one.len() - i,
{
    let n = p.one.len() as int;
    if i + 1 < n && p.one[i].kind == TokenKind::Dot && p.one[i + 1].kind
        == TokenKind::LowercaseIdentifier {
        assert(like(same_type(), n, i + 2, a(i + 2), b(i + 2)));
    }
    let row = branch_row(p.one, a, i);
    let twin = branch_row(p.other, b, i);
    assert(like(same_branch(), n, i, row, twin));
    if let (Outcome::Done(j, x), Outcome::Done(_, y)) = (row, twin) {
        inserted_alike(before, others, x, y);
        let after = inserted(before, x.0, x.1);
        like_branch_rows(p, a, b, after, inserted(others, y.0, y.1), j);
    }
}

/// `{ .name branch, .name branch }`
proof fn like_branches_body(
    p: Texts,
    a: spec_fn(int) -> Outcome<Type>,
    b: spec_fn(int) -> Outcome<Type>,
    i: int,
)
    requires
        same_text(p.one, p.other),
        0 <= i <= p.one.len(),
        like_from(same_type(), p.one.len() as int, i, a, b),
    ensures
        like(
            same_body(),
            p.one.len() as int,
            i,
            branches_body(p.one, a, i),
            branches_body(p.other, b, i),
        ),
{
    if i < p.one.len() {
        like_branch_rows(p, a, b, Seq::empty(), Seq::empty(), i + 1);
    }
}

/// Types with names are the same but for places if their names and arguments are.
broadcast proof fn named_alike(
    s: Span,
    t: Span,
    name: GlobalName,
    other: GlobalName,
    a: Seq<Type>,
    b: Seq<Type>,
)
    requires
        name.placeless() == other.placeless(),
        same_items(same_type())(a, b),
    ensures
        #[trigger] Type::Name(s, name, a).placeless() == #[trigger] Type::Name(
            t,
            other,
            b,
        ).placeless(),
{
    let x = Type::Name(s, name, a).placeless()->Name_2;
    let y = Type::Name(t, other, b).placeless()->Name_2;
    assert forall|k: int| 0 <= k < x.len() implies x[k] == y[k] by {
        assert(same_type()(a[k], b[k]));
    }
    assert(x =~= y);
}

/// Types with branches are the same but for places if their branches are.
broadcast proof fn either_alike(
    s: Span,
    t: Span,
    a: Seq<(LocalName, Type)>,
    b: Seq<(LocalName, Type)>,
)
    requires
        same_items(same_branch())(a, b),
    ensures
        #[trigger] Type::Either(s, a).placeless() == #[trigger] Type::Either(t, b).placeless(),
{
    let x = Type::Either(s, a).placeless()->Either_1;
    let y = Type::Either(t, b).placeless()->Either_1;
    assert forall|k: int| 0 <= k < x.len() implies x[k] == y[k] by {
        assert(same_branch()(a[k], b[k]));
    }
    assert(x =~= y);
}

/// Types with branches are the same but for places if their branches are.
broadcast proof fn choice_alike(
    s: Span,
    t: Span,
    a: Seq<(LocalName, Type)>,
    b: Seq<(LocalName, Type)>,
)
    requires
        same_items(same_branch())(a, b),
    ensures
        #[trigger] Type::Choice(s, a).placeless() == #[trigger] Type::Choice(t, b).placeless(),
{
    let x = Type::Choice(s, a).placeless()->Choice_1;
    let y = Type::Choice(t, b).placeless()->Choice_1;
    assert forall|k: int| 0 <= k < x.len() implies x[k] == y[k] by {
        assert(same_branch()(a[k], b[k]));
    }
    assert(x =~= y);
}

/// Pairs are the same but for places if their parts are.
broadcast proof fn pairs_alike(s: Span, t: Span, a: Seq<Type>, b: Seq<Type>, x: Type, y: Type)
    requires
        same_items(same_type())(a, b),
        x.placeless() == y.placeless(),
    ensures
        (#[trigger] a.fold_right(pair_step(s), x)).placeless() == (#[trigger] b.fold_right(
            pair_step(t),
            y,
        )).placeless(),
    decreases a.len(),
{
    if a.len() > 0 {
        let last = a.len() - 1;
        assert(same_type()(a[last], b[last]));
        assert forall|k: int| 0 <= k < a.drop_last().len() implies same_type()(
            #[trigger] a.drop_last()[k],
            b.drop_last()[k],
        ) by {
            assert(same_type()(a[k], b[k]));
        }
        pairs_alike(
            s,
            t,
            a.drop_last(),
            b.drop_last(),
            pair_step(s)(a.last(), x),
            pair_step(t)(b.last(), y),
        );
    }
}

/// Functions are the same but for places if their parts are.
broadcast proof fn functions_alike(s: Span, t: Span, a: Seq<Type>, b: Seq<Type>, x: Type, y: Type)
    requires
        same_items(same_type())(a, b),
        x.placeless() == y.placeless(),
    ensures
        (#[trigger] a.fold_right(function_step(s), x)).placeless() == (#[trigger] b.fold_right(
            function_step(t),
            y,
        )).placeless(),
    decreases a.len(),
{
    if a.len() > 0 {
        let last = a.len() - 1;
        assert(same_type()(a[last], b[last]));
        assert forall|k: int| 0 <= k < a.drop_last().len() implies same_type()(
            #[trigger] a.drop_last()[k],
            b.drop_last()[k],
        ) by {
            assert(same_type()(a[k], b[k]));
        }
        functions_alike(
            s,
            t,
            a.drop_last(),
            b.drop_last(),
            function_step(s)(a.last(), x),
            function_step(t)(b.last(), y),
        );
    }
}

/// Types that send types are the same but for places if their parts are.
broadcast proof fn exists_alike(
    s: Span,
    t: Span,
    a: Seq<LocalName>,
    b: Seq<LocalName>,
    x: Type,
    y: Type,
)
    requires
        same_items(same_name())(a, b),
        x.placeless() == y.placeless(),
    ensures
        (#[trigger] a.fold_right(exists_step(s), x)).placeless() == (#[trigger] b.fold_right(
            exists_step(t),
            y,
        )).placeless(),
    decreases a.len(),
{
    if a.len() > 0 {
        let last = a.len() - 1;
        assert(same_name()(a[last], b[last]));
        assert forall|k: int| 0 <= k < a.drop_last().len() implies same_name()(
            #[trigger] a.drop_last()[k],
            b.drop_last()[k],
        ) by {
            assert(same_name()(a[k], b[k]));
        }
        exists_alike(
            s,
            t,
            a.drop_last(),
            b.drop_last(),
            exists_step(s)(a.last(), x),
            exists_step(t)(b.last(), y),
        );
    }
}

/// Types that receive types are the same but for places if their parts are.
broadcast proof fn forall_alike(
    s: Span,
    t: Span,
    a: Seq<LocalName>,
    b: Seq<LocalName>,
    x: Type,
    y: Type,
)
    requires
        same_items(same_name())(a, b),
        x.placeless() == y.placeless(),
    ensures
        (#[trigger] a.fold_right(forall_step(s), x)).placeless() == (#[trigger] b.fold_right(
            forall_step(t),
            y,
        )).placeless(),
    decreases a.len(),
{
    if a.len() > 0 {
        let last = a.len() - 1;
        assert(same_name()(a[last], b[last]));
        assert forall|k: int| 0 <= k < a.drop_last().len() implies same_name()(
            #[trigger] a.drop_last()[k],
            b.drop_last()[k],
        ) by {
            assert(same_name()(a[k], b[k]));
        }
        forall_alike(
            s,
            t,
            a.drop_last(),
            b.drop_last(),
            forall_step(s)(a.last(), x),
            forall_step(t)(b.last(), y),
        );
    }
}

/// Types are the same but for places if their parts are.
broadcast group group_alike {
    named_alike,
    either_alike,
    choice_alike,
    pairs_alike,
    functions_alike,
    exists_alike,
    forall_alike,
}

/// A type.
proof fn like_typ(p: Texts, i: int)
    requires
        p.ready(i),
    ensures
        like(
            same_type(),
            p.one.len() as int,
            i,
            types::typ(p.one, p.one_rules, i),
            types::typ(p.other, p.other_rules, i),
        ),
{
    reveal(types::typ);
    like_typ_var(p, i);
    like_typ_name(p, i);
    like_typ_box(p, i);
    like_typ_chan(p, i);
    like_typ_either(p, i);
    like_typ_choice(p, i);
    like_typ_break(p, i);
    like_typ_continue(p, i);
    like_typ_recursive(p, i);
    like_typ_iterative(p, i);
    like_typ_self(p, i);
    like_typ_send_type(p, i);
    like_typ_send(p, i);
    like_typ_recv_type(p, i);
    like_typ_receive(p, i);
}

/// `a`
proof fn like_typ_var(p: Texts, i: int)
    requires
        p.ready(i),
    ensures
        like(
            same_type(),
            p.one.len() as int,
            i,
            types::typ_var(p.one, i),
            types::typ_var(p.other, i),
        ),
{
    reveal(types::typ_var);
}

/// `Name<a, b>`
proof fn like_typ_name(p: Texts, i: int)
    requires
        p.ready(i),
    ensures
        like(
            same_type(),
            p.one.len() as int,
            i,
            types::typ_name(p.one, p.one_rules, i),
            types::typ_name(p.other, p.other_rules, i),
        ),
{
    broadcast use group_alike;

    reveal(types::typ_name);
    if let Outcome::Done(j, _) = global_name(p.one, i) {
        like_type_args(p, i, j);
    }
}

/// `box a`
proof fn like_typ_box(p: Texts, i: int)
    requires
        p.ready(i),
    ensures
        like(
            same_type(),
            p.one.len() as int,
            i,
            types::typ_box(p.one, p.one_rules, i),
            types::typ_box(p.other, p.other_rules, i),
        ),
{
    reveal(types::typ_box);
}

/// `dual a`
proof fn like_typ_chan(p: Texts, i: int)
    requires
        p.ready(i),
    ensures
        like(
            same_type(),
            p.one.len() as int,
            i,
            types::typ_chan(p.one, p.one_rules, i),
            types::typ_chan(p.other, p.other_rules, i),
        ),
{
    reveal(types::typ_chan);
}

/// `(a, b) c`
proof fn like_typ_send(p: Texts, i: int)
    requires
        p.ready(i),
    ensures
        like(
            same_type(),
            p.one.len() as int,
            i,
            types::typ_send(p.one, p.one_rules, i),
            types::typ_send(p.other, p.other_rules, i),
        ),
{
    broadcast use group_alike;

    reveal(types::typ_send);
    if i + 1 <= p.one.len() {
        like_list1(p, p.one_rules.typ, p.other_rules.typ, i + 1);
    }
}

/// `[a, b] c`
proof fn like_typ_receive(p: Texts, i: int)
    requires
        p.ready(i),
    ensures
        like(
            same_type(),
            p.one.len() as int,
            i,
            types::typ_receive(p.one, p.one_rules, i),
            types::typ_receive(p.other, p.other_rules, i),
        ),
{
    broadcast use group_alike;

    reveal(types::typ_receive);
    if i + 1 <= p.one.len() {
        like_list1(p, p.one_rules.typ, p.other_rules.typ, i + 1);
    }
}

/// `either { .x a, .y b }`
proof fn like_typ_either(p: Texts, i: int)
    requires
        p.ready(i),
    ensures
        like(
            same_type(),
            p.one.len() as int,
            i,
            types::typ_either(p.one, p.one_rules, i),
            types::typ_either(p.other, p.other_rules, i),
        ),
{
    broadcast use group_alike;

    reveal(types::typ_either);
    if i + 1 <= p.one.len() {
        like_branches_body(p, p.one_rules.typ, p.other_rules.typ, i + 1);
    }
}

/// `choice { .x => a, .y => b }`
proof fn like_typ_choice(p: Texts, i: int)
    requires
        p.ready(i),
    ensures
        like(
            same_type(),
            p.one.len() as int,
            i,
            types::typ_choice(p.one, p.one_rules, i),
            types::typ_choice(p.other, p.other_rules, i),
        ),
{
    broadcast use group_alike;

    reveal(types::typ_choice);
    if i + 1 <= p.one.len() {
        like_branches_body(p, p.one_rules.typ_branch, p.other_rules.typ_branch, i + 1);
    }
}

/// `!`
proof fn like_typ_break(p: Texts, i: int)
    requires
        p.ready(i),
    ensures
        like(
            same_type(),
            p.one.len() as int,
            i,
            types::typ_break(p.one, i),
            types::typ_break(p.other, i),
        ),
{
    reveal(types::typ_break);
}

/// `?`
proof fn like_typ_continue(p: Texts, i: int)
    requires
        p.ready(i),
    ensures
        like(
            same_type(),
            p.one.len() as int,
            i,
            types::typ_continue(p.one, i),
            types::typ_continue(p.other, i),
        ),
{
    reveal(types::typ_continue);
}

/// `recursive@l a`
proof fn like_typ_recursive(p: Texts, i: int)
    requires
        p.ready(i),
    ensures
        like(
            same_type(),
            p.one.len() as int,
            i,
            types::typ_recursive(p.one, p.one_rules, i),
            types::typ_recursive(p.other, p.other_rules, i),
        ),
{
    broadcast use group_alike;

    reveal(types::typ_recursive);
}

/// `iterative@l a`
proof fn like_typ_iterative(p: Texts, i: int)
    requires
        p.ready(i),
    ensures
        like(
            same_type(),
            p.one.len() as int,
            i,
            types::typ_iterative(p.one, p.one_rules, i),
            types::typ_iterative(p.other, p.other_rules, i),
        ),
{
    reveal(types::typ_iterative);
}

/// `self@l`
proof fn like_typ_self(p: Texts, i: int)
    requires
        p.ready(i),
    ensures
        like(
            same_type(),
            p.one.len() as int,
            i,
            types::typ_self(p.one, i),
            types::typ_self(p.other, i),
        ),
{
    reveal(types::typ_self);
}

/// `(type a, b) c`
proof fn like_typ_send_type(p: Texts, i: int)
    requires
        p.ready(i),
    ensures
        like(
            same_type(),
            p.one.len() as int,
            i,
            types::typ_send_type(p.one, p.one_rules, i),
            types::typ_send_type(p.other, p.other_rules, i),
        ),
{
    broadcast use group_alike;

    reveal(types::typ_send_type);
    if i + 2 <= p.one.len() {
        like_names(p, i + 2);
    }
}

/// `[type a, b] c`
proof fn like_typ_recv_type(p: Texts, i: int)
    requires
        p.ready(i),
    ensures
        like(
            same_type(),
            p.one.len() as int,
            i,
            types::typ_recv_type(p.one, p.one_rules, i),
            types::typ_recv_type(p.other, p.other_rules, i),
        ),
{
    broadcast use group_alike;

    reveal(types::typ_recv_type);
    if i + 2 <= p.one.len() {
        like_names(p, i + 2);
    }
}

/// `<a, b>` with types, or nothing.
proof fn like_type_args(p: Texts, from: int, i: int)
    requires
        p.ready(from),
        from <= i <= p.one.len(),
    ensures
        like_opt(
            same_args(),
            p.one.len() as int,
            i,
            types::type_args(p.one, p.one_rules, i),
            types::type_args(p.other, p.other_rules, i),
        ),
{
    reveal(types::type_args);
    if i + 1 <= p.one.len() {
        like_list1(p, p.one_rules.typ, p.other_rules.typ, i + 1);
    }
}

/// What stands after a signal in `choice`.
proof fn like_typ_branch(p: Texts, i: int)
    requires
        p.ready(i),
    ensures
        like(
            same_type(),
            p.one.len() as int,
            i,
            types::typ_branch(p.one, p.one_rules, i),
            types::typ_branch(p.other, p.other_rules, i),
        ),
{
    broadcast use group_alike;

    reveal(types::typ_branch);
    like_typ_branch_then(p, i);
    like_typ_branch_recv_type(p, i);
    like_typ_branch_receive(p, i);
}

/// `=> a`
proof fn like_typ_branch_then(p: Texts, i: int)
    requires
        p.ready(i),
    ensures
        like(
            same_type(),
            p.one.len() as int,
            i,
            types::typ_branch_then(p.one, p.one_rules, i),
            types::typ_branch_then(p.other, p.other_rules, i),
        ),
{
    reveal(types::typ_branch_then);
}

/// `(a, b) c`
proof fn like_typ_branch_receive(p: Texts, i: int)
    requires
        p.ready(i),
    ensures
        like(
            same_type(),
            p.one.len() as int,
            i,
            types::typ_branch_receive(p.one, p.one_rules, i),
            types::typ_branch_receive(p.other, p.other_rules, i),
        ),
{
    broadcast use group_alike;

    reveal(types::typ_branch_receive);
    if i + 1 <= p.one.len() {
        like_list1(p, p.one_rules.typ, p.other_rules.typ, i + 1);
    }
}

/// `(type a, b) c`
proof fn like_typ_branch_recv_type(p: Texts, i: int)
    requires
        p.ready(i),
    ensures
        like(
            same_type(),
            p.one.len() as int,
            i,
            types::typ_branch_recv_type(p.one, p.one_rules, i),
            types::typ_branch_recv_type(p.other, p.other_rules, i),
        ),
{
    broadcast use group_alike;

    reveal(types::typ_branch_recv_type);
    if i + 2 <= p.one.len() {
        like_names(p, i + 2);
    }
}

/// The tokens `one` and the tokens `other`, with the rules for places after `from`.
pub open spec fn texts_at(one: Seq<Token>, other: Seq<Token>, from: int) -> Texts {
    Texts { one, other, one_rules: rules(one, from), other_rules: rules(other, from) }
}

/// The rules of types find the same.
proof fn like_types(one: Seq<Token>, other: Seq<Token>, from: int)
    requires
        same_text(one, other),
        0 <= from <= one.len(),
    ensures
        texts_at(one, other, from).ready(from),
    decreases one.len() - from,
{
    broadcast use group_rules;

    let p = texts_at(one, other, from);
    assert forall|j: int| from + 1 <= j <= one.len() implies like(
        same_type(),
        one.len() as int,
        j,
        #[trigger] (p.one_rules.typ)(j),
        (p.other_rules.typ)(j),
    ) by {
        like_types(one, other, j);
        like_typ(texts_at(one, other, j), j);
    }
    assert forall|j: int| from + 1 <= j <= one.len() implies like(
        same_type(),
        one.len() as int,
        j,
        #[trigger] (p.one_rules.typ_branch)(j),
        (p.other_rules.typ_branch)(j),
    ) by {
        like_types(one, other, j);
        like_typ_branch(texts_at(one, other, j), j);
    }
}

/// Tokens that are the same but for their places are parsed to types that are the same but for
/// the places of their parts, up to the same token, or both are no types.
pub proof fn places_do_not_matter(one: Seq<Token>, other: Seq<Token>, i: int)
    requires
        same_text(one, other),
        0 <= i <= one.len(),
    ensures
        match (types::typ(one, rules(one, i), i), types::typ(other, rules(other, i), i)) {
            (Outcome::Done(j, a), Outcome::Done(k, b)) => j == k && a.placeless()
                == b.placeless(),
            (Outcome::Failed { .. }, Outcome::Failed { .. }) => true,
            _ => false,
        },
{
    like_types(one, other, i);
    like_typ(texts_at(one, other, i), i);
}

} // verus!
