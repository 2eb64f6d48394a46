//! How the parts of texts are read: lists, branches, names and labels.
use super::super::grammar::expressions::expression;
use super::super::grammar::patterns::pattern;
use super::super::grammar::types::typ;
use super::super::grammar::{
    branch_row, branch_rows, branches_body, global_name, group_rules, label, list1, list_after,
    local_name, more_items, rules,
};
use super::super::outcome::Outcome;
use super::{
    ahead_apply_branch, ahead_cmd_branch, ahead_cons_branch, ahead_expression, ahead_pattern,
    ahead_typ, ahead_typ_branch, apply_branch_rule, body_at, cmd_branch_rule, collected,
    cons_branch_rule, expression_at, expression_rule, global_name_at, items_at, label_at, list_at,
    local_name_at, pattern_at, pattern_rule, rows_at, token_at, typ_at, typ_branch_rule, typ_rule,
};
use crate::branches::{found, inserted, inserted_found, inserted_sorted, sorted};
use crate::model::{
    ApplyBranch, CommandBranch, ConstructBranch, Expression, GlobalName, LocalName, Pattern, Span,
    Token, Type,
};
use crate::token::TokenKind;
use vstd::prelude::*;

verus! {

/// Whether `a` and `b` are the same at the places after `from`, where what they find takes at
/// least a token.
pub open spec fn same_after<T>(
    ts: Seq<Token>,
    from: int,
    a: spec_fn(int) -> Outcome<T>,
    b: spec_fn(int) -> Outcome<T>,
) -> bool {
    forall|k: int|
        from < k <= ts.len() ==> {
            &&& #[trigger] a(k) == b(k)
            &&& a(k) matches Outcome::Done(m, _) ==> k < m <= ts.len()
        }
}

/// A name in lower case.
pub(crate) proof fn read_local_name(ts: Seq<Token>, i: int, name: LocalName)
    requires
        local_name_at(ts, i, name),
    ensures
        local_name(ts, i) == Outcome::Done(i + 1, name),
{
}

/// A name in upper case.
pub(crate) proof fn read_global_name(ts: Seq<Token>, i: int, j: int, name: GlobalName)
    requires
        global_name_at(ts, i, j, name),
    ensures
        global_name(ts, i) == Outcome::Done(j, name),
        i < j <= ts.len(),
{
}

/// A label, or nothing.
pub(crate) proof fn read_label(ts: Seq<Token>, i: int, j: int, name: Option<LocalName>)
    requires
        label_at(ts, i, j, name),
    ensures
        label(ts, i) == Outcome::Done(j, name),
        i <= j <= ts.len(),
{
}

/// The items after the first one.
proof fn read_items<T>(
    ts: Seq<Token>,
    from: int,
    a: spec_fn(int) -> Outcome<T>,
    b: spec_fn(int) -> Outcome<T>,
    i: int,
    j: int,
    xs: Seq<T>,
)
    requires
        same_after(ts, from, a, b),
        from < i <= ts.len(),
        0 <= i,
        items_at(ts, b, i, j, xs),
    ensures
        i <= j <= ts.len(),
        ({
            let end = if token_at(ts, j - 1, TokenKind::Comma) && more_items(ts, a, i)
                == Outcome::Done(j - 1, xs) {
                j - 1
            } else {
                j
            };
            &&& more_items(ts, a, i) == Outcome::Done(end, xs)
            &&& end == j ==> !token_at(ts, j, TokenKind::Comma)
        }),
    decreases xs.len(),
{
    if token_at(ts, i, TokenKind::Comma) {
        assert(a(i + 1) == b(i + 1));
        if xs.len() > 0 {
            if let Outcome::Done(k, x) = b(i + 1) {
                let rest = xs.drop_first();
                read_items(ts, from, a, b, k, j, rest);
                assert(seq![x] + rest =~= xs);
            }
        } else {
            assert(xs =~= Seq::empty());
        }
    } else {
        assert(xs =~= Seq::empty());
    }
}

/// One or more items between commas.
proof fn read_list<T>(
    ts: Seq<Token>,
    from: int,
    a: spec_fn(int) -> Outcome<T>,
    b: spec_fn(int) -> Outcome<T>,
    i: int,
    j: int,
    xs: Seq<T>,
)
    requires
        same_after(ts, from, a, b),
        from < i <= ts.len(),
        0 <= i,
        list_at(ts, b, i, j, xs),
    ensures
        i < j <= ts.len(),
        list1(ts, a, i) == Outcome::Done(j, xs),
{
    assert(a(i) == b(i));
    if let Outcome::Done(k, x) = b(i) {
        let rest = xs.drop_first();
        read_items(ts, from, a, b, k, j, rest);
        assert(seq![x] + rest =~= xs);
        assert(list_after(ts, a, k, x) == Outcome::Done(j, xs));
    }
}

/// Whether the names `xs`, one or more, stand from `i` to `j` with commas between them.
pub open spec fn names_at(ts: Seq<Token>, i: int, j: int, xs: Seq<LocalName>) -> bool {
    list_at(ts, |i: int| local_name(ts, i), i, j, xs)
}

/// Names between commas.
pub(crate) proof fn read_names(ts: Seq<Token>, i: int, j: int, xs: Seq<LocalName>)
    requires
        0 <= i <= ts.len(),
        names_at(ts, i, j, xs),
    ensures
        i < j <= ts.len(),
        list1(ts, |i: int| local_name(ts, i), i) == Outcome::Done(j, xs),
{
    let name = |i: int| local_name(ts, i);
    assert forall|k: int| i - 1 < k <= ts.len() implies {
        &&& #[trigger] name(k) == local_name(ts, k)
        &&& name(k) matches Outcome::Done(m, _) ==> k < m <= ts.len()
    } by {}
    read_list(ts, i - 1, name, name, i, j, xs);
}

/// The names of a list are the words of the text, with a comma between each two of them.
pub proof fn names_are_words(ts: Seq<Token>, i: int, xs: Seq<LocalName>)
    requires
        0 <= i,
        xs.len() > 0,
        i + 2 * xs.len() - 1 <= ts.len(),
        forall|k: int| 0 <= k < xs.len() ==> #[trigger] local_name_at(ts, i + 2 * k, xs[k]),
        forall|k: int|
            0 <= k < xs.len() - 1 ==> #[trigger] token_at(ts, i + 2 * k + 1, TokenKind::Comma),
        !token_at(ts, i + 2 * xs.len() - 1, TokenKind::Comma),
    ensures
        names_at(ts, i, i + 2 * xs.len() - 1, xs),
{
    let name = |i: int| local_name(ts, i);
    assert(local_name_at(ts, i + 2 * 0, xs[0]));
    names_after_commas(ts, i + 1, xs.drop_first(), xs, 1);
}

/// The names after the first one.
proof fn names_after_commas(
    ts: Seq<Token>,
    i: int,
    rest: Seq<LocalName>,
    xs: Seq<LocalName>,
    n: int,
)
    requires
        0 < n <= xs.len(),
        rest == xs.skip(n),
        i - 2 * n + 1 >= 0,
        i + 2 * rest.len() <= ts.len(),
        forall|k: int|
            0 <= k < xs.len() ==> #[trigger] local_name_at(ts, i - 2 * n + 1 + 2 * k, xs[k]),
        forall|k: int|
            0 <= k < xs.len() - 1 ==> #[trigger] token_at(
                ts,
                i - 2 * n + 1 + 2 * k + 1,
                TokenKind::Comma,
            ),
        !token_at(ts, i + 2 * rest.len(), TokenKind::Comma),
    ensures
        items_at(ts, |i: int| local_name(ts, i), i, i + 2 * rest.len(), rest),
    decreases rest.len(),
{
    let name = |i: int| local_name(ts, i);
    if rest.len() > 0 {
        assert(token_at(ts, i - 2 * n + 1 + 2 * (n - 1) + 1, TokenKind::Comma));
        assert(local_name_at(ts, i - 2 * n + 1 + 2 * n, xs[n]));
        assert(name(i + 1) == local_name(ts, i + 1));
        let next = i + 2;
        assert(rest.drop_first() =~= xs.skip(n + 1));
        assert forall|k: int| 0 <= k < xs.len() implies #[trigger] local_name_at(
            ts,
            next - 2 * (n + 1) + 1 + 2 * k,
            xs[k],
        ) by {
            assert(local_name_at(ts, i - 2 * n + 1 + 2 * k, xs[k]));
        }
        assert forall|k: int| 0 <= k < xs.len() - 1 implies #[trigger] token_at(
            ts,
            next - 2 * (n + 1) + 1 + 2 * k + 1,
            TokenKind::Comma,
        ) by {
            assert(token_at(ts, i - 2 * n + 1 + 2 * k + 1, TokenKind::Comma));
        }
        names_after_commas(ts, next, rest.drop_first(), xs, n + 1);
    }
}

/// Branches, as often as they come.
proof fn read_rows<T>(
    ts: Seq<Token>,
    from: int,
    a: spec_fn(int) -> Outcome<T>,
    b: spec_fn(int) -> Outcome<T>,
    before: Seq<(LocalName, T)>,
    i: int,
    j: int,
    rows: Seq<(LocalName, T)>,
)
    requires
        same_after(ts, from, a, b),
        from < i <= ts.len(),
        0 <= i,
        rows_at(ts, b, i, j, rows),
        j < ts.len(),
    ensures
        i <= j,
        branch_rows(ts, a, before, i) == Outcome::Done(j, collected(before, rows)),
    decreases rows.len(),
{
    if rows.len() > 0 {
        assert(a(i + 2) == b(i + 2));
        if let Outcome::Done(k, value) = b(i + 2) {
            let next = if token_at(ts, k, TokenKind::Comma) {
                k + 1
            } else {
                k
            };
            assert(branch_row(ts, a, i) == Outcome::Done(next, rows[0]));
            let after = inserted(before, rows[0].0, rows[0].1);
            read_rows(ts, from, a, b, after, next, j, rows.drop_first());
        }
    }
}

/// Branches in braces.
proof fn read_body<T>(
    ts: Seq<Token>,
    from: int,
    a: spec_fn(int) -> Outcome<T>,
    b: spec_fn(int) -> Outcome<T>,
    i: int,
    j: int,
    rows: Seq<(LocalName, T)>,
)
    requires
        same_after(ts, from, a, b),
        from < i,
        body_at(ts, b, i, j, rows),
    ensures
        i < j <= ts.len(),
        branches_body(ts, a, i) == Outcome::Done(
            j,
            (ts[i].span.join(ts[j - 1].span), collected(Seq::empty(), rows)),
        ),
{
    read_rows(ts, from, a, b, Seq::empty(), i + 1, j - 1, rows);
}

/// What is under a name among the entries made of the rows is what the last row of that name
/// says, or else what was there before.
proof fn collected_found<T>(
    before: Seq<(LocalName, T)>,
    rows: Seq<(LocalName, T)>,
    string: Seq<char>,
)
    ensures
        (forall|k: int| 0 <= k < rows.len() ==> (#[trigger] rows[k]).0.string != string) ==> found(
            collected(before, rows),
            string,
        ) == found(before, string),
        forall|k: int|
            #![trigger rows[k]]
            0 <= k < rows.len() && rows[k].0.string == string && (forall|l: int|
                k < l < rows.len() ==> (#[trigger] rows[l]).0.string != string) ==> found(
                collected(before, rows),
                string,
            ) == Some(rows[k].1),
    decreases rows.len(),
{
    if rows.len() > 0 {
        let rest = rows.drop_first();
        let after = inserted(before, rows[0].0, rows[0].1);
        collected_found(after, rest, string);
        inserted_found(before, rows[0].0, rows[0].1, string);
        assert(forall|k: int| 0 <= k < rest.len() ==> #[trigger] rest[k] == rows[k + 1]);
        if forall|k: int| 0 <= k < rows.len() ==> (#[trigger] rows[k]).0.string != string {
            assert(rows[0].0.string != string);
        }
        assert forall|k: int|
            #![trigger rows[k]]
            0 <= k < rows.len() && rows[k].0.string == string && (forall|l: int|
                k < l < rows.len() ==> (#[trigger] rows[l]).0.string != string) implies found(
            collected(before, rows),
            string,
        ) == Some(rows[k].1) by {
            if k > 0 {
                assert(rest[k - 1] == rows[k]);
                assert forall|l: int| k - 1 < l < rest.len() implies (
                #[trigger] rest[l]).0.string != string by {
                    assert(rest[l] == rows[l + 1]);
                }
            }
        }
    }
}

/// The entries made of rows stay sorted.
proof fn collected_sorted<T>(before: Seq<(LocalName, T)>, rows: Seq<(LocalName, T)>)
    requires
        sorted(before),
    ensures
        sorted(collected(before, rows)),
    decreases rows.len(),
{
    if rows.len() > 0 {
        inserted_sorted(before, rows[0].0, rows[0].1);
        collected_sorted(inserted(before, rows[0].0, rows[0].1), rows.drop_first());
    }
}

/// The branches that a text lists are sorted by name, each name once, and under a name stands
/// what the last branch of that name says; a name that no branch has is not there.
pub proof fn branches_by_name<T>(rows: Seq<(LocalName, T)>, string: Seq<char>)
    ensures
        sorted(collected(Seq::empty(), rows)),
        (forall|k: int| 0 <= k < rows.len() ==> (#[trigger] rows[k]).0.string != string) ==> found(
            collected(Seq::empty(), rows),
            string,
        ) is None,
        forall|k: int|
            #![trigger rows[k]]
            0 <= k < rows.len() && rows[k].0.string == string && (forall|l: int|
                k < l < rows.len() ==> (#[trigger] rows[l]).0.string != string) ==> found(
                collected(Seq::empty(), rows),
                string,
            ) == Some(rows[k].1),
{
    collected_sorted(Seq::empty(), rows);
    collected_found(Seq::empty(), rows, string);
}

/// Whether the items `xs`, one or more, stand from `i` to `j` with commas between them.
pub open spec fn typs_at(ts: Seq<Token>, i: int, j: int, xs: Seq<Type>) -> bool {
    0 <= i <= ts.len() && list_at(ts, typ_rule(ts), i, j, xs)
}

/// Items between commas.
pub(crate) proof fn read_typs(ts: Seq<Token>, from: int, i: int, j: int, xs: Seq<Type>)
    requires
        0 <= from < i,
        typs_at(ts, i, j, xs),
    ensures
        i < j <= ts.len(),
        list1(ts, rules(ts, from).typ, i) == Outcome::Done(j, xs),
        exists|k: int| #[trigger] typ_at(ts, i, k, xs[0]),
{
    same_typs(ts, from);
    read_list(ts, from, rules(ts, from).typ, typ_rule(ts), i, j, xs);
    if let Outcome::Done(k, _) = typ(ts, rules(ts, i), i) {
        assert(typ_at(ts, i, k, xs[0]));
    }
}

/// Whether the items `xs`, one or more, stand from `i` to `j` with commas between them.
pub open spec fn patterns_at(ts: Seq<Token>, i: int, j: int, xs: Seq<Pattern>) -> bool {
    0 <= i <= ts.len() && list_at(ts, pattern_rule(ts), i, j, xs)
}

/// Items between commas.
pub(crate) proof fn read_patterns(ts: Seq<Token>, from: int, i: int, j: int, xs: Seq<Pattern>)
    requires
        0 <= from < i,
        patterns_at(ts, i, j, xs),
    ensures
        i < j <= ts.len(),
        list1(ts, rules(ts, from).pattern, i) == Outcome::Done(j, xs),
        exists|k: int| #[trigger] pattern_at(ts, i, k, xs[0]),
{
    same_patterns(ts, from);
    read_list(ts, from, rules(ts, from).pattern, pattern_rule(ts), i, j, xs);
    if let Outcome::Done(k, _) = pattern(ts, rules(ts, i), i) {
        assert(pattern_at(ts, i, k, xs[0]));
    }
}

/// Whether the items `xs`, one or more, stand from `i` to `j` with commas between them.
pub open spec fn expressions_at(ts: Seq<Token>, i: int, j: int, xs: Seq<Expression>) -> bool {
    0 <= i <= ts.len() && list_at(ts, expression_rule(ts), i, j, xs)
}

/// Items between commas.
pub(crate) proof fn read_expressions(ts: Seq<Token>, from: int, i: int, j: int, xs: Seq<Expression>)
    requires
        0 <= from < i,
        expressions_at(ts, i, j, xs),
    ensures
        i < j <= ts.len(),
        list1(ts, rules(ts, from).expression, i) == Outcome::Done(j, xs),
        exists|k: int| #[trigger] expression_at(ts, i, k, xs[0]),
{
    same_expressions(ts, from);
    read_list(ts, from, rules(ts, from).expression, expression_rule(ts), i, j, xs);
    if let Outcome::Done(k, _) = expression(ts, rules(ts, i), i) {
        assert(expression_at(ts, i, k, xs[0]));
    }
}

/// Whether the branches `rows` stand from `i` to `j`, in braces.
pub open spec fn typ_body_at(ts: Seq<Token>, i: int, j: int, rows: Seq<(LocalName, Type)>) -> bool {
    body_at(ts, typ_rule(ts), i, j, rows)
}

/// Branches in braces.
pub(crate) proof fn read_typ_body(
    ts: Seq<Token>,
    from: int,
    i: int,
    j: int,
    rows: Seq<(LocalName, Type)>,
)
    requires
        0 <= from < i,
        typ_body_at(ts, i, j, rows),
    ensures
        i < j <= ts.len(),
        branches_body(ts, rules(ts, from).typ, i) == Outcome::Done(
            j,
            (ts[i].span.join(ts[j - 1].span), collected(Seq::empty(), rows)),
        ),
{
    same_typs(ts, from);
    read_body(ts, from, rules(ts, from).typ, typ_rule(ts), i, j, rows);
}

/// Whether the branches `rows` stand from `i` to `j`, in braces.
pub open spec fn typ_branch_body_at(ts: Seq<Token>, i: int, j: int, rows: Seq<(LocalName,
    Type)>) -> bool {
    body_at(ts, typ_branch_rule(ts), i, j, rows)
}

/// Branches in braces.
pub(crate) proof fn read_typ_branch_body(
    ts: Seq<Token>,
    from: int,
    i: int,
    j: int,
    rows: Seq<(LocalName, Type)>,
)
    requires
        0 <= from < i,
        typ_branch_body_at(ts, i, j, rows),
    ensures
        i < j <= ts.len(),
        branches_body(ts, rules(ts, from).typ_branch, i) == Outcome::Done(
            j,
            (ts[i].span.join(ts[j - 1].span), collected(Seq::empty(), rows)),
        ),
{
    same_typ_branchs(ts, from);
    read_body(ts, from, rules(ts, from).typ_branch, typ_branch_rule(ts), i, j, rows);
}

/// Whether the branches `rows` stand from `i` to `j`, in braces.
pub open spec fn cons_branch_body_at(ts: Seq<Token>, i: int, j: int, rows: Seq<(LocalName,
    ConstructBranch)>) -> bool {
    body_at(ts, cons_branch_rule(ts), i, j, rows)
}

/// Branches in braces.
pub(crate) proof fn read_cons_branch_body(
    ts: Seq<Token>,
    from: int,
    i: int,
    j: int,
    rows: Seq<(LocalName, ConstructBranch)>,
)
    requires
        0 <= from < i,
        cons_branch_body_at(ts, i, j, rows),
    ensures
        i < j <= ts.len(),
        branches_body(ts, rules(ts, from).cons_branch, i) == Outcome::Done(
            j,
            (ts[i].span.join(ts[j - 1].span), collected(Seq::empty(), rows)),
        ),
{
    same_cons_branchs(ts, from);
    read_body(ts, from, rules(ts, from).cons_branch, cons_branch_rule(ts), i, j, rows);
}

/// Whether the branches `rows` stand from `i` to `j`, in braces.
pub open spec fn apply_branch_body_at(ts: Seq<Token>, i: int, j: int, rows: Seq<(LocalName,
    ApplyBranch)>) -> bool {
    body_at(ts, apply_branch_rule(ts), i, j, rows)
}

/// Branches in braces.
pub(crate) proof fn read_apply_branch_body(
    ts: Seq<Token>,
    from: int,
    i: int,
    j: int,
    rows: Seq<(LocalName, ApplyBranch)>,
)
    requires
        0 <= from < i,
        apply_branch_body_at(ts, i, j, rows),
    ensures
        i < j <= ts.len(),
        branches_body(ts, rules(ts, from).apply_branch, i) == Outcome::Done(
            j,
            (ts[i].span.join(ts[j - 1].span), collected(Seq::empty(), rows)),
        ),
{
    same_apply_branchs(ts, from);
    read_body(ts, from, rules(ts, from).apply_branch, apply_branch_rule(ts), i, j, rows);
}

/// Whether the branches `rows` stand from `i` to `j`, in braces.
pub open spec fn cmd_branch_body_at(ts: Seq<Token>, i: int, j: int, rows: Seq<(LocalName,
    CommandBranch)>) -> bool {
    body_at(ts, cmd_branch_rule(ts), i, j, rows)
}

/// Branches in braces.
pub(crate) proof fn read_cmd_branch_body(
    ts: Seq<Token>,
    from: int,
    i: int,
    j: int,
    rows: Seq<(LocalName, CommandBranch)>,
)
    requires
        0 <= from < i,
        cmd_branch_body_at(ts, i, j, rows),
    ensures
        i < j <= ts.len(),
        branches_body(ts, rules(ts, from).cmd_branch, i) == Outcome::Done(
            j,
            (ts[i].span.join(ts[j - 1].span), collected(Seq::empty(), rows)),
        ),
{
    same_cmd_branchs(ts, from);
    read_body(ts, from, rules(ts, from).cmd_branch, cmd_branch_rule(ts), i, j, rows);
}

/// What is found as a name in upper case is one.
pub(crate) proof fn found_global_name(ts: Seq<Token>, i: int, j: int, name: GlobalName)
    requires
        global_name(ts, i) == Outcome::Done(j, name),
    ensures
        global_name_at(ts, i, j, name),
        i < j <= ts.len(),
{
}

/// What is found as a label is one.
pub(crate) proof fn found_label(ts: Seq<Token>, i: int, j: int, name: Option<LocalName>)
    requires
        0 <= i <= ts.len(),
        label(ts, i) == Outcome::Done(j, name),
    ensures
        label_at(ts, i, j, name),
        i <= j <= ts.len(),
{
}

/// The items that are found after the first one are there.
proof fn found_items<T>(
    ts: Seq<Token>,
    from: int,
    a: spec_fn(int) -> Outcome<T>,
    b: spec_fn(int) -> Outcome<T>,
    i: int,
    end: int,
    xs: Seq<T>,
)
    requires
        same_after(ts, from, a, b),
        from < i <= ts.len(),
        0 <= i,
        more_items(ts, a, i) == Outcome::Done(end, xs),
    ensures
        i <= end <= ts.len(),
        items_at(
            ts,
            b,
            i,
            if token_at(ts, end, TokenKind::Comma) {
                end + 1
            } else {
                end
            },
            xs,
        ),
    decreases ts.len() - i,
{
    if token_at(ts, i, TokenKind::Comma) {
        assert(a(i + 1) == b(i + 1));
        if let Outcome::Done(k, x) = a(i + 1) {
            if let Outcome::Done(l, rest) = more_items(ts, a, k) {
                found_items(ts, from, a, b, k, l, rest);
                assert(xs == seq![x] + rest);
                assert(xs.drop_first() =~= rest);
            }
        }
    }
}

/// The items that are found between commas are there.
proof fn found_list<T>(
    ts: Seq<Token>,
    from: int,
    a: spec_fn(int) -> Outcome<T>,
    b: spec_fn(int) -> Outcome<T>,
    i: int,
    j: int,
    xs: Seq<T>,
)
    requires
        same_after(ts, from, a, b),
        from < i <= ts.len(),
        0 <= i,
        list1(ts, a, i) == Outcome::Done(j, xs),
    ensures
        i < j <= ts.len(),
        list_at(ts, b, i, j, xs),
{
    assert(a(i) == b(i));
    if let Outcome::Done(k, x) = a(i) {
        assert(list_after(ts, a, k, x) == Outcome::Done(j, xs));
        if let Outcome::Done(l, rest) = more_items(ts, a, k) {
            found_items(ts, from, a, b, k, l, rest);
            assert(xs == seq![x] + rest);
            assert(xs.drop_first() =~= rest);
        }
    }
}

/// The names that are found between commas are there.
pub(crate) proof fn found_names(ts: Seq<Token>, i: int, j: int, xs: Seq<LocalName>)
    requires
        0 <= i <= ts.len(),
        list1(ts, |i: int| local_name(ts, i), i) == Outcome::Done(j, xs),
    ensures
        i < j <= ts.len(),
        names_at(ts, i, j, xs),
{
    let name = |i: int| local_name(ts, i);
    assert forall|k: int| i - 1 < k <= ts.len() implies {
        &&& #[trigger] name(k) == local_name(ts, k)
        &&& name(k) matches Outcome::Done(m, _) ==> k < m <= ts.len()
    } by {}
    found_list(ts, i - 1, name, name, i, j, xs);
}

/// The branches that are found are there.
proof fn found_rows<T>(
    ts: Seq<Token>,
    from: int,
    a: spec_fn(int) -> Outcome<T>,
    b: spec_fn(int) -> Outcome<T>,
    before: Seq<(LocalName, T)>,
    i: int,
    j: int,
    after: Seq<(LocalName, T)>,
) -> (rows: Seq<(LocalName, T)>)
    requires
        same_after(ts, from, a, b),
        from < i <= ts.len(),
        0 <= i,
        branch_rows(ts, a, before, i) == Outcome::Done(j, after),
    ensures
        i <= j <= ts.len(),
        rows_at(ts, b, i, j, rows),
        after == collected(before, rows),
    decreases ts.len() - i,
{
    if token_at(ts, i, TokenKind::Dot) && token_at(ts, i + 1, TokenKind::LowercaseIdentifier) {
        assert(a(i + 2) == b(i + 2));
        let name = LocalName { span: ts[i + 1].span, string: ts[i + 1].raw };
        let value = a(i + 2)->Done_1;
        let k = a(i + 2)->Done_0;
        let next = if token_at(ts, k, TokenKind::Comma) {
            k + 1
        } else {
            k
        };
        assert(branch_row(ts, a, i) == Outcome::Done(next, (name, value)));
        let rest = found_rows(ts, from, a, b, inserted(before, name, value), next, j, after);
        let rows = seq![(name, value)] + rest;
        assert(rows.drop_first() =~= rest);
        rows
    } else {
        Seq::empty()
    }
}

/// The branches that are found in braces are there.
proof fn found_body<T>(
    ts: Seq<Token>,
    from: int,
    a: spec_fn(int) -> Outcome<T>,
    b: spec_fn(int) -> Outcome<T>,
    i: int,
    j: int,
    body: (Span, Seq<(LocalName, T)>),
) -> (rows: Seq<(LocalName, T)>)
    requires
        same_after(ts, from, a, b),
        0 <= from < i,
        branches_body(ts, a, i) == Outcome::Done(j, body),
    ensures
        i < j <= ts.len(),
        body_at(ts, b, i, j, rows),
        body == (ts[i].span.join(ts[j - 1].span), collected(Seq::empty(), rows)),
{
    found_rows(ts, from, a, b, Seq::empty(), i + 1, j - 1, body.1)
}

/// The items that are found between commas are there.
pub(crate) proof fn found_typs(ts: Seq<Token>, from: int, i: int, j: int, xs: Seq<Type>)
    requires
        0 <= from < i <= ts.len(),
        list1(ts, rules(ts, from).typ, i) == Outcome::Done(j, xs),
    ensures
        i < j <= ts.len(),
        typs_at(ts, i, j, xs),
{
    same_typs(ts, from);
    found_list(ts, from, rules(ts, from).typ, typ_rule(ts), i, j, xs);
}

/// The items that are found between commas are there.
pub(crate) proof fn found_patterns(ts: Seq<Token>, from: int, i: int, j: int, xs: Seq<Pattern>)
    requires
        0 <= from < i <= ts.len(),
        list1(ts, rules(ts, from).pattern, i) == Outcome::Done(j, xs),
    ensures
        i < j <= ts.len(),
        patterns_at(ts, i, j, xs),
{
    same_patterns(ts, from);
    found_list(ts, from, rules(ts, from).pattern, pattern_rule(ts), i, j, xs);
}

/// The items that are found between commas are there.
pub(crate) proof fn found_expressions(ts: Seq<Token>, from: int, i: int, j: int,
    xs: Seq<Expression>)
    requires
        0 <= from < i <= ts.len(),
        list1(ts, rules(ts, from).expression, i) == Outcome::Done(j, xs),
    ensures
        i < j <= ts.len(),
        expressions_at(ts, i, j, xs),
{
    same_expressions(ts, from);
    found_list(ts, from, rules(ts, from).expression, expression_rule(ts), i, j, xs);
}

/// The branches that are found in braces are there.
pub(crate) proof fn found_typ_body(
    ts: Seq<Token>,
    from: int,
    i: int,
    j: int,
    body: (Span, Seq<(LocalName, Type)>),
) -> (rows: Seq<(LocalName, Type)>)
    requires
        0 <= from < i,
        branches_body(ts, rules(ts, from).typ, i) == Outcome::Done(j, body),
    ensures
        i < j <= ts.len(),
        typ_body_at(ts, i, j, rows),
        body == (ts[i].span.join(ts[j - 1].span), collected(Seq::empty(), rows)),
{
    same_typs(ts, from);
    found_body(ts, from, rules(ts, from).typ, typ_rule(ts), i, j, body)
}

/// The branches that are found in braces are there.
pub(crate) proof fn found_typ_branch_body(
    ts: Seq<Token>,
    from: int,
    i: int,
    j: int,
    body: (Span, Seq<(LocalName, Type)>),
) -> (rows: Seq<(LocalName, Type)>)
    requires
        0 <= from < i,
        branches_body(ts, rules(ts, from).typ_branch, i) == Outcome::Done(j, body),
    ensures
        i < j <= ts.len(),
        typ_branch_body_at(ts, i, j, rows),
        body == (ts[i].span.join(ts[j - 1].span), collected(Seq::empty(), rows)),
{
    same_typ_branchs(ts, from);
    found_body(ts, from, rules(ts, from).typ_branch, typ_branch_rule(ts), i, j, body)
}

/// The branches that are found in braces are there.
pub(crate) proof fn found_cons_branch_body(
    ts: Seq<Token>,
    from: int,
    i: int,
    j: int,
    body: (Span, Seq<(LocalName, ConstructBranch)>),
) -> (rows: Seq<(LocalName, ConstructBranch)>)
    requires
        0 <= from < i,
        branches_body(ts, rules(ts, from).cons_branch, i) == Outcome::Done(j, body),
    ensures
        i < j <= ts.len(),
        cons_branch_body_at(ts, i, j, rows),
        body == (ts[i].span.join(ts[j - 1].span), collected(Seq::empty(), rows)),
{
    same_cons_branchs(ts, from);
    found_body(ts, from, rules(ts, from).cons_branch, cons_branch_rule(ts), i, j, body)
}

/// The branches that are found in braces are there.
pub(crate) proof fn found_apply_branch_body(
    ts: Seq<Token>,
    from: int,
    i: int,
    j: int,
    body: (Span, Seq<(LocalName, ApplyBranch)>),
) -> (rows: Seq<(LocalName, ApplyBranch)>)
    requires
        0 <= from < i,
        branches_body(ts, rules(ts, from).apply_branch, i) == Outcome::Done(j, body),
    ensures
        i < j <= ts.len(),
        apply_branch_body_at(ts, i, j, rows),
        body == (ts[i].span.join(ts[j - 1].span), collected(Seq::empty(), rows)),
{
    same_apply_branchs(ts, from);
    found_body(ts, from, rules(ts, from).apply_branch, apply_branch_rule(ts), i, j, body)
}

/// The branches that are found in braces are there.
pub(crate) proof fn found_cmd_branch_body(
    ts: Seq<Token>,
    from: int,
    i: int,
    j: int,
    body: (Span, Seq<(LocalName, CommandBranch)>),
) -> (rows: Seq<(LocalName, CommandBranch)>)
    requires
        0 <= from < i,
        branches_body(ts, rules(ts, from).cmd_branch, i) == Outcome::Done(j, body),
    ensures
        i < j <= ts.len(),
        cmd_branch_body_at(ts, i, j, rows),
        body == (ts[i].span.join(ts[j - 1].span), collected(Seq::empty(), rows)),
{
    same_cmd_branchs(ts, from);
    found_body(ts, from, rules(ts, from).cmd_branch, cmd_branch_rule(ts), i, j, body)
}

/// The rule of `typ` is its production at each place further on.
proof fn same_typs(ts: Seq<Token>, from: int)
    requires
        0 <= from,
    ensures
        same_after(ts, from, rules(ts, from).typ, typ_rule(ts)),
{
    broadcast use group_rules;

    let a = rules(ts, from).typ;
    let b = typ_rule(ts);
    assert forall|k: int| from < k <= ts.len() implies {
        &&& #[trigger] a(k) == b(k)
        &&& a(k) matches Outcome::Done(m, _) ==> k < m <= ts.len()
    } by {
        if let Outcome::Done(m, x) = b(k) {
            ahead_typ(ts, k, m, x);
        }
    }
}

/// The rule of `pattern` is its production at each place further on.
proof fn same_patterns(ts: Seq<Token>, from: int)
    requires
        0 <= from,
    ensures
        same_after(ts, from, rules(ts, from).pattern, pattern_rule(ts)),
{
    broadcast use group_rules;

    let a = rules(ts, from).pattern;
    let b = pattern_rule(ts);
    assert forall|k: int| from < k <= ts.len() implies {
        &&& #[trigger] a(k) == b(k)
        &&& a(k) matches Outcome::Done(m, _) ==> k < m <= ts.len()
    } by {
        if let Outcome::Done(m, x) = b(k) {
            ahead_pattern(ts, k, m, x);
        }
    }
}

/// The rule of `expression` is its production at each place further on.
proof fn same_expressions(ts: Seq<Token>, from: int)
    requires
        0 <= from,
    ensures
        same_after(ts, from, rules(ts, from).expression, expression_rule(ts)),
{
    broadcast use group_rules;

    let a = rules(ts, from).expression;
    let b = expression_rule(ts);
    assert forall|k: int| from < k <= ts.len() implies {
        &&& #[trigger] a(k) == b(k)
        &&& a(k) matches Outcome::Done(m, _) ==> k < m <= ts.len()
    } by {
        if let Outcome::Done(m, x) = b(k) {
            ahead_expression(ts, k, m, x);
        }
    }
}

/// The rule of `typ_branch` is its production at each place further on.
proof fn same_typ_branchs(ts: Seq<Token>, from: int)
    requires
        0 <= from,
    ensures
        same_after(ts, from, rules(ts, from).typ_branch, typ_branch_rule(ts)),
{
    broadcast use group_rules;

    let a = rules(ts, from).typ_branch;
    let b = typ_branch_rule(ts);
    assert forall|k: int| from < k <= ts.len() implies {
        &&& #[trigger] a(k) == b(k)
        &&& a(k) matches Outcome::Done(m, _) ==> k < m <= ts.len()
    } by {
        if let Outcome::Done(m, x) = b(k) {
            ahead_typ_branch(ts, k, m, x);
        }
    }
}

/// The rule of `cons_branch` is its production at each place further on.
proof fn same_cons_branchs(ts: Seq<Token>, from: int)
    requires
        0 <= from,
    ensures
        same_after(ts, from, rules(ts, from).cons_branch, cons_branch_rule(ts)),
{
    broadcast use group_rules;

    let a = rules(ts, from).cons_branch;
    let b = cons_branch_rule(ts);
    assert forall|k: int| from < k <= ts.len() implies {
        &&& #[trigger] a(k) == b(k)
        &&& a(k) matches Outcome::Done(m, _) ==> k < m <= ts.len()
    } by {
        if let Outcome::Done(m, x) = b(k) {
            ahead_cons_branch(ts, k, m, x);
        }
    }
}

/// The rule of `apply_branch` is its production at each place further on.
proof fn same_apply_branchs(ts: Seq<Token>, from: int)
    requires
        0 <= from,
    ensures
        same_after(ts, from, rules(ts, from).apply_branch, apply_branch_rule(ts)),
{
    broadcast use group_rules;

    let a = rules(ts, from).apply_branch;
    let b = apply_branch_rule(ts);
    assert forall|k: int| from < k <= ts.len() implies {
        &&& #[trigger] a(k) == b(k)
        &&& a(k) matches Outcome::Done(m, _) ==> k < m <= ts.len()
    } by {
        if let Outcome::Done(m, x) = b(k) {
            ahead_apply_branch(ts, k, m, x);
        }
    }
}

/// The rule of `cmd_branch` is its production at each place further on.
proof fn same_cmd_branchs(ts: Seq<Token>, from: int)
    requires
        0 <= from,
    ensures
        same_after(ts, from, rules(ts, from).cmd_branch, cmd_branch_rule(ts)),
{
    broadcast use group_rules;

    let a = rules(ts, from).cmd_branch;
    let b = cmd_branch_rule(ts);
    assert forall|k: int| from < k <= ts.len() implies {
        &&& #[trigger] a(k) == b(k)
        &&& a(k) matches Outcome::Done(m, _) ==> k < m <= ts.len()
    } by {
        if let Outcome::Done(m, x) = b(k) {
            ahead_cmd_branch(ts, k, m, x);
        }
    }
}

} // verus!
