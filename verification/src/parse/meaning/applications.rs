//! What applications come to.
use super::super::grammar::{branches_body, group_rules, label, list1, local_name, rules};
use super::super::grammar::applications::{
    apply, apply_begin, apply_branch, apply_branch_continue, apply_branch_default,
    apply_branch_receive, apply_branch_recv_type, apply_branch_then, apply_branch_try, apply_case,
    apply_default, apply_loop, apply_pipe, apply_send, apply_send_type, apply_signal, apply_try,
    apply_unfounded, branch_receive_step, branch_receive_type_step, send_step, send_type_step,
};
use super::super::grammar::expressions::{expression, operand};
use super::super::grammar::patterns::pattern;
use super::super::grammar::types::typ;
use super::{
    ahead_apply, ahead_apply_branch, ahead_expression, ahead_operand, apply_at, apply_branch_at,
    collected, expression_at, fails_at, fails_like, label_at, lacks, local_name_at, operand_at,
    or_label_span, or_noop_apply, token_at,
};
use super::expressions::not_word_type_expression;
use super::misses::{
    miss_apply, only_apply_begin, only_apply_branch_continue, only_apply_branch_default,
    only_apply_branch_receive, only_apply_branch_recv_type, only_apply_branch_then,
    only_apply_branch_try, only_apply_case, only_apply_default, only_apply_loop, only_apply_pipe,
    only_apply_send, only_apply_send_type, only_apply_signal, only_apply_try, only_apply_unfounded,
};
use super::parts::{
    apply_branch_body_at, expressions_at, found_apply_branch_body, found_expressions, found_label,
    found_names, found_patterns, found_typs, names_at, patterns_at, read_apply_branch_body,
    read_expressions, read_label, read_local_name, read_names, read_patterns, read_typs, typs_at,
};
use super::patterns::not_word_type_pattern;
use crate::model::{Apply, ApplyBranch, Expression, LocalName, Pattern, Span, Token, Type};
use crate::token::TokenKind;
use vstd::prelude::*;

verus! {

/// `.begin@l a` begins a loop with the label `l` and goes on with `a`.
pub proof fn begin(
    ts: Seq<Token>,
    i: int,
    l: Option<LocalName>,
    l_end: int,
    a: Option<Apply>,
    a_end: int,
)
    requires
        token_at(ts, i, TokenKind::Dot),
        token_at(ts, i + 1, TokenKind::Begin),
        label_at(ts, i + 2, l_end, l),
        apply_at(ts, l_end, a_end, a),
    ensures
        apply_at(
            ts,
            i,
            a_end,
            Some(
                Apply::Begin {
                    span: ts[i].span.join(or_noop_apply(a, or_label_span(l, ts[i].span)).span()),
                    unfounded: false,
                    label: l,
                    then: Box::new(or_noop_apply(a, or_label_span(l, ts[i].span))),
                },
            ),
        ),
{
    broadcast use group_rules;

    read_label(ts, i + 2, l_end, l);
    ahead_apply(ts, l_end, a_end, a);
    reveal(apply_begin);
    only_apply_begin(ts, i);
}

/// What starts like `.begin@l a` is that, with all of its parts.
pub proof fn begin_parts(
    ts: Seq<Token>,
    i: int,
    j: int,
    whole: Option<Apply>,
) -> (parts: (Option<LocalName>, int, Option<Apply>, int))
    requires
        apply_at(ts, i, j, whole),
        token_at(ts, i, TokenKind::Dot),
        token_at(ts, i + 1, TokenKind::Begin),
        whole is Some,
    ensures
        ({
            let (l, l_end, a, a_end) = parts;
            &&& token_at(ts, i, TokenKind::Dot)
            &&& token_at(ts, i + 1, TokenKind::Begin)
            &&& label_at(ts, i + 2, l_end, l)
            &&& apply_at(ts, l_end, a_end, a)
            &&& j == a_end
            &&& whole == (Some(
                Apply::Begin {
                    span: ts[i].span.join(or_noop_apply(a, or_label_span(l, ts[i].span)).span()),
                    unfounded: false,
                    label: l,
                    then: Box::new(or_noop_apply(a, or_label_span(l, ts[i].span))),
                },
            ))
        }),
{
    broadcast use group_rules;

    only_apply_begin(ts, i);
    reveal(apply_begin);
    let l_found = label(ts, i + 2);
    let l_end = l_found->Done_0;
    let l = l_found->Done_1;
    found_label(ts, i + 2, l_end, l);
    let a_found = apply(ts, rules(ts, l_end), l_end);
    let a_end = a_found->Done_0;
    let a = a_found->Done_1;
    ahead_apply(ts, l_end, a_end, a);
    (l, l_end, a, a_end)
}

/// What starts like `.begin@l a` and lacks a part fails for good where that is missing.
pub proof fn begin_fails(ts: Seq<Token>, i: int, l: Option<LocalName>, l_end: int)
    requires
        token_at(ts, i, TokenKind::Dot),
        token_at(ts, i + 1, TokenKind::Begin),
    ensures
        label_at(ts, i + 2, l_end, l)
            ==> fails_like(apply(ts, rules(ts, i), i), apply(ts, rules(ts, l_end), l_end)),
{
    broadcast use group_rules;

    only_apply_begin(ts, i);
    reveal(apply_begin);
    if label_at(ts, i + 2, l_end, l) {
        read_label(ts, i + 2, l_end, l);
    }
}

/// `.unfounded@l a` begins a loop that need not end, with the label `l`, and goes on with `a`.
pub proof fn unfounded(
    ts: Seq<Token>,
    i: int,
    l: Option<LocalName>,
    l_end: int,
    a: Option<Apply>,
    a_end: int,
)
    requires
        token_at(ts, i, TokenKind::Dot),
        token_at(ts, i + 1, TokenKind::Unfounded),
        label_at(ts, i + 2, l_end, l),
        apply_at(ts, l_end, a_end, a),
    ensures
        apply_at(
            ts,
            i,
            a_end,
            Some(
                Apply::Begin {
                    span: ts[i].span.join(or_noop_apply(a, or_label_span(l, ts[i].span)).span()),
                    unfounded: true,
                    label: l,
                    then: Box::new(or_noop_apply(a, or_label_span(l, ts[i].span))),
                },
            ),
        ),
{
    broadcast use group_rules;

    read_label(ts, i + 2, l_end, l);
    ahead_apply(ts, l_end, a_end, a);
    reveal(apply_unfounded);
    only_apply_unfounded(ts, i);
}

/// What starts like `.unfounded@l a` is that, with all of its parts.
pub proof fn unfounded_parts(
    ts: Seq<Token>,
    i: int,
    j: int,
    whole: Option<Apply>,
) -> (parts: (Option<LocalName>, int, Option<Apply>, int))
    requires
        apply_at(ts, i, j, whole),
        token_at(ts, i, TokenKind::Dot),
        token_at(ts, i + 1, TokenKind::Unfounded),
        whole is Some,
    ensures
        ({
            let (l, l_end, a, a_end) = parts;
            &&& token_at(ts, i, TokenKind::Dot)
            &&& token_at(ts, i + 1, TokenKind::Unfounded)
            &&& label_at(ts, i + 2, l_end, l)
            &&& apply_at(ts, l_end, a_end, a)
            &&& j == a_end
            &&& whole == (Some(
                Apply::Begin {
                    span: ts[i].span.join(or_noop_apply(a, or_label_span(l, ts[i].span)).span()),
                    unfounded: true,
                    label: l,
                    then: Box::new(or_noop_apply(a, or_label_span(l, ts[i].span))),
                },
            ))
        }),
{
    broadcast use group_rules;

    only_apply_unfounded(ts, i);
    reveal(apply_unfounded);
    let l_found = label(ts, i + 2);
    let l_end = l_found->Done_0;
    let l = l_found->Done_1;
    found_label(ts, i + 2, l_end, l);
    let a_found = apply(ts, rules(ts, l_end), l_end);
    let a_end = a_found->Done_0;
    let a = a_found->Done_1;
    ahead_apply(ts, l_end, a_end, a);
    (l, l_end, a, a_end)
}

/// What starts like `.unfounded@l a` and lacks a part fails for good where that is missing.
pub proof fn unfounded_fails(ts: Seq<Token>, i: int, l: Option<LocalName>, l_end: int)
    requires
        token_at(ts, i, TokenKind::Dot),
        token_at(ts, i + 1, TokenKind::Unfounded),
    ensures
        label_at(ts, i + 2, l_end, l)
            ==> fails_like(apply(ts, rules(ts, i), i), apply(ts, rules(ts, l_end), l_end)),
{
    broadcast use group_rules;

    only_apply_unfounded(ts, i);
    reveal(apply_unfounded);
    if label_at(ts, i + 2, l_end, l) {
        read_label(ts, i + 2, l_end, l);
    }
}

/// `.loop@l` goes back to where the label `l` is.
pub proof fn looped(ts: Seq<Token>, i: int, l: Option<LocalName>, l_end: int)
    requires
        token_at(ts, i, TokenKind::Dot),
        token_at(ts, i + 1, TokenKind::Loop),
        label_at(ts, i + 2, l_end, l),
    ensures
        apply_at(
            ts,
            i,
            l_end,
            Some(Apply::Loop(ts[i].span.join(or_label_span(l, ts[i + 1].span)), l)),
        ),
{
    broadcast use group_rules;

    read_label(ts, i + 2, l_end, l);
    reveal(apply_loop);
    only_apply_loop(ts, i);
}

/// What starts like `.loop@l` is that, with all of its parts.
pub proof fn looped_parts(
    ts: Seq<Token>,
    i: int,
    j: int,
    whole: Option<Apply>,
) -> (parts: (Option<LocalName>, int))
    requires
        apply_at(ts, i, j, whole),
        token_at(ts, i, TokenKind::Dot),
        token_at(ts, i + 1, TokenKind::Loop),
        whole is Some,
    ensures
        ({
            let (l, l_end) = parts;
            &&& token_at(ts, i, TokenKind::Dot)
            &&& token_at(ts, i + 1, TokenKind::Loop)
            &&& label_at(ts, i + 2, l_end, l)
            &&& j == l_end
            &&& whole == (Some(Apply::Loop(ts[i].span.join(or_label_span(l, ts[i + 1].span)), l)))
        }),
{
    broadcast use group_rules;

    only_apply_loop(ts, i);
    reveal(apply_loop);
    let l_found = label(ts, i + 2);
    let l_end = l_found->Done_0;
    let l = l_found->Done_1;
    found_label(ts, i + 2, l_end, l);
    (l, l_end)
}

/// `.x a` signals `x` and goes on with `a`.
pub proof fn signal(ts: Seq<Token>, i: int, n: LocalName, a: Option<Apply>, a_end: int)
    requires
        token_at(ts, i, TokenKind::Dot),
        local_name_at(ts, i + 1, n),
        apply_at(ts, i + 2, a_end, a),
    ensures
        apply_at(
            ts,
            i,
            a_end,
            Some(
                Apply::Signal(
                    ts[i].span.join(or_noop_apply(a, n.span).span()),
                    n,
                    Box::new(or_noop_apply(a, n.span)),
                ),
            ),
        ),
{
    broadcast use group_rules;

    read_local_name(ts, i + 1, n);
    ahead_apply(ts, i + 2, a_end, a);
    reveal(apply_signal);
    only_apply_signal(ts, i);
}

/// What starts like `.x a` is that, with all of its parts.
pub proof fn signal_parts(
    ts: Seq<Token>,
    i: int,
    j: int,
    whole: Option<Apply>,
) -> (parts: (LocalName, Option<Apply>, int))
    requires
        apply_at(ts, i, j, whole),
        token_at(ts, i, TokenKind::Dot),
        token_at(ts, i + 1, TokenKind::LowercaseIdentifier),
        whole is Some,
    ensures
        ({
            let (n, a, a_end) = parts;
            &&& token_at(ts, i, TokenKind::Dot)
            &&& local_name_at(ts, i + 1, n)
            &&& apply_at(ts, i + 2, a_end, a)
            &&& j == a_end
            &&& whole == (Some(
                Apply::Signal(
                    ts[i].span.join(or_noop_apply(a, n.span).span()),
                    n,
                    Box::new(or_noop_apply(a, n.span)),
                ),
            ))
        }),
{
    broadcast use group_rules;

    only_apply_signal(ts, i);
    reveal(apply_signal);
    let n = LocalName { span: ts[i + 1].span, string: ts[i + 1].raw };
    let a_found = apply(ts, rules(ts, i + 2), i + 2);
    let a_end = a_found->Done_0;
    let a = a_found->Done_1;
    ahead_apply(ts, i + 2, a_end, a);
    (n, a, a_end)
}

/// `.case { .x y => e }` has these branches, by name.
pub proof fn case(ts: Seq<Token>, i: int, rows: Seq<(LocalName, ApplyBranch)>, rows_end: int)
    requires
        token_at(ts, i, TokenKind::Dot),
        token_at(ts, i + 1, TokenKind::Case),
        apply_branch_body_at(ts, i + 2, rows_end, rows),
    ensures
        apply_at(
            ts,
            i,
            rows_end,
            Some(Apply::Case(ts[i].span.join(ts[i + 2].span.join(ts[rows_end - 1].span)),
                collected(Seq::empty(), rows))),
        ),
{
    broadcast use group_rules;

    read_apply_branch_body(ts, i, i + 2, rows_end, rows);
    reveal(apply_case);
    only_apply_case(ts, i);
}

/// What starts like `.case { .x y => e }` is that, with all of its parts.
pub proof fn case_parts(
    ts: Seq<Token>,
    i: int,
    j: int,
    whole: Option<Apply>,
) -> (parts: (Seq<(LocalName, ApplyBranch)>, int))
    requires
        apply_at(ts, i, j, whole),
        token_at(ts, i, TokenKind::Dot),
        token_at(ts, i + 1, TokenKind::Case),
        whole is Some,
    ensures
        ({
            let (rows, rows_end) = parts;
            &&& token_at(ts, i, TokenKind::Dot)
            &&& token_at(ts, i + 1, TokenKind::Case)
            &&& apply_branch_body_at(ts, i + 2, rows_end, rows)
            &&& j == rows_end
            &&& whole == (Some(Apply::Case(ts[i].span.join(ts[i + 2].span.join(
                ts[rows_end - 1].span)), collected(Seq::empty(), rows))))
        }),
{
    broadcast use group_rules;

    let r = rules(ts, i);
    only_apply_case(ts, i);
    reveal(apply_case);
    let rows_found = branches_body(ts, r.apply_branch, i + 2);
    let rows_end = rows_found->Done_0;
    let rows = found_apply_branch_body(ts, i, i + 2, rows_end, rows_found->Done_1);
    (rows, rows_end)
}

/// What starts like `.case { .x y => e }` and lacks a part fails for good where that is missing.
pub proof fn case_fails(ts: Seq<Token>, i: int)
    requires
        token_at(ts, i, TokenKind::Dot),
        token_at(ts, i + 1, TokenKind::Case),
    ensures
        !token_at(ts, i + 2, TokenKind::LCurly)
            ==> lacks(ts, apply(ts, rules(ts, i), i), i + 2, TokenKind::LCurly),
{
    broadcast use group_rules;

    only_apply_case(ts, i);
    reveal(apply_case);
}

/// The application that sends the first of `xs`, then the second one and so on, then is `rest`.
pub open spec fn sends(span: Span, xs: Seq<Expression>, rest: Apply) -> Apply
    decreases xs.len(),
{
    if xs.len() == 0 {
        rest
    } else {
        Apply::Send(span, Box::new(xs[0]), Box::new(sends(span, xs.drop_first(), rest)))
    }
}

/// One after the other, from the last one on.
pub(crate) proof fn fold_sends(span: Span, xs: Seq<Expression>, rest: Apply)
    ensures
        xs.fold_right(send_step(span), rest) == sends(span, xs, rest),
    decreases xs.len(),
{
    xs.lemma_fold_right_alt(send_step(span), rest);
    if xs.len() > 0 {
        let others = xs.drop_first();
        others.lemma_fold_right_alt(send_step(span), rest);
        fold_sends(span, others, rest);
        assert(xs.subrange(1, xs.len() as int) =~= others);
    }
}

/// `(e, f) a` sends `e`, then `f`, and goes on with `a`.
pub proof fn send(
    ts: Seq<Token>,
    i: int,
    args: Seq<Expression>,
    args_end: int,
    a: Option<Apply>,
    a_end: int,
)
    requires
        token_at(ts, i, TokenKind::LParen),
        expressions_at(ts, i + 1, args_end, args),
        token_at(ts, args_end, TokenKind::RParen),
        apply_at(ts, args_end + 1, a_end, a),
    ensures
        apply_at(
            ts,
            i,
            a_end,
            Some(
                sends(
                    ts[i].span.join(or_noop_apply(a, ts[args_end].span).span()),
                    args,
                    or_noop_apply(a, ts[args_end].span),
                ),
            ),
        ),
{
    broadcast use group_rules;

    read_expressions(ts, i, i + 1, args_end, args);
    ahead_apply(ts, args_end + 1, a_end, a);
    let rest = or_noop_apply(a, ts[args_end].span);
    fold_sends(ts[i].span.join(rest.span()), args, rest);
    not_word_type_expression(ts, i + 1, args[0]);
    reveal(apply_send);
    only_apply_send(ts, i);
}

/// What starts like `(e, f) a` is that, with all of its parts.
pub proof fn send_parts(
    ts: Seq<Token>,
    i: int,
    j: int,
    whole: Option<Apply>,
) -> (parts: (Seq<Expression>, int, Option<Apply>, int))
    requires
        apply_at(ts, i, j, whole),
        token_at(ts, i, TokenKind::LParen),
        !token_at(ts, i + 1, TokenKind::Type),
        whole is Some,
    ensures
        ({
            let (args, args_end, a, a_end) = parts;
            &&& token_at(ts, i, TokenKind::LParen)
            &&& expressions_at(ts, i + 1, args_end, args)
            &&& token_at(ts, args_end, TokenKind::RParen)
            &&& apply_at(ts, args_end + 1, a_end, a)
            &&& j == a_end
            &&& whole == (Some(
                sends(
                    ts[i].span.join(or_noop_apply(a, ts[args_end].span).span()),
                    args,
                    or_noop_apply(a, ts[args_end].span),
                ),
            ))
        }),
{
    broadcast use group_rules;

    let r = rules(ts, i);
    only_apply_send(ts, i);
    reveal(apply_send);
    let args_found = list1(ts, r.expression, i + 1);
    let args_end = args_found->Done_0;
    let args = args_found->Done_1;
    found_expressions(ts, i, i + 1, args_end, args);
    let a_found = apply(ts, rules(ts, args_end + 1), args_end + 1);
    let a_end = a_found->Done_0;
    let a = a_found->Done_1;
    ahead_apply(ts, args_end + 1, a_end, a);
    let rest = or_noop_apply(a, ts[args_end].span);
    fold_sends(ts[i].span.join(rest.span()), args, rest);
    (args, args_end, a, a_end)
}

/// What starts like `(e, f) a` and lacks a part fails for good where that is missing.
pub proof fn send_fails(ts: Seq<Token>, i: int, args: Seq<Expression>, args_end: int)
    requires
        token_at(ts, i, TokenKind::LParen),
        !token_at(ts, i + 1, TokenKind::Type),
    ensures
        fails_like(apply(ts, rules(ts, i), i), expression(ts, rules(ts, i + 1), i + 1)),
        expressions_at(ts, i + 1, args_end, args) && !token_at(ts, args_end, TokenKind::RParen)
            ==> lacks(ts, apply(ts, rules(ts, i), i), args_end, TokenKind::RParen),
        expressions_at(ts, i + 1, args_end, args) && token_at(ts, args_end, TokenKind::RParen)
            ==> fails_like(apply(ts, rules(ts, i), i), apply(ts, rules(ts, args_end + 1),
            args_end + 1)),
{
    broadcast use group_rules;

    only_apply_send(ts, i);
    reveal(apply_send);
    if expressions_at(ts, i + 1, args_end, args) {
        read_expressions(ts, i, i + 1, args_end, args);
    }
}

/// The application that sends the first of the types `xs`, then the second one and so on, then is
/// `rest`.
pub open spec fn sends_types(span: Span, xs: Seq<Type>, rest: Apply) -> Apply
    decreases xs.len(),
{
    if xs.len() == 0 {
        rest
    } else {
        Apply::SendType(span, xs[0], Box::new(sends_types(span, xs.drop_first(), rest)))
    }
}

/// One after the other, from the last one on.
pub(crate) proof fn fold_sends_types(span: Span, xs: Seq<Type>, rest: Apply)
    ensures
        xs.fold_right(send_type_step(span), rest) == sends_types(span, xs, rest),
    decreases xs.len(),
{
    xs.lemma_fold_right_alt(send_type_step(span), rest);
    if xs.len() > 0 {
        let others = xs.drop_first();
        others.lemma_fold_right_alt(send_type_step(span), rest);
        fold_sends_types(span, others, rest);
        assert(xs.subrange(1, xs.len() as int) =~= others);
    }
}

/// `(type a, b) f` sends the types `a` and `b` and goes on with `f`.
pub proof fn send_type(
    ts: Seq<Token>,
    i: int,
    args: Seq<Type>,
    args_end: int,
    a: Option<Apply>,
    a_end: int,
)
    requires
        token_at(ts, i, TokenKind::LParen),
        token_at(ts, i + 1, TokenKind::Type),
        typs_at(ts, i + 2, args_end, args),
        token_at(ts, args_end, TokenKind::RParen),
        apply_at(ts, args_end + 1, a_end, a),
    ensures
        apply_at(
            ts,
            i,
            a_end,
            Some(
                sends_types(
                    ts[i].span.join(or_noop_apply(a, ts[args_end].span).span()),
                    args,
                    or_noop_apply(a, ts[args_end].span),
                ),
            ),
        ),
{
    broadcast use group_rules;

    read_typs(ts, i, i + 2, args_end, args);
    ahead_apply(ts, args_end + 1, a_end, a);
    let rest = or_noop_apply(a, ts[args_end].span);
    fold_sends_types(ts[i].span.join(rest.span()), args, rest);
    reveal(apply_send_type);
    only_apply_send_type(ts, i);
}

/// What starts like `(type a, b) f` is that, with all of its parts.
pub proof fn send_type_parts(
    ts: Seq<Token>,
    i: int,
    j: int,
    whole: Option<Apply>,
) -> (parts: (Seq<Type>, int, Option<Apply>, int))
    requires
        apply_at(ts, i, j, whole),
        token_at(ts, i, TokenKind::LParen),
        token_at(ts, i + 1, TokenKind::Type),
        whole is Some,
    ensures
        ({
            let (args, args_end, a, a_end) = parts;
            &&& token_at(ts, i, TokenKind::LParen)
            &&& token_at(ts, i + 1, TokenKind::Type)
            &&& typs_at(ts, i + 2, args_end, args)
            &&& token_at(ts, args_end, TokenKind::RParen)
            &&& apply_at(ts, args_end + 1, a_end, a)
            &&& j == a_end
            &&& whole == (Some(
                sends_types(
                    ts[i].span.join(or_noop_apply(a, ts[args_end].span).span()),
                    args,
                    or_noop_apply(a, ts[args_end].span),
                ),
            ))
        }),
{
    broadcast use group_rules;

    let r = rules(ts, i);
    only_apply_send_type(ts, i);
    reveal(apply_send_type);
    let args_found = list1(ts, r.typ, i + 2);
    let args_end = args_found->Done_0;
    let args = args_found->Done_1;
    found_typs(ts, i, i + 2, args_end, args);
    let a_found = apply(ts, rules(ts, args_end + 1), args_end + 1);
    let a_end = a_found->Done_0;
    let a = a_found->Done_1;
    ahead_apply(ts, args_end + 1, a_end, a);
    let rest = or_noop_apply(a, ts[args_end].span);
    fold_sends_types(ts[i].span.join(rest.span()), args, rest);
    (args, args_end, a, a_end)
}

/// What starts like `(type a, b) f` and lacks a part fails for good where that is missing.
pub proof fn send_type_fails(ts: Seq<Token>, i: int, args: Seq<Type>, args_end: int)
    requires
        token_at(ts, i, TokenKind::LParen),
        token_at(ts, i + 1, TokenKind::Type),
    ensures
        fails_like(apply(ts, rules(ts, i), i), typ(ts, rules(ts, i + 2), i + 2)),
        typs_at(ts, i + 2, args_end, args) && !token_at(ts, args_end, TokenKind::RParen)
            ==> lacks(ts, apply(ts, rules(ts, i), i), args_end, TokenKind::RParen),
        typs_at(ts, i + 2, args_end, args) && token_at(ts, args_end, TokenKind::RParen)
            ==> fails_like(apply(ts, rules(ts, i), i), apply(ts, rules(ts, args_end + 1),
            args_end + 1)),
{
    broadcast use group_rules;

    only_apply_send_type(ts, i);
    reveal(apply_send_type);
    if typs_at(ts, i + 2, args_end, args) {
        read_typs(ts, i, i + 2, args_end, args);
    }
}

/// `.default(e) a` has the default `e` and goes on with `a`.
pub proof fn default(
    ts: Seq<Token>,
    i: int,
    e: Expression,
    e_end: int,
    a: Option<Apply>,
    a_end: int,
)
    requires
        token_at(ts, i, TokenKind::Dot),
        token_at(ts, i + 1, TokenKind::Default),
        token_at(ts, i + 2, TokenKind::LParen),
        expression_at(ts, i + 3, e_end, e),
        token_at(ts, e_end, TokenKind::RParen),
        apply_at(ts, e_end + 1, a_end, a),
    ensures
        apply_at(
            ts,
            i,
            a_end,
            Some(
                Apply::Default(
                    ts[i + 1].span.join(or_noop_apply(a, ts[e_end].span).span()),
                    Box::new(e),
                    Box::new(or_noop_apply(a, ts[e_end].span)),
                ),
            ),
        ),
{
    broadcast use group_rules;

    ahead_expression(ts, i + 3, e_end, e);
    ahead_apply(ts, e_end + 1, a_end, a);
    reveal(apply_default);
    only_apply_default(ts, i);
}

/// What starts like `.default(e) a` is that, with all of its parts.
pub proof fn default_parts(
    ts: Seq<Token>,
    i: int,
    j: int,
    whole: Option<Apply>,
) -> (parts: (Expression, int, Option<Apply>, int))
    requires
        apply_at(ts, i, j, whole),
        token_at(ts, i, TokenKind::Dot),
        token_at(ts, i + 1, TokenKind::Default),
        whole is Some,
    ensures
        ({
            let (e, e_end, a, a_end) = parts;
            &&& token_at(ts, i, TokenKind::Dot)
            &&& token_at(ts, i + 1, TokenKind::Default)
            &&& token_at(ts, i + 2, TokenKind::LParen)
            &&& expression_at(ts, i + 3, e_end, e)
            &&& token_at(ts, e_end, TokenKind::RParen)
            &&& apply_at(ts, e_end + 1, a_end, a)
            &&& j == a_end
            &&& whole == (Some(
                Apply::Default(
                    ts[i + 1].span.join(or_noop_apply(a, ts[e_end].span).span()),
                    Box::new(e),
                    Box::new(or_noop_apply(a, ts[e_end].span)),
                ),
            ))
        }),
{
    broadcast use group_rules;

    only_apply_default(ts, i);
    reveal(apply_default);
    let e_found = expression(ts, rules(ts, i + 3), i + 3);
    let e_end = e_found->Done_0;
    let e = e_found->Done_1;
    ahead_expression(ts, i + 3, e_end, e);
    let a_found = apply(ts, rules(ts, e_end + 1), e_end + 1);
    let a_end = a_found->Done_0;
    let a = a_found->Done_1;
    ahead_apply(ts, e_end + 1, a_end, a);
    (e, e_end, a, a_end)
}

/// What starts like `.default(e) a` and lacks a part fails for good where that is missing.
pub proof fn default_fails(ts: Seq<Token>, i: int, e: Expression, e_end: int)
    requires
        token_at(ts, i, TokenKind::Dot),
        token_at(ts, i + 1, TokenKind::Default),
    ensures
        !token_at(ts, i + 2, TokenKind::LParen)
            ==> lacks(ts, apply(ts, rules(ts, i), i), i + 2, TokenKind::LParen),
        token_at(ts, i + 2, TokenKind::LParen)
            ==> fails_like(apply(ts, rules(ts, i), i), expression(ts, rules(ts, i + 3), i + 3)),
        token_at(ts, i + 2, TokenKind::LParen) && expression_at(ts, i + 3, e_end, e)
            && !token_at(ts, e_end, TokenKind::RParen)
            ==> lacks(ts, apply(ts, rules(ts, i), i), e_end, TokenKind::RParen),
        token_at(ts, i + 2, TokenKind::LParen) && expression_at(ts, i + 3, e_end, e)
            && token_at(ts, e_end, TokenKind::RParen)
            ==> fails_like(apply(ts, rules(ts, i), i), apply(ts, rules(ts, e_end + 1), e_end + 1)),
{
    broadcast use group_rules;

    only_apply_default(ts, i);
    reveal(apply_default);
    if expression_at(ts, i + 3, e_end, e) {
        ahead_expression(ts, i + 3, e_end, e);
    }
}

/// `.try@l a` tries, with the label `l`, and goes on with `a`.
pub proof fn tried(
    ts: Seq<Token>,
    i: int,
    l: Option<LocalName>,
    l_end: int,
    a: Option<Apply>,
    a_end: int,
)
    requires
        token_at(ts, i, TokenKind::Dot),
        token_at(ts, i + 1, TokenKind::Try),
        label_at(ts, i + 2, l_end, l),
        apply_at(ts, l_end, a_end, a),
    ensures
        apply_at(
            ts,
            i,
            a_end,
            Some(
                Apply::Try(ts[i + 1].span.join(ts[i + 1].span), l, Box::new(or_noop_apply(a,
                    ts[i + 1].span))),
            ),
        ),
{
    broadcast use group_rules;

    read_label(ts, i + 2, l_end, l);
    ahead_apply(ts, l_end, a_end, a);
    reveal(apply_try);
    only_apply_try(ts, i);
}

/// What starts like `.try@l a` is that, with all of its parts.
pub proof fn tried_parts(
    ts: Seq<Token>,
    i: int,
    j: int,
    whole: Option<Apply>,
) -> (parts: (Option<LocalName>, int, Option<Apply>, int))
    requires
        apply_at(ts, i, j, whole),
        token_at(ts, i, TokenKind::Dot),
        token_at(ts, i + 1, TokenKind::Try),
        whole is Some,
    ensures
        ({
            let (l, l_end, a, a_end) = parts;
            &&& token_at(ts, i, TokenKind::Dot)
            &&& token_at(ts, i + 1, TokenKind::Try)
            &&& label_at(ts, i + 2, l_end, l)
            &&& apply_at(ts, l_end, a_end, a)
            &&& j == a_end
            &&& whole == (Some(
                Apply::Try(ts[i + 1].span.join(ts[i + 1].span), l, Box::new(or_noop_apply(a,
                    ts[i + 1].span))),
            ))
        }),
{
    broadcast use group_rules;

    only_apply_try(ts, i);
    reveal(apply_try);
    let l_found = label(ts, i + 2);
    let l_end = l_found->Done_0;
    let l = l_found->Done_1;
    found_label(ts, i + 2, l_end, l);
    let a_found = apply(ts, rules(ts, l_end), l_end);
    let a_end = a_found->Done_0;
    let a = a_found->Done_1;
    ahead_apply(ts, l_end, a_end, a);
    (l, l_end, a, a_end)
}

/// What starts like `.try@l a` and lacks a part fails for good where that is missing.
pub proof fn tried_fails(ts: Seq<Token>, i: int, l: Option<LocalName>, l_end: int)
    requires
        token_at(ts, i, TokenKind::Dot),
        token_at(ts, i + 1, TokenKind::Try),
    ensures
        label_at(ts, i + 2, l_end, l)
            ==> fails_like(apply(ts, rules(ts, i), i), apply(ts, rules(ts, l_end), l_end)),
{
    broadcast use group_rules;

    only_apply_try(ts, i);
    reveal(apply_try);
    if label_at(ts, i + 2, l_end, l) {
        read_label(ts, i + 2, l_end, l);
    }
}

/// `->f a` hands over to `f` and goes on with `a`.
pub proof fn pipe(ts: Seq<Token>, i: int, f: Expression, f_end: int, a: Option<Apply>, a_end: int)
    requires
        token_at(ts, i, TokenKind::ThinArrow),
        operand_at(ts, i + 1, f_end, f),
        apply_at(ts, f_end, a_end, a),
    ensures
        apply_at(
            ts,
            i,
            a_end,
            Some(
                Apply::Pipe(
                    ts[i].span.join(f.span()),
                    Box::new(f),
                    Box::new(or_noop_apply(a, f.span())),
                ),
            ),
        ),
{
    broadcast use group_rules;

    ahead_operand(ts, i + 1, f_end, f);
    ahead_apply(ts, f_end, a_end, a);
    reveal(apply_pipe);
    only_apply_pipe(ts, i);
}

/// What starts like `->f a` is that, with all of its parts.
pub proof fn pipe_parts(
    ts: Seq<Token>,
    i: int,
    j: int,
    whole: Option<Apply>,
) -> (parts: (Expression, int, Option<Apply>, int))
    requires
        apply_at(ts, i, j, whole),
        token_at(ts, i, TokenKind::ThinArrow),
        whole is Some,
    ensures
        ({
            let (f, f_end, a, a_end) = parts;
            &&& token_at(ts, i, TokenKind::ThinArrow)
            &&& operand_at(ts, i + 1, f_end, f)
            &&& apply_at(ts, f_end, a_end, a)
            &&& j == a_end
            &&& whole == (Some(
                Apply::Pipe(
                    ts[i].span.join(f.span()),
                    Box::new(f),
                    Box::new(or_noop_apply(a, f.span())),
                ),
            ))
        }),
{
    broadcast use group_rules;

    only_apply_pipe(ts, i);
    reveal(apply_pipe);
    let f_found = operand(ts, rules(ts, i + 1), i + 1);
    let f_end = f_found->Done_0;
    let f = f_found->Done_1;
    ahead_operand(ts, i + 1, f_end, f);
    let a_found = apply(ts, rules(ts, f_end), f_end);
    let a_end = a_found->Done_0;
    let a = a_found->Done_1;
    ahead_apply(ts, f_end, a_end, a);
    (f, f_end, a, a_end)
}

/// What starts like `->f a` and lacks a part fails for good where that is missing.
pub proof fn pipe_fails(ts: Seq<Token>, i: int, f: Expression, f_end: int)
    requires
        token_at(ts, i, TokenKind::ThinArrow),
    ensures
        fails_like(apply(ts, rules(ts, i), i), operand(ts, rules(ts, i + 1), i + 1)),
        operand_at(ts, i + 1, f_end, f)
            ==> fails_like(apply(ts, rules(ts, i), i), apply(ts, rules(ts, f_end), f_end)),
{
    broadcast use group_rules;

    only_apply_pipe(ts, i);
    reveal(apply_pipe);
    if operand_at(ts, i + 1, f_end, f) {
        ahead_operand(ts, i + 1, f_end, f);
    }
}

/// Nothing is applied where no application starts.
pub proof fn nothing_applied(ts: Seq<Token>, i: int)
    requires
        0 <= i <= ts.len(),
        !token_at(ts, i, TokenKind::Dot),
        !token_at(ts, i, TokenKind::LParen),
        !token_at(ts, i, TokenKind::ThinArrow),
    ensures
        apply_at(ts, i, i, None),
{
    miss_apply(ts, rules(ts, i), i);
}

/// A branch `x => e` is `e`, with what is left as `x`.
pub proof fn branch(ts: Seq<Token>, i: int, n: LocalName, e: Expression, e_end: int)
    requires
        local_name_at(ts, i, n),
        token_at(ts, i + 1, TokenKind::FatArrow),
        expression_at(ts, i + 2, e_end, e),
    ensures
        apply_branch_at(
            ts,
            i,
            e_end,
            ApplyBranch::Then(n.span.join(e.span()), n, e),
        ),
{
    broadcast use group_rules;

    read_local_name(ts, i, n);
    ahead_expression(ts, i + 2, e_end, e);
    reveal(apply_branch_then);
    only_apply_branch_then(ts, i);
}

/// What starts like `x => e` is that, with all of its parts.
pub proof fn branch_parts(
    ts: Seq<Token>,
    i: int,
    j: int,
    whole: ApplyBranch,
) -> (parts: (LocalName, Expression, int))
    requires
        apply_branch_at(ts, i, j, whole),
        token_at(ts, i, TokenKind::LowercaseIdentifier),
    ensures
        ({
            let (n, e, e_end) = parts;
            &&& local_name_at(ts, i, n)
            &&& token_at(ts, i + 1, TokenKind::FatArrow)
            &&& expression_at(ts, i + 2, e_end, e)
            &&& j == e_end
            &&& whole == (ApplyBranch::Then(n.span.join(e.span()), n, e))
        }),
{
    broadcast use group_rules;

    only_apply_branch_then(ts, i);
    reveal(apply_branch_then);
    let n = LocalName { span: ts[i].span, string: ts[i].raw };
    let e_found = expression(ts, rules(ts, i + 2), i + 2);
    let e_end = e_found->Done_0;
    let e = e_found->Done_1;
    ahead_expression(ts, i + 2, e_end, e);
    (n, e, e_end)
}

/// What starts like `x => e` and lacks a part fails for good where that is missing.
pub proof fn branch_fails(ts: Seq<Token>, i: int)
    requires
        token_at(ts, i, TokenKind::LowercaseIdentifier),
    ensures
        !token_at(ts, i + 1, TokenKind::FatArrow)
            ==> lacks(ts, apply_branch(ts, rules(ts, i), i), i + 1, TokenKind::FatArrow),
        token_at(ts, i + 1, TokenKind::FatArrow)
            ==> fails_like(apply_branch(ts, rules(ts, i), i), expression(ts, rules(ts, i + 2),
            i + 2)),
{
    broadcast use group_rules;

    only_apply_branch_then(ts, i);
    reveal(apply_branch_then);
}

/// The branch that receives the first of `xs`, then the second one and so on, then is `rest`.
pub open spec fn branch_receives(span: Span, xs: Seq<Pattern>, rest: ApplyBranch) -> ApplyBranch
    decreases xs.len(),
{
    if xs.len() == 0 {
        rest
    } else {
        ApplyBranch::Receive(span, xs[0], Box::new(branch_receives(span, xs.drop_first(), rest)))
    }
}

/// One after the other, from the last one on.
pub(crate) proof fn fold_branch_receives(span: Span, xs: Seq<Pattern>, rest: ApplyBranch)
    ensures
        xs.fold_right(branch_receive_step(span), rest) == branch_receives(span, xs, rest),
    decreases xs.len(),
{
    xs.lemma_fold_right_alt(branch_receive_step(span), rest);
    if xs.len() > 0 {
        let others = xs.drop_first();
        others.lemma_fold_right_alt(branch_receive_step(span), rest);
        fold_branch_receives(span, others, rest);
        assert(xs.subrange(1, xs.len() as int) =~= others);
    }
}

/// A branch `(p, q) b` receives `p`, then `q`, and goes on with `b`.
pub proof fn branch_receive(
    ts: Seq<Token>,
    i: int,
    args: Seq<Pattern>,
    args_end: int,
    rest: ApplyBranch,
    rest_end: int,
)
    requires
        token_at(ts, i, TokenKind::LParen),
        patterns_at(ts, i + 1, args_end, args),
        token_at(ts, args_end, TokenKind::RParen),
        apply_branch_at(ts, args_end + 1, rest_end, rest),
    ensures
        apply_branch_at(
            ts,
            i,
            rest_end,
            branch_receives(ts[i].span.join(rest.span()), args, rest),
        ),
{
    broadcast use group_rules;

    read_patterns(ts, i, i + 1, args_end, args);
    ahead_apply_branch(ts, args_end + 1, rest_end, rest);
    fold_branch_receives(ts[i].span.join(rest.span()), args, rest);
    not_word_type_pattern(ts, i + 1, args[0]);
    reveal(apply_branch_receive);
    only_apply_branch_receive(ts, i);
}

/// What starts like `(p, q) b` is that, with all of its parts.
pub proof fn branch_receive_parts(
    ts: Seq<Token>,
    i: int,
    j: int,
    whole: ApplyBranch,
) -> (parts: (Seq<Pattern>, int, ApplyBranch, int))
    requires
        apply_branch_at(ts, i, j, whole),
        token_at(ts, i, TokenKind::LParen),
        !token_at(ts, i + 1, TokenKind::Type),
    ensures
        ({
            let (args, args_end, rest, rest_end) = parts;
            &&& token_at(ts, i, TokenKind::LParen)
            &&& patterns_at(ts, i + 1, args_end, args)
            &&& token_at(ts, args_end, TokenKind::RParen)
            &&& apply_branch_at(ts, args_end + 1, rest_end, rest)
            &&& j == rest_end
            &&& whole == (branch_receives(ts[i].span.join(rest.span()), args, rest))
        }),
{
    broadcast use group_rules;

    let r = rules(ts, i);
    only_apply_branch_receive(ts, i);
    reveal(apply_branch_receive);
    let args_found = list1(ts, r.pattern, i + 1);
    let args_end = args_found->Done_0;
    let args = args_found->Done_1;
    found_patterns(ts, i, i + 1, args_end, args);
    let rest_found = apply_branch(ts, rules(ts, args_end + 1), args_end + 1);
    let rest_end = rest_found->Done_0;
    let rest = rest_found->Done_1;
    ahead_apply_branch(ts, args_end + 1, rest_end, rest);
    fold_branch_receives(ts[i].span.join(rest.span()), args, rest);
    (args, args_end, rest, rest_end)
}

/// What starts like `(p, q) b` and lacks a part fails for good where that is missing.
pub proof fn branch_receive_fails(ts: Seq<Token>, i: int, args: Seq<Pattern>, args_end: int)
    requires
        token_at(ts, i, TokenKind::LParen),
        !token_at(ts, i + 1, TokenKind::Type),
    ensures
        fails_like(apply_branch(ts, rules(ts, i), i), pattern(ts, rules(ts, i + 1), i + 1)),
        patterns_at(ts, i + 1, args_end, args) && !token_at(ts, args_end, TokenKind::RParen)
            ==> lacks(ts, apply_branch(ts, rules(ts, i), i), args_end, TokenKind::RParen),
        patterns_at(ts, i + 1, args_end, args) && token_at(ts, args_end, TokenKind::RParen)
            ==> fails_like(apply_branch(ts, rules(ts, i), i), apply_branch(ts, rules(ts,
            args_end + 1), args_end + 1)),
{
    broadcast use group_rules;

    only_apply_branch_receive(ts, i);
    reveal(apply_branch_receive);
    if patterns_at(ts, i + 1, args_end, args) {
        read_patterns(ts, i, i + 1, args_end, args);
    }
}

/// A branch `! => e` is `e`, with nothing left.
pub proof fn branch_continue(ts: Seq<Token>, i: int, e: Expression, e_end: int)
    requires
        token_at(ts, i, TokenKind::Bang),
        token_at(ts, i + 1, TokenKind::FatArrow),
        expression_at(ts, i + 2, e_end, e),
    ensures
        apply_branch_at(
            ts,
            i,
            e_end,
            ApplyBranch::Continue(ts[i].span.join(e.span()), e),
        ),
{
    broadcast use group_rules;

    ahead_expression(ts, i + 2, e_end, e);
    reveal(apply_branch_continue);
    only_apply_branch_continue(ts, i);
}

/// What starts like `! => e` is that, with all of its parts.
pub proof fn branch_continue_parts(
    ts: Seq<Token>,
    i: int,
    j: int,
    whole: ApplyBranch,
) -> (parts: (Expression, int))
    requires
        apply_branch_at(ts, i, j, whole),
        token_at(ts, i, TokenKind::Bang),
    ensures
        ({
            let (e, e_end) = parts;
            &&& token_at(ts, i, TokenKind::Bang)
            &&& token_at(ts, i + 1, TokenKind::FatArrow)
            &&& expression_at(ts, i + 2, e_end, e)
            &&& j == e_end
            &&& whole == (ApplyBranch::Continue(ts[i].span.join(e.span()), e))
        }),
{
    broadcast use group_rules;

    only_apply_branch_continue(ts, i);
    reveal(apply_branch_continue);
    let e_found = expression(ts, rules(ts, i + 2), i + 2);
    let e_end = e_found->Done_0;
    let e = e_found->Done_1;
    ahead_expression(ts, i + 2, e_end, e);
    (e, e_end)
}

/// What starts like `! => e` and lacks a part fails for good where that is missing.
pub proof fn branch_continue_fails(ts: Seq<Token>, i: int)
    requires
        token_at(ts, i, TokenKind::Bang),
    ensures
        !token_at(ts, i + 1, TokenKind::FatArrow)
            ==> lacks(ts, apply_branch(ts, rules(ts, i), i), i + 1, TokenKind::FatArrow),
        token_at(ts, i + 1, TokenKind::FatArrow)
            ==> fails_like(apply_branch(ts, rules(ts, i), i), expression(ts, rules(ts, i + 2),
            i + 2)),
{
    broadcast use group_rules;

    only_apply_branch_continue(ts, i);
    reveal(apply_branch_continue);
}

/// The branch that receives a type under the first of the names `xs`, then one under the second one
/// and so on, then is `rest`.
pub open spec fn branch_receives_types(span: Span, xs: Seq<LocalName>,
    rest: ApplyBranch) -> ApplyBranch
    decreases xs.len(),
{
    if xs.len() == 0 {
        rest
    } else {
        ApplyBranch::ReceiveType(span, xs[0], Box::new(branch_receives_types(span, xs.drop_first(),
            rest)))
    }
}

/// One after the other, from the last one on.
pub(crate) proof fn fold_branch_receives_types(span: Span, xs: Seq<LocalName>, rest: ApplyBranch)
    ensures
        xs.fold_right(branch_receive_type_step(span), rest) == branch_receives_types(span, xs,
            rest),
    decreases xs.len(),
{
    xs.lemma_fold_right_alt(branch_receive_type_step(span), rest);
    if xs.len() > 0 {
        let others = xs.drop_first();
        others.lemma_fold_right_alt(branch_receive_type_step(span), rest);
        fold_branch_receives_types(span, others, rest);
        assert(xs.subrange(1, xs.len() as int) =~= others);
    }
}

/// A branch `(type a, b) c` receives types under the names `a` and `b` and goes on with `c`.
pub proof fn branch_receive_type(
    ts: Seq<Token>,
    i: int,
    names: Seq<LocalName>,
    names_end: int,
    rest: ApplyBranch,
    rest_end: int,
)
    requires
        token_at(ts, i, TokenKind::LParen),
        token_at(ts, i + 1, TokenKind::Type),
        names_at(ts, i + 2, names_end, names),
        token_at(ts, names_end, TokenKind::RParen),
        apply_branch_at(ts, names_end + 1, rest_end, rest),
    ensures
        apply_branch_at(
            ts,
            i,
            rest_end,
            branch_receives_types(ts[i].span.join(rest.span()), names, rest),
        ),
{
    broadcast use group_rules;

    read_names(ts, i + 2, names_end, names);
    ahead_apply_branch(ts, names_end + 1, rest_end, rest);
    fold_branch_receives_types(ts[i].span.join(rest.span()), names, rest);
    reveal(apply_branch_recv_type);
    only_apply_branch_recv_type(ts, i);
}

/// What starts like `(type a, b) c` is that, with all of its parts.
pub proof fn branch_receive_type_parts(
    ts: Seq<Token>,
    i: int,
    j: int,
    whole: ApplyBranch,
) -> (parts: (Seq<LocalName>, int, ApplyBranch, int))
    requires
        apply_branch_at(ts, i, j, whole),
        token_at(ts, i, TokenKind::LParen),
        token_at(ts, i + 1, TokenKind::Type),
    ensures
        ({
            let (names, names_end, rest, rest_end) = parts;
            &&& token_at(ts, i, TokenKind::LParen)
            &&& token_at(ts, i + 1, TokenKind::Type)
            &&& names_at(ts, i + 2, names_end, names)
            &&& token_at(ts, names_end, TokenKind::RParen)
            &&& apply_branch_at(ts, names_end + 1, rest_end, rest)
            &&& j == rest_end
            &&& whole == (branch_receives_types(ts[i].span.join(rest.span()), names, rest))
        }),
{
    broadcast use group_rules;

    only_apply_branch_recv_type(ts, i);
    reveal(apply_branch_recv_type);
    let names_found = list1(ts, |i: int| local_name(ts, i), i + 2);
    let names_end = names_found->Done_0;
    let names = names_found->Done_1;
    found_names(ts, i + 2, names_end, names);
    let rest_found = apply_branch(ts, rules(ts, names_end + 1), names_end + 1);
    let rest_end = rest_found->Done_0;
    let rest = rest_found->Done_1;
    ahead_apply_branch(ts, names_end + 1, rest_end, rest);
    fold_branch_receives_types(ts[i].span.join(rest.span()), names, rest);
    (names, names_end, rest, rest_end)
}

/// What starts like `(type a, b) c` and lacks a part fails for good where that is missing.
pub proof fn branch_receive_type_fails(
    ts: Seq<Token>,
    i: int,
    names: Seq<LocalName>,
    names_end: int,
)
    requires
        token_at(ts, i, TokenKind::LParen),
        token_at(ts, i + 1, TokenKind::Type),
    ensures
        !token_at(ts, i + 2, TokenKind::LowercaseIdentifier)
            ==> fails_at(apply_branch(ts, rules(ts, i), i), i + 2),
        names_at(ts, i + 2, names_end, names) && !token_at(ts, names_end, TokenKind::RParen)
            ==> lacks(ts, apply_branch(ts, rules(ts, i), i), names_end, TokenKind::RParen),
        names_at(ts, i + 2, names_end, names) && token_at(ts, names_end, TokenKind::RParen)
            ==> fails_like(apply_branch(ts, rules(ts, i), i), apply_branch(ts, rules(ts,
            names_end + 1), names_end + 1)),
{
    broadcast use group_rules;

    only_apply_branch_recv_type(ts, i);
    reveal(apply_branch_recv_type);
    if names_at(ts, i + 2, names_end, names) {
        read_names(ts, i + 2, names_end, names);
    }
}

/// A branch `try@l b` tries, with the label `l`, and goes on with `b`.
pub proof fn branch_try(
    ts: Seq<Token>,
    i: int,
    l: Option<LocalName>,
    l_end: int,
    b: ApplyBranch,
    b_end: int,
)
    requires
        token_at(ts, i, TokenKind::Try),
        label_at(ts, i + 1, l_end, l),
        apply_branch_at(ts, l_end, b_end, b),
    ensures
        apply_branch_at(
            ts,
            i,
            b_end,
            ApplyBranch::Try(ts[i].span.join(b.span()), l, Box::new(b)),
        ),
{
    broadcast use group_rules;

    read_label(ts, i + 1, l_end, l);
    ahead_apply_branch(ts, l_end, b_end, b);
    reveal(apply_branch_try);
    only_apply_branch_try(ts, i);
}

/// What starts like `try@l b` is that, with all of its parts.
pub proof fn branch_try_parts(
    ts: Seq<Token>,
    i: int,
    j: int,
    whole: ApplyBranch,
) -> (parts: (Option<LocalName>, int, ApplyBranch, int))
    requires
        apply_branch_at(ts, i, j, whole),
        token_at(ts, i, TokenKind::Try),
    ensures
        ({
            let (l, l_end, b, b_end) = parts;
            &&& token_at(ts, i, TokenKind::Try)
            &&& label_at(ts, i + 1, l_end, l)
            &&& apply_branch_at(ts, l_end, b_end, b)
            &&& j == b_end
            &&& whole == (ApplyBranch::Try(ts[i].span.join(b.span()), l, Box::new(b)))
        }),
{
    broadcast use group_rules;

    only_apply_branch_try(ts, i);
    reveal(apply_branch_try);
    let l_found = label(ts, i + 1);
    let l_end = l_found->Done_0;
    let l = l_found->Done_1;
    found_label(ts, i + 1, l_end, l);
    let b_found = apply_branch(ts, rules(ts, l_end), l_end);
    let b_end = b_found->Done_0;
    let b = b_found->Done_1;
    ahead_apply_branch(ts, l_end, b_end, b);
    (l, l_end, b, b_end)
}

/// What starts like `try@l b` and lacks a part fails for good where that is missing.
pub proof fn branch_try_fails(ts: Seq<Token>, i: int, l: Option<LocalName>, l_end: int)
    requires
        token_at(ts, i, TokenKind::Try),
    ensures
        label_at(ts, i + 1, l_end, l)
            ==> fails_like(apply_branch(ts, rules(ts, i), i), apply_branch(ts, rules(ts, l_end),
            l_end)),
{
    broadcast use group_rules;

    only_apply_branch_try(ts, i);
    reveal(apply_branch_try);
    if label_at(ts, i + 1, l_end, l) {
        read_label(ts, i + 1, l_end, l);
    }
}

/// A branch `default(e) b` has the default `e` and goes on with `b`.
pub proof fn branch_default(
    ts: Seq<Token>,
    i: int,
    e: Expression,
    e_end: int,
    b: ApplyBranch,
    b_end: int,
)
    requires
        token_at(ts, i, TokenKind::Default),
        token_at(ts, i + 1, TokenKind::LParen),
        expression_at(ts, i + 2, e_end, e),
        token_at(ts, e_end, TokenKind::RParen),
        apply_branch_at(ts, e_end + 1, b_end, b),
    ensures
        apply_branch_at(
            ts,
            i,
            b_end,
            ApplyBranch::Default(ts[i].span.join(b.span()), Box::new(e), Box::new(b)),
        ),
{
    broadcast use group_rules;

    ahead_expression(ts, i + 2, e_end, e);
    ahead_apply_branch(ts, e_end + 1, b_end, b);
    reveal(apply_branch_default);
    only_apply_branch_default(ts, i);
}

/// What starts like `default(e) b` is that, with all of its parts.
pub proof fn branch_default_parts(
    ts: Seq<Token>,
    i: int,
    j: int,
    whole: ApplyBranch,
) -> (parts: (Expression, int, ApplyBranch, int))
    requires
        apply_branch_at(ts, i, j, whole),
        token_at(ts, i, TokenKind::Default),
    ensures
        ({
            let (e, e_end, b, b_end) = parts;
            &&& token_at(ts, i, TokenKind::Default)
            &&& token_at(ts, i + 1, TokenKind::LParen)
            &&& expression_at(ts, i + 2, e_end, e)
            &&& token_at(ts, e_end, TokenKind::RParen)
            &&& apply_branch_at(ts, e_end + 1, b_end, b)
            &&& j == b_end
            &&& whole == (ApplyBranch::Default(ts[i].span.join(b.span()), Box::new(e), Box::new(b)))
        }),
{
    broadcast use group_rules;

    only_apply_branch_default(ts, i);
    reveal(apply_branch_default);
    let e_found = expression(ts, rules(ts, i + 2), i + 2);
    let e_end = e_found->Done_0;
    let e = e_found->Done_1;
    ahead_expression(ts, i + 2, e_end, e);
    let b_found = apply_branch(ts, rules(ts, e_end + 1), e_end + 1);
    let b_end = b_found->Done_0;
    let b = b_found->Done_1;
    ahead_apply_branch(ts, e_end + 1, b_end, b);
    (e, e_end, b, b_end)
}

/// What starts like `default(e) b` and lacks a part fails for good where that is missing.
pub proof fn branch_default_fails(ts: Seq<Token>, i: int, e: Expression, e_end: int)
    requires
        token_at(ts, i, TokenKind::Default),
        token_at(ts, i + 1, TokenKind::LParen),
    ensures
        fails_like(apply_branch(ts, rules(ts, i), i), expression(ts, rules(ts, i + 2), i + 2)),
        expression_at(ts, i + 2, e_end, e) && !token_at(ts, e_end, TokenKind::RParen)
            ==> lacks(ts, apply_branch(ts, rules(ts, i), i), e_end, TokenKind::RParen),
        expression_at(ts, i + 2, e_end, e) && token_at(ts, e_end, TokenKind::RParen)
            ==> fails_like(apply_branch(ts, rules(ts, i), i), apply_branch(ts, rules(ts,
            e_end + 1), e_end + 1)),
{
    broadcast use group_rules;

    only_apply_branch_default(ts, i);
    reveal(apply_branch_default);
    if expression_at(ts, i + 2, e_end, e) {
        ahead_expression(ts, i + 2, e_end, e);
    }
}

} // verus!
