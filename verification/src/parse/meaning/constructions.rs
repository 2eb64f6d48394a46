//! What constructions come to.
use super::super::grammar::{branches_body, group_rules, label, list1, local_name, rules};
use super::super::grammar::constructions::{
    branch_receive_step, branch_receive_type_step, cons_begin, cons_branch, cons_branch_receive,
    cons_branch_recv_type, cons_branch_then, cons_break, cons_case, cons_loop, cons_receive,
    cons_recv_type, cons_send, cons_send_type, cons_signal, cons_then_value, cons_unfounded,
    construction, receive_step, receive_type_step, send_step, send_type_step,
};
use super::super::grammar::expressions::expression;
use super::super::grammar::patterns::pattern;
use super::super::grammar::types::typ;
use super::{
    ahead_cons_branch, ahead_construction, ahead_expression, collected, cons_branch_at,
    construction_at, expression_at, fails_at, fails_like, label_at, lacks, local_name_at, token_at,
};
use super::expressions::{
    committed_expression, not_word_type_expression, starts_construction, starts_literal,
};
use super::misses::{
    miss_application, miss_cons_begin, miss_cons_break, miss_cons_case, miss_cons_loop,
    miss_cons_receive, miss_cons_recv_type, miss_cons_send, miss_cons_send_type, miss_cons_signal,
    miss_cons_unfounded, miss_expr_box, miss_expr_catch, miss_expr_chan, miss_expr_do,
    miss_expr_grouped, miss_expr_let, miss_expr_list, miss_expr_literal, miss_expr_throw,
    only_cons_begin, only_cons_branch_receive, only_cons_branch_recv_type, only_cons_branch_then,
    only_cons_break, only_cons_case, only_cons_loop, only_cons_receive, only_cons_recv_type,
    only_cons_send, only_cons_send_type, only_cons_signal, only_cons_unfounded,
};
use super::parts::{
    cons_branch_body_at, expressions_at, found_cons_branch_body, found_expressions, found_label,
    found_names, found_patterns, found_typs, names_at, patterns_at, read_cons_branch_body,
    read_expressions, read_label, read_local_name, read_names, read_patterns, read_typs, typs_at,
};
use super::patterns::not_word_type_pattern;
use crate::model::{Construct, ConstructBranch, Expression, LocalName, Pattern, Span, Token, Type};
use crate::token::TokenKind;
use vstd::prelude::*;

verus! {

/// An expression that does not start like a construction, nor with `throw`, ends a construction.
pub proof fn ending_construction(ts: Seq<Token>, i: int, j: int, e: Expression)
    requires
        expression_at(ts, i, j, e),
        i < ts.len(),
        !starts_construction(ts[i].kind),
        ts[i].kind != TokenKind::Throw,
    ensures
        construction_at(ts, i, j, Construct::Then(Box::new(e))),
{
    let r = rules(ts, i);
    miss_expr_throw(ts, r, i);
    miss_cons_begin(ts, r, i);
    miss_cons_unfounded(ts, r, i);
    miss_cons_loop(ts, i);
    committed_expression(ts, i);
    if !token_at(ts, i, TokenKind::Star) {
        miss_expr_list(ts, r, i);
    }
    if !token_at(ts, i, TokenKind::Let) {
        miss_expr_let(ts, r, i);
    }
    if !token_at(ts, i, TokenKind::Catch) {
        miss_expr_catch(ts, r, i);
    }
    if !token_at(ts, i, TokenKind::Do) {
        miss_expr_do(ts, r, i);
    }
    if !token_at(ts, i, TokenKind::Box) {
        miss_expr_box(ts, r, i);
    }
    if !token_at(ts, i, TokenKind::Chan) {
        miss_expr_chan(ts, r, i);
    }
    if !token_at(ts, i, TokenKind::UppercaseIdentifier) && !token_at(
        ts,
        i,
        TokenKind::LowercaseIdentifier,
    ) && !token_at(ts, i, TokenKind::LCurly) {
        miss_application(ts, r, i);
        miss_expr_grouped(ts, r, i);
    }
    if !starts_literal(ts, i) {
        miss_expr_literal(ts, i);
    }
    reveal(expression);
    reveal(cons_then_value);
    miss_cons_signal(ts, r, i);
    miss_cons_case(ts, r, i);
    miss_cons_break(ts, i);
    miss_cons_send_type(ts, r, i);
    miss_cons_send(ts, r, i);
    miss_cons_recv_type(ts, r, i);
    miss_cons_receive(ts, r, i);
    reveal(construction);
}

/// A construction that does not start like one in steps is the expression that stands there.
pub proof fn ending_construction_parts(ts: Seq<Token>, i: int, j: int, whole: Construct)
    requires
        construction_at(ts, i, j, whole),
        i < ts.len(),
        !starts_construction(ts[i].kind),
    ensures
        (whole matches Construct::Then(e) && expression_at(ts, i, j, *e)),
{
    let r = rules(ts, i);
    miss_cons_begin(ts, r, i);
    miss_cons_unfounded(ts, r, i);
    miss_cons_loop(ts, i);
    miss_cons_signal(ts, r, i);
    miss_cons_case(ts, r, i);
    miss_cons_break(ts, i);
    miss_cons_send_type(ts, r, i);
    miss_cons_send(ts, r, i);
    miss_cons_recv_type(ts, r, i);
    miss_cons_receive(ts, r, i);
    committed_expression(ts, i);
    if !token_at(ts, i, TokenKind::Throw) {
        miss_expr_throw(ts, r, i);
    }
    if !token_at(ts, i, TokenKind::Star) {
        miss_expr_list(ts, r, i);
    }
    if !token_at(ts, i, TokenKind::Let) {
        miss_expr_let(ts, r, i);
    }
    if !token_at(ts, i, TokenKind::Catch) {
        miss_expr_catch(ts, r, i);
    }
    if !token_at(ts, i, TokenKind::Do) {
        miss_expr_do(ts, r, i);
    }
    if !token_at(ts, i, TokenKind::Box) {
        miss_expr_box(ts, r, i);
    }
    if !token_at(ts, i, TokenKind::Chan) {
        miss_expr_chan(ts, r, i);
    }
    if !token_at(ts, i, TokenKind::UppercaseIdentifier) && !token_at(
        ts,
        i,
        TokenKind::LowercaseIdentifier,
    ) && !token_at(ts, i, TokenKind::LCurly) {
        miss_application(ts, r, i);
        miss_expr_grouped(ts, r, i);
    }
    if !starts_literal(ts, i) {
        miss_expr_literal(ts, i);
    }
    reveal(cons_then_value);
    reveal(construction);
    reveal(expression);
}

/// `begin@l c` begins a loop with the label `l` and goes on with `c`.
pub proof fn begin(
    ts: Seq<Token>,
    i: int,
    l: Option<LocalName>,
    l_end: int,
    c: Construct,
    c_end: int,
)
    requires
        token_at(ts, i, TokenKind::Begin),
        label_at(ts, i + 1, l_end, l),
        construction_at(ts, l_end, c_end, c),
    ensures
        construction_at(
            ts,
            i,
            c_end,
            Construct::Begin {
                span: ts[i].span.join(c.span()),
                unfounded: false,
                label: l,
                then: Box::new(c),
            },
        ),
{
    broadcast use group_rules;

    read_label(ts, i + 1, l_end, l);
    ahead_construction(ts, l_end, c_end, c);
    reveal(cons_begin);
    only_cons_begin(ts, i);
}

/// What starts like `begin@l c` is that, with all of its parts.
pub proof fn begin_parts(
    ts: Seq<Token>,
    i: int,
    j: int,
    whole: Construct,
) -> (parts: (Option<LocalName>, int, Construct, int))
    requires
        construction_at(ts, i, j, whole),
        token_at(ts, i, TokenKind::Begin),
    ensures
        ({
            let (l, l_end, c, c_end) = parts;
            &&& token_at(ts, i, TokenKind::Begin)
            &&& label_at(ts, i + 1, l_end, l)
            &&& construction_at(ts, l_end, c_end, c)
            &&& j == c_end
            &&& whole == (Construct::Begin {
                span: ts[i].span.join(c.span()),
                unfounded: false,
                label: l,
                then: Box::new(c),
            })
        }),
{
    broadcast use group_rules;

    only_cons_begin(ts, i);
    reveal(cons_begin);
    let l_found = label(ts, i + 1);
    let l_end = l_found->Done_0;
    let l = l_found->Done_1;
    found_label(ts, i + 1, l_end, l);
    let c_found = construction(ts, rules(ts, l_end), l_end);
    let c_end = c_found->Done_0;
    let c = c_found->Done_1;
    ahead_construction(ts, l_end, c_end, c);
    (l, l_end, c, c_end)
}

/// What starts like `begin@l c` and lacks a part fails for good where that is missing.
pub proof fn begin_fails(ts: Seq<Token>, i: int, l: Option<LocalName>, l_end: int)
    requires
        token_at(ts, i, TokenKind::Begin),
    ensures
        label_at(ts, i + 1, l_end, l)
            ==> fails_like(construction(ts, rules(ts, i), i), construction(ts, rules(ts, l_end),
            l_end)),
{
    broadcast use group_rules;

    only_cons_begin(ts, i);
    reveal(cons_begin);
    if label_at(ts, i + 1, l_end, l) {
        read_label(ts, i + 1, l_end, l);
    }
}

/// `unfounded@l c` begins a loop that need not end, with the label `l`, and goes on with `c`.
pub proof fn unfounded(
    ts: Seq<Token>,
    i: int,
    l: Option<LocalName>,
    l_end: int,
    c: Construct,
    c_end: int,
)
    requires
        token_at(ts, i, TokenKind::Unfounded),
        label_at(ts, i + 1, l_end, l),
        construction_at(ts, l_end, c_end, c),
    ensures
        construction_at(
            ts,
            i,
            c_end,
            Construct::Begin {
                span: ts[i].span.join(c.span()),
                unfounded: true,
                label: l,
                then: Box::new(c),
            },
        ),
{
    broadcast use group_rules;

    read_label(ts, i + 1, l_end, l);
    ahead_construction(ts, l_end, c_end, c);
    reveal(cons_unfounded);
    only_cons_unfounded(ts, i);
}

/// What starts like `unfounded@l c` is that, with all of its parts.
pub proof fn unfounded_parts(
    ts: Seq<Token>,
    i: int,
    j: int,
    whole: Construct,
) -> (parts: (Option<LocalName>, int, Construct, int))
    requires
        construction_at(ts, i, j, whole),
        token_at(ts, i, TokenKind::Unfounded),
    ensures
        ({
            let (l, l_end, c, c_end) = parts;
            &&& token_at(ts, i, TokenKind::Unfounded)
            &&& label_at(ts, i + 1, l_end, l)
            &&& construction_at(ts, l_end, c_end, c)
            &&& j == c_end
            &&& whole == (Construct::Begin {
                span: ts[i].span.join(c.span()),
                unfounded: true,
                label: l,
                then: Box::new(c),
            })
        }),
{
    broadcast use group_rules;

    only_cons_unfounded(ts, i);
    reveal(cons_unfounded);
    let l_found = label(ts, i + 1);
    let l_end = l_found->Done_0;
    let l = l_found->Done_1;
    found_label(ts, i + 1, l_end, l);
    let c_found = construction(ts, rules(ts, l_end), l_end);
    let c_end = c_found->Done_0;
    let c = c_found->Done_1;
    ahead_construction(ts, l_end, c_end, c);
    (l, l_end, c, c_end)
}

/// What starts like `unfounded@l c` and lacks a part fails for good where that is missing.
pub proof fn unfounded_fails(ts: Seq<Token>, i: int, l: Option<LocalName>, l_end: int)
    requires
        token_at(ts, i, TokenKind::Unfounded),
    ensures
        label_at(ts, i + 1, l_end, l)
            ==> fails_like(construction(ts, rules(ts, i), i), construction(ts, rules(ts, l_end),
            l_end)),
{
    broadcast use group_rules;

    only_cons_unfounded(ts, i);
    reveal(cons_unfounded);
    if label_at(ts, i + 1, l_end, l) {
        read_label(ts, i + 1, l_end, l);
    }
}

/// `loop@l` goes back to where the label `l` is.
pub proof fn looped(ts: Seq<Token>, i: int, l: Option<LocalName>, l_end: int)
    requires
        token_at(ts, i, TokenKind::Loop),
        label_at(ts, i + 1, l_end, l),
    ensures
        construction_at(
            ts,
            i,
            l_end,
            Construct::Loop(
                match l {
                    Some(name) => ts[i].span.join(name.span),
                    None => ts[i].span,
                },
                l,
            ),
        ),
{
    broadcast use group_rules;

    read_label(ts, i + 1, l_end, l);
    reveal(cons_loop);
    only_cons_loop(ts, i);
}

/// What starts like `loop@l` is that, with all of its parts.
pub proof fn looped_parts(
    ts: Seq<Token>,
    i: int,
    j: int,
    whole: Construct,
) -> (parts: (Option<LocalName>, int))
    requires
        construction_at(ts, i, j, whole),
        token_at(ts, i, TokenKind::Loop),
    ensures
        ({
            let (l, l_end) = parts;
            &&& token_at(ts, i, TokenKind::Loop)
            &&& label_at(ts, i + 1, l_end, l)
            &&& j == l_end
            &&& whole == (Construct::Loop(
                match l {
                    Some(name) => ts[i].span.join(name.span),
                    None => ts[i].span,
                },
                l,
            ))
        }),
{
    broadcast use group_rules;

    only_cons_loop(ts, i);
    reveal(cons_loop);
    let l_found = label(ts, i + 1);
    let l_end = l_found->Done_0;
    let l = l_found->Done_1;
    found_label(ts, i + 1, l_end, l);
    (l, l_end)
}

/// `.x c` signals `x` and goes on with `c`.
pub proof fn signal(ts: Seq<Token>, i: int, n: LocalName, c: Construct, c_end: int)
    requires
        token_at(ts, i, TokenKind::Dot),
        local_name_at(ts, i + 1, n),
        construction_at(ts, i + 2, c_end, c),
    ensures
        construction_at(
            ts,
            i,
            c_end,
            Construct::Signal(ts[i].span.join(c.span()), n, Box::new(c)),
        ),
{
    broadcast use group_rules;

    read_local_name(ts, i + 1, n);
    ahead_construction(ts, i + 2, c_end, c);
    reveal(cons_signal);
    only_cons_signal(ts, i);
}

/// What starts like `.x c` is that, with all of its parts.
pub proof fn signal_parts(
    ts: Seq<Token>,
    i: int,
    j: int,
    whole: Construct,
) -> (parts: (LocalName, Construct, int))
    requires
        construction_at(ts, i, j, whole),
        token_at(ts, i, TokenKind::Dot),
        token_at(ts, i + 1, TokenKind::LowercaseIdentifier),
    ensures
        ({
            let (n, c, c_end) = parts;
            &&& token_at(ts, i, TokenKind::Dot)
            &&& local_name_at(ts, i + 1, n)
            &&& construction_at(ts, i + 2, c_end, c)
            &&& j == c_end
            &&& whole == (Construct::Signal(ts[i].span.join(c.span()), n, Box::new(c)))
        }),
{
    broadcast use group_rules;

    only_cons_signal(ts, i);
    reveal(cons_signal);
    let n = LocalName { span: ts[i + 1].span, string: ts[i + 1].raw };
    let c_found = construction(ts, rules(ts, i + 2), i + 2);
    let c_end = c_found->Done_0;
    let c = c_found->Done_1;
    ahead_construction(ts, i + 2, c_end, c);
    (n, c, c_end)
}

/// `case { .x => e, .y => f }` has these branches, by name.
pub proof fn case(ts: Seq<Token>, i: int, rows: Seq<(LocalName, ConstructBranch)>, rows_end: int)
    requires
        token_at(ts, i, TokenKind::Case),
        cons_branch_body_at(ts, i + 1, rows_end, rows),
    ensures
        construction_at(
            ts,
            i,
            rows_end,
            Construct::Case(ts[i].span.join(ts[i + 1].span.join(ts[rows_end - 1].span)),
                collected(Seq::empty(), rows)),
        ),
{
    broadcast use group_rules;

    read_cons_branch_body(ts, i, i + 1, rows_end, rows);
    reveal(cons_case);
    only_cons_case(ts, i);
}

/// What starts like `case { .x => e, .y => f }` is that, with all of its parts.
pub proof fn case_parts(
    ts: Seq<Token>,
    i: int,
    j: int,
    whole: Construct,
) -> (parts: (Seq<(LocalName, ConstructBranch)>, int))
    requires
        construction_at(ts, i, j, whole),
        token_at(ts, i, TokenKind::Case),
    ensures
        ({
            let (rows, rows_end) = parts;
            &&& token_at(ts, i, TokenKind::Case)
            &&& cons_branch_body_at(ts, i + 1, rows_end, rows)
            &&& j == rows_end
            &&& whole == (Construct::Case(ts[i].span.join(ts[i + 1].span.join(
                ts[rows_end - 1].span)), collected(Seq::empty(), rows)))
        }),
{
    broadcast use group_rules;

    let r = rules(ts, i);
    only_cons_case(ts, i);
    reveal(cons_case);
    let rows_found = branches_body(ts, r.cons_branch, i + 1);
    let rows_end = rows_found->Done_0;
    let rows = found_cons_branch_body(ts, i, i + 1, rows_end, rows_found->Done_1);
    (rows, rows_end)
}

/// What starts like `case { .x => e, .y => f }` and lacks a part fails for good where that is
/// missing.
pub proof fn case_fails(ts: Seq<Token>, i: int)
    requires
        token_at(ts, i, TokenKind::Case),
    ensures
        !token_at(ts, i + 1, TokenKind::LCurly)
            ==> lacks(ts, construction(ts, rules(ts, i), i), i + 1, TokenKind::LCurly),
{
    broadcast use group_rules;

    only_cons_case(ts, i);
    reveal(cons_case);
}

/// `!` ends.
pub proof fn broken(ts: Seq<Token>, i: int)
    requires
        token_at(ts, i, TokenKind::Bang),
    ensures
        construction_at(
            ts,
            i,
            i + 1,
            Construct::Break(ts[i].span),
        ),
{
    broadcast use group_rules;

    reveal(cons_break);
    only_cons_break(ts, i);
}

/// The construction that sends the first of `xs`, then the second one and so on, then is `rest`.
pub open spec fn sends(span: Span, xs: Seq<Expression>, rest: Construct) -> Construct
    decreases xs.len(),
{
    if xs.len() == 0 {
        rest
    } else {
        Construct::Send(span, Box::new(xs[0]), Box::new(sends(span, xs.drop_first(), rest)))
    }
}

/// One after the other, from the last one on.
pub(crate) proof fn fold_sends(span: Span, xs: Seq<Expression>, rest: Construct)
    ensures
        xs.fold_right(send_step(span), rest) == sends(span, xs, rest),
    decreases xs.len(),
{
    xs.lemma_fold_right_alt(send_step(span), rest);
    if xs.len() > 0 {
        let others = xs.drop_first();
        others.lemma_fold_right_alt(send_step(span), rest);
        fold_sends(span, others, rest);
        assert(xs.subrange(1, xs.len() as int) =~= others);
    }
}

/// `(e, f) c` sends `e`, then `f`, and goes on with `c`.
pub proof fn send(
    ts: Seq<Token>,
    i: int,
    args: Seq<Expression>,
    args_end: int,
    rest: Construct,
    rest_end: int,
)
    requires
        token_at(ts, i, TokenKind::LParen),
        expressions_at(ts, i + 1, args_end, args),
        token_at(ts, args_end, TokenKind::RParen),
        construction_at(ts, args_end + 1, rest_end, rest),
    ensures
        construction_at(
            ts,
            i,
            rest_end,
            sends(ts[i].span.join(rest.span()), args, rest),
        ),
{
    broadcast use group_rules;

    read_expressions(ts, i, i + 1, args_end, args);
    ahead_construction(ts, args_end + 1, rest_end, rest);
    fold_sends(ts[i].span.join(rest.span()), args, rest);
    not_word_type_expression(ts, i + 1, args[0]);
    reveal(cons_send);
    only_cons_send(ts, i);
}

/// What starts like `(e, f) c` is that, with all of its parts.
pub proof fn send_parts(
    ts: Seq<Token>,
    i: int,
    j: int,
    whole: Construct,
) -> (parts: (Seq<Expression>, int, Construct, int))
    requires
        construction_at(ts, i, j, whole),
        token_at(ts, i, TokenKind::LParen),
        !token_at(ts, i + 1, TokenKind::Type),
    ensures
        ({
            let (args, args_end, rest, rest_end) = parts;
            &&& token_at(ts, i, TokenKind::LParen)
            &&& expressions_at(ts, i + 1, args_end, args)
            &&& token_at(ts, args_end, TokenKind::RParen)
            &&& construction_at(ts, args_end + 1, rest_end, rest)
            &&& j == rest_end
            &&& whole == (sends(ts[i].span.join(rest.span()), args, rest))
        }),
{
    broadcast use group_rules;

    let r = rules(ts, i);
    only_cons_send(ts, i);
    reveal(cons_send);
    let args_found = list1(ts, r.expression, i + 1);
    let args_end = args_found->Done_0;
    let args = args_found->Done_1;
    found_expressions(ts, i, i + 1, args_end, args);
    let rest_found = construction(ts, rules(ts, args_end + 1), args_end + 1);
    let rest_end = rest_found->Done_0;
    let rest = rest_found->Done_1;
    ahead_construction(ts, args_end + 1, rest_end, rest);
    fold_sends(ts[i].span.join(rest.span()), args, rest);
    (args, args_end, rest, rest_end)
}

/// What starts like `(e, f) c` and lacks a part fails for good where that is missing.
pub proof fn send_fails(ts: Seq<Token>, i: int, args: Seq<Expression>, args_end: int)
    requires
        token_at(ts, i, TokenKind::LParen),
        !token_at(ts, i + 1, TokenKind::Type),
    ensures
        fails_like(construction(ts, rules(ts, i), i), expression(ts, rules(ts, i + 1), i + 1)),
        expressions_at(ts, i + 1, args_end, args) && !token_at(ts, args_end, TokenKind::RParen)
            ==> lacks(ts, construction(ts, rules(ts, i), i), args_end, TokenKind::RParen),
        expressions_at(ts, i + 1, args_end, args) && token_at(ts, args_end, TokenKind::RParen)
            ==> fails_like(construction(ts, rules(ts, i), i), construction(ts, rules(ts,
            args_end + 1), args_end + 1)),
{
    broadcast use group_rules;

    only_cons_send(ts, i);
    reveal(cons_send);
    if expressions_at(ts, i + 1, args_end, args) {
        read_expressions(ts, i, i + 1, args_end, args);
    }
}

/// The construction that receives the first of `xs`, then the second one and so on, then is `rest`.
pub open spec fn receives(span: Span, xs: Seq<Pattern>, rest: Construct) -> Construct
    decreases xs.len(),
{
    if xs.len() == 0 {
        rest
    } else {
        Construct::Receive(span, xs[0], Box::new(receives(span, xs.drop_first(), rest)))
    }
}

/// One after the other, from the last one on.
pub(crate) proof fn fold_receives(span: Span, xs: Seq<Pattern>, rest: Construct)
    ensures
        xs.fold_right(receive_step(span), rest) == receives(span, xs, rest),
    decreases xs.len(),
{
    xs.lemma_fold_right_alt(receive_step(span), rest);
    if xs.len() > 0 {
        let others = xs.drop_first();
        others.lemma_fold_right_alt(receive_step(span), rest);
        fold_receives(span, others, rest);
        assert(xs.subrange(1, xs.len() as int) =~= others);
    }
}

/// `[p, q] c` receives `p`, then `q`, and goes on with `c`.
pub proof fn receive(
    ts: Seq<Token>,
    i: int,
    args: Seq<Pattern>,
    args_end: int,
    rest: Construct,
    rest_end: int,
)
    requires
        token_at(ts, i, TokenKind::LBrack),
        patterns_at(ts, i + 1, args_end, args),
        token_at(ts, args_end, TokenKind::RBrack),
        construction_at(ts, args_end + 1, rest_end, rest),
    ensures
        construction_at(
            ts,
            i,
            rest_end,
            receives(ts[i].span.join(rest.span()), args, rest),
        ),
{
    broadcast use group_rules;

    read_patterns(ts, i, i + 1, args_end, args);
    ahead_construction(ts, args_end + 1, rest_end, rest);
    fold_receives(ts[i].span.join(rest.span()), args, rest);
    not_word_type_pattern(ts, i + 1, args[0]);
    reveal(cons_receive);
    only_cons_receive(ts, i);
}

/// What starts like `[p, q] c` is that, with all of its parts.
pub proof fn receive_parts(
    ts: Seq<Token>,
    i: int,
    j: int,
    whole: Construct,
) -> (parts: (Seq<Pattern>, int, Construct, int))
    requires
        construction_at(ts, i, j, whole),
        token_at(ts, i, TokenKind::LBrack),
        !token_at(ts, i + 1, TokenKind::Type),
    ensures
        ({
            let (args, args_end, rest, rest_end) = parts;
            &&& token_at(ts, i, TokenKind::LBrack)
            &&& patterns_at(ts, i + 1, args_end, args)
            &&& token_at(ts, args_end, TokenKind::RBrack)
            &&& construction_at(ts, args_end + 1, rest_end, rest)
            &&& j == rest_end
            &&& whole == (receives(ts[i].span.join(rest.span()), args, rest))
        }),
{
    broadcast use group_rules;

    let r = rules(ts, i);
    only_cons_receive(ts, i);
    reveal(cons_receive);
    let args_found = list1(ts, r.pattern, i + 1);
    let args_end = args_found->Done_0;
    let args = args_found->Done_1;
    found_patterns(ts, i, i + 1, args_end, args);
    let rest_found = construction(ts, rules(ts, args_end + 1), args_end + 1);
    let rest_end = rest_found->Done_0;
    let rest = rest_found->Done_1;
    ahead_construction(ts, args_end + 1, rest_end, rest);
    fold_receives(ts[i].span.join(rest.span()), args, rest);
    (args, args_end, rest, rest_end)
}

/// What starts like `[p, q] c` and lacks a part fails for good where that is missing.
pub proof fn receive_fails(ts: Seq<Token>, i: int, args: Seq<Pattern>, args_end: int)
    requires
        token_at(ts, i, TokenKind::LBrack),
        !token_at(ts, i + 1, TokenKind::Type),
    ensures
        fails_like(construction(ts, rules(ts, i), i), pattern(ts, rules(ts, i + 1), i + 1)),
        patterns_at(ts, i + 1, args_end, args) && !token_at(ts, args_end, TokenKind::RBrack)
            ==> lacks(ts, construction(ts, rules(ts, i), i), args_end, TokenKind::RBrack),
        patterns_at(ts, i + 1, args_end, args) && token_at(ts, args_end, TokenKind::RBrack)
            ==> fails_like(construction(ts, rules(ts, i), i), construction(ts, rules(ts,
            args_end + 1), args_end + 1)),
{
    broadcast use group_rules;

    only_cons_receive(ts, i);
    reveal(cons_receive);
    if patterns_at(ts, i + 1, args_end, args) {
        read_patterns(ts, i, i + 1, args_end, args);
    }
}

/// The construction that sends the first of the types `xs`, then the second one and so on, then is
/// `rest`.
pub open spec fn sends_types(span: Span, xs: Seq<Type>, rest: Construct) -> Construct
    decreases xs.len(),
{
    if xs.len() == 0 {
        rest
    } else {
        Construct::SendType(span, xs[0], Box::new(sends_types(span, xs.drop_first(), rest)))
    }
}

/// One after the other, from the last one on.
pub(crate) proof fn fold_sends_types(span: Span, xs: Seq<Type>, rest: Construct)
    ensures
        xs.fold_right(send_type_step(span), rest) == sends_types(span, xs, rest),
    decreases xs.len(),
{
    xs.lemma_fold_right_alt(send_type_step(span), rest);
    if xs.len() > 0 {
        let others = xs.drop_first();
        others.lemma_fold_right_alt(send_type_step(span), rest);
        fold_sends_types(span, others, rest);
        assert(xs.subrange(1, xs.len() as int) =~= others);
    }
}

/// `(type a, b) c` sends the types `a` and `b` and goes on with `c`.
pub proof fn send_type(
    ts: Seq<Token>,
    i: int,
    args: Seq<Type>,
    args_end: int,
    rest: Construct,
    rest_end: int,
)
    requires
        token_at(ts, i, TokenKind::LParen),
        token_at(ts, i + 1, TokenKind::Type),
        typs_at(ts, i + 2, args_end, args),
        token_at(ts, args_end, TokenKind::RParen),
        construction_at(ts, args_end + 1, rest_end, rest),
    ensures
        construction_at(
            ts,
            i,
            rest_end,
            sends_types(ts[i].span.join(rest.span()), args, rest),
        ),
{
    broadcast use group_rules;

    read_typs(ts, i, i + 2, args_end, args);
    ahead_construction(ts, args_end + 1, rest_end, rest);
    fold_sends_types(ts[i].span.join(rest.span()), args, rest);
    reveal(cons_send_type);
    only_cons_send_type(ts, i);
}

/// What starts like `(type a, b) c` is that, with all of its parts.
pub proof fn send_type_parts(
    ts: Seq<Token>,
    i: int,
    j: int,
    whole: Construct,
) -> (parts: (Seq<Type>, int, Construct, int))
    requires
        construction_at(ts, i, j, whole),
        token_at(ts, i, TokenKind::LParen),
        token_at(ts, i + 1, TokenKind::Type),
    ensures
        ({
            let (args, args_end, rest, rest_end) = parts;
            &&& token_at(ts, i, TokenKind::LParen)
            &&& token_at(ts, i + 1, TokenKind::Type)
            &&& typs_at(ts, i + 2, args_end, args)
            &&& token_at(ts, args_end, TokenKind::RParen)
            &&& construction_at(ts, args_end + 1, rest_end, rest)
            &&& j == rest_end
            &&& whole == (sends_types(ts[i].span.join(rest.span()), args, rest))
        }),
{
    broadcast use group_rules;

    let r = rules(ts, i);
    only_cons_send_type(ts, i);
    reveal(cons_send_type);
    let args_found = list1(ts, r.typ, i + 2);
    let args_end = args_found->Done_0;
    let args = args_found->Done_1;
    found_typs(ts, i, i + 2, args_end, args);
    let rest_found = construction(ts, rules(ts, args_end + 1), args_end + 1);
    let rest_end = rest_found->Done_0;
    let rest = rest_found->Done_1;
    ahead_construction(ts, args_end + 1, rest_end, rest);
    fold_sends_types(ts[i].span.join(rest.span()), args, rest);
    (args, args_end, rest, rest_end)
}

/// What starts like `(type a, b) c` and lacks a part fails for good where that is missing.
pub proof fn send_type_fails(ts: Seq<Token>, i: int, args: Seq<Type>, args_end: int)
    requires
        token_at(ts, i, TokenKind::LParen),
        token_at(ts, i + 1, TokenKind::Type),
    ensures
        fails_like(construction(ts, rules(ts, i), i), typ(ts, rules(ts, i + 2), i + 2)),
        typs_at(ts, i + 2, args_end, args) && !token_at(ts, args_end, TokenKind::RParen)
            ==> lacks(ts, construction(ts, rules(ts, i), i), args_end, TokenKind::RParen),
        typs_at(ts, i + 2, args_end, args) && token_at(ts, args_end, TokenKind::RParen)
            ==> fails_like(construction(ts, rules(ts, i), i), construction(ts, rules(ts,
            args_end + 1), args_end + 1)),
{
    broadcast use group_rules;

    only_cons_send_type(ts, i);
    reveal(cons_send_type);
    if typs_at(ts, i + 2, args_end, args) {
        read_typs(ts, i, i + 2, args_end, args);
    }
}

/// The construction that receives a type under the first of the names `xs`, then one under the
/// second
/// one and so on, then is `rest`.
pub open spec fn receives_types(span: Span, xs: Seq<LocalName>, rest: Construct) -> Construct
    decreases xs.len(),
{
    if xs.len() == 0 {
        rest
    } else {
        Construct::ReceiveType(span, xs[0], Box::new(receives_types(span, xs.drop_first(), rest)))
    }
}

/// One after the other, from the last one on.
pub(crate) proof fn fold_receives_types(span: Span, xs: Seq<LocalName>, rest: Construct)
    ensures
        xs.fold_right(receive_type_step(span), rest) == receives_types(span, xs, rest),
    decreases xs.len(),
{
    xs.lemma_fold_right_alt(receive_type_step(span), rest);
    if xs.len() > 0 {
        let others = xs.drop_first();
        others.lemma_fold_right_alt(receive_type_step(span), rest);
        fold_receives_types(span, others, rest);
        assert(xs.subrange(1, xs.len() as int) =~= others);
    }
}

/// `[type a, b] c` receives types under the names `a` and `b` and goes on with `c`.
pub proof fn receive_type(
    ts: Seq<Token>,
    i: int,
    names: Seq<LocalName>,
    names_end: int,
    rest: Construct,
    rest_end: int,
)
    requires
        token_at(ts, i, TokenKind::LBrack),
        token_at(ts, i + 1, TokenKind::Type),
        names_at(ts, i + 2, names_end, names),
        token_at(ts, names_end, TokenKind::RBrack),
        construction_at(ts, names_end + 1, rest_end, rest),
    ensures
        construction_at(
            ts,
            i,
            rest_end,
            receives_types(ts[i].span.join(rest.span()), names, rest),
        ),
{
    broadcast use group_rules;

    read_names(ts, i + 2, names_end, names);
    ahead_construction(ts, names_end + 1, rest_end, rest);
    fold_receives_types(ts[i].span.join(rest.span()), names, rest);
    reveal(cons_recv_type);
    only_cons_recv_type(ts, i);
}

/// What starts like `[type a, b] c` is that, with all of its parts.
pub proof fn receive_type_parts(
    ts: Seq<Token>,
    i: int,
    j: int,
    whole: Construct,
) -> (parts: (Seq<LocalName>, int, Construct, int))
    requires
        construction_at(ts, i, j, whole),
        token_at(ts, i, TokenKind::LBrack),
        token_at(ts, i + 1, TokenKind::Type),
    ensures
        ({
            let (names, names_end, rest, rest_end) = parts;
            &&& token_at(ts, i, TokenKind::LBrack)
            &&& token_at(ts, i + 1, TokenKind::Type)
            &&& names_at(ts, i + 2, names_end, names)
            &&& token_at(ts, names_end, TokenKind::RBrack)
            &&& construction_at(ts, names_end + 1, rest_end, rest)
            &&& j == rest_end
            &&& whole == (receives_types(ts[i].span.join(rest.span()), names, rest))
        }),
{
    broadcast use group_rules;

    only_cons_recv_type(ts, i);
    reveal(cons_recv_type);
    let names_found = list1(ts, |i: int| local_name(ts, i), i + 2);
    let names_end = names_found->Done_0;
    let names = names_found->Done_1;
    found_names(ts, i + 2, names_end, names);
    let rest_found = construction(ts, rules(ts, names_end + 1), names_end + 1);
    let rest_end = rest_found->Done_0;
    let rest = rest_found->Done_1;
    ahead_construction(ts, names_end + 1, rest_end, rest);
    fold_receives_types(ts[i].span.join(rest.span()), names, rest);
    (names, names_end, rest, rest_end)
}

/// What starts like `[type a, b] c` and lacks a part fails for good where that is missing.
pub proof fn receive_type_fails(ts: Seq<Token>, i: int, names: Seq<LocalName>, names_end: int)
    requires
        token_at(ts, i, TokenKind::LBrack),
        token_at(ts, i + 1, TokenKind::Type),
    ensures
        !token_at(ts, i + 2, TokenKind::LowercaseIdentifier)
            ==> fails_at(construction(ts, rules(ts, i), i), i + 2),
        names_at(ts, i + 2, names_end, names) && !token_at(ts, names_end, TokenKind::RBrack)
            ==> lacks(ts, construction(ts, rules(ts, i), i), names_end, TokenKind::RBrack),
        names_at(ts, i + 2, names_end, names) && token_at(ts, names_end, TokenKind::RBrack)
            ==> fails_like(construction(ts, rules(ts, i), i), construction(ts, rules(ts,
            names_end + 1), names_end + 1)),
{
    broadcast use group_rules;

    only_cons_recv_type(ts, i);
    reveal(cons_recv_type);
    if names_at(ts, i + 2, names_end, names) {
        read_names(ts, i + 2, names_end, names);
    }
}

/// A branch `=> e` is `e`.
pub proof fn branch(ts: Seq<Token>, i: int, e: Expression, e_end: int)
    requires
        token_at(ts, i, TokenKind::FatArrow),
        expression_at(ts, i + 1, e_end, e),
    ensures
        cons_branch_at(
            ts,
            i,
            e_end,
            ConstructBranch::Then(ts[i].span.join(e.span()), e),
        ),
{
    broadcast use group_rules;

    ahead_expression(ts, i + 1, e_end, e);
    reveal(cons_branch_then);
    only_cons_branch_then(ts, i);
}

/// What starts like `=> e` is that, with all of its parts.
pub proof fn branch_parts(
    ts: Seq<Token>,
    i: int,
    j: int,
    whole: ConstructBranch,
) -> (parts: (Expression, int))
    requires
        cons_branch_at(ts, i, j, whole),
        token_at(ts, i, TokenKind::FatArrow),
    ensures
        ({
            let (e, e_end) = parts;
            &&& token_at(ts, i, TokenKind::FatArrow)
            &&& expression_at(ts, i + 1, e_end, e)
            &&& j == e_end
            &&& whole == (ConstructBranch::Then(ts[i].span.join(e.span()), e))
        }),
{
    broadcast use group_rules;

    only_cons_branch_then(ts, i);
    reveal(cons_branch_then);
    let e_found = expression(ts, rules(ts, i + 1), i + 1);
    let e_end = e_found->Done_0;
    let e = e_found->Done_1;
    ahead_expression(ts, i + 1, e_end, e);
    (e, e_end)
}

/// What starts like `=> e` and lacks a part fails for good where that is missing.
pub proof fn branch_fails(ts: Seq<Token>, i: int)
    requires
        token_at(ts, i, TokenKind::FatArrow),
    ensures
        fails_like(cons_branch(ts, rules(ts, i), i), expression(ts, rules(ts, i + 1), i + 1)),
{
    broadcast use group_rules;

    only_cons_branch_then(ts, i);
    reveal(cons_branch_then);
}

/// The branch that receives the first of `xs`, then the second one and so on, then is `rest`.
pub open spec fn branch_receives(span: Span, xs: Seq<Pattern>,
    rest: ConstructBranch) -> ConstructBranch
    decreases xs.len(),
{
    if xs.len() == 0 {
        rest
    } else {
        ConstructBranch::Receive(span, xs[0], Box::new(branch_receives(span, xs.drop_first(),
            rest)))
    }
}

/// One after the other, from the last one on.
pub(crate) proof fn fold_branch_receives(span: Span, xs: Seq<Pattern>, rest: ConstructBranch)
    ensures
        xs.fold_right(branch_receive_step(span), rest) == branch_receives(span, xs, rest),
    decreases xs.len(),
{
    xs.lemma_fold_right_alt(branch_receive_step(span), rest);
    if xs.len() > 0 {
        let others = xs.drop_first();
        others.lemma_fold_right_alt(branch_receive_step(span), rest);
        fold_branch_receives(span, others, rest);
        assert(xs.subrange(1, xs.len() as int) =~= others);
    }
}

/// A branch `(p, q) b` receives `p`, then `q`, and goes on with `b`.
pub proof fn branch_receive(
    ts: Seq<Token>,
    i: int,
    args: Seq<Pattern>,
    args_end: int,
    rest: ConstructBranch,
    rest_end: int,
)
    requires
        token_at(ts, i, TokenKind::LParen),
        patterns_at(ts, i + 1, args_end, args),
        token_at(ts, args_end, TokenKind::RParen),
        cons_branch_at(ts, args_end + 1, rest_end, rest),
    ensures
        cons_branch_at(
            ts,
            i,
            rest_end,
            branch_receives(ts[i].span.join(rest.span()), args, rest),
        ),
{
    broadcast use group_rules;

    read_patterns(ts, i, i + 1, args_end, args);
    ahead_cons_branch(ts, args_end + 1, rest_end, rest);
    fold_branch_receives(ts[i].span.join(rest.span()), args, rest);
    not_word_type_pattern(ts, i + 1, args[0]);
    reveal(cons_branch_receive);
    only_cons_branch_receive(ts, i);
}

/// What starts like `(p, q) b` is that, with all of its parts.
pub proof fn branch_receive_parts(
    ts: Seq<Token>,
    i: int,
    j: int,
    whole: ConstructBranch,
) -> (parts: (Seq<Pattern>, int, ConstructBranch, int))
    requires
        cons_branch_at(ts, i, j, whole),
        token_at(ts, i, TokenKind::LParen),
        !token_at(ts, i + 1, TokenKind::Type),
    ensures
        ({
            let (args, args_end, rest, rest_end) = parts;
            &&& token_at(ts, i, TokenKind::LParen)
            &&& patterns_at(ts, i + 1, args_end, args)
            &&& token_at(ts, args_end, TokenKind::RParen)
            &&& cons_branch_at(ts, args_end + 1, rest_end, rest)
            &&& j == rest_end
            &&& whole == (branch_receives(ts[i].span.join(rest.span()), args, rest))
        }),
{
    broadcast use group_rules;

    let r = rules(ts, i);
    only_cons_branch_receive(ts, i);
    reveal(cons_branch_receive);
    let args_found = list1(ts, r.pattern, i + 1);
    let args_end = args_found->Done_0;
    let args = args_found->Done_1;
    found_patterns(ts, i, i + 1, args_end, args);
    let rest_found = cons_branch(ts, rules(ts, args_end + 1), args_end + 1);
    let rest_end = rest_found->Done_0;
    let rest = rest_found->Done_1;
    ahead_cons_branch(ts, args_end + 1, rest_end, rest);
    fold_branch_receives(ts[i].span.join(rest.span()), args, rest);
    (args, args_end, rest, rest_end)
}

/// What starts like `(p, q) b` and lacks a part fails for good where that is missing.
pub proof fn branch_receive_fails(ts: Seq<Token>, i: int, args: Seq<Pattern>, args_end: int)
    requires
        token_at(ts, i, TokenKind::LParen),
        !token_at(ts, i + 1, TokenKind::Type),
    ensures
        fails_like(cons_branch(ts, rules(ts, i), i), pattern(ts, rules(ts, i + 1), i + 1)),
        patterns_at(ts, i + 1, args_end, args) && !token_at(ts, args_end, TokenKind::RParen)
            ==> lacks(ts, cons_branch(ts, rules(ts, i), i), args_end, TokenKind::RParen),
        patterns_at(ts, i + 1, args_end, args) && token_at(ts, args_end, TokenKind::RParen)
            ==> fails_like(cons_branch(ts, rules(ts, i), i), cons_branch(ts, rules(ts,
            args_end + 1), args_end + 1)),
{
    broadcast use group_rules;

    only_cons_branch_receive(ts, i);
    reveal(cons_branch_receive);
    if patterns_at(ts, i + 1, args_end, args) {
        read_patterns(ts, i, i + 1, args_end, args);
    }
}

/// The branch that receives a type under the first of the names `xs`, then one under the second one
/// and so on, then is `rest`.
pub open spec fn branch_receives_types(span: Span, xs: Seq<LocalName>,
    rest: ConstructBranch) -> ConstructBranch
    decreases xs.len(),
{
    if xs.len() == 0 {
        rest
    } else {
        ConstructBranch::ReceiveType(span, xs[0], Box::new(branch_receives_types(span,
            xs.drop_first(), rest)))
    }
}

/// One after the other, from the last one on.
pub(crate) proof fn fold_branch_receives_types(span: Span, xs: Seq<LocalName>,
    rest: ConstructBranch)
    ensures
        xs.fold_right(branch_receive_type_step(span), rest) == branch_receives_types(span, xs,
            rest),
    decreases xs.len(),
{
    xs.lemma_fold_right_alt(branch_receive_type_step(span), rest);
    if xs.len() > 0 {
        let others = xs.drop_first();
        others.lemma_fold_right_alt(branch_receive_type_step(span), rest);
        fold_branch_receives_types(span, others, rest);
        assert(xs.subrange(1, xs.len() as int) =~= others);
    }
}

/// A branch `(type a, b) c` receives types under the names `a` and `b` and goes on with `c`.
pub proof fn branch_receive_type(
    ts: Seq<Token>,
    i: int,
    names: Seq<LocalName>,
    names_end: int,
    rest: ConstructBranch,
    rest_end: int,
)
    requires
        token_at(ts, i, TokenKind::LParen),
        token_at(ts, i + 1, TokenKind::Type),
        names_at(ts, i + 2, names_end, names),
        token_at(ts, names_end, TokenKind::RParen),
        cons_branch_at(ts, names_end + 1, rest_end, rest),
    ensures
        cons_branch_at(
            ts,
            i,
            rest_end,
            branch_receives_types(ts[i].span.join(rest.span()), names, rest),
        ),
{
    broadcast use group_rules;

    read_names(ts, i + 2, names_end, names);
    ahead_cons_branch(ts, names_end + 1, rest_end, rest);
    fold_branch_receives_types(ts[i].span.join(rest.span()), names, rest);
    reveal(cons_branch_recv_type);
    only_cons_branch_recv_type(ts, i);
}

/// What starts like `(type a, b) c` is that, with all of its parts.
pub proof fn branch_receive_type_parts(
    ts: Seq<Token>,
    i: int,
    j: int,
    whole: ConstructBranch,
) -> (parts: (Seq<LocalName>, int, ConstructBranch, int))
    requires
        cons_branch_at(ts, i, j, whole),
        token_at(ts, i, TokenKind::LParen),
        token_at(ts, i + 1, TokenKind::Type),
    ensures
        ({
            let (names, names_end, rest, rest_end) = parts;
            &&& token_at(ts, i, TokenKind::LParen)
            &&& token_at(ts, i + 1, TokenKind::Type)
            &&& names_at(ts, i + 2, names_end, names)
            &&& token_at(ts, names_end, TokenKind::RParen)
            &&& cons_branch_at(ts, names_end + 1, rest_end, rest)
            &&& j == rest_end
            &&& whole == (branch_receives_types(ts[i].span.join(rest.span()), names, rest))
        }),
{
    broadcast use group_rules;

    only_cons_branch_recv_type(ts, i);
    reveal(cons_branch_recv_type);
    let names_found = list1(ts, |i: int| local_name(ts, i), i + 2);
    let names_end = names_found->Done_0;
    let names = names_found->Done_1;
    found_names(ts, i + 2, names_end, names);
    let rest_found = cons_branch(ts, rules(ts, names_end + 1), names_end + 1);
    let rest_end = rest_found->Done_0;
    let rest = rest_found->Done_1;
    ahead_cons_branch(ts, names_end + 1, rest_end, rest);
    fold_branch_receives_types(ts[i].span.join(rest.span()), names, rest);
    (names, names_end, rest, rest_end)
}

/// What starts like `(type a, b) c` and lacks a part fails for good where that is missing.
pub proof fn branch_receive_type_fails(
    ts: Seq<Token>,
    i: int,
    names: Seq<LocalName>,
    names_end: int,
)
    requires
        token_at(ts, i, TokenKind::LParen),
        token_at(ts, i + 1, TokenKind::Type),
    ensures
        !token_at(ts, i + 2, TokenKind::LowercaseIdentifier)
            ==> fails_at(cons_branch(ts, rules(ts, i), i), i + 2),
        names_at(ts, i + 2, names_end, names) && !token_at(ts, names_end, TokenKind::RParen)
            ==> lacks(ts, cons_branch(ts, rules(ts, i), i), names_end, TokenKind::RParen),
        names_at(ts, i + 2, names_end, names) && token_at(ts, names_end, TokenKind::RParen)
            ==> fails_like(cons_branch(ts, rules(ts, i), i), cons_branch(ts, rules(ts,
            names_end + 1), names_end + 1)),
{
    broadcast use group_rules;

    only_cons_branch_recv_type(ts, i);
    reveal(cons_branch_recv_type);
    if names_at(ts, i + 2, names_end, names) {
        read_names(ts, i + 2, names_end, names);
    }
}

} // verus!
