//! What commands come to.
use super::super::grammar::{branches_body, group_rules, label, list1, local_name, rules};
use super::super::grammar::commands::{
    branch_receive_step, branch_receive_type_step, cmd, cmd_begin, cmd_branch, cmd_branch_bind_then,
    cmd_branch_continue, cmd_branch_default, cmd_branch_receive, cmd_branch_recv_type,
    cmd_branch_then, cmd_branch_try, cmd_break, cmd_case, cmd_continue, cmd_default, cmd_link,
    cmd_loop, cmd_pipe, cmd_receive, cmd_recv_type, cmd_send, cmd_send_type, cmd_signal, cmd_step,
    cmd_then, cmd_try, cmd_unfounded, receive_step, receive_type_step, send_step, send_type_step,
};
use super::super::grammar::expressions::{expression, operand};
use super::super::grammar::patterns::pattern;
use super::super::grammar::processes::{pass_process, process};
use super::super::grammar::types::typ;
use super::super::outcome::Outcome;
use super::{
    ahead_cmd, ahead_cmd_branch, ahead_expression, ahead_operand, ahead_pass_process, ahead_process,
    cmd_at, cmd_branch_at, collected, expression_at, fails_at, fails_like, fails_openly, label_at,
    lacks, local_name_at, operand_at, opt_pass_process_at, opt_process_at, or_label_span,
    or_noop_command, or_noop_process, token_at,
};
use super::expressions::not_word_type_expression;
use super::misses::{
    miss_cmd_step, only_cmd_begin, only_cmd_branch_bind_then, only_cmd_branch_continue,
    only_cmd_branch_default, only_cmd_branch_receive, only_cmd_branch_recv_type,
    only_cmd_branch_then, only_cmd_branch_try, only_cmd_break, only_cmd_case, only_cmd_continue,
    only_cmd_default, only_cmd_link, only_cmd_loop, only_cmd_pipe, only_cmd_receive,
    only_cmd_recv_type, only_cmd_send, only_cmd_send_type, only_cmd_signal, only_cmd_try,
    only_cmd_unfounded,
};
use super::parts::{
    cmd_branch_body_at, expressions_at, found_cmd_branch_body, found_expressions, found_label,
    found_names, found_patterns, found_typs, names_at, patterns_at, read_cmd_branch_body,
    read_expressions, read_label, read_local_name, read_names, read_patterns, read_typs, typs_at,
};
use super::patterns::not_word_type_pattern;
use crate::model::{
    Command, CommandBranch, Expression, LocalName, Pattern, Process, Span, Token, Type,
};
use crate::token::TokenKind;
use vstd::prelude::*;

verus! {

/// `<> e` links with `e`.
pub proof fn link(ts: Seq<Token>, i: int, e: Expression, e_end: int)
    requires
        token_at(ts, i, TokenKind::Link),
        expression_at(ts, i + 1, e_end, e),
    ensures
        cmd_at(
            ts,
            i,
            e_end,
            Some(Command::Link(ts[i].span.join(e.span()), Box::new(e))),
        ),
{
    broadcast use group_rules;

    ahead_expression(ts, i + 1, e_end, e);
    reveal(cmd_link);
    only_cmd_link(ts, i);
}

/// What starts like `<> e` is that, with all of its parts.
pub proof fn link_parts(
    ts: Seq<Token>,
    i: int,
    j: int,
    whole: Option<Command>,
) -> (parts: (Expression, int))
    requires
        cmd_at(ts, i, j, whole),
        token_at(ts, i, TokenKind::Link),
        whole is Some,
    ensures
        ({
            let (e, e_end) = parts;
            &&& token_at(ts, i, TokenKind::Link)
            &&& expression_at(ts, i + 1, e_end, e)
            &&& j == e_end
            &&& whole == (Some(Command::Link(ts[i].span.join(e.span()), Box::new(e))))
        }),
{
    broadcast use group_rules;

    only_cmd_link(ts, i);
    reveal(cmd_link);
    let e_found = expression(ts, rules(ts, i + 1), i + 1);
    let e_end = e_found->Done_0;
    let e = e_found->Done_1;
    ahead_expression(ts, i + 1, e_end, e);
    (e, e_end)
}

/// What starts like `<> e` and lacks a part fails for good where that is missing.
pub proof fn link_fails(ts: Seq<Token>, i: int)
    requires
        token_at(ts, i, TokenKind::Link),
    ensures
        fails_like(cmd(ts, rules(ts, i), i), expression(ts, rules(ts, i + 1), i + 1)),
{
    broadcast use group_rules;

    only_cmd_link(ts, i);
    reveal(cmd_link);
}

/// `.x c` signals `x` and goes on with `c`.
pub proof fn signal(ts: Seq<Token>, i: int, n: LocalName, c: Option<Command>, c_end: int)
    requires
        token_at(ts, i, TokenKind::Dot),
        local_name_at(ts, i + 1, n),
        cmd_at(ts, i + 2, c_end, c),
    ensures
        cmd_at(
            ts,
            i,
            c_end,
            Some(
                Command::Signal(
                    ts[i].span.join(or_noop_command(c, n.span).span()),
                    n,
                    Box::new(or_noop_command(c, n.span)),
                ),
            ),
        ),
{
    broadcast use group_rules;

    read_local_name(ts, i + 1, n);
    ahead_cmd(ts, i + 2, c_end, c);
    reveal(cmd_signal);
    only_cmd_signal(ts, i);
}

/// What starts like `.x c` is that, with all of its parts.
pub proof fn signal_parts(
    ts: Seq<Token>,
    i: int,
    j: int,
    whole: Option<Command>,
) -> (parts: (LocalName, Option<Command>, int))
    requires
        cmd_at(ts, i, j, whole),
        token_at(ts, i, TokenKind::Dot),
        token_at(ts, i + 1, TokenKind::LowercaseIdentifier),
        whole is Some,
    ensures
        ({
            let (n, c, c_end) = parts;
            &&& token_at(ts, i, TokenKind::Dot)
            &&& local_name_at(ts, i + 1, n)
            &&& cmd_at(ts, i + 2, c_end, c)
            &&& j == c_end
            &&& whole == (Some(
                Command::Signal(
                    ts[i].span.join(or_noop_command(c, n.span).span()),
                    n,
                    Box::new(or_noop_command(c, n.span)),
                ),
            ))
        }),
{
    broadcast use group_rules;

    only_cmd_signal(ts, i);
    reveal(cmd_signal);
    let n = LocalName { span: ts[i + 1].span, string: ts[i + 1].raw };
    let c_found = cmd(ts, rules(ts, i + 2), i + 2);
    let c_end = c_found->Done_0;
    let c = c_found->Done_1;
    ahead_cmd(ts, i + 2, c_end, c);
    (n, c, c_end)
}

/// `.case { .x => { b } } q` has these branches, by name, and goes on with `q`, if that is there.
pub proof fn case(
    ts: Seq<Token>,
    i: int,
    rows: Seq<(LocalName, CommandBranch)>,
    rows_end: int,
    q: Option<Process>,
    q_end: int,
)
    requires
        token_at(ts, i, TokenKind::Dot),
        token_at(ts, i + 1, TokenKind::Case),
        cmd_branch_body_at(ts, i + 2, rows_end, rows),
        opt_pass_process_at(ts, rows_end, q_end, q),
    ensures
        cmd_at(
            ts,
            i,
            q_end,
            Some(
                Command::Case(
                    ts[i].span.join(ts[i + 2].span.join(ts[rows_end - 1].span)),
                    collected(Seq::empty(), rows),
                    match q {
                        Some(q) => Some(Box::new(q)),
                        None => None,
                    },
                ),
            ),
        ),
{
    broadcast use group_rules;

    read_cmd_branch_body(ts, i, i + 2, rows_end, rows);
    if let Some(x) = q {
        ahead_pass_process(ts, rows_end, q_end, x);
    }
    reveal(cmd_case);
    only_cmd_case(ts, i);
}

/// What starts like `.case { .x => { b } } q` is that, with all of its parts.
pub proof fn case_parts(
    ts: Seq<Token>,
    i: int,
    j: int,
    whole: Option<Command>,
) -> (parts: (Seq<(LocalName, CommandBranch)>, int, Option<Process>, int))
    requires
        cmd_at(ts, i, j, whole),
        token_at(ts, i, TokenKind::Dot),
        token_at(ts, i + 1, TokenKind::Case),
        whole is Some,
    ensures
        ({
            let (rows, rows_end, q, q_end) = parts;
            &&& token_at(ts, i, TokenKind::Dot)
            &&& token_at(ts, i + 1, TokenKind::Case)
            &&& cmd_branch_body_at(ts, i + 2, rows_end, rows)
            &&& opt_pass_process_at(ts, rows_end, q_end, q)
            &&& j == q_end
            &&& whole == (Some(
                Command::Case(
                    ts[i].span.join(ts[i + 2].span.join(ts[rows_end - 1].span)),
                    collected(Seq::empty(), rows),
                    match q {
                        Some(q) => Some(Box::new(q)),
                        None => None,
                    },
                ),
            ))
        }),
{
    broadcast use group_rules;

    let r = rules(ts, i);
    only_cmd_case(ts, i);
    reveal(cmd_case);
    let rows_found = branches_body(ts, r.cmd_branch, i + 2);
    let rows_end = rows_found->Done_0;
    let rows = found_cmd_branch_body(ts, i, i + 2, rows_end, rows_found->Done_1);
    let q_found = pass_process(ts, rules(ts, rows_end), rows_end);
    let q = match q_found {
        Outcome::Done(_, x) => Some(x),
        Outcome::Failed { .. } => None,
    };
    let q_end = match q_found {
        Outcome::Done(end, _) => end,
        Outcome::Failed { .. } => rows_end,
    };
    if let Some(x) = q {
        ahead_pass_process(ts, rows_end, q_end, x);
    }
    (rows, rows_end, q, q_end)
}

/// What starts like `.case { .x => { b } } q` and lacks a part fails for good where that is
/// missing.
pub proof fn case_fails(
    ts: Seq<Token>,
    i: int,
    rows: Seq<(LocalName, CommandBranch)>,
    rows_end: int,
)
    requires
        token_at(ts, i, TokenKind::Dot),
        token_at(ts, i + 1, TokenKind::Case),
    ensures
        !token_at(ts, i + 2, TokenKind::LCurly)
            ==> lacks(ts, cmd(ts, rules(ts, i), i), i + 2, TokenKind::LCurly),
        cmd_branch_body_at(ts, i + 2, rows_end, rows)
            && !fails_openly(pass_process(ts, rules(ts, rows_end), rows_end))
            ==> fails_like(cmd(ts, rules(ts, i), i), pass_process(ts, rules(ts, rows_end),
            rows_end)),
{
    broadcast use group_rules;

    only_cmd_case(ts, i);
    reveal(cmd_case);
    if cmd_branch_body_at(ts, i + 2, rows_end, rows) {
        read_cmd_branch_body(ts, i, i + 2, rows_end, rows);
    }
}

/// `!` ends.
pub proof fn broken(ts: Seq<Token>, i: int)
    requires
        token_at(ts, i, TokenKind::Bang),
    ensures
        cmd_at(
            ts,
            i,
            i + 1,
            Some(Command::Break(ts[i].span)),
        ),
{
    broadcast use group_rules;

    reveal(cmd_break);
    only_cmd_break(ts, i);
}

/// `? q` lets the other side end and goes on with `q`; it does nothing more only if no process
/// follows.
pub proof fn continued(ts: Seq<Token>, i: int, q: Option<Process>, q_end: int)
    requires
        token_at(ts, i, TokenKind::Quest),
        opt_process_at(ts, i + 1, q_end, q),
    ensures
        cmd_at(
            ts,
            i,
            q_end,
            Some(
                Command::Continue(
                    match q {
                        Some(q) => ts[i].span.join(q.span()),
                        None => ts[i].span,
                    },
                    Box::new(or_noop_process(q, ts[i].span)),
                ),
            ),
        ),
{
    broadcast use group_rules;

    if let Some(x) = q {
        ahead_process(ts, i + 1, q_end, x);
    }
    reveal(cmd_continue);
    only_cmd_continue(ts, i);
}

/// What starts like `? q` is that, with all of its parts.
pub proof fn continued_parts(
    ts: Seq<Token>,
    i: int,
    j: int,
    whole: Option<Command>,
) -> (parts: (Option<Process>, int))
    requires
        cmd_at(ts, i, j, whole),
        token_at(ts, i, TokenKind::Quest),
        whole is Some,
    ensures
        ({
            let (q, q_end) = parts;
            &&& token_at(ts, i, TokenKind::Quest)
            &&& opt_process_at(ts, i + 1, q_end, q)
            &&& j == q_end
            &&& whole == (Some(
                Command::Continue(
                    match q {
                        Some(q) => ts[i].span.join(q.span()),
                        None => ts[i].span,
                    },
                    Box::new(or_noop_process(q, ts[i].span)),
                ),
            ))
        }),
{
    broadcast use group_rules;

    only_cmd_continue(ts, i);
    reveal(cmd_continue);
    let q_found = process(ts, rules(ts, i + 1), i + 1);
    let q = match q_found {
        Outcome::Done(_, x) => Some(x),
        Outcome::Failed { .. } => None,
    };
    let q_end = match q_found {
        Outcome::Done(end, _) => end,
        Outcome::Failed { .. } => i + 1,
    };
    if let Some(x) = q {
        ahead_process(ts, i + 1, q_end, x);
    }
    (q, q_end)
}

/// `.begin@l c` begins a loop with the label `l` and goes on with `c`.
pub proof fn begin(
    ts: Seq<Token>,
    i: int,
    l: Option<LocalName>,
    l_end: int,
    c: Option<Command>,
    c_end: int,
)
    requires
        token_at(ts, i, TokenKind::Dot),
        token_at(ts, i + 1, TokenKind::Begin),
        label_at(ts, i + 2, l_end, l),
        cmd_at(ts, l_end, c_end, c),
    ensures
        cmd_at(
            ts,
            i,
            c_end,
            Some(
                Command::Begin {
                    span: ts[i].span.join(or_noop_command(c, or_label_span(l, ts[i].span)).span()),
                    unfounded: false,
                    label: l,
                    then: Box::new(or_noop_command(c, or_label_span(l, ts[i].span))),
                },
            ),
        ),
{
    broadcast use group_rules;

    read_label(ts, i + 2, l_end, l);
    ahead_cmd(ts, l_end, c_end, c);
    reveal(cmd_begin);
    only_cmd_begin(ts, i);
}

/// What starts like `.begin@l c` is that, with all of its parts.
pub proof fn begin_parts(
    ts: Seq<Token>,
    i: int,
    j: int,
    whole: Option<Command>,
) -> (parts: (Option<LocalName>, int, Option<Command>, int))
    requires
        cmd_at(ts, i, j, whole),
        token_at(ts, i, TokenKind::Dot),
        token_at(ts, i + 1, TokenKind::Begin),
        whole is Some,
    ensures
        ({
            let (l, l_end, c, c_end) = parts;
            &&& token_at(ts, i, TokenKind::Dot)
            &&& token_at(ts, i + 1, TokenKind::Begin)
            &&& label_at(ts, i + 2, l_end, l)
            &&& cmd_at(ts, l_end, c_end, c)
            &&& j == c_end
            &&& whole == (Some(
                Command::Begin {
                    span: ts[i].span.join(or_noop_command(c, or_label_span(l, ts[i].span)).span()),
                    unfounded: false,
                    label: l,
                    then: Box::new(or_noop_command(c, or_label_span(l, ts[i].span))),
                },
            ))
        }),
{
    broadcast use group_rules;

    only_cmd_begin(ts, i);
    reveal(cmd_begin);
    let l_found = label(ts, i + 2);
    let l_end = l_found->Done_0;
    let l = l_found->Done_1;
    found_label(ts, i + 2, l_end, l);
    let c_found = cmd(ts, rules(ts, l_end), l_end);
    let c_end = c_found->Done_0;
    let c = c_found->Done_1;
    ahead_cmd(ts, l_end, c_end, c);
    (l, l_end, c, c_end)
}

/// What starts like `.begin@l c` and lacks a part fails for good where that is missing.
pub proof fn begin_fails(ts: Seq<Token>, i: int, l: Option<LocalName>, l_end: int)
    requires
        token_at(ts, i, TokenKind::Dot),
        token_at(ts, i + 1, TokenKind::Begin),
    ensures
        label_at(ts, i + 2, l_end, l)
            ==> fails_like(cmd(ts, rules(ts, i), i), cmd(ts, rules(ts, l_end), l_end)),
{
    broadcast use group_rules;

    only_cmd_begin(ts, i);
    reveal(cmd_begin);
    if label_at(ts, i + 2, l_end, l) {
        read_label(ts, i + 2, l_end, l);
    }
}

/// `.unfounded@l c` begins a loop that need not end, with the label `l`, and goes on with `c`.
pub proof fn unfounded(
    ts: Seq<Token>,
    i: int,
    l: Option<LocalName>,
    l_end: int,
    c: Option<Command>,
    c_end: int,
)
    requires
        token_at(ts, i, TokenKind::Dot),
        token_at(ts, i + 1, TokenKind::Unfounded),
        label_at(ts, i + 2, l_end, l),
        cmd_at(ts, l_end, c_end, c),
    ensures
        cmd_at(
            ts,
            i,
            c_end,
            Some(
                Command::Begin {
                    span: ts[i].span.join(or_noop_command(c, or_label_span(l, ts[i].span)).span()),
                    unfounded: true,
                    label: l,
                    then: Box::new(or_noop_command(c, or_label_span(l, ts[i].span))),
                },
            ),
        ),
{
    broadcast use group_rules;

    read_label(ts, i + 2, l_end, l);
    ahead_cmd(ts, l_end, c_end, c);
    reveal(cmd_unfounded);
    only_cmd_unfounded(ts, i);
}

/// What starts like `.unfounded@l c` is that, with all of its parts.
pub proof fn unfounded_parts(
    ts: Seq<Token>,
    i: int,
    j: int,
    whole: Option<Command>,
) -> (parts: (Option<LocalName>, int, Option<Command>, int))
    requires
        cmd_at(ts, i, j, whole),
        token_at(ts, i, TokenKind::Dot),
        token_at(ts, i + 1, TokenKind::Unfounded),
        whole is Some,
    ensures
        ({
            let (l, l_end, c, c_end) = parts;
            &&& token_at(ts, i, TokenKind::Dot)
            &&& token_at(ts, i + 1, TokenKind::Unfounded)
            &&& label_at(ts, i + 2, l_end, l)
            &&& cmd_at(ts, l_end, c_end, c)
            &&& j == c_end
            &&& whole == (Some(
                Command::Begin {
                    span: ts[i].span.join(or_noop_command(c, or_label_span(l, ts[i].span)).span()),
                    unfounded: true,
                    label: l,
                    then: Box::new(or_noop_command(c, or_label_span(l, ts[i].span))),
                },
            ))
        }),
{
    broadcast use group_rules;

    only_cmd_unfounded(ts, i);
    reveal(cmd_unfounded);
    let l_found = label(ts, i + 2);
    let l_end = l_found->Done_0;
    let l = l_found->Done_1;
    found_label(ts, i + 2, l_end, l);
    let c_found = cmd(ts, rules(ts, l_end), l_end);
    let c_end = c_found->Done_0;
    let c = c_found->Done_1;
    ahead_cmd(ts, l_end, c_end, c);
    (l, l_end, c, c_end)
}

/// What starts like `.unfounded@l c` and lacks a part fails for good where that is missing.
pub proof fn unfounded_fails(ts: Seq<Token>, i: int, l: Option<LocalName>, l_end: int)
    requires
        token_at(ts, i, TokenKind::Dot),
        token_at(ts, i + 1, TokenKind::Unfounded),
    ensures
        label_at(ts, i + 2, l_end, l)
            ==> fails_like(cmd(ts, rules(ts, i), i), cmd(ts, rules(ts, l_end), l_end)),
{
    broadcast use group_rules;

    only_cmd_unfounded(ts, i);
    reveal(cmd_unfounded);
    if label_at(ts, i + 2, l_end, l) {
        read_label(ts, i + 2, l_end, l);
    }
}

/// `.loop@l` goes back to where the label `l` is.
pub proof fn looped(ts: Seq<Token>, i: int, l: Option<LocalName>, l_end: int)
    requires
        token_at(ts, i, TokenKind::Dot),
        token_at(ts, i + 1, TokenKind::Loop),
        label_at(ts, i + 2, l_end, l),
    ensures
        cmd_at(
            ts,
            i,
            l_end,
            Some(Command::Loop(ts[i].span.join(or_label_span(l, ts[i + 1].span)), l)),
        ),
{
    broadcast use group_rules;

    read_label(ts, i + 2, l_end, l);
    reveal(cmd_loop);
    only_cmd_loop(ts, i);
}

/// What starts like `.loop@l` is that, with all of its parts.
pub proof fn looped_parts(
    ts: Seq<Token>,
    i: int,
    j: int,
    whole: Option<Command>,
) -> (parts: (Option<LocalName>, int))
    requires
        cmd_at(ts, i, j, whole),
        token_at(ts, i, TokenKind::Dot),
        token_at(ts, i + 1, TokenKind::Loop),
        whole is Some,
    ensures
        ({
            let (l, l_end) = parts;
            &&& token_at(ts, i, TokenKind::Dot)
            &&& token_at(ts, i + 1, TokenKind::Loop)
            &&& label_at(ts, i + 2, l_end, l)
            &&& j == l_end
            &&& whole == (Some(Command::Loop(ts[i].span.join(or_label_span(l, ts[i + 1].span)), l)))
        }),
{
    broadcast use group_rules;

    only_cmd_loop(ts, i);
    reveal(cmd_loop);
    let l_found = label(ts, i + 2);
    let l_end = l_found->Done_0;
    let l = l_found->Done_1;
    found_label(ts, i + 2, l_end, l);
    (l, l_end)
}

/// The command that sends the first of the types `xs`, then the second one and so on, then is
/// `rest`.
pub open spec fn sends_types(span: Span, xs: Seq<Type>, rest: Command) -> Command
    decreases xs.len(),
{
    if xs.len() == 0 {
        rest
    } else {
        Command::SendType(span, xs[0], Box::new(sends_types(span, xs.drop_first(), rest)))
    }
}

/// One after the other, from the last one on.
pub(crate) proof fn fold_sends_types(span: Span, xs: Seq<Type>, rest: Command)
    ensures
        xs.fold_right(send_type_step(span), rest) == sends_types(span, xs, rest),
    decreases xs.len(),
{
    xs.lemma_fold_right_alt(send_type_step(span), rest);
    if xs.len() > 0 {
        let others = xs.drop_first();
        others.lemma_fold_right_alt(send_type_step(span), rest);
        fold_sends_types(span, others, rest);
        assert(xs.subrange(1, xs.len() as int) =~= others);
    }
}

/// `(type a, b) c` sends the types `a` and `b` and goes on with `c`.
pub proof fn send_type(
    ts: Seq<Token>,
    i: int,
    args: Seq<Type>,
    args_end: int,
    c: Option<Command>,
    c_end: int,
)
    requires
        token_at(ts, i, TokenKind::LParen),
        token_at(ts, i + 1, TokenKind::Type),
        typs_at(ts, i + 2, args_end, args),
        token_at(ts, args_end, TokenKind::RParen),
        cmd_at(ts, args_end + 1, c_end, c),
    ensures
        cmd_at(
            ts,
            i,
            c_end,
            Some(
                sends_types(
                    ts[i].span.join(or_noop_command(c, ts[args_end].span).span()),
                    args,
                    or_noop_command(c, ts[args_end].span),
                ),
            ),
        ),
{
    broadcast use group_rules;

    read_typs(ts, i, i + 2, args_end, args);
    ahead_cmd(ts, args_end + 1, c_end, c);
    let rest = or_noop_command(c, ts[args_end].span);
    fold_sends_types(ts[i].span.join(rest.span()), args, rest);
    reveal(cmd_send_type);
    only_cmd_send_type(ts, i);
}

/// What starts like `(type a, b) c` is that, with all of its parts.
pub proof fn send_type_parts(
    ts: Seq<Token>,
    i: int,
    j: int,
    whole: Option<Command>,
) -> (parts: (Seq<Type>, int, Option<Command>, int))
    requires
        cmd_at(ts, i, j, whole),
        token_at(ts, i, TokenKind::LParen),
        token_at(ts, i + 1, TokenKind::Type),
        whole is Some,
    ensures
        ({
            let (args, args_end, c, c_end) = parts;
            &&& token_at(ts, i, TokenKind::LParen)
            &&& token_at(ts, i + 1, TokenKind::Type)
            &&& typs_at(ts, i + 2, args_end, args)
            &&& token_at(ts, args_end, TokenKind::RParen)
            &&& cmd_at(ts, args_end + 1, c_end, c)
            &&& j == c_end
            &&& whole == (Some(
                sends_types(
                    ts[i].span.join(or_noop_command(c, ts[args_end].span).span()),
                    args,
                    or_noop_command(c, ts[args_end].span),
                ),
            ))
        }),
{
    broadcast use group_rules;

    let r = rules(ts, i);
    only_cmd_send_type(ts, i);
    reveal(cmd_send_type);
    let args_found = list1(ts, r.typ, i + 2);
    let args_end = args_found->Done_0;
    let args = args_found->Done_1;
    found_typs(ts, i, i + 2, args_end, args);
    let c_found = cmd(ts, rules(ts, args_end + 1), args_end + 1);
    let c_end = c_found->Done_0;
    let c = c_found->Done_1;
    ahead_cmd(ts, args_end + 1, c_end, c);
    let rest = or_noop_command(c, ts[args_end].span);
    fold_sends_types(ts[i].span.join(rest.span()), args, rest);
    (args, args_end, c, c_end)
}

/// What starts like `(type a, b) c` and lacks a part fails for good where that is missing.
pub proof fn send_type_fails(ts: Seq<Token>, i: int, args: Seq<Type>, args_end: int)
    requires
        token_at(ts, i, TokenKind::LParen),
        token_at(ts, i + 1, TokenKind::Type),
    ensures
        fails_like(cmd(ts, rules(ts, i), i), typ(ts, rules(ts, i + 2), i + 2)),
        typs_at(ts, i + 2, args_end, args) && !token_at(ts, args_end, TokenKind::RParen)
            ==> lacks(ts, cmd(ts, rules(ts, i), i), args_end, TokenKind::RParen),
        typs_at(ts, i + 2, args_end, args) && token_at(ts, args_end, TokenKind::RParen)
            ==> fails_like(cmd(ts, rules(ts, i), i), cmd(ts, rules(ts, args_end + 1),
            args_end + 1)),
{
    broadcast use group_rules;

    only_cmd_send_type(ts, i);
    reveal(cmd_send_type);
    if typs_at(ts, i + 2, args_end, args) {
        read_typs(ts, i, i + 2, args_end, args);
    }
}

/// The command that sends the first of `xs`, then the second one and so on, then is `rest`.
pub open spec fn sends(span: Span, xs: Seq<Expression>, rest: Command) -> Command
    decreases xs.len(),
{
    if xs.len() == 0 {
        rest
    } else {
        Command::Send(span, xs[0], Box::new(sends(span, xs.drop_first(), rest)))
    }
}

/// One after the other, from the last one on.
pub(crate) proof fn fold_sends(span: Span, xs: Seq<Expression>, rest: Command)
    ensures
        xs.fold_right(send_step(span), rest) == sends(span, xs, rest),
    decreases xs.len(),
{
    xs.lemma_fold_right_alt(send_step(span), rest);
    if xs.len() > 0 {
        let others = xs.drop_first();
        others.lemma_fold_right_alt(send_step(span), rest);
        fold_sends(span, others, rest);
        assert(xs.subrange(1, xs.len() as int) =~= others);
    }
}

/// `(e, f) c` sends `e`, then `f`, and goes on with `c`.
pub proof fn send(
    ts: Seq<Token>,
    i: int,
    args: Seq<Expression>,
    args_end: int,
    c: Option<Command>,
    c_end: int,
)
    requires
        token_at(ts, i, TokenKind::LParen),
        expressions_at(ts, i + 1, args_end, args),
        token_at(ts, args_end, TokenKind::RParen),
        cmd_at(ts, args_end + 1, c_end, c),
    ensures
        cmd_at(
            ts,
            i,
            c_end,
            Some(
                sends(
                    ts[i].span.join(or_noop_command(c, ts[args_end].span).span()),
                    args,
                    or_noop_command(c, ts[args_end].span),
                ),
            ),
        ),
{
    broadcast use group_rules;

    read_expressions(ts, i, i + 1, args_end, args);
    ahead_cmd(ts, args_end + 1, c_end, c);
    let rest = or_noop_command(c, ts[args_end].span);
    fold_sends(ts[i].span.join(rest.span()), args, rest);
    not_word_type_expression(ts, i + 1, args[0]);
    reveal(cmd_send);
    only_cmd_send(ts, i);
}

/// What starts like `(e, f) c` is that, with all of its parts.
pub proof fn send_parts(
    ts: Seq<Token>,
    i: int,
    j: int,
    whole: Option<Command>,
) -> (parts: (Seq<Expression>, int, Option<Command>, int))
    requires
        cmd_at(ts, i, j, whole),
        token_at(ts, i, TokenKind::LParen),
        !token_at(ts, i + 1, TokenKind::Type),
        whole is Some,
    ensures
        ({
            let (args, args_end, c, c_end) = parts;
            &&& token_at(ts, i, TokenKind::LParen)
            &&& expressions_at(ts, i + 1, args_end, args)
            &&& token_at(ts, args_end, TokenKind::RParen)
            &&& cmd_at(ts, args_end + 1, c_end, c)
            &&& j == c_end
            &&& whole == (Some(
                sends(
                    ts[i].span.join(or_noop_command(c, ts[args_end].span).span()),
                    args,
                    or_noop_command(c, ts[args_end].span),
                ),
            ))
        }),
{
    broadcast use group_rules;

    let r = rules(ts, i);
    only_cmd_send(ts, i);
    reveal(cmd_send);
    let args_found = list1(ts, r.expression, i + 1);
    let args_end = args_found->Done_0;
    let args = args_found->Done_1;
    found_expressions(ts, i, i + 1, args_end, args);
    let c_found = cmd(ts, rules(ts, args_end + 1), args_end + 1);
    let c_end = c_found->Done_0;
    let c = c_found->Done_1;
    ahead_cmd(ts, args_end + 1, c_end, c);
    let rest = or_noop_command(c, ts[args_end].span);
    fold_sends(ts[i].span.join(rest.span()), args, rest);
    (args, args_end, c, c_end)
}

/// What starts like `(e, f) c` and lacks a part fails for good where that is missing.
pub proof fn send_fails(ts: Seq<Token>, i: int, args: Seq<Expression>, args_end: int)
    requires
        token_at(ts, i, TokenKind::LParen),
        !token_at(ts, i + 1, TokenKind::Type),
    ensures
        fails_like(cmd(ts, rules(ts, i), i), expression(ts, rules(ts, i + 1), i + 1)),
        expressions_at(ts, i + 1, args_end, args) && !token_at(ts, args_end, TokenKind::RParen)
            ==> lacks(ts, cmd(ts, rules(ts, i), i), args_end, TokenKind::RParen),
        expressions_at(ts, i + 1, args_end, args) && token_at(ts, args_end, TokenKind::RParen)
            ==> fails_like(cmd(ts, rules(ts, i), i), cmd(ts, rules(ts, args_end + 1),
            args_end + 1)),
{
    broadcast use group_rules;

    only_cmd_send(ts, i);
    reveal(cmd_send);
    if expressions_at(ts, i + 1, args_end, args) {
        read_expressions(ts, i, i + 1, args_end, args);
    }
}

/// The command that receives a type under the first of the names `xs`, then one under the second
/// one
/// and so on, then is `rest`.
pub open spec fn receives_types(span: Span, xs: Seq<LocalName>, rest: Command) -> Command
    decreases xs.len(),
{
    if xs.len() == 0 {
        rest
    } else {
        Command::ReceiveType(span, xs[0], Box::new(receives_types(span, xs.drop_first(), rest)))
    }
}

/// One after the other, from the last one on.
pub(crate) proof fn fold_receives_types(span: Span, xs: Seq<LocalName>, rest: Command)
    ensures
        xs.fold_right(receive_type_step(span), rest) == receives_types(span, xs, rest),
    decreases xs.len(),
{
    xs.lemma_fold_right_alt(receive_type_step(span), rest);
    if xs.len() > 0 {
        let others = xs.drop_first();
        others.lemma_fold_right_alt(receive_type_step(span), rest);
        fold_receives_types(span, others, rest);
        assert(xs.subrange(1, xs.len() as int) =~= others);
    }
}

/// `[type a, b] c` receives types under the names `a` and `b` and goes on with `c`.
pub proof fn receive_type(
    ts: Seq<Token>,
    i: int,
    args: Seq<LocalName>,
    args_end: int,
    c: Option<Command>,
    c_end: int,
)
    requires
        token_at(ts, i, TokenKind::LBrack),
        token_at(ts, i + 1, TokenKind::Type),
        names_at(ts, i + 2, args_end, args),
        token_at(ts, args_end, TokenKind::RBrack),
        cmd_at(ts, args_end + 1, c_end, c),
    ensures
        cmd_at(
            ts,
            i,
            c_end,
            Some(
                receives_types(
                    ts[i].span.join(or_noop_command(c, ts[args_end].span).span()),
                    args,
                    or_noop_command(c, ts[args_end].span),
                ),
            ),
        ),
{
    broadcast use group_rules;

    read_names(ts, i + 2, args_end, args);
    ahead_cmd(ts, args_end + 1, c_end, c);
    let rest = or_noop_command(c, ts[args_end].span);
    fold_receives_types(ts[i].span.join(rest.span()), args, rest);
    reveal(cmd_recv_type);
    only_cmd_recv_type(ts, i);
}

/// What starts like `[type a, b] c` is that, with all of its parts.
pub proof fn receive_type_parts(
    ts: Seq<Token>,
    i: int,
    j: int,
    whole: Option<Command>,
) -> (parts: (Seq<LocalName>, int, Option<Command>, int))
    requires
        cmd_at(ts, i, j, whole),
        token_at(ts, i, TokenKind::LBrack),
        token_at(ts, i + 1, TokenKind::Type),
        whole is Some,
    ensures
        ({
            let (args, args_end, c, c_end) = parts;
            &&& token_at(ts, i, TokenKind::LBrack)
            &&& token_at(ts, i + 1, TokenKind::Type)
            &&& names_at(ts, i + 2, args_end, args)
            &&& token_at(ts, args_end, TokenKind::RBrack)
            &&& cmd_at(ts, args_end + 1, c_end, c)
            &&& j == c_end
            &&& whole == (Some(
                receives_types(
                    ts[i].span.join(or_noop_command(c, ts[args_end].span).span()),
                    args,
                    or_noop_command(c, ts[args_end].span),
                ),
            ))
        }),
{
    broadcast use group_rules;

    only_cmd_recv_type(ts, i);
    reveal(cmd_recv_type);
    let args_found = list1(ts, |i: int| local_name(ts, i), i + 2);
    let args_end = args_found->Done_0;
    let args = args_found->Done_1;
    found_names(ts, i + 2, args_end, args);
    let c_found = cmd(ts, rules(ts, args_end + 1), args_end + 1);
    let c_end = c_found->Done_0;
    let c = c_found->Done_1;
    ahead_cmd(ts, args_end + 1, c_end, c);
    let rest = or_noop_command(c, ts[args_end].span);
    fold_receives_types(ts[i].span.join(rest.span()), args, rest);
    (args, args_end, c, c_end)
}

/// What starts like `[type a, b] c` and lacks a part fails for good where that is missing.
pub proof fn receive_type_fails(ts: Seq<Token>, i: int, args: Seq<LocalName>, args_end: int)
    requires
        token_at(ts, i, TokenKind::LBrack),
        token_at(ts, i + 1, TokenKind::Type),
    ensures
        !token_at(ts, i + 2, TokenKind::LowercaseIdentifier)
            ==> fails_at(cmd(ts, rules(ts, i), i), i + 2),
        names_at(ts, i + 2, args_end, args) && !token_at(ts, args_end, TokenKind::RBrack)
            ==> lacks(ts, cmd(ts, rules(ts, i), i), args_end, TokenKind::RBrack),
        names_at(ts, i + 2, args_end, args) && token_at(ts, args_end, TokenKind::RBrack)
            ==> fails_like(cmd(ts, rules(ts, i), i), cmd(ts, rules(ts, args_end + 1),
            args_end + 1)),
{
    broadcast use group_rules;

    only_cmd_recv_type(ts, i);
    reveal(cmd_recv_type);
    if names_at(ts, i + 2, args_end, args) {
        read_names(ts, i + 2, args_end, args);
    }
}

/// The command that receives the first of `xs`, then the second one and so on, then is `rest`.
pub open spec fn receives(span: Span, xs: Seq<Pattern>, rest: Command) -> Command
    decreases xs.len(),
{
    if xs.len() == 0 {
        rest
    } else {
        Command::Receive(span, xs[0], Box::new(receives(span, xs.drop_first(), rest)))
    }
}

/// One after the other, from the last one on.
pub(crate) proof fn fold_receives(span: Span, xs: Seq<Pattern>, rest: Command)
    ensures
        xs.fold_right(receive_step(span), rest) == receives(span, xs, rest),
    decreases xs.len(),
{
    xs.lemma_fold_right_alt(receive_step(span), rest);
    if xs.len() > 0 {
        let others = xs.drop_first();
        others.lemma_fold_right_alt(receive_step(span), rest);
        fold_receives(span, others, rest);
        assert(xs.subrange(1, xs.len() as int) =~= others);
    }
}

/// `[p, q] c` receives `p`, then `q`, and goes on with `c`.
pub proof fn receive(
    ts: Seq<Token>,
    i: int,
    args: Seq<Pattern>,
    args_end: int,
    c: Option<Command>,
    c_end: int,
)
    requires
        token_at(ts, i, TokenKind::LBrack),
        patterns_at(ts, i + 1, args_end, args),
        token_at(ts, args_end, TokenKind::RBrack),
        cmd_at(ts, args_end + 1, c_end, c),
    ensures
        cmd_at(
            ts,
            i,
            c_end,
            Some(
                receives(
                    ts[i].span.join(or_noop_command(c, ts[args_end].span).span()),
                    args,
                    or_noop_command(c, ts[args_end].span),
                ),
            ),
        ),
{
    broadcast use group_rules;

    read_patterns(ts, i, i + 1, args_end, args);
    ahead_cmd(ts, args_end + 1, c_end, c);
    let rest = or_noop_command(c, ts[args_end].span);
    fold_receives(ts[i].span.join(rest.span()), args, rest);
    not_word_type_pattern(ts, i + 1, args[0]);
    reveal(cmd_receive);
    only_cmd_receive(ts, i);
}

/// What starts like `[p, q] c` is that, with all of its parts.
pub proof fn receive_parts(
    ts: Seq<Token>,
    i: int,
    j: int,
    whole: Option<Command>,
) -> (parts: (Seq<Pattern>, int, Option<Command>, int))
    requires
        cmd_at(ts, i, j, whole),
        token_at(ts, i, TokenKind::LBrack),
        !token_at(ts, i + 1, TokenKind::Type),
        whole is Some,
    ensures
        ({
            let (args, args_end, c, c_end) = parts;
            &&& token_at(ts, i, TokenKind::LBrack)
            &&& patterns_at(ts, i + 1, args_end, args)
            &&& token_at(ts, args_end, TokenKind::RBrack)
            &&& cmd_at(ts, args_end + 1, c_end, c)
            &&& j == c_end
            &&& whole == (Some(
                receives(
                    ts[i].span.join(or_noop_command(c, ts[args_end].span).span()),
                    args,
                    or_noop_command(c, ts[args_end].span),
                ),
            ))
        }),
{
    broadcast use group_rules;

    let r = rules(ts, i);
    only_cmd_receive(ts, i);
    reveal(cmd_receive);
    let args_found = list1(ts, r.pattern, i + 1);
    let args_end = args_found->Done_0;
    let args = args_found->Done_1;
    found_patterns(ts, i, i + 1, args_end, args);
    let c_found = cmd(ts, rules(ts, args_end + 1), args_end + 1);
    let c_end = c_found->Done_0;
    let c = c_found->Done_1;
    ahead_cmd(ts, args_end + 1, c_end, c);
    let rest = or_noop_command(c, ts[args_end].span);
    fold_receives(ts[i].span.join(rest.span()), args, rest);
    (args, args_end, c, c_end)
}

/// What starts like `[p, q] c` and lacks a part fails for good where that is missing.
pub proof fn receive_fails(ts: Seq<Token>, i: int, args: Seq<Pattern>, args_end: int)
    requires
        token_at(ts, i, TokenKind::LBrack),
        !token_at(ts, i + 1, TokenKind::Type),
    ensures
        fails_like(cmd(ts, rules(ts, i), i), pattern(ts, rules(ts, i + 1), i + 1)),
        patterns_at(ts, i + 1, args_end, args) && !token_at(ts, args_end, TokenKind::RBrack)
            ==> lacks(ts, cmd(ts, rules(ts, i), i), args_end, TokenKind::RBrack),
        patterns_at(ts, i + 1, args_end, args) && token_at(ts, args_end, TokenKind::RBrack)
            ==> fails_like(cmd(ts, rules(ts, i), i), cmd(ts, rules(ts, args_end + 1),
            args_end + 1)),
{
    broadcast use group_rules;

    only_cmd_receive(ts, i);
    reveal(cmd_receive);
    if patterns_at(ts, i + 1, args_end, args) {
        read_patterns(ts, i, i + 1, args_end, args);
    }
}

/// `.try@l c` tries, with the label `l`, and goes on with `c`.
pub proof fn tried(
    ts: Seq<Token>,
    i: int,
    l: Option<LocalName>,
    l_end: int,
    c: Option<Command>,
    c_end: int,
)
    requires
        token_at(ts, i, TokenKind::Dot),
        token_at(ts, i + 1, TokenKind::Try),
        label_at(ts, i + 2, l_end, l),
        cmd_at(ts, l_end, c_end, c),
    ensures
        cmd_at(
            ts,
            i,
            c_end,
            Some(Command::Try(ts[i + 1].span, l, Box::new(or_noop_command(c, ts[i + 1].span)))),
        ),
{
    broadcast use group_rules;

    read_label(ts, i + 2, l_end, l);
    ahead_cmd(ts, l_end, c_end, c);
    reveal(cmd_try);
    only_cmd_try(ts, i);
}

/// What starts like `.try@l c` is that, with all of its parts.
pub proof fn tried_parts(
    ts: Seq<Token>,
    i: int,
    j: int,
    whole: Option<Command>,
) -> (parts: (Option<LocalName>, int, Option<Command>, int))
    requires
        cmd_at(ts, i, j, whole),
        token_at(ts, i, TokenKind::Dot),
        token_at(ts, i + 1, TokenKind::Try),
        whole is Some,
    ensures
        ({
            let (l, l_end, c, c_end) = parts;
            &&& token_at(ts, i, TokenKind::Dot)
            &&& token_at(ts, i + 1, TokenKind::Try)
            &&& label_at(ts, i + 2, l_end, l)
            &&& cmd_at(ts, l_end, c_end, c)
            &&& j == c_end
            &&& whole == (Some(Command::Try(ts[i + 1].span, l, Box::new(or_noop_command(c,
                ts[i + 1].span)))))
        }),
{
    broadcast use group_rules;

    only_cmd_try(ts, i);
    reveal(cmd_try);
    let l_found = label(ts, i + 2);
    let l_end = l_found->Done_0;
    let l = l_found->Done_1;
    found_label(ts, i + 2, l_end, l);
    let c_found = cmd(ts, rules(ts, l_end), l_end);
    let c_end = c_found->Done_0;
    let c = c_found->Done_1;
    ahead_cmd(ts, l_end, c_end, c);
    (l, l_end, c, c_end)
}

/// `.default(e) c` has the default `e` and goes on with `c`.
pub proof fn default(
    ts: Seq<Token>,
    i: int,
    e: Expression,
    e_end: int,
    c: Option<Command>,
    c_end: int,
)
    requires
        token_at(ts, i, TokenKind::Dot),
        token_at(ts, i + 1, TokenKind::Default),
        token_at(ts, i + 2, TokenKind::LParen),
        expression_at(ts, i + 3, e_end, e),
        token_at(ts, e_end, TokenKind::RParen),
        cmd_at(ts, e_end + 1, c_end, c),
    ensures
        cmd_at(
            ts,
            i,
            c_end,
            Some(
                Command::Default(
                    ts[i + 1].span.join(or_noop_command(c, ts[e_end].span).span()),
                    Box::new(e),
                    Box::new(or_noop_command(c, ts[e_end].span)),
                ),
            ),
        ),
{
    broadcast use group_rules;

    ahead_expression(ts, i + 3, e_end, e);
    ahead_cmd(ts, e_end + 1, c_end, c);
    reveal(cmd_default);
    only_cmd_default(ts, i);
}

/// What starts like `.default(e) c` is that, with all of its parts.
pub proof fn default_parts(
    ts: Seq<Token>,
    i: int,
    j: int,
    whole: Option<Command>,
) -> (parts: (Expression, int, Option<Command>, int))
    requires
        cmd_at(ts, i, j, whole),
        token_at(ts, i, TokenKind::Dot),
        token_at(ts, i + 1, TokenKind::Default),
        whole is Some,
    ensures
        ({
            let (e, e_end, c, c_end) = parts;
            &&& token_at(ts, i, TokenKind::Dot)
            &&& token_at(ts, i + 1, TokenKind::Default)
            &&& token_at(ts, i + 2, TokenKind::LParen)
            &&& expression_at(ts, i + 3, e_end, e)
            &&& token_at(ts, e_end, TokenKind::RParen)
            &&& cmd_at(ts, e_end + 1, c_end, c)
            &&& j == c_end
            &&& whole == (Some(
                Command::Default(
                    ts[i + 1].span.join(or_noop_command(c, ts[e_end].span).span()),
                    Box::new(e),
                    Box::new(or_noop_command(c, ts[e_end].span)),
                ),
            ))
        }),
{
    broadcast use group_rules;

    only_cmd_default(ts, i);
    reveal(cmd_default);
    let e_found = expression(ts, rules(ts, i + 3), i + 3);
    let e_end = e_found->Done_0;
    let e = e_found->Done_1;
    ahead_expression(ts, i + 3, e_end, e);
    let c_found = cmd(ts, rules(ts, e_end + 1), e_end + 1);
    let c_end = c_found->Done_0;
    let c = c_found->Done_1;
    ahead_cmd(ts, e_end + 1, c_end, c);
    (e, e_end, c, c_end)
}

/// `->f c` hands over to `f` and goes on with `c`.
pub proof fn pipe(ts: Seq<Token>, i: int, f: Expression, f_end: int, c: Option<Command>, c_end: int)
    requires
        token_at(ts, i, TokenKind::ThinArrow),
        operand_at(ts, i + 1, f_end, f),
        cmd_at(ts, f_end, c_end, c),
    ensures
        cmd_at(
            ts,
            i,
            c_end,
            Some(
                Command::Pipe(
                    ts[i].span.join(f.span()),
                    Box::new(f),
                    Box::new(or_noop_command(c, f.span())),
                ),
            ),
        ),
{
    broadcast use group_rules;

    ahead_operand(ts, i + 1, f_end, f);
    ahead_cmd(ts, f_end, c_end, c);
    reveal(cmd_pipe);
    only_cmd_pipe(ts, i);
}

/// What starts like `->f c` is that, with all of its parts.
pub proof fn pipe_parts(
    ts: Seq<Token>,
    i: int,
    j: int,
    whole: Option<Command>,
) -> (parts: (Expression, int, Option<Command>, int))
    requires
        cmd_at(ts, i, j, whole),
        token_at(ts, i, TokenKind::ThinArrow),
        whole is Some,
    ensures
        ({
            let (f, f_end, c, c_end) = parts;
            &&& token_at(ts, i, TokenKind::ThinArrow)
            &&& operand_at(ts, i + 1, f_end, f)
            &&& cmd_at(ts, f_end, c_end, c)
            &&& j == c_end
            &&& whole == (Some(
                Command::Pipe(
                    ts[i].span.join(f.span()),
                    Box::new(f),
                    Box::new(or_noop_command(c, f.span())),
                ),
            ))
        }),
{
    broadcast use group_rules;

    only_cmd_pipe(ts, i);
    reveal(cmd_pipe);
    let f_found = operand(ts, rules(ts, i + 1), i + 1);
    let f_end = f_found->Done_0;
    let f = f_found->Done_1;
    ahead_operand(ts, i + 1, f_end, f);
    let c_found = cmd(ts, rules(ts, f_end), f_end);
    let c_end = c_found->Done_0;
    let c = c_found->Done_1;
    ahead_cmd(ts, f_end, c_end, c);
    (f, f_end, c, c_end)
}

/// What starts like `->f c` and lacks a part fails for good where that is missing.
pub proof fn pipe_fails(ts: Seq<Token>, i: int, f: Expression, f_end: int)
    requires
        token_at(ts, i, TokenKind::ThinArrow),
    ensures
        fails_like(cmd(ts, rules(ts, i), i), operand(ts, rules(ts, i + 1), i + 1)),
        operand_at(ts, i + 1, f_end, f)
            ==> fails_like(cmd(ts, rules(ts, i), i), cmd(ts, rules(ts, f_end), f_end)),
{
    broadcast use group_rules;

    only_cmd_pipe(ts, i);
    reveal(cmd_pipe);
    if operand_at(ts, i + 1, f_end, f) {
        ahead_operand(ts, i + 1, f_end, f);
    }
}

/// `; q` goes on with the process `q`, if there is one.
pub proof fn ending_after_semicolon(ts: Seq<Token>, i: int, q: Option<Process>, q_end: int)
    requires
        token_at(ts, i, TokenKind::Semicolon),
        opt_process_at(ts, i + 1, q_end, q),
    ensures
        cmd_at(
            ts,
            i,
            q_end,
            match q {
                Some(q) => Some(Command::Then(Box::new(q))),
                None => None,
            },
        ),
{
    broadcast use group_rules;

    let r = rules(ts, i);
    if let Some(x) = q {
        ahead_process(ts, i + 1, q_end, x);
    }
    reveal(cmd_then);
    miss_cmd_step(ts, r, i);
    reveal(cmd_step);
    reveal(cmd);
}

/// Where no command starts, a command is the process that follows, if there is one.
pub proof fn ending_in_process(ts: Seq<Token>, i: int, q: Option<Process>, q_end: int)
    requires
        opt_process_at(ts, i, q_end, q),
        !token_at(ts, i, TokenKind::Semicolon),
        !token_at(ts, i, TokenKind::Link),
        !token_at(ts, i, TokenKind::Dot),
        !token_at(ts, i, TokenKind::Bang),
        !token_at(ts, i, TokenKind::Quest),
        !token_at(ts, i, TokenKind::LParen),
        !token_at(ts, i, TokenKind::LBrack),
        !token_at(ts, i, TokenKind::ThinArrow),
    ensures
        cmd_at(
            ts,
            i,
            q_end,
            match q {
                Some(q) => Some(Command::Then(Box::new(q))),
                None => None,
            },
        ),
{
    miss_cmd_step(ts, rules(ts, i), i);
    reveal(cmd_then);
    reveal(cmd);
}

/// Where no command starts, what is found is the process that follows, after a semicolon if there
/// is
/// one, or nothing if there is no process.
pub proof fn ending_parts(ts: Seq<Token>, i: int, j: int, whole: Option<Command>) -> (q: Option<
    Process,
>)
    requires
        cmd_at(ts, i, j, whole),
        !token_at(ts, i, TokenKind::Link),
        !token_at(ts, i, TokenKind::Dot),
        !token_at(ts, i, TokenKind::Bang),
        !token_at(ts, i, TokenKind::Quest),
        !token_at(ts, i, TokenKind::LParen),
        !token_at(ts, i, TokenKind::LBrack),
        !token_at(ts, i, TokenKind::ThinArrow),
    ensures
        opt_process_at(
            ts,
            if token_at(ts, i, TokenKind::Semicolon) {
                i + 1
            } else {
                i
            },
            j,
            q,
        ),
        whole == match q {
            Some(q) => Some(Command::Then(Box::new(q))),
            None => None,
        },
{
    broadcast use group_rules;

    miss_cmd_step(ts, rules(ts, i), i);
    reveal(cmd_then);
    reveal(cmd);
    let at = if token_at(ts, i, TokenKind::Semicolon) {
        i + 1
    } else {
        i
    };
    match process(ts, rules(ts, at), at) {
        Outcome::Done(_, q) => Some(q),
        Outcome::Failed { .. } => None,
    }
}

/// A branch `=> { q }` does `q`, or nothing if no process stands in the braces.
pub proof fn branch(ts: Seq<Token>, i: int, q: Option<Process>, q_end: int)
    requires
        token_at(ts, i, TokenKind::FatArrow),
        token_at(ts, i + 1, TokenKind::LCurly),
        opt_process_at(ts, i + 2, q_end, q),
        token_at(ts, q_end, TokenKind::RCurly),
    ensures
        cmd_branch_at(
            ts,
            i,
            q_end + 1,
            CommandBranch::Then(ts[i].span.join(ts[q_end].span), or_noop_process(q,
                ts[i + 1].span)),
        ),
{
    broadcast use group_rules;

    if let Some(x) = q {
        ahead_process(ts, i + 2, q_end, x);
    }
    reveal(cmd_branch_then);
    only_cmd_branch_then(ts, i);
}

/// What starts like `=> { q }` is that, with all of its parts.
pub proof fn branch_parts(
    ts: Seq<Token>,
    i: int,
    j: int,
    whole: CommandBranch,
) -> (parts: (Option<Process>, int))
    requires
        cmd_branch_at(ts, i, j, whole),
        token_at(ts, i, TokenKind::FatArrow),
    ensures
        ({
            let (q, q_end) = parts;
            &&& token_at(ts, i, TokenKind::FatArrow)
            &&& token_at(ts, i + 1, TokenKind::LCurly)
            &&& opt_process_at(ts, i + 2, q_end, q)
            &&& token_at(ts, q_end, TokenKind::RCurly)
            &&& j == q_end + 1
            &&& whole == (CommandBranch::Then(ts[i].span.join(ts[q_end].span), or_noop_process(q,
                ts[i + 1].span)))
        }),
{
    broadcast use group_rules;

    only_cmd_branch_then(ts, i);
    reveal(cmd_branch_then);
    let q_found = process(ts, rules(ts, i + 2), i + 2);
    let q = match q_found {
        Outcome::Done(_, x) => Some(x),
        Outcome::Failed { .. } => None,
    };
    let q_end = match q_found {
        Outcome::Done(end, _) => end,
        Outcome::Failed { .. } => i + 2,
    };
    if let Some(x) = q {
        ahead_process(ts, i + 2, q_end, x);
    }
    (q, q_end)
}

/// What starts like `=> { q }` and lacks a part fails for good where that is missing.
pub proof fn branch_fails(ts: Seq<Token>, i: int, q: Option<Process>, q_end: int)
    requires
        token_at(ts, i, TokenKind::FatArrow),
    ensures
        !token_at(ts, i + 1, TokenKind::LCurly)
            ==> lacks(ts, cmd_branch(ts, rules(ts, i), i), i + 1, TokenKind::LCurly),
        token_at(ts, i + 1, TokenKind::LCurly)
            && !fails_openly(process(ts, rules(ts, i + 2), i + 2))
            ==> fails_like(cmd_branch(ts, rules(ts, i), i), process(ts, rules(ts, i + 2), i + 2)),
        token_at(ts, i + 1, TokenKind::LCurly) && opt_process_at(ts, i + 2, q_end, q)
            && !token_at(ts, q_end, TokenKind::RCurly)
            ==> lacks(ts, cmd_branch(ts, rules(ts, i), i), q_end, TokenKind::RCurly),
{
    broadcast use group_rules;

    only_cmd_branch_then(ts, i);
    reveal(cmd_branch_then);
    if opt_process_at(ts, i + 2, q_end, q) {
        if let Some(x) = q { ahead_process(ts, i + 2, q_end, x); }
    }
}

/// A branch `x => { q }` does `q`, or nothing if no process stands in the braces, with what is left
/// as `x`.
pub proof fn branch_binding(ts: Seq<Token>, i: int, n: LocalName, q: Option<Process>, q_end: int)
    requires
        local_name_at(ts, i, n),
        token_at(ts, i + 1, TokenKind::FatArrow),
        token_at(ts, i + 2, TokenKind::LCurly),
        opt_process_at(ts, i + 3, q_end, q),
        token_at(ts, q_end, TokenKind::RCurly),
    ensures
        cmd_branch_at(
            ts,
            i,
            q_end + 1,
            CommandBranch::BindThen(
                ts[i + 1].span.join(ts[q_end].span),
                n,
                or_noop_process(q, ts[i + 2].span),
            ),
        ),
{
    broadcast use group_rules;

    read_local_name(ts, i, n);
    if let Some(x) = q {
        ahead_process(ts, i + 3, q_end, x);
    }
    reveal(cmd_branch_bind_then);
    only_cmd_branch_bind_then(ts, i);
}

/// What starts like `x => { q }` is that, with all of its parts.
pub proof fn branch_binding_parts(
    ts: Seq<Token>,
    i: int,
    j: int,
    whole: CommandBranch,
) -> (parts: (LocalName, Option<Process>, int))
    requires
        cmd_branch_at(ts, i, j, whole),
        token_at(ts, i, TokenKind::LowercaseIdentifier),
    ensures
        ({
            let (n, q, q_end) = parts;
            &&& local_name_at(ts, i, n)
            &&& token_at(ts, i + 1, TokenKind::FatArrow)
            &&& token_at(ts, i + 2, TokenKind::LCurly)
            &&& opt_process_at(ts, i + 3, q_end, q)
            &&& token_at(ts, q_end, TokenKind::RCurly)
            &&& j == q_end + 1
            &&& whole == (CommandBranch::BindThen(
                ts[i + 1].span.join(ts[q_end].span),
                n,
                or_noop_process(q, ts[i + 2].span),
            ))
        }),
{
    broadcast use group_rules;

    only_cmd_branch_bind_then(ts, i);
    reveal(cmd_branch_bind_then);
    let n = LocalName { span: ts[i].span, string: ts[i].raw };
    let q_found = process(ts, rules(ts, i + 3), i + 3);
    let q = match q_found {
        Outcome::Done(_, x) => Some(x),
        Outcome::Failed { .. } => None,
    };
    let q_end = match q_found {
        Outcome::Done(end, _) => end,
        Outcome::Failed { .. } => i + 3,
    };
    if let Some(x) = q {
        ahead_process(ts, i + 3, q_end, x);
    }
    (n, q, q_end)
}

/// What starts like `x => { q }` and lacks a part fails for good where that is missing.
pub proof fn branch_binding_fails(ts: Seq<Token>, i: int, q: Option<Process>, q_end: int)
    requires
        token_at(ts, i, TokenKind::LowercaseIdentifier),
    ensures
        !token_at(ts, i + 1, TokenKind::FatArrow)
            ==> lacks(ts, cmd_branch(ts, rules(ts, i), i), i + 1, TokenKind::FatArrow),
        token_at(ts, i + 1, TokenKind::FatArrow) && !token_at(ts, i + 2, TokenKind::LCurly)
            ==> lacks(ts, cmd_branch(ts, rules(ts, i), i), i + 2, TokenKind::LCurly),
        token_at(ts, i + 1, TokenKind::FatArrow) && token_at(ts, i + 2, TokenKind::LCurly)
            && !fails_openly(process(ts, rules(ts, i + 3), i + 3))
            ==> fails_like(cmd_branch(ts, rules(ts, i), i), process(ts, rules(ts, i + 3), i + 3)),
        token_at(ts, i + 1, TokenKind::FatArrow) && token_at(ts, i + 2, TokenKind::LCurly)
            && opt_process_at(ts, i + 3, q_end, q) && !token_at(ts, q_end, TokenKind::RCurly)
            ==> lacks(ts, cmd_branch(ts, rules(ts, i), i), q_end, TokenKind::RCurly),
{
    broadcast use group_rules;

    only_cmd_branch_bind_then(ts, i);
    reveal(cmd_branch_bind_then);
    if opt_process_at(ts, i + 3, q_end, q) {
        if let Some(x) = q { ahead_process(ts, i + 3, q_end, x); }
    }
}

/// A branch `! => { q }` does `q`, or nothing if no process stands in the braces, with nothing
/// left.
pub proof fn branch_continue(ts: Seq<Token>, i: int, q: Option<Process>, q_end: int)
    requires
        token_at(ts, i, TokenKind::Bang),
        token_at(ts, i + 1, TokenKind::FatArrow),
        token_at(ts, i + 2, TokenKind::LCurly),
        opt_process_at(ts, i + 3, q_end, q),
        token_at(ts, q_end, TokenKind::RCurly),
    ensures
        cmd_branch_at(
            ts,
            i,
            q_end + 1,
            CommandBranch::Continue(ts[i].span.join(ts[q_end].span), or_noop_process(q,
                ts[i + 2].span)),
        ),
{
    broadcast use group_rules;

    if let Some(x) = q {
        ahead_process(ts, i + 3, q_end, x);
    }
    reveal(cmd_branch_continue);
    only_cmd_branch_continue(ts, i);
}

/// What starts like `! => { q }` is that, with all of its parts.
pub proof fn branch_continue_parts(
    ts: Seq<Token>,
    i: int,
    j: int,
    whole: CommandBranch,
) -> (parts: (Option<Process>, int))
    requires
        cmd_branch_at(ts, i, j, whole),
        token_at(ts, i, TokenKind::Bang),
    ensures
        ({
            let (q, q_end) = parts;
            &&& token_at(ts, i, TokenKind::Bang)
            &&& token_at(ts, i + 1, TokenKind::FatArrow)
            &&& token_at(ts, i + 2, TokenKind::LCurly)
            &&& opt_process_at(ts, i + 3, q_end, q)
            &&& token_at(ts, q_end, TokenKind::RCurly)
            &&& j == q_end + 1
            &&& whole == (CommandBranch::Continue(ts[i].span.join(ts[q_end].span),
                or_noop_process(q, ts[i + 2].span)))
        }),
{
    broadcast use group_rules;

    only_cmd_branch_continue(ts, i);
    reveal(cmd_branch_continue);
    let q_found = process(ts, rules(ts, i + 3), i + 3);
    let q = match q_found {
        Outcome::Done(_, x) => Some(x),
        Outcome::Failed { .. } => None,
    };
    let q_end = match q_found {
        Outcome::Done(end, _) => end,
        Outcome::Failed { .. } => i + 3,
    };
    if let Some(x) = q {
        ahead_process(ts, i + 3, q_end, x);
    }
    (q, q_end)
}

/// What starts like `! => { q }` and lacks a part fails for good where that is missing.
pub proof fn branch_continue_fails(ts: Seq<Token>, i: int, q: Option<Process>, q_end: int)
    requires
        token_at(ts, i, TokenKind::Bang),
    ensures
        !token_at(ts, i + 1, TokenKind::FatArrow)
            ==> lacks(ts, cmd_branch(ts, rules(ts, i), i), i + 1, TokenKind::FatArrow),
        token_at(ts, i + 1, TokenKind::FatArrow) && !token_at(ts, i + 2, TokenKind::LCurly)
            ==> lacks(ts, cmd_branch(ts, rules(ts, i), i), i + 2, TokenKind::LCurly),
        token_at(ts, i + 1, TokenKind::FatArrow) && token_at(ts, i + 2, TokenKind::LCurly)
            && !fails_openly(process(ts, rules(ts, i + 3), i + 3))
            ==> fails_like(cmd_branch(ts, rules(ts, i), i), process(ts, rules(ts, i + 3), i + 3)),
        token_at(ts, i + 1, TokenKind::FatArrow) && token_at(ts, i + 2, TokenKind::LCurly)
            && opt_process_at(ts, i + 3, q_end, q) && !token_at(ts, q_end, TokenKind::RCurly)
            ==> lacks(ts, cmd_branch(ts, rules(ts, i), i), q_end, TokenKind::RCurly),
{
    broadcast use group_rules;

    only_cmd_branch_continue(ts, i);
    reveal(cmd_branch_continue);
    if opt_process_at(ts, i + 3, q_end, q) {
        if let Some(x) = q { ahead_process(ts, i + 3, q_end, x); }
    }
}

/// The branch that receives a type under the first of the names `xs`, then one under the second one
/// and so on, then is `rest`.
pub open spec fn branch_receives_types(span: Span, xs: Seq<LocalName>,
    rest: CommandBranch) -> CommandBranch
    decreases xs.len(),
{
    if xs.len() == 0 {
        rest
    } else {
        CommandBranch::ReceiveType(span, xs[0], Box::new(branch_receives_types(span,
            xs.drop_first(), rest)))
    }
}

/// One after the other, from the last one on.
pub(crate) proof fn fold_branch_receives_types(span: Span, xs: Seq<LocalName>, rest: CommandBranch)
    ensures
        xs.fold_right(branch_receive_type_step(span), rest) == branch_receives_types(span, xs,
            rest),
    decreases xs.len(),
{
    xs.lemma_fold_right_alt(branch_receive_type_step(span), rest);
    if xs.len() > 0 {
        let others = xs.drop_first();
        others.lemma_fold_right_alt(branch_receive_type_step(span), rest);
        fold_branch_receives_types(span, others, rest);
        assert(xs.subrange(1, xs.len() as int) =~= others);
    }
}

/// A branch `(type a, b) c` receives types under the names `a` and `b` and goes on with `c`.
pub proof fn branch_receive_type(
    ts: Seq<Token>,
    i: int,
    names: Seq<LocalName>,
    names_end: int,
    rest: CommandBranch,
    rest_end: int,
)
    requires
        token_at(ts, i, TokenKind::LParen),
        token_at(ts, i + 1, TokenKind::Type),
        names_at(ts, i + 2, names_end, names),
        token_at(ts, names_end, TokenKind::RParen),
        cmd_branch_at(ts, names_end + 1, rest_end, rest),
    ensures
        cmd_branch_at(
            ts,
            i,
            rest_end,
            branch_receives_types(ts[i].span.join(rest.span()), names, rest),
        ),
{
    broadcast use group_rules;

    read_names(ts, i + 2, names_end, names);
    ahead_cmd_branch(ts, names_end + 1, rest_end, rest);
    fold_branch_receives_types(ts[i].span.join(rest.span()), names, rest);
    reveal(cmd_branch_recv_type);
    only_cmd_branch_recv_type(ts, i);
}

/// What starts like `(type a, b) c` is that, with all of its parts.
pub proof fn branch_receive_type_parts(
    ts: Seq<Token>,
    i: int,
    j: int,
    whole: CommandBranch,
) -> (parts: (Seq<LocalName>, int, CommandBranch, int))
    requires
        cmd_branch_at(ts, i, j, whole),
        token_at(ts, i, TokenKind::LParen),
        token_at(ts, i + 1, TokenKind::Type),
    ensures
        ({
            let (names, names_end, rest, rest_end) = parts;
            &&& token_at(ts, i, TokenKind::LParen)
            &&& token_at(ts, i + 1, TokenKind::Type)
            &&& names_at(ts, i + 2, names_end, names)
            &&& token_at(ts, names_end, TokenKind::RParen)
            &&& cmd_branch_at(ts, names_end + 1, rest_end, rest)
            &&& j == rest_end
            &&& whole == (branch_receives_types(ts[i].span.join(rest.span()), names, rest))
        }),
{
    broadcast use group_rules;

    only_cmd_branch_recv_type(ts, i);
    reveal(cmd_branch_recv_type);
    let names_found = list1(ts, |i: int| local_name(ts, i), i + 2);
    let names_end = names_found->Done_0;
    let names = names_found->Done_1;
    found_names(ts, i + 2, names_end, names);
    let rest_found = cmd_branch(ts, rules(ts, names_end + 1), names_end + 1);
    let rest_end = rest_found->Done_0;
    let rest = rest_found->Done_1;
    ahead_cmd_branch(ts, names_end + 1, rest_end, rest);
    fold_branch_receives_types(ts[i].span.join(rest.span()), names, rest);
    (names, names_end, rest, rest_end)
}

/// What starts like `(type a, b) c` and lacks a part fails for good where that is missing.
pub proof fn branch_receive_type_fails(
    ts: Seq<Token>,
    i: int,
    names: Seq<LocalName>,
    names_end: int,
)
    requires
        token_at(ts, i, TokenKind::LParen),
        token_at(ts, i + 1, TokenKind::Type),
    ensures
        !token_at(ts, i + 2, TokenKind::LowercaseIdentifier)
            ==> fails_at(cmd_branch(ts, rules(ts, i), i), i + 2),
        names_at(ts, i + 2, names_end, names) && !token_at(ts, names_end, TokenKind::RParen)
            ==> lacks(ts, cmd_branch(ts, rules(ts, i), i), names_end, TokenKind::RParen),
        names_at(ts, i + 2, names_end, names) && token_at(ts, names_end, TokenKind::RParen)
            ==> fails_like(cmd_branch(ts, rules(ts, i), i), cmd_branch(ts, rules(ts,
            names_end + 1), names_end + 1)),
{
    broadcast use group_rules;

    only_cmd_branch_recv_type(ts, i);
    reveal(cmd_branch_recv_type);
    if names_at(ts, i + 2, names_end, names) {
        read_names(ts, i + 2, names_end, names);
    }
}

/// The branch that receives the first of `xs`, then the second one and so on, then is `rest`.
pub open spec fn branch_receives(span: Span, xs: Seq<Pattern>, rest: CommandBranch) -> CommandBranch
    decreases xs.len(),
{
    if xs.len() == 0 {
        rest
    } else {
        CommandBranch::Receive(span, xs[0], Box::new(branch_receives(span, xs.drop_first(), rest)))
    }
}

/// One after the other, from the last one on.
pub(crate) proof fn fold_branch_receives(span: Span, xs: Seq<Pattern>, rest: CommandBranch)
    ensures
        xs.fold_right(branch_receive_step(span), rest) == branch_receives(span, xs, rest),
    decreases xs.len(),
{
    xs.lemma_fold_right_alt(branch_receive_step(span), rest);
    if xs.len() > 0 {
        let others = xs.drop_first();
        others.lemma_fold_right_alt(branch_receive_step(span), rest);
        fold_branch_receives(span, others, rest);
        assert(xs.subrange(1, xs.len() as int) =~= others);
    }
}

/// A branch `(p, q) b` receives `p`, then `q`, and goes on with `b`.
pub proof fn branch_receive(
    ts: Seq<Token>,
    i: int,
    args: Seq<Pattern>,
    args_end: int,
    rest: CommandBranch,
    rest_end: int,
)
    requires
        token_at(ts, i, TokenKind::LParen),
        patterns_at(ts, i + 1, args_end, args),
        token_at(ts, args_end, TokenKind::RParen),
        cmd_branch_at(ts, args_end + 1, rest_end, rest),
    ensures
        cmd_branch_at(
            ts,
            i,
            rest_end,
            branch_receives(ts[i].span.join(rest.span()), args, rest),
        ),
{
    broadcast use group_rules;

    read_patterns(ts, i, i + 1, args_end, args);
    ahead_cmd_branch(ts, args_end + 1, rest_end, rest);
    fold_branch_receives(ts[i].span.join(rest.span()), args, rest);
    not_word_type_pattern(ts, i + 1, args[0]);
    reveal(cmd_branch_receive);
    only_cmd_branch_receive(ts, i);
}

/// What starts like `(p, q) b` is that, with all of its parts.
pub proof fn branch_receive_parts(
    ts: Seq<Token>,
    i: int,
    j: int,
    whole: CommandBranch,
) -> (parts: (Seq<Pattern>, int, CommandBranch, int))
    requires
        cmd_branch_at(ts, i, j, whole),
        token_at(ts, i, TokenKind::LParen),
        !token_at(ts, i + 1, TokenKind::Type),
    ensures
        ({
            let (args, args_end, rest, rest_end) = parts;
            &&& token_at(ts, i, TokenKind::LParen)
            &&& patterns_at(ts, i + 1, args_end, args)
            &&& token_at(ts, args_end, TokenKind::RParen)
            &&& cmd_branch_at(ts, args_end + 1, rest_end, rest)
            &&& j == rest_end
            &&& whole == (branch_receives(ts[i].span.join(rest.span()), args, rest))
        }),
{
    broadcast use group_rules;

    let r = rules(ts, i);
    only_cmd_branch_receive(ts, i);
    reveal(cmd_branch_receive);
    let args_found = list1(ts, r.pattern, i + 1);
    let args_end = args_found->Done_0;
    let args = args_found->Done_1;
    found_patterns(ts, i, i + 1, args_end, args);
    let rest_found = cmd_branch(ts, rules(ts, args_end + 1), args_end + 1);
    let rest_end = rest_found->Done_0;
    let rest = rest_found->Done_1;
    ahead_cmd_branch(ts, args_end + 1, rest_end, rest);
    fold_branch_receives(ts[i].span.join(rest.span()), args, rest);
    (args, args_end, rest, rest_end)
}

/// What starts like `(p, q) b` and lacks a part fails for good where that is missing.
pub proof fn branch_receive_fails(ts: Seq<Token>, i: int, args: Seq<Pattern>, args_end: int)
    requires
        token_at(ts, i, TokenKind::LParen),
        !token_at(ts, i + 1, TokenKind::Type),
    ensures
        fails_like(cmd_branch(ts, rules(ts, i), i), pattern(ts, rules(ts, i + 1), i + 1)),
        patterns_at(ts, i + 1, args_end, args) && !token_at(ts, args_end, TokenKind::RParen)
            ==> lacks(ts, cmd_branch(ts, rules(ts, i), i), args_end, TokenKind::RParen),
        patterns_at(ts, i + 1, args_end, args) && token_at(ts, args_end, TokenKind::RParen)
            ==> fails_like(cmd_branch(ts, rules(ts, i), i), cmd_branch(ts, rules(ts, args_end + 1),
            args_end + 1)),
{
    broadcast use group_rules;

    only_cmd_branch_receive(ts, i);
    reveal(cmd_branch_receive);
    if patterns_at(ts, i + 1, args_end, args) {
        read_patterns(ts, i, i + 1, args_end, args);
    }
}

/// A branch `try@l b` tries, with the label `l`, and goes on with `b`.
pub proof fn branch_try(
    ts: Seq<Token>,
    i: int,
    l: Option<LocalName>,
    l_end: int,
    b: CommandBranch,
    b_end: int,
)
    requires
        token_at(ts, i, TokenKind::Try),
        label_at(ts, i + 1, l_end, l),
        cmd_branch_at(ts, l_end, b_end, b),
    ensures
        cmd_branch_at(
            ts,
            i,
            b_end,
            CommandBranch::Try(ts[i].span.join(b.span()), l, Box::new(b)),
        ),
{
    broadcast use group_rules;

    read_label(ts, i + 1, l_end, l);
    ahead_cmd_branch(ts, l_end, b_end, b);
    reveal(cmd_branch_try);
    only_cmd_branch_try(ts, i);
}

/// What starts like `try@l b` is that, with all of its parts.
pub proof fn branch_try_parts(
    ts: Seq<Token>,
    i: int,
    j: int,
    whole: CommandBranch,
) -> (parts: (Option<LocalName>, int, CommandBranch, int))
    requires
        cmd_branch_at(ts, i, j, whole),
        token_at(ts, i, TokenKind::Try),
    ensures
        ({
            let (l, l_end, b, b_end) = parts;
            &&& token_at(ts, i, TokenKind::Try)
            &&& label_at(ts, i + 1, l_end, l)
            &&& cmd_branch_at(ts, l_end, b_end, b)
            &&& j == b_end
            &&& whole == (CommandBranch::Try(ts[i].span.join(b.span()), l, Box::new(b)))
        }),
{
    broadcast use group_rules;

    only_cmd_branch_try(ts, i);
    reveal(cmd_branch_try);
    let l_found = label(ts, i + 1);
    let l_end = l_found->Done_0;
    let l = l_found->Done_1;
    found_label(ts, i + 1, l_end, l);
    let b_found = cmd_branch(ts, rules(ts, l_end), l_end);
    let b_end = b_found->Done_0;
    let b = b_found->Done_1;
    ahead_cmd_branch(ts, l_end, b_end, b);
    (l, l_end, b, b_end)
}

/// What starts like `try@l b` and lacks a part fails for good where that is missing.
pub proof fn branch_try_fails(ts: Seq<Token>, i: int, l: Option<LocalName>, l_end: int)
    requires
        token_at(ts, i, TokenKind::Try),
    ensures
        label_at(ts, i + 1, l_end, l)
            ==> fails_like(cmd_branch(ts, rules(ts, i), i), cmd_branch(ts, rules(ts, l_end),
            l_end)),
{
    broadcast use group_rules;

    only_cmd_branch_try(ts, i);
    reveal(cmd_branch_try);
    if label_at(ts, i + 1, l_end, l) {
        read_label(ts, i + 1, l_end, l);
    }
}

/// A branch `default(e) b` has the default `e` and goes on with `b`.
pub proof fn branch_default(
    ts: Seq<Token>,
    i: int,
    e: Expression,
    e_end: int,
    b: CommandBranch,
    b_end: int,
)
    requires
        token_at(ts, i, TokenKind::Default),
        token_at(ts, i + 1, TokenKind::LParen),
        expression_at(ts, i + 2, e_end, e),
        token_at(ts, e_end, TokenKind::RParen),
        cmd_branch_at(ts, e_end + 1, b_end, b),
    ensures
        cmd_branch_at(
            ts,
            i,
            b_end,
            CommandBranch::Default(ts[i].span.join(b.span()), Box::new(e), Box::new(b)),
        ),
{
    broadcast use group_rules;

    ahead_expression(ts, i + 2, e_end, e);
    ahead_cmd_branch(ts, e_end + 1, b_end, b);
    reveal(cmd_branch_default);
    only_cmd_branch_default(ts, i);
}

/// What starts like `default(e) b` is that, with all of its parts.
pub proof fn branch_default_parts(
    ts: Seq<Token>,
    i: int,
    j: int,
    whole: CommandBranch,
) -> (parts: (Expression, int, CommandBranch, int))
    requires
        cmd_branch_at(ts, i, j, whole),
        token_at(ts, i, TokenKind::Default),
    ensures
        ({
            let (e, e_end, b, b_end) = parts;
            &&& token_at(ts, i, TokenKind::Default)
            &&& token_at(ts, i + 1, TokenKind::LParen)
            &&& expression_at(ts, i + 2, e_end, e)
            &&& token_at(ts, e_end, TokenKind::RParen)
            &&& cmd_branch_at(ts, e_end + 1, b_end, b)
            &&& j == b_end
            &&& whole == (CommandBranch::Default(ts[i].span.join(b.span()), Box::new(e),
                Box::new(b)))
        }),
{
    broadcast use group_rules;

    only_cmd_branch_default(ts, i);
    reveal(cmd_branch_default);
    let e_found = expression(ts, rules(ts, i + 2), i + 2);
    let e_end = e_found->Done_0;
    let e = e_found->Done_1;
    ahead_expression(ts, i + 2, e_end, e);
    let b_found = cmd_branch(ts, rules(ts, e_end + 1), e_end + 1);
    let b_end = b_found->Done_0;
    let b = b_found->Done_1;
    ahead_cmd_branch(ts, e_end + 1, b_end, b);
    (e, e_end, b, b_end)
}

/// What starts like `default(e) b` and lacks a part fails for good where that is missing.
pub proof fn branch_default_fails(ts: Seq<Token>, i: int, e: Expression, e_end: int)
    requires
        token_at(ts, i, TokenKind::Default),
        token_at(ts, i + 1, TokenKind::LParen),
    ensures
        fails_like(cmd_branch(ts, rules(ts, i), i), expression(ts, rules(ts, i + 2), i + 2)),
        expression_at(ts, i + 2, e_end, e) && !token_at(ts, e_end, TokenKind::RParen)
            ==> lacks(ts, cmd_branch(ts, rules(ts, i), i), e_end, TokenKind::RParen),
        expression_at(ts, i + 2, e_end, e) && token_at(ts, e_end, TokenKind::RParen)
            ==> fails_like(cmd_branch(ts, rules(ts, i), i), cmd_branch(ts, rules(ts, e_end + 1),
            e_end + 1)),
{
    broadcast use group_rules;

    only_cmd_branch_default(ts, i);
    reveal(cmd_branch_default);
    if expression_at(ts, i + 2, e_end, e) {
        ahead_expression(ts, i + 2, e_end, e);
    }
}

} // verus!
