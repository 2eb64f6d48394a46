//! What processes come to.
use super::super::grammar::{global_name, group_rules, label, rules};
use super::super::grammar::commands::cmd;
use super::super::grammar::expressions::expression;
use super::super::grammar::patterns::pattern;
use super::super::grammar::processes::{
    command, global_command, pass_process, proc_catch, proc_let, proc_telltypes, proc_throw,
    process,
};
use super::super::outcome::Outcome;
use super::{
    ahead_cmd, ahead_expression, ahead_pattern, ahead_process, cmd_at, expression_at, fails_like,
    fails_openly, global_name_at, label_at, lacks, local_name_at, opt_process_at, or_noop_command,
    or_noop_process, pass_process_at, pattern_at, process_at, token_at,
};
use super::misses::{
    miss_pass_process, miss_proc_catch, miss_proc_throw, only_command, only_global_command,
    only_proc_catch, only_proc_let, only_proc_telltypes, only_proc_throw,
};
use super::parts::{found_global_name, found_label, read_global_name, read_label, read_local_name};
use crate::model::{Command, Expression, GlobalName, LocalName, Pattern, Process, Token};
use crate::token::TokenKind;
use vstd::prelude::*;

verus! {

/// `let p = e q` takes `p` to be `e` and goes on with `q`; it does nothing more only if no process
/// follows `e`.
pub proof fn let_process(
    ts: Seq<Token>,
    i: int,
    p: Pattern,
    p_end: int,
    e: Expression,
    e_end: int,
    q: Option<Process>,
    q_end: int,
)
    requires
        token_at(ts, i, TokenKind::Let),
        pattern_at(ts, i + 1, p_end, p),
        token_at(ts, p_end, TokenKind::Eq),
        expression_at(ts, p_end + 1, e_end, e),
        opt_process_at(ts, e_end, q_end, q),
    ensures
        process_at(
            ts,
            i,
            q_end,
            Process::Let {
                span: ts[i].span.join(e.span()),
                pattern: p,
                value: Box::new(e),
                then: Box::new(or_noop_process(q, e.span())),
            },
        ),
{
    broadcast use group_rules;

    ahead_pattern(ts, i + 1, p_end, p);
    ahead_expression(ts, p_end + 1, e_end, e);
    if let Some(x) = q {
        ahead_process(ts, e_end, q_end, x);
    }
    reveal(proc_let);
    only_proc_let(ts, i);
}

/// What starts like `let p = e q` is that, with all of its parts.
pub proof fn let_process_parts(
    ts: Seq<Token>,
    i: int,
    j: int,
    whole: Process,
) -> (parts: (Pattern, int, Expression, int, Option<Process>, int))
    requires
        process_at(ts, i, j, whole),
        token_at(ts, i, TokenKind::Let),
    ensures
        ({
            let (p, p_end, e, e_end, q, q_end) = parts;
            &&& token_at(ts, i, TokenKind::Let)
            &&& pattern_at(ts, i + 1, p_end, p)
            &&& token_at(ts, p_end, TokenKind::Eq)
            &&& expression_at(ts, p_end + 1, e_end, e)
            &&& opt_process_at(ts, e_end, q_end, q)
            &&& j == q_end
            &&& whole == (Process::Let {
                span: ts[i].span.join(e.span()),
                pattern: p,
                value: Box::new(e),
                then: Box::new(or_noop_process(q, e.span())),
            })
        }),
{
    broadcast use group_rules;

    only_proc_let(ts, i);
    reveal(proc_let);
    let p_found = pattern(ts, rules(ts, i + 1), i + 1);
    let p_end = p_found->Done_0;
    let p = p_found->Done_1;
    ahead_pattern(ts, i + 1, p_end, p);
    let e_found = expression(ts, rules(ts, p_end + 1), p_end + 1);
    let e_end = e_found->Done_0;
    let e = e_found->Done_1;
    ahead_expression(ts, p_end + 1, e_end, e);
    let q_found = process(ts, rules(ts, e_end), e_end);
    let q = match q_found {
        Outcome::Done(_, x) => Some(x),
        Outcome::Failed { .. } => None,
    };
    let q_end = match q_found {
        Outcome::Done(end, _) => end,
        Outcome::Failed { .. } => e_end,
    };
    if let Some(x) = q {
        ahead_process(ts, e_end, q_end, x);
    }
    (p, p_end, e, e_end, q, q_end)
}

/// What starts like `let p = e q` and lacks a part fails for good where that is missing.
pub proof fn let_process_fails(
    ts: Seq<Token>,
    i: int,
    p: Pattern,
    p_end: int,
    e: Expression,
    e_end: int,
)
    requires
        token_at(ts, i, TokenKind::Let),
    ensures
        fails_like(process(ts, rules(ts, i), i), pattern(ts, rules(ts, i + 1), i + 1)),
        pattern_at(ts, i + 1, p_end, p) && !token_at(ts, p_end, TokenKind::Eq)
            ==> lacks(ts, process(ts, rules(ts, i), i), p_end, TokenKind::Eq),
        pattern_at(ts, i + 1, p_end, p) && token_at(ts, p_end, TokenKind::Eq)
            ==> fails_like(process(ts, rules(ts, i), i), expression(ts, rules(ts, p_end + 1),
            p_end + 1)),
        pattern_at(ts, i + 1, p_end, p) && token_at(ts, p_end, TokenKind::Eq)
            && expression_at(ts, p_end + 1, e_end, e)
            && !fails_openly(process(ts, rules(ts, e_end), e_end))
            ==> fails_like(process(ts, rules(ts, i), i), process(ts, rules(ts, e_end), e_end)),
{
    broadcast use group_rules;

    only_proc_let(ts, i);
    reveal(proc_let);
    if pattern_at(ts, i + 1, p_end, p) {
        ahead_pattern(ts, i + 1, p_end, p);
        if expression_at(ts, p_end + 1, e_end, e) {
            ahead_expression(ts, p_end + 1, e_end, e);
        }
    }
}

/// `catch@l p => { b } q` catches, with the label `l`, what is thrown in `q` as `p` in `b`.
pub proof fn catch_process(
    ts: Seq<Token>,
    i: int,
    l: Option<LocalName>,
    l_end: int,
    p: Pattern,
    p_end: int,
    b: Process,
    b_end: int,
    q: Process,
    q_end: int,
)
    requires
        token_at(ts, i, TokenKind::Catch),
        label_at(ts, i + 1, l_end, l),
        pattern_at(ts, l_end, p_end, p),
        token_at(ts, p_end, TokenKind::FatArrow),
        token_at(ts, p_end + 1, TokenKind::LCurly),
        process_at(ts, p_end + 2, b_end, b),
        token_at(ts, b_end, TokenKind::RCurly),
        process_at(ts, b_end + 1, q_end, q),
    ensures
        process_at(
            ts,
            i,
            q_end,
            Process::Catch {
                span: ts[i].span.join(b.span()),
                label: l,
                pattern: p,
                block: Box::new(b),
                then: Box::new(q),
            },
        ),
{
    broadcast use group_rules;

    read_label(ts, i + 1, l_end, l);
    ahead_pattern(ts, l_end, p_end, p);
    ahead_process(ts, p_end + 2, b_end, b);
    ahead_process(ts, b_end + 1, q_end, q);
    reveal(proc_catch);
    only_proc_catch(ts, i);
}

/// What starts like `catch@l p => { b } q` is that, with all of its parts.
pub proof fn catch_process_parts(
    ts: Seq<Token>,
    i: int,
    j: int,
    whole: Process,
) -> (parts: (Option<LocalName>, int, Pattern, int, Process, int, Process, int))
    requires
        process_at(ts, i, j, whole),
        token_at(ts, i, TokenKind::Catch),
    ensures
        ({
            let (l, l_end, p, p_end, b, b_end, q, q_end) = parts;
            &&& token_at(ts, i, TokenKind::Catch)
            &&& label_at(ts, i + 1, l_end, l)
            &&& pattern_at(ts, l_end, p_end, p)
            &&& token_at(ts, p_end, TokenKind::FatArrow)
            &&& token_at(ts, p_end + 1, TokenKind::LCurly)
            &&& process_at(ts, p_end + 2, b_end, b)
            &&& token_at(ts, b_end, TokenKind::RCurly)
            &&& process_at(ts, b_end + 1, q_end, q)
            &&& j == q_end
            &&& whole == (Process::Catch {
                span: ts[i].span.join(b.span()),
                label: l,
                pattern: p,
                block: Box::new(b),
                then: Box::new(q),
            })
        }),
{
    broadcast use group_rules;

    only_proc_catch(ts, i);
    reveal(proc_catch);
    let l_found = label(ts, i + 1);
    let l_end = l_found->Done_0;
    let l = l_found->Done_1;
    found_label(ts, i + 1, l_end, l);
    let p_found = pattern(ts, rules(ts, l_end), l_end);
    let p_end = p_found->Done_0;
    let p = p_found->Done_1;
    ahead_pattern(ts, l_end, p_end, p);
    let b_found = process(ts, rules(ts, p_end + 2), p_end + 2);
    let b_end = b_found->Done_0;
    let b = b_found->Done_1;
    ahead_process(ts, p_end + 2, b_end, b);
    let q_found = process(ts, rules(ts, b_end + 1), b_end + 1);
    let q_end = q_found->Done_0;
    let q = q_found->Done_1;
    ahead_process(ts, b_end + 1, q_end, q);
    (l, l_end, p, p_end, b, b_end, q, q_end)
}

/// What starts like `catch@l p => { b } q` and lacks a part fails for good where that is missing.
pub proof fn catch_process_fails(
    ts: Seq<Token>,
    i: int,
    l: Option<LocalName>,
    l_end: int,
    p: Pattern,
    p_end: int,
    b: Process,
    b_end: int,
)
    requires
        token_at(ts, i, TokenKind::Catch),
    ensures
        label_at(ts, i + 1, l_end, l)
            ==> fails_like(process(ts, rules(ts, i), i), pattern(ts, rules(ts, l_end), l_end)),
        label_at(ts, i + 1, l_end, l) && pattern_at(ts, l_end, p_end, p)
            && !token_at(ts, p_end, TokenKind::FatArrow)
            ==> lacks(ts, process(ts, rules(ts, i), i), p_end, TokenKind::FatArrow),
        label_at(ts, i + 1, l_end, l) && pattern_at(ts, l_end, p_end, p)
            && token_at(ts, p_end, TokenKind::FatArrow)
            && !token_at(ts, p_end + 1, TokenKind::LCurly)
            ==> lacks(ts, process(ts, rules(ts, i), i), p_end + 1, TokenKind::LCurly),
        label_at(ts, i + 1, l_end, l) && pattern_at(ts, l_end, p_end, p)
            && token_at(ts, p_end, TokenKind::FatArrow)
            && token_at(ts, p_end + 1, TokenKind::LCurly)
            ==> fails_like(process(ts, rules(ts, i), i), process(ts, rules(ts, p_end + 2),
            p_end + 2)),
        label_at(ts, i + 1, l_end, l) && pattern_at(ts, l_end, p_end, p)
            && token_at(ts, p_end, TokenKind::FatArrow)
            && token_at(ts, p_end + 1, TokenKind::LCurly) && process_at(ts, p_end + 2, b_end, b)
            && !token_at(ts, b_end, TokenKind::RCurly)
            ==> lacks(ts, process(ts, rules(ts, i), i), b_end, TokenKind::RCurly),
        label_at(ts, i + 1, l_end, l) && pattern_at(ts, l_end, p_end, p)
            && token_at(ts, p_end, TokenKind::FatArrow)
            && token_at(ts, p_end + 1, TokenKind::LCurly) && process_at(ts, p_end + 2, b_end, b)
            && token_at(ts, b_end, TokenKind::RCurly)
            ==> fails_like(process(ts, rules(ts, i), i), process(ts, rules(ts, b_end + 1),
            b_end + 1)),
{
    broadcast use group_rules;

    only_proc_catch(ts, i);
    reveal(proc_catch);
    if label_at(ts, i + 1, l_end, l) {
        read_label(ts, i + 1, l_end, l);
        if pattern_at(ts, l_end, p_end, p) {
            ahead_pattern(ts, l_end, p_end, p);
            if process_at(ts, p_end + 2, b_end, b) {
                ahead_process(ts, p_end + 2, b_end, b);
            }
        }
    }
}

/// `throw@l e` throws `e` to the label `l`.
pub proof fn throw_process(
    ts: Seq<Token>,
    i: int,
    l: Option<LocalName>,
    l_end: int,
    e: Expression,
    e_end: int,
)
    requires
        token_at(ts, i, TokenKind::Throw),
        label_at(ts, i + 1, l_end, l),
        expression_at(ts, l_end, e_end, e),
    ensures
        process_at(
            ts,
            i,
            e_end,
            Process::Throw(ts[i].span.join(e.span()), l, Box::new(e)),
        ),
{
    broadcast use group_rules;

    read_label(ts, i + 1, l_end, l);
    ahead_expression(ts, l_end, e_end, e);
    reveal(proc_throw);
    only_proc_throw(ts, i);
}

/// What starts like `throw@l e` is that, with all of its parts.
pub proof fn throw_process_parts(
    ts: Seq<Token>,
    i: int,
    j: int,
    whole: Process,
) -> (parts: (Option<LocalName>, int, Expression, int))
    requires
        process_at(ts, i, j, whole),
        token_at(ts, i, TokenKind::Throw),
    ensures
        ({
            let (l, l_end, e, e_end) = parts;
            &&& token_at(ts, i, TokenKind::Throw)
            &&& label_at(ts, i + 1, l_end, l)
            &&& expression_at(ts, l_end, e_end, e)
            &&& j == e_end
            &&& whole == (Process::Throw(ts[i].span.join(e.span()), l, Box::new(e)))
        }),
{
    broadcast use group_rules;

    only_proc_throw(ts, i);
    reveal(proc_throw);
    let l_found = label(ts, i + 1);
    let l_end = l_found->Done_0;
    let l = l_found->Done_1;
    found_label(ts, i + 1, l_end, l);
    let e_found = expression(ts, rules(ts, l_end), l_end);
    let e_end = e_found->Done_0;
    let e = e_found->Done_1;
    ahead_expression(ts, l_end, e_end, e);
    (l, l_end, e, e_end)
}

/// What starts like `throw@l e` and lacks a part fails for good where that is missing.
pub proof fn throw_process_fails(ts: Seq<Token>, i: int, l: Option<LocalName>, l_end: int)
    requires
        token_at(ts, i, TokenKind::Throw),
    ensures
        label_at(ts, i + 1, l_end, l)
            ==> fails_like(process(ts, rules(ts, i), i), expression(ts, rules(ts, l_end), l_end)),
{
    broadcast use group_rules;

    only_proc_throw(ts, i);
    reveal(proc_throw);
    if label_at(ts, i + 1, l_end, l) {
        read_label(ts, i + 1, l_end, l);
    }
}

/// `telltypes q` tells the types and goes on with `q`; it does nothing more only if no process
/// follows.
pub proof fn telltypes_process(ts: Seq<Token>, i: int, q: Option<Process>, q_end: int)
    requires
        token_at(ts, i, TokenKind::Telltypes),
        opt_process_at(ts, i + 1, q_end, q),
    ensures
        process_at(
            ts,
            i,
            q_end,
            Process::Telltypes(ts[i].span, Box::new(or_noop_process(q, ts[i].span))),
        ),
{
    broadcast use group_rules;

    if let Some(x) = q {
        ahead_process(ts, i + 1, q_end, x);
    }
    reveal(proc_telltypes);
    only_proc_telltypes(ts, i);
}

/// What starts like `telltypes q` is that, with all of its parts.
pub proof fn telltypes_process_parts(
    ts: Seq<Token>,
    i: int,
    j: int,
    whole: Process,
) -> (parts: (Option<Process>, int))
    requires
        process_at(ts, i, j, whole),
        token_at(ts, i, TokenKind::Telltypes),
    ensures
        ({
            let (q, q_end) = parts;
            &&& token_at(ts, i, TokenKind::Telltypes)
            &&& opt_process_at(ts, i + 1, q_end, q)
            &&& j == q_end
            &&& whole == (Process::Telltypes(ts[i].span, Box::new(or_noop_process(q, ts[i].span))))
        }),
{
    broadcast use group_rules;

    only_proc_telltypes(ts, i);
    reveal(proc_telltypes);
    let q_found = process(ts, rules(ts, i + 1), i + 1);
    let q = match q_found {
        Outcome::Done(_, x) => Some(x),
        Outcome::Failed { .. } => None,
    };
    let q_end = match q_found {
        Outcome::Done(end, _) => end,
        Outcome::Failed { .. } => i + 1,
    };
    if let Some(x) = q {
        ahead_process(ts, i + 1, q_end, x);
    }
    (q, q_end)
}

/// What starts like `telltypes q` and lacks a part fails for good where that is missing.
pub proof fn telltypes_process_fails(ts: Seq<Token>, i: int)
    requires
        token_at(ts, i, TokenKind::Telltypes),
    ensures
        !fails_openly(process(ts, rules(ts, i + 1), i + 1))
            ==> fails_like(process(ts, rules(ts, i), i), process(ts, rules(ts, i + 1), i + 1)),
{
    broadcast use group_rules;

    only_proc_telltypes(ts, i);
    reveal(proc_telltypes);
}

/// A name in upper case and a command do that command with that definition.
pub proof fn global_command_process(
    ts: Seq<Token>,
    i: int,
    n: GlobalName,
    n_end: int,
    c: Option<Command>,
    c_end: int,
)
    requires
        global_name_at(ts, i, n_end, n),
        cmd_at(ts, n_end, c_end, c),
    ensures
        process_at(
            ts,
            i,
            c_end,
            Process::GlobalCommand(n, or_noop_command(c, n.span)),
        ),
{
    broadcast use group_rules;

    read_global_name(ts, i, n_end, n);
    ahead_cmd(ts, n_end, c_end, c);
    reveal(global_command);
    only_global_command(ts, i);
}

/// What starts like this has these parts.
pub proof fn global_command_process_parts(
    ts: Seq<Token>,
    i: int,
    j: int,
    whole: Process,
) -> (parts: (GlobalName, int, Option<Command>, int))
    requires
        process_at(ts, i, j, whole),
        token_at(ts, i, TokenKind::UppercaseIdentifier),
    ensures
        ({
            let (n, n_end, c, c_end) = parts;
            &&& global_name_at(ts, i, n_end, n)
            &&& cmd_at(ts, n_end, c_end, c)
            &&& j == c_end
            &&& whole == (Process::GlobalCommand(n, or_noop_command(c, n.span)))
        }),
{
    broadcast use group_rules;

    only_global_command(ts, i);
    reveal(global_command);
    let n_found = global_name(ts, i);
    let n_end = n_found->Done_0;
    let n = n_found->Done_1;
    found_global_name(ts, i, n_end, n);
    let c_found = cmd(ts, rules(ts, n_end), n_end);
    let c_end = c_found->Done_0;
    let c = c_found->Done_1;
    ahead_cmd(ts, n_end, c_end, c);
    (n, n_end, c, c_end)
}

/// A name in lower case and a command do that command with that variable.
pub proof fn command_process(ts: Seq<Token>, i: int, n: LocalName, c: Option<Command>, c_end: int)
    requires
        local_name_at(ts, i, n),
        cmd_at(ts, i + 1, c_end, c),
    ensures
        process_at(
            ts,
            i,
            c_end,
            Process::Command(n, or_noop_command(c, n.span)),
        ),
{
    broadcast use group_rules;

    read_local_name(ts, i, n);
    ahead_cmd(ts, i + 1, c_end, c);
    reveal(command);
    only_command(ts, i);
}

/// What starts like this has these parts.
pub proof fn command_process_parts(
    ts: Seq<Token>,
    i: int,
    j: int,
    whole: Process,
) -> (parts: (LocalName, Option<Command>, int))
    requires
        process_at(ts, i, j, whole),
        token_at(ts, i, TokenKind::LowercaseIdentifier),
    ensures
        ({
            let (n, c, c_end) = parts;
            &&& local_name_at(ts, i, n)
            &&& cmd_at(ts, i + 1, c_end, c)
            &&& j == c_end
            &&& whole == (Process::Command(n, or_noop_command(c, n.span)))
        }),
{
    broadcast use group_rules;

    only_command(ts, i);
    reveal(command);
    let n = LocalName { span: ts[i].span, string: ts[i].raw };
    let c_found = cmd(ts, rules(ts, i + 1), i + 1);
    let c_end = c_found->Done_0;
    let c = c_found->Done_1;
    ahead_cmd(ts, i + 1, c_end, c);
    (n, c, c_end)
}

/// What takes over after branches is a process, other than one that starts with `catch` or
/// `throw`.
pub proof fn passing_process(ts: Seq<Token>, i: int, j: int, q: Process)
    requires
        0 <= i <= ts.len(),
    ensures
        token_at(ts, i, TokenKind::Catch) || token_at(ts, i, TokenKind::Throw) ==> fails_openly(
            pass_process(ts, rules(ts, i), i),
        ),
        !token_at(ts, i, TokenKind::Catch) && !token_at(ts, i, TokenKind::Throw) ==> (
        pass_process_at(ts, i, j, q) <==> process_at(ts, i, j, q)),
{
    let r = rules(ts, i);
    if token_at(ts, i, TokenKind::Catch) || token_at(ts, i, TokenKind::Throw) {
        miss_pass_process(ts, r, i);
    } else {
        miss_proc_catch(ts, r, i);
        miss_proc_throw(ts, r, i);
        reveal(process);
        reveal(pass_process);
    }
}

} // verus!
