//! What the productions of the grammar start with.
use super::super::error::StrContext;
use super::super::grammar::applications::{
    application, apply, apply_begin, apply_branch, apply_branch_continue, apply_branch_default,
    apply_branch_receive, apply_branch_recv_type, apply_branch_then, apply_branch_try, apply_case,
    apply_default, apply_loop, apply_pipe, apply_send, apply_send_type, apply_signal, apply_try,
    apply_unfounded,
};
use super::super::grammar::commands::{
    cmd, cmd_begin, cmd_branch, cmd_branch_bind_then, cmd_branch_continue, cmd_branch_default,
    cmd_branch_receive, cmd_branch_recv_type, cmd_branch_then, cmd_branch_try, cmd_break, cmd_case,
    cmd_continue, cmd_default, cmd_link, cmd_loop, cmd_pipe, cmd_receive, cmd_recv_type, cmd_send,
    cmd_send_type, cmd_signal, cmd_step, cmd_then, cmd_try, cmd_unfounded,
};
use super::super::grammar::constructions::{
    cons_begin, cons_branch, cons_branch_receive, cons_branch_recv_type, cons_branch_then,
    cons_break, cons_case, cons_loop, cons_receive, cons_recv_type, cons_send, cons_send_type,
    cons_signal, cons_then, cons_then_value, cons_unfounded, construction,
};
use super::super::grammar::expressions::{
    expr_box, expr_catch, expr_chan, expr_do, expr_grouped, expr_let, expr_list, expr_literal,
    expr_literal_bytes, expr_literal_bytes_empty, expr_literal_bytes_nonempty, expr_literal_int,
    expr_literal_string, expr_throw, expression, literal_int, operand,
};
use super::super::grammar::patterns::{
    pattern, pattern_continue, pattern_default, pattern_name, pattern_receive, pattern_receive_type,
    pattern_try,
};
use super::super::grammar::processes::{
    command, global_command, pass_process, proc_catch, proc_let, proc_telltypes, proc_throw,
    process,
};
use super::super::grammar::types::{
    typ, typ_box, typ_branch, typ_branch_receive, typ_branch_recv_type, typ_branch_then, typ_break,
    typ_chan, typ_choice, typ_continue, typ_either, typ_iterative, typ_name, typ_receive,
    typ_recursive, typ_recv_type, typ_self, typ_send, typ_send_type, typ_var,
};
use super::super::grammar::{rules, Rules};
use super::super::outcome::Outcome;
use super::{fails_openly, token_at};
use crate::model::{Apply, Command, Token};
use crate::token::TokenKind;
use vstd::prelude::*;

verus! {

/// `typ_var` does not start here.
pub(crate) proof fn miss_typ_var(ts: Seq<Token>, i: int)
    requires
        !token_at(ts, i, TokenKind::LowercaseIdentifier),
    ensures
        fails_openly(typ_var(ts, i)),
{
    reveal(typ_var);
}

/// `typ_name` does not start here.
pub(crate) proof fn miss_typ_name(ts: Seq<Token>, r: Rules, i: int)
    requires
        !token_at(ts, i, TokenKind::UppercaseIdentifier),
    ensures
        fails_openly(typ_name(ts, r, i)),
{
    reveal(typ_name);
}

/// `typ_box` does not start here.
pub(crate) proof fn miss_typ_box(ts: Seq<Token>, r: Rules, i: int)
    requires
        !token_at(ts, i, TokenKind::Box),
    ensures
        fails_openly(typ_box(ts, r, i)),
{
    reveal(typ_box);
}

/// `typ_chan` does not start here.
pub(crate) proof fn miss_typ_chan(ts: Seq<Token>, r: Rules, i: int)
    requires
        !token_at(ts, i, TokenKind::Dual),
    ensures
        fails_openly(typ_chan(ts, r, i)),
{
    reveal(typ_chan);
}

/// `typ_either` does not start here.
pub(crate) proof fn miss_typ_either(ts: Seq<Token>, r: Rules, i: int)
    requires
        !token_at(ts, i, TokenKind::Either),
    ensures
        fails_openly(typ_either(ts, r, i)),
{
    reveal(typ_either);
}

/// `typ_choice` does not start here.
pub(crate) proof fn miss_typ_choice(ts: Seq<Token>, r: Rules, i: int)
    requires
        !token_at(ts, i, TokenKind::Choice),
    ensures
        fails_openly(typ_choice(ts, r, i)),
{
    reveal(typ_choice);
}

/// `typ_break` does not start here.
pub(crate) proof fn miss_typ_break(ts: Seq<Token>, i: int)
    requires
        !token_at(ts, i, TokenKind::Bang),
    ensures
        fails_openly(typ_break(ts, i)),
{
    reveal(typ_break);
}

/// `typ_continue` does not start here.
pub(crate) proof fn miss_typ_continue(ts: Seq<Token>, i: int)
    requires
        !token_at(ts, i, TokenKind::Quest),
    ensures
        fails_openly(typ_continue(ts, i)),
{
    reveal(typ_continue);
}

/// `typ_recursive` does not start here.
pub(crate) proof fn miss_typ_recursive(ts: Seq<Token>, r: Rules, i: int)
    requires
        !token_at(ts, i, TokenKind::Recursive),
    ensures
        fails_openly(typ_recursive(ts, r, i)),
{
    reveal(typ_recursive);
}

/// `typ_iterative` does not start here.
pub(crate) proof fn miss_typ_iterative(ts: Seq<Token>, r: Rules, i: int)
    requires
        !token_at(ts, i, TokenKind::Iterative),
    ensures
        fails_openly(typ_iterative(ts, r, i)),
{
    reveal(typ_iterative);
}

/// `typ_self` does not start here.
pub(crate) proof fn miss_typ_self(ts: Seq<Token>, i: int)
    requires
        !token_at(ts, i, TokenKind::Self_),
    ensures
        fails_openly(typ_self(ts, i)),
{
    reveal(typ_self);
}

/// `typ_send_type` does not start here.
pub(crate) proof fn miss_typ_send_type(ts: Seq<Token>, r: Rules, i: int)
    requires
        !(token_at(ts, i, TokenKind::LParen) && token_at(ts, i + 1, TokenKind::Type)),
    ensures
        fails_openly(typ_send_type(ts, r, i)),
{
    reveal(typ_send_type);
}

/// `typ_send` does not start here.
pub(crate) proof fn miss_typ_send(ts: Seq<Token>, r: Rules, i: int)
    requires
        !token_at(ts, i, TokenKind::LParen),
    ensures
        fails_openly(typ_send(ts, r, i)),
{
    reveal(typ_send);
}

/// `typ_recv_type` does not start here.
pub(crate) proof fn miss_typ_recv_type(ts: Seq<Token>, r: Rules, i: int)
    requires
        !(token_at(ts, i, TokenKind::LBrack) && token_at(ts, i + 1, TokenKind::Type)),
    ensures
        fails_openly(typ_recv_type(ts, r, i)),
{
    reveal(typ_recv_type);
}

/// `typ_receive` does not start here.
pub(crate) proof fn miss_typ_receive(ts: Seq<Token>, r: Rules, i: int)
    requires
        !token_at(ts, i, TokenKind::LBrack),
    ensures
        fails_openly(typ_receive(ts, r, i)),
{
    reveal(typ_receive);
}

/// `typ_branch_then` does not start here.
pub(crate) proof fn miss_typ_branch_then(ts: Seq<Token>, r: Rules, i: int)
    requires
        !token_at(ts, i, TokenKind::FatArrow),
    ensures
        fails_openly(typ_branch_then(ts, r, i)),
{
    reveal(typ_branch_then);
}

/// `typ_branch_recv_type` does not start here.
pub(crate) proof fn miss_typ_branch_recv_type(ts: Seq<Token>, r: Rules, i: int)
    requires
        !(token_at(ts, i, TokenKind::LParen) && token_at(ts, i + 1, TokenKind::Type)),
    ensures
        fails_openly(typ_branch_recv_type(ts, r, i)),
{
    reveal(typ_branch_recv_type);
}

/// `typ_branch_receive` does not start here.
pub(crate) proof fn miss_typ_branch_receive(ts: Seq<Token>, r: Rules, i: int)
    requires
        !token_at(ts, i, TokenKind::LParen),
    ensures
        fails_openly(typ_branch_receive(ts, r, i)),
{
    reveal(typ_branch_receive);
}

/// `pattern_name` does not start here.
pub(crate) proof fn miss_pattern_name(ts: Seq<Token>, r: Rules, i: int)
    requires
        !token_at(ts, i, TokenKind::LowercaseIdentifier),
    ensures
        fails_openly(pattern_name(ts, r, i)),
{
    reveal(pattern_name);
}

/// `pattern_receive_type` does not start here.
pub(crate) proof fn miss_pattern_receive_type(ts: Seq<Token>, r: Rules, i: int)
    requires
        !(token_at(ts, i, TokenKind::LParen) && token_at(ts, i + 1, TokenKind::Type)),
    ensures
        fails_openly(pattern_receive_type(ts, r, i)),
{
    reveal(pattern_receive_type);
}

/// `pattern_receive` does not start here.
pub(crate) proof fn miss_pattern_receive(ts: Seq<Token>, r: Rules, i: int)
    requires
        !token_at(ts, i, TokenKind::LParen),
    ensures
        fails_openly(pattern_receive(ts, r, i)),
{
    reveal(pattern_receive);
}

/// `pattern_continue` does not start here.
pub(crate) proof fn miss_pattern_continue(ts: Seq<Token>, i: int)
    requires
        !token_at(ts, i, TokenKind::Bang),
    ensures
        fails_openly(pattern_continue(ts, i)),
{
    reveal(pattern_continue);
}

/// `pattern_default` does not start here.
pub(crate) proof fn miss_pattern_default(ts: Seq<Token>, r: Rules, i: int)
    requires
        !token_at(ts, i, TokenKind::Default),
    ensures
        fails_openly(pattern_default(ts, r, i)),
{
    reveal(pattern_default);
}

/// `pattern_try` does not start here.
pub(crate) proof fn miss_pattern_try(ts: Seq<Token>, r: Rules, i: int)
    requires
        !token_at(ts, i, TokenKind::Try),
    ensures
        fails_openly(pattern_try(ts, r, i)),
{
    reveal(pattern_try);
}

/// `expr_literal_int` does not start here.
pub(crate) proof fn miss_expr_literal_int(ts: Seq<Token>, i: int)
    requires
        !token_at(ts, i, TokenKind::Integer),
    ensures
        fails_openly(expr_literal_int(ts, i)),
{
    reveal(expr_literal_int);
    reveal(literal_int);
}

/// `expr_literal_string` does not start here.
pub(crate) proof fn miss_expr_literal_string(ts: Seq<Token>, i: int)
    requires
        !token_at(ts, i, TokenKind::String),
    ensures
        fails_openly(expr_literal_string(ts, i)),
{
    reveal(expr_literal_string);
}

/// `expr_literal_bytes_empty` does not start here.
pub(crate) proof fn miss_expr_literal_bytes_empty(ts: Seq<Token>, i: int)
    requires
        !(token_at(ts, i, TokenKind::Lt) && token_at(ts, i + 1, TokenKind::Link)),
    ensures
        fails_openly(expr_literal_bytes_empty(ts, i)),
{
    reveal(expr_literal_bytes_empty);
}

/// `expr_literal_bytes_nonempty` does not start here.
pub(crate) proof fn miss_expr_literal_bytes_nonempty(ts: Seq<Token>, i: int)
    requires
        !(token_at(ts, i, TokenKind::Lt) && token_at(ts, i + 1, TokenKind::Lt)),
    ensures
        fails_openly(expr_literal_bytes_nonempty(ts, i)),
{
    reveal(expr_literal_bytes_nonempty);
}

/// `expr_list` does not start here.
pub(crate) proof fn miss_expr_list(ts: Seq<Token>, r: Rules, i: int)
    requires
        !token_at(ts, i, TokenKind::Star),
    ensures
        fails_openly(expr_list(ts, r, i)),
{
    reveal(expr_list);
}

/// `expr_let` does not start here.
pub(crate) proof fn miss_expr_let(ts: Seq<Token>, r: Rules, i: int)
    requires
        !token_at(ts, i, TokenKind::Let),
    ensures
        fails_openly(expr_let(ts, r, i)),
{
    reveal(expr_let);
}

/// `expr_catch` does not start here.
pub(crate) proof fn miss_expr_catch(ts: Seq<Token>, r: Rules, i: int)
    requires
        !token_at(ts, i, TokenKind::Catch),
    ensures
        fails_openly(expr_catch(ts, r, i)),
{
    reveal(expr_catch);
}

/// `expr_throw` does not start here.
pub(crate) proof fn miss_expr_throw(ts: Seq<Token>, r: Rules, i: int)
    requires
        !token_at(ts, i, TokenKind::Throw),
    ensures
        fails_openly(expr_throw(ts, r, i)),
{
    reveal(expr_throw);
}

/// `expr_do` does not start here.
pub(crate) proof fn miss_expr_do(ts: Seq<Token>, r: Rules, i: int)
    requires
        !token_at(ts, i, TokenKind::Do),
    ensures
        fails_openly(expr_do(ts, r, i)),
{
    reveal(expr_do);
}

/// `expr_box` does not start here.
pub(crate) proof fn miss_expr_box(ts: Seq<Token>, r: Rules, i: int)
    requires
        !token_at(ts, i, TokenKind::Box),
    ensures
        fails_openly(expr_box(ts, r, i)),
{
    reveal(expr_box);
}

/// `expr_chan` does not start here.
pub(crate) proof fn miss_expr_chan(ts: Seq<Token>, r: Rules, i: int)
    requires
        !token_at(ts, i, TokenKind::Chan),
    ensures
        fails_openly(expr_chan(ts, r, i)),
{
    reveal(expr_chan);
}

/// `expr_grouped` does not start here.
pub(crate) proof fn miss_expr_grouped(ts: Seq<Token>, r: Rules, i: int)
    requires
        !token_at(ts, i, TokenKind::LCurly),
    ensures
        fails_openly(expr_grouped(ts, r, i)),
{
    reveal(expr_grouped);
}

/// `cons_begin` does not start here.
pub(crate) proof fn miss_cons_begin(ts: Seq<Token>, r: Rules, i: int)
    requires
        !token_at(ts, i, TokenKind::Begin),
    ensures
        fails_openly(cons_begin(ts, r, i)),
{
    reveal(cons_begin);
}

/// `cons_unfounded` does not start here.
pub(crate) proof fn miss_cons_unfounded(ts: Seq<Token>, r: Rules, i: int)
    requires
        !token_at(ts, i, TokenKind::Unfounded),
    ensures
        fails_openly(cons_unfounded(ts, r, i)),
{
    reveal(cons_unfounded);
}

/// `cons_loop` does not start here.
pub(crate) proof fn miss_cons_loop(ts: Seq<Token>, i: int)
    requires
        !token_at(ts, i, TokenKind::Loop),
    ensures
        fails_openly(cons_loop(ts, i)),
{
    reveal(cons_loop);
}

/// `cons_signal` does not start here.
pub(crate) proof fn miss_cons_signal(ts: Seq<Token>, r: Rules, i: int)
    requires
        !(token_at(ts, i, TokenKind::Dot) && token_at(ts, i + 1, TokenKind::LowercaseIdentifier)),
    ensures
        fails_openly(cons_signal(ts, r, i)),
{
    reveal(cons_signal);
}

/// `cons_case` does not start here.
pub(crate) proof fn miss_cons_case(ts: Seq<Token>, r: Rules, i: int)
    requires
        !token_at(ts, i, TokenKind::Case),
    ensures
        fails_openly(cons_case(ts, r, i)),
{
    reveal(cons_case);
}

/// `cons_break` does not start here.
pub(crate) proof fn miss_cons_break(ts: Seq<Token>, i: int)
    requires
        !token_at(ts, i, TokenKind::Bang),
    ensures
        fails_openly(cons_break(ts, i)),
{
    reveal(cons_break);
}

/// `cons_send_type` does not start here.
pub(crate) proof fn miss_cons_send_type(ts: Seq<Token>, r: Rules, i: int)
    requires
        !(token_at(ts, i, TokenKind::LParen) && token_at(ts, i + 1, TokenKind::Type)),
    ensures
        fails_openly(cons_send_type(ts, r, i)),
{
    reveal(cons_send_type);
}

/// `cons_send` does not start here.
pub(crate) proof fn miss_cons_send(ts: Seq<Token>, r: Rules, i: int)
    requires
        !token_at(ts, i, TokenKind::LParen),
    ensures
        fails_openly(cons_send(ts, r, i)),
{
    reveal(cons_send);
}

/// `cons_recv_type` does not start here.
pub(crate) proof fn miss_cons_recv_type(ts: Seq<Token>, r: Rules, i: int)
    requires
        !(token_at(ts, i, TokenKind::LBrack) && token_at(ts, i + 1, TokenKind::Type)),
    ensures
        fails_openly(cons_recv_type(ts, r, i)),
{
    reveal(cons_recv_type);
}

/// `cons_receive` does not start here.
pub(crate) proof fn miss_cons_receive(ts: Seq<Token>, r: Rules, i: int)
    requires
        !token_at(ts, i, TokenKind::LBrack),
    ensures
        fails_openly(cons_receive(ts, r, i)),
{
    reveal(cons_receive);
}

/// `cons_branch_then` does not start here.
pub(crate) proof fn miss_cons_branch_then(ts: Seq<Token>, r: Rules, i: int)
    requires
        !token_at(ts, i, TokenKind::FatArrow),
    ensures
        fails_openly(cons_branch_then(ts, r, i)),
{
    reveal(cons_branch_then);
}

/// `cons_branch_recv_type` does not start here.
pub(crate) proof fn miss_cons_branch_recv_type(ts: Seq<Token>, r: Rules, i: int)
    requires
        !(token_at(ts, i, TokenKind::LParen) && token_at(ts, i + 1, TokenKind::Type)),
    ensures
        fails_openly(cons_branch_recv_type(ts, r, i)),
{
    reveal(cons_branch_recv_type);
}

/// `cons_branch_receive` does not start here.
pub(crate) proof fn miss_cons_branch_receive(ts: Seq<Token>, r: Rules, i: int)
    requires
        !token_at(ts, i, TokenKind::LParen),
    ensures
        fails_openly(cons_branch_receive(ts, r, i)),
{
    reveal(cons_branch_receive);
}

/// `apply_begin` does not start here.
pub(crate) proof fn miss_apply_begin(ts: Seq<Token>, r: Rules, i: int)
    requires
        !(token_at(ts, i, TokenKind::Dot) && token_at(ts, i + 1, TokenKind::Begin)),
    ensures
        fails_openly(apply_begin(ts, r, i)),
{
    reveal(apply_begin);
}

/// `apply_unfounded` does not start here.
pub(crate) proof fn miss_apply_unfounded(ts: Seq<Token>, r: Rules, i: int)
    requires
        !(token_at(ts, i, TokenKind::Dot) && token_at(ts, i + 1, TokenKind::Unfounded)),
    ensures
        fails_openly(apply_unfounded(ts, r, i)),
{
    reveal(apply_unfounded);
}

/// `apply_loop` does not start here.
pub(crate) proof fn miss_apply_loop(ts: Seq<Token>, i: int)
    requires
        !(token_at(ts, i, TokenKind::Dot) && token_at(ts, i + 1, TokenKind::Loop)),
    ensures
        fails_openly(apply_loop(ts, i)),
{
    reveal(apply_loop);
}

/// `apply_signal` does not start here.
pub(crate) proof fn miss_apply_signal(ts: Seq<Token>, r: Rules, i: int)
    requires
        !(token_at(ts, i, TokenKind::Dot) && token_at(ts, i + 1, TokenKind::LowercaseIdentifier)),
    ensures
        fails_openly(apply_signal(ts, r, i)),
{
    reveal(apply_signal);
}

/// `apply_case` does not start here.
pub(crate) proof fn miss_apply_case(ts: Seq<Token>, r: Rules, i: int)
    requires
        !(token_at(ts, i, TokenKind::Dot) && token_at(ts, i + 1, TokenKind::Case)),
    ensures
        fails_openly(apply_case(ts, r, i)),
{
    reveal(apply_case);
}

/// `apply_send_type` does not start here.
pub(crate) proof fn miss_apply_send_type(ts: Seq<Token>, r: Rules, i: int)
    requires
        !(token_at(ts, i, TokenKind::LParen) && token_at(ts, i + 1, TokenKind::Type)),
    ensures
        fails_openly(apply_send_type(ts, r, i)),
{
    reveal(apply_send_type);
}

/// `apply_send` does not start here.
pub(crate) proof fn miss_apply_send(ts: Seq<Token>, r: Rules, i: int)
    requires
        !token_at(ts, i, TokenKind::LParen),
    ensures
        fails_openly(apply_send(ts, r, i)),
{
    reveal(apply_send);
}

/// `apply_default` does not start here.
pub(crate) proof fn miss_apply_default(ts: Seq<Token>, r: Rules, i: int)
    requires
        !(token_at(ts, i, TokenKind::Dot) && token_at(ts, i + 1, TokenKind::Default)),
    ensures
        fails_openly(apply_default(ts, r, i)),
{
    reveal(apply_default);
}

/// `apply_try` does not start here.
pub(crate) proof fn miss_apply_try(ts: Seq<Token>, r: Rules, i: int)
    requires
        !(token_at(ts, i, TokenKind::Dot) && token_at(ts, i + 1, TokenKind::Try)),
    ensures
        fails_openly(apply_try(ts, r, i)),
{
    reveal(apply_try);
}

/// `apply_pipe` does not start here.
pub(crate) proof fn miss_apply_pipe(ts: Seq<Token>, r: Rules, i: int)
    requires
        !token_at(ts, i, TokenKind::ThinArrow),
    ensures
        fails_openly(apply_pipe(ts, r, i)),
{
    reveal(apply_pipe);
}

/// `apply_branch_then` does not start here.
pub(crate) proof fn miss_apply_branch_then(ts: Seq<Token>, r: Rules, i: int)
    requires
        !token_at(ts, i, TokenKind::LowercaseIdentifier),
    ensures
        fails_openly(apply_branch_then(ts, r, i)),
{
    reveal(apply_branch_then);
}

/// `apply_branch_recv_type` does not start here.
pub(crate) proof fn miss_apply_branch_recv_type(ts: Seq<Token>, r: Rules, i: int)
    requires
        !(token_at(ts, i, TokenKind::LParen) && token_at(ts, i + 1, TokenKind::Type)),
    ensures
        fails_openly(apply_branch_recv_type(ts, r, i)),
{
    reveal(apply_branch_recv_type);
}

/// `apply_branch_receive` does not start here.
pub(crate) proof fn miss_apply_branch_receive(ts: Seq<Token>, r: Rules, i: int)
    requires
        !token_at(ts, i, TokenKind::LParen),
    ensures
        fails_openly(apply_branch_receive(ts, r, i)),
{
    reveal(apply_branch_receive);
}

/// `apply_branch_continue` does not start here.
pub(crate) proof fn miss_apply_branch_continue(ts: Seq<Token>, r: Rules, i: int)
    requires
        !token_at(ts, i, TokenKind::Bang),
    ensures
        fails_openly(apply_branch_continue(ts, r, i)),
{
    reveal(apply_branch_continue);
}

/// `apply_branch_try` does not start here.
pub(crate) proof fn miss_apply_branch_try(ts: Seq<Token>, r: Rules, i: int)
    requires
        !token_at(ts, i, TokenKind::Try),
    ensures
        fails_openly(apply_branch_try(ts, r, i)),
{
    reveal(apply_branch_try);
}

/// `apply_branch_default` does not start here.
pub(crate) proof fn miss_apply_branch_default(ts: Seq<Token>, r: Rules, i: int)
    requires
        !token_at(ts, i, TokenKind::Default),
    ensures
        fails_openly(apply_branch_default(ts, r, i)),
{
    reveal(apply_branch_default);
}

/// `proc_let` does not start here.
pub(crate) proof fn miss_proc_let(ts: Seq<Token>, r: Rules, i: int)
    requires
        !token_at(ts, i, TokenKind::Let),
    ensures
        fails_openly(proc_let(ts, r, i)),
{
    reveal(proc_let);
}

/// `proc_catch` does not start here.
pub(crate) proof fn miss_proc_catch(ts: Seq<Token>, r: Rules, i: int)
    requires
        !token_at(ts, i, TokenKind::Catch),
    ensures
        fails_openly(proc_catch(ts, r, i)),
{
    reveal(proc_catch);
}

/// `proc_throw` does not start here.
pub(crate) proof fn miss_proc_throw(ts: Seq<Token>, r: Rules, i: int)
    requires
        !token_at(ts, i, TokenKind::Throw),
    ensures
        fails_openly(proc_throw(ts, r, i)),
{
    reveal(proc_throw);
}

/// `proc_telltypes` does not start here.
pub(crate) proof fn miss_proc_telltypes(ts: Seq<Token>, r: Rules, i: int)
    requires
        !token_at(ts, i, TokenKind::Telltypes),
    ensures
        fails_openly(proc_telltypes(ts, r, i)),
{
    reveal(proc_telltypes);
}

/// `global_command` does not start here.
pub(crate) proof fn miss_global_command(ts: Seq<Token>, r: Rules, i: int)
    requires
        !token_at(ts, i, TokenKind::UppercaseIdentifier),
    ensures
        fails_openly(global_command(ts, r, i)),
{
    reveal(global_command);
}

/// `command` does not start here.
pub(crate) proof fn miss_command(ts: Seq<Token>, r: Rules, i: int)
    requires
        !token_at(ts, i, TokenKind::LowercaseIdentifier),
    ensures
        fails_openly(command(ts, r, i)),
{
    reveal(command);
}

/// `cmd_link` does not start here.
pub(crate) proof fn miss_cmd_link(ts: Seq<Token>, r: Rules, i: int)
    requires
        !token_at(ts, i, TokenKind::Link),
    ensures
        fails_openly(cmd_link(ts, r, i)),
{
    reveal(cmd_link);
}

/// `cmd_signal` does not start here.
pub(crate) proof fn miss_cmd_signal(ts: Seq<Token>, r: Rules, i: int)
    requires
        !(token_at(ts, i, TokenKind::Dot) && token_at(ts, i + 1, TokenKind::LowercaseIdentifier)),
    ensures
        fails_openly(cmd_signal(ts, r, i)),
{
    reveal(cmd_signal);
}

/// `cmd_case` does not start here.
pub(crate) proof fn miss_cmd_case(ts: Seq<Token>, r: Rules, i: int)
    requires
        !(token_at(ts, i, TokenKind::Dot) && token_at(ts, i + 1, TokenKind::Case)),
    ensures
        fails_openly(cmd_case(ts, r, i)),
{
    reveal(cmd_case);
}

/// `cmd_break` does not start here.
pub(crate) proof fn miss_cmd_break(ts: Seq<Token>, i: int)
    requires
        !token_at(ts, i, TokenKind::Bang),
    ensures
        fails_openly(cmd_break(ts, i)),
{
    reveal(cmd_break);
}

/// `cmd_continue` does not start here.
pub(crate) proof fn miss_cmd_continue(ts: Seq<Token>, r: Rules, i: int)
    requires
        !token_at(ts, i, TokenKind::Quest),
    ensures
        fails_openly(cmd_continue(ts, r, i)),
{
    reveal(cmd_continue);
}

/// `cmd_begin` does not start here.
pub(crate) proof fn miss_cmd_begin(ts: Seq<Token>, r: Rules, i: int)
    requires
        !(token_at(ts, i, TokenKind::Dot) && token_at(ts, i + 1, TokenKind::Begin)),
    ensures
        fails_openly(cmd_begin(ts, r, i)),
{
    reveal(cmd_begin);
}

/// `cmd_unfounded` does not start here.
pub(crate) proof fn miss_cmd_unfounded(ts: Seq<Token>, r: Rules, i: int)
    requires
        !(token_at(ts, i, TokenKind::Dot) && token_at(ts, i + 1, TokenKind::Unfounded)),
    ensures
        fails_openly(cmd_unfounded(ts, r, i)),
{
    reveal(cmd_unfounded);
}

/// `cmd_loop` does not start here.
pub(crate) proof fn miss_cmd_loop(ts: Seq<Token>, i: int)
    requires
        !(token_at(ts, i, TokenKind::Dot) && token_at(ts, i + 1, TokenKind::Loop)),
    ensures
        fails_openly(cmd_loop(ts, i)),
{
    reveal(cmd_loop);
}

/// `cmd_send_type` does not start here.
pub(crate) proof fn miss_cmd_send_type(ts: Seq<Token>, r: Rules, i: int)
    requires
        !(token_at(ts, i, TokenKind::LParen) && token_at(ts, i + 1, TokenKind::Type)),
    ensures
        fails_openly(cmd_send_type(ts, r, i)),
{
    reveal(cmd_send_type);
}

/// `cmd_send` does not start here.
pub(crate) proof fn miss_cmd_send(ts: Seq<Token>, r: Rules, i: int)
    requires
        !token_at(ts, i, TokenKind::LParen),
    ensures
        fails_openly(cmd_send(ts, r, i)),
{
    reveal(cmd_send);
}

/// `cmd_recv_type` does not start here.
pub(crate) proof fn miss_cmd_recv_type(ts: Seq<Token>, r: Rules, i: int)
    requires
        !(token_at(ts, i, TokenKind::LBrack) && token_at(ts, i + 1, TokenKind::Type)),
    ensures
        fails_openly(cmd_recv_type(ts, r, i)),
{
    reveal(cmd_recv_type);
}

/// `cmd_receive` does not start here.
pub(crate) proof fn miss_cmd_receive(ts: Seq<Token>, r: Rules, i: int)
    requires
        !token_at(ts, i, TokenKind::LBrack),
    ensures
        fails_openly(cmd_receive(ts, r, i)),
{
    reveal(cmd_receive);
}

/// `cmd_try` does not start here.
pub(crate) proof fn miss_cmd_try(ts: Seq<Token>, r: Rules, i: int)
    requires
        !(token_at(ts, i, TokenKind::Dot) && token_at(ts, i + 1, TokenKind::Try)),
    ensures
        fails_openly(cmd_try(ts, r, i)),
{
    reveal(cmd_try);
}

/// `cmd_default` does not start here.
pub(crate) proof fn miss_cmd_default(ts: Seq<Token>, r: Rules, i: int)
    requires
        !(token_at(ts, i, TokenKind::Dot) && token_at(ts, i + 1, TokenKind::Default)),
    ensures
        fails_openly(cmd_default(ts, r, i)),
{
    reveal(cmd_default);
}

/// `cmd_pipe` does not start here.
pub(crate) proof fn miss_cmd_pipe(ts: Seq<Token>, r: Rules, i: int)
    requires
        !token_at(ts, i, TokenKind::ThinArrow),
    ensures
        fails_openly(cmd_pipe(ts, r, i)),
{
    reveal(cmd_pipe);
}

/// `cmd_branch_then` does not start here.
pub(crate) proof fn miss_cmd_branch_then(ts: Seq<Token>, r: Rules, i: int)
    requires
        !token_at(ts, i, TokenKind::FatArrow),
    ensures
        fails_openly(cmd_branch_then(ts, r, i)),
{
    reveal(cmd_branch_then);
}

/// `cmd_branch_bind_then` does not start here.
pub(crate) proof fn miss_cmd_branch_bind_then(ts: Seq<Token>, r: Rules, i: int)
    requires
        !token_at(ts, i, TokenKind::LowercaseIdentifier),
    ensures
        fails_openly(cmd_branch_bind_then(ts, r, i)),
{
    reveal(cmd_branch_bind_then);
}

/// `cmd_branch_continue` does not start here.
pub(crate) proof fn miss_cmd_branch_continue(ts: Seq<Token>, r: Rules, i: int)
    requires
        !token_at(ts, i, TokenKind::Bang),
    ensures
        fails_openly(cmd_branch_continue(ts, r, i)),
{
    reveal(cmd_branch_continue);
}

/// `cmd_branch_recv_type` does not start here.
pub(crate) proof fn miss_cmd_branch_recv_type(ts: Seq<Token>, r: Rules, i: int)
    requires
        !(token_at(ts, i, TokenKind::LParen) && token_at(ts, i + 1, TokenKind::Type)),
    ensures
        fails_openly(cmd_branch_recv_type(ts, r, i)),
{
    reveal(cmd_branch_recv_type);
}

/// `cmd_branch_receive` does not start here.
pub(crate) proof fn miss_cmd_branch_receive(ts: Seq<Token>, r: Rules, i: int)
    requires
        !token_at(ts, i, TokenKind::LParen),
    ensures
        fails_openly(cmd_branch_receive(ts, r, i)),
{
    reveal(cmd_branch_receive);
}

/// `cmd_branch_try` does not start here.
pub(crate) proof fn miss_cmd_branch_try(ts: Seq<Token>, r: Rules, i: int)
    requires
        !token_at(ts, i, TokenKind::Try),
    ensures
        fails_openly(cmd_branch_try(ts, r, i)),
{
    reveal(cmd_branch_try);
}

/// `cmd_branch_default` does not start here.
pub(crate) proof fn miss_cmd_branch_default(ts: Seq<Token>, r: Rules, i: int)
    requires
        !token_at(ts, i, TokenKind::Default),
    ensures
        fails_openly(cmd_branch_default(ts, r, i)),
{
    reveal(cmd_branch_default);
}

/// Where none of the tokens stands that a type starts with, no type is found, and there is room for
/// other alternatives.
pub proof fn miss_typ(ts: Seq<Token>, r: Rules, i: int)
    requires
        !token_at(ts, i, TokenKind::LowercaseIdentifier),
        !token_at(ts, i, TokenKind::UppercaseIdentifier),
        !token_at(ts, i, TokenKind::Box),
        !token_at(ts, i, TokenKind::Dual),
        !token_at(ts, i, TokenKind::Either),
        !token_at(ts, i, TokenKind::Choice),
        !token_at(ts, i, TokenKind::Bang),
        !token_at(ts, i, TokenKind::Quest),
        !token_at(ts, i, TokenKind::Recursive),
        !token_at(ts, i, TokenKind::Iterative),
        !token_at(ts, i, TokenKind::Self_),
        !token_at(ts, i, TokenKind::LParen),
        !token_at(ts, i, TokenKind::LBrack),
    ensures
        fails_openly(typ(ts, r, i)),
{
    miss_typ_var(ts, i);
    miss_typ_name(ts, r, i);
    miss_typ_box(ts, r, i);
    miss_typ_chan(ts, r, i);
    miss_typ_either(ts, r, i);
    miss_typ_choice(ts, r, i);
    miss_typ_break(ts, i);
    miss_typ_continue(ts, i);
    miss_typ_recursive(ts, r, i);
    miss_typ_iterative(ts, r, i);
    miss_typ_self(ts, i);
    miss_typ_send_type(ts, r, i);
    miss_typ_send(ts, r, i);
    miss_typ_recv_type(ts, r, i);
    miss_typ_receive(ts, r, i);
    reveal(typ);
}

/// Where none of the tokens stands that a branch of a choice starts with, none is found, and there
/// is room for other alternatives.
pub proof fn miss_typ_branch(ts: Seq<Token>, r: Rules, i: int)
    requires
        !token_at(ts, i, TokenKind::FatArrow),
        !token_at(ts, i, TokenKind::LParen),
    ensures
        fails_openly(typ_branch(ts, r, i)),
{
    miss_typ_branch_then(ts, r, i);
    miss_typ_branch_recv_type(ts, r, i);
    miss_typ_branch_receive(ts, r, i);
    reveal(typ_branch);
}

/// Where none of the tokens stands that a pattern starts with, no pattern is found, and there is
/// room for other alternatives.
pub proof fn miss_pattern(ts: Seq<Token>, r: Rules, i: int)
    requires
        !token_at(ts, i, TokenKind::LowercaseIdentifier),
        !token_at(ts, i, TokenKind::LParen),
        !token_at(ts, i, TokenKind::Bang),
        !token_at(ts, i, TokenKind::Default),
        !token_at(ts, i, TokenKind::Try),
    ensures
        fails_openly(pattern(ts, r, i)),
{
    miss_pattern_name(ts, r, i);
    miss_pattern_receive_type(ts, r, i);
    miss_pattern_receive(ts, r, i);
    miss_pattern_continue(ts, i);
    miss_pattern_default(ts, r, i);
    miss_pattern_try(ts, r, i);
    reveal(pattern);
}

/// `expr_literal_bytes` does not start here.
pub(crate) proof fn miss_expr_literal_bytes(ts: Seq<Token>, i: int)
    requires
        !(token_at(ts, i, TokenKind::Lt) && token_at(ts, i + 1, TokenKind::Link)),
        !(token_at(ts, i, TokenKind::Lt) && token_at(ts, i + 1, TokenKind::Lt)),
    ensures
        fails_openly(expr_literal_bytes(ts, i)),
{
    miss_expr_literal_bytes_empty(ts, i);
    miss_expr_literal_bytes_nonempty(ts, i);
    reveal(expr_literal_bytes);
}

/// `expr_literal` does not start here.
pub(crate) proof fn miss_expr_literal(ts: Seq<Token>, i: int)
    requires
        !token_at(ts, i, TokenKind::Integer),
        !token_at(ts, i, TokenKind::String),
        !(token_at(ts, i, TokenKind::Lt) && token_at(ts, i + 1, TokenKind::Link)),
        !(token_at(ts, i, TokenKind::Lt) && token_at(ts, i + 1, TokenKind::Lt)),
    ensures
        fails_openly(expr_literal(ts, i)),
{
    miss_expr_literal_int(ts, i);
    miss_expr_literal_string(ts, i);
    miss_expr_literal_bytes(ts, i);
    reveal(expr_literal);
}

/// Where none of the tokens stands that an operand starts with, no operand is found, and there is
/// room for other alternatives.
pub proof fn miss_operand(ts: Seq<Token>, r: Rules, i: int)
    requires
        !token_at(ts, i, TokenKind::UppercaseIdentifier),
        !token_at(ts, i, TokenKind::LowercaseIdentifier),
        !token_at(ts, i, TokenKind::LCurly),
    ensures
        fails_openly(operand(ts, r, i)),
{
    miss_expr_grouped(ts, r, i);
    reveal(operand);
}

/// `application` does not start here.
pub(crate) proof fn miss_application(ts: Seq<Token>, r: Rules, i: int)
    requires
        !token_at(ts, i, TokenKind::UppercaseIdentifier),
        !token_at(ts, i, TokenKind::LowercaseIdentifier),
        !token_at(ts, i, TokenKind::LCurly),
    ensures
        fails_openly(application(ts, r, i)),
{
    miss_operand(ts, r, i);
    reveal(application);
}

/// `cons_then_value` does not start here.
pub(crate) proof fn miss_cons_then_value(ts: Seq<Token>, r: Rules, i: int)
    requires
        !token_at(ts, i, TokenKind::Integer),
        !token_at(ts, i, TokenKind::String),
        !(token_at(ts, i, TokenKind::Lt) && token_at(ts, i + 1, TokenKind::Link)),
        !(token_at(ts, i, TokenKind::Lt) && token_at(ts, i + 1, TokenKind::Lt)),
        !token_at(ts, i, TokenKind::Star),
        !token_at(ts, i, TokenKind::Box),
        !token_at(ts, i, TokenKind::Chan),
        !token_at(ts, i, TokenKind::Let),
        !token_at(ts, i, TokenKind::Catch),
        !token_at(ts, i, TokenKind::Do),
        !token_at(ts, i, TokenKind::UppercaseIdentifier),
        !token_at(ts, i, TokenKind::LowercaseIdentifier),
        !token_at(ts, i, TokenKind::LCurly),
    ensures
        fails_openly(cons_then_value(ts, r, i)),
{
    miss_expr_literal(ts, i);
    miss_expr_list(ts, r, i);
    miss_expr_box(ts, r, i);
    miss_expr_chan(ts, r, i);
    miss_expr_let(ts, r, i);
    miss_expr_catch(ts, r, i);
    miss_expr_do(ts, r, i);
    miss_application(ts, r, i);
    miss_expr_grouped(ts, r, i);
    reveal(cons_then_value);
}

/// `cons_then` does not start here.
pub(crate) proof fn miss_cons_then(ts: Seq<Token>, r: Rules, i: int)
    requires
        !token_at(ts, i, TokenKind::Integer),
        !token_at(ts, i, TokenKind::String),
        !(token_at(ts, i, TokenKind::Lt) && token_at(ts, i + 1, TokenKind::Link)),
        !(token_at(ts, i, TokenKind::Lt) && token_at(ts, i + 1, TokenKind::Lt)),
        !token_at(ts, i, TokenKind::Star),
        !token_at(ts, i, TokenKind::Box),
        !token_at(ts, i, TokenKind::Chan),
        !token_at(ts, i, TokenKind::Let),
        !token_at(ts, i, TokenKind::Catch),
        !token_at(ts, i, TokenKind::Do),
        !token_at(ts, i, TokenKind::UppercaseIdentifier),
        !token_at(ts, i, TokenKind::LowercaseIdentifier),
        !token_at(ts, i, TokenKind::LCurly),
    ensures
        fails_openly(cons_then(ts, r, i)),
{
    miss_cons_then_value(ts, r, i);
}

/// Where none of the tokens stands that a construction starts with, no construction is found, and
/// there is room for other alternatives.
pub proof fn miss_construction(ts: Seq<Token>, r: Rules, i: int)
    requires
        !token_at(ts, i, TokenKind::Begin),
        !token_at(ts, i, TokenKind::Unfounded),
        !token_at(ts, i, TokenKind::Loop),
        !token_at(ts, i, TokenKind::Integer),
        !token_at(ts, i, TokenKind::String),
        !(token_at(ts, i, TokenKind::Lt) && token_at(ts, i + 1, TokenKind::Link)),
        !(token_at(ts, i, TokenKind::Lt) && token_at(ts, i + 1, TokenKind::Lt)),
        !token_at(ts, i, TokenKind::Star),
        !token_at(ts, i, TokenKind::Box),
        !token_at(ts, i, TokenKind::Chan),
        !token_at(ts, i, TokenKind::Let),
        !token_at(ts, i, TokenKind::Catch),
        !token_at(ts, i, TokenKind::Do),
        !token_at(ts, i, TokenKind::UppercaseIdentifier),
        !token_at(ts, i, TokenKind::LowercaseIdentifier),
        !token_at(ts, i, TokenKind::LCurly),
        !(token_at(ts, i, TokenKind::Dot) && token_at(ts, i + 1, TokenKind::LowercaseIdentifier)),
        !token_at(ts, i, TokenKind::Case),
        !token_at(ts, i, TokenKind::Bang),
        !token_at(ts, i, TokenKind::LParen),
        !token_at(ts, i, TokenKind::LBrack),
    ensures
        fails_openly(construction(ts, r, i)),
{
    miss_cons_begin(ts, r, i);
    miss_cons_unfounded(ts, r, i);
    miss_cons_loop(ts, i);
    miss_cons_then(ts, r, i);
    miss_cons_signal(ts, r, i);
    miss_cons_case(ts, r, i);
    miss_cons_break(ts, i);
    miss_cons_send_type(ts, r, i);
    miss_cons_send(ts, r, i);
    miss_cons_recv_type(ts, r, i);
    miss_cons_receive(ts, r, i);
    reveal(construction);
}

/// Where none of the tokens stands that an expression starts with, no expression is found, and
/// there is room for other alternatives.
pub proof fn miss_expression(ts: Seq<Token>, r: Rules, i: int)
    requires
        !token_at(ts, i, TokenKind::Integer),
        !token_at(ts, i, TokenKind::String),
        !(token_at(ts, i, TokenKind::Lt) && token_at(ts, i + 1, TokenKind::Link)),
        !(token_at(ts, i, TokenKind::Lt) && token_at(ts, i + 1, TokenKind::Lt)),
        !token_at(ts, i, TokenKind::Star),
        !token_at(ts, i, TokenKind::Let),
        !token_at(ts, i, TokenKind::Catch),
        !token_at(ts, i, TokenKind::Throw),
        !token_at(ts, i, TokenKind::Do),
        !token_at(ts, i, TokenKind::Box),
        !token_at(ts, i, TokenKind::Chan),
        !token_at(ts, i, TokenKind::UppercaseIdentifier),
        !token_at(ts, i, TokenKind::LowercaseIdentifier),
        !token_at(ts, i, TokenKind::LCurly),
        !token_at(ts, i, TokenKind::Begin),
        !token_at(ts, i, TokenKind::Unfounded),
        !token_at(ts, i, TokenKind::Loop),
        !(token_at(ts, i, TokenKind::Dot) && token_at(ts, i + 1, TokenKind::LowercaseIdentifier)),
        !token_at(ts, i, TokenKind::Case),
        !token_at(ts, i, TokenKind::Bang),
        !token_at(ts, i, TokenKind::LParen),
        !token_at(ts, i, TokenKind::LBrack),
    ensures
        fails_openly(expression(ts, r, i)),
{
    miss_expr_literal(ts, i);
    miss_expr_list(ts, r, i);
    miss_expr_let(ts, r, i);
    miss_expr_catch(ts, r, i);
    miss_expr_throw(ts, r, i);
    miss_expr_do(ts, r, i);
    miss_expr_box(ts, r, i);
    miss_expr_chan(ts, r, i);
    miss_application(ts, r, i);
    miss_construction(ts, r, i);
    miss_expr_grouped(ts, r, i);
    reveal(expression);
}

/// Where none of the tokens stands that a branch of a construction starts with, none is found, and
/// there is room for other alternatives.
pub proof fn miss_cons_branch(ts: Seq<Token>, r: Rules, i: int)
    requires
        !token_at(ts, i, TokenKind::FatArrow),
        !token_at(ts, i, TokenKind::LParen),
    ensures
        fails_openly(cons_branch(ts, r, i)),
{
    miss_cons_branch_then(ts, r, i);
    miss_cons_branch_recv_type(ts, r, i);
    miss_cons_branch_receive(ts, r, i);
    reveal(cons_branch);
}

/// Where none of the tokens stands that what is applied starts with, nothing is applied.
pub proof fn miss_apply(ts: Seq<Token>, r: Rules, i: int)
    requires
        !(token_at(ts, i, TokenKind::Dot) && token_at(ts, i + 1, TokenKind::Begin)),
        !(token_at(ts, i, TokenKind::Dot) && token_at(ts, i + 1, TokenKind::Unfounded)),
        !(token_at(ts, i, TokenKind::Dot) && token_at(ts, i + 1, TokenKind::Loop)),
        !(token_at(ts, i, TokenKind::Dot) && token_at(ts, i + 1, TokenKind::LowercaseIdentifier)),
        !(token_at(ts, i, TokenKind::Dot) && token_at(ts, i + 1, TokenKind::Case)),
        !token_at(ts, i, TokenKind::LParen),
        !(token_at(ts, i, TokenKind::Dot) && token_at(ts, i + 1, TokenKind::Default)),
        !(token_at(ts, i, TokenKind::Dot) && token_at(ts, i + 1, TokenKind::Try)),
        !token_at(ts, i, TokenKind::ThinArrow),
    ensures
        apply(ts, r, i) == Outcome::Done(i, None::<Apply>),
{
    miss_apply_begin(ts, r, i);
    miss_apply_unfounded(ts, r, i);
    miss_apply_loop(ts, i);
    miss_apply_signal(ts, r, i);
    miss_apply_case(ts, r, i);
    miss_apply_send_type(ts, r, i);
    miss_apply_send(ts, r, i);
    miss_apply_default(ts, r, i);
    miss_apply_try(ts, r, i);
    miss_apply_pipe(ts, r, i);
    reveal(apply);
}

/// Where none of the tokens stands that a branch of an application starts with, none is found, and
/// there is room for other alternatives.
pub proof fn miss_apply_branch(ts: Seq<Token>, r: Rules, i: int)
    requires
        !token_at(ts, i, TokenKind::LowercaseIdentifier),
        !token_at(ts, i, TokenKind::LParen),
        !token_at(ts, i, TokenKind::Bang),
        !token_at(ts, i, TokenKind::Try),
        !token_at(ts, i, TokenKind::Default),
    ensures
        fails_openly(apply_branch(ts, r, i)),
{
    miss_apply_branch_then(ts, r, i);
    miss_apply_branch_recv_type(ts, r, i);
    miss_apply_branch_receive(ts, r, i);
    miss_apply_branch_continue(ts, r, i);
    miss_apply_branch_try(ts, r, i);
    miss_apply_branch_default(ts, r, i);
    reveal(apply_branch);
}

/// Where none of the tokens stands that a process starts with, no process is found, and there is
/// room for other alternatives.
pub proof fn miss_process(ts: Seq<Token>, r: Rules, i: int)
    requires
        !token_at(ts, i, TokenKind::Let),
        !token_at(ts, i, TokenKind::Catch),
        !token_at(ts, i, TokenKind::Throw),
        !token_at(ts, i, TokenKind::Telltypes),
        !token_at(ts, i, TokenKind::UppercaseIdentifier),
        !token_at(ts, i, TokenKind::LowercaseIdentifier),
    ensures
        fails_openly(process(ts, r, i)),
{
    miss_proc_let(ts, r, i);
    miss_proc_catch(ts, r, i);
    miss_proc_throw(ts, r, i);
    miss_proc_telltypes(ts, r, i);
    miss_global_command(ts, r, i);
    miss_command(ts, r, i);
    reveal(process);
}

/// Where none of the tokens stands that a process that takes over after branches starts with, none
/// is found, and there is room for other alternatives.
pub proof fn miss_pass_process(ts: Seq<Token>, r: Rules, i: int)
    requires
        !token_at(ts, i, TokenKind::Let),
        !token_at(ts, i, TokenKind::Telltypes),
        !token_at(ts, i, TokenKind::UppercaseIdentifier),
        !token_at(ts, i, TokenKind::LowercaseIdentifier),
    ensures
        fails_openly(pass_process(ts, r, i)),
{
    miss_proc_let(ts, r, i);
    miss_proc_telltypes(ts, r, i);
    miss_global_command(ts, r, i);
    miss_command(ts, r, i);
    reveal(pass_process);
}

/// `cmd_step` does not start here.
pub(crate) proof fn miss_cmd_step(ts: Seq<Token>, r: Rules, i: int)
    requires
        !token_at(ts, i, TokenKind::Link),
        !(token_at(ts, i, TokenKind::Dot) && token_at(ts, i + 1, TokenKind::LowercaseIdentifier)),
        !(token_at(ts, i, TokenKind::Dot) && token_at(ts, i + 1, TokenKind::Case)),
        !token_at(ts, i, TokenKind::Bang),
        !token_at(ts, i, TokenKind::Quest),
        !(token_at(ts, i, TokenKind::Dot) && token_at(ts, i + 1, TokenKind::Begin)),
        !(token_at(ts, i, TokenKind::Dot) && token_at(ts, i + 1, TokenKind::Unfounded)),
        !(token_at(ts, i, TokenKind::Dot) && token_at(ts, i + 1, TokenKind::Loop)),
        !token_at(ts, i, TokenKind::LParen),
        !token_at(ts, i, TokenKind::LBrack),
        !(token_at(ts, i, TokenKind::Dot) && token_at(ts, i + 1, TokenKind::Try)),
        !(token_at(ts, i, TokenKind::Dot) && token_at(ts, i + 1, TokenKind::Default)),
        !token_at(ts, i, TokenKind::ThinArrow),
    ensures
        fails_openly(cmd_step(ts, r, i)),
{
    miss_cmd_link(ts, r, i);
    miss_cmd_signal(ts, r, i);
    miss_cmd_case(ts, r, i);
    miss_cmd_break(ts, i);
    miss_cmd_continue(ts, r, i);
    miss_cmd_begin(ts, r, i);
    miss_cmd_unfounded(ts, r, i);
    miss_cmd_loop(ts, i);
    miss_cmd_send_type(ts, r, i);
    miss_cmd_send(ts, r, i);
    miss_cmd_recv_type(ts, r, i);
    miss_cmd_receive(ts, r, i);
    miss_cmd_try(ts, r, i);
    miss_cmd_default(ts, r, i);
    miss_cmd_pipe(ts, r, i);
    reveal(cmd_step);
}

/// Where none of the tokens stands that a branch of a command starts with, none is found, and there
/// is room for other alternatives.
pub proof fn miss_cmd_branch(ts: Seq<Token>, r: Rules, i: int)
    requires
        !token_at(ts, i, TokenKind::FatArrow),
        !token_at(ts, i, TokenKind::LowercaseIdentifier),
        !token_at(ts, i, TokenKind::Bang),
        !token_at(ts, i, TokenKind::LParen),
        !token_at(ts, i, TokenKind::Try),
        !token_at(ts, i, TokenKind::Default),
    ensures
        fails_openly(cmd_branch(ts, r, i)),
{
    miss_cmd_branch_then(ts, r, i);
    miss_cmd_branch_bind_then(ts, r, i);
    miss_cmd_branch_continue(ts, r, i);
    miss_cmd_branch_recv_type(ts, r, i);
    miss_cmd_branch_receive(ts, r, i);
    miss_cmd_branch_try(ts, r, i);
    miss_cmd_branch_default(ts, r, i);
    reveal(cmd_branch);
}

/// Where `typ_var` starts, it decides what `typ` comes to.
pub(crate) proof fn only_typ_var(ts: Seq<Token>, i: int)
    requires
        token_at(ts, i, TokenKind::LowercaseIdentifier),
    ensures
        ({
            let r = rules(ts, i);
            let part = typ_var(ts, i);
            let whole = typ(ts, r, i);
            &&& !fails_openly(part) ==> whole == part.context(ts.len(), StrContext::Label("type"))
            &&& fails_openly(part) ==> fails_openly(whole)
        }),
{
    let r = rules(ts, i);
    miss_typ_name(ts, r, i);
    miss_typ_box(ts, r, i);
    miss_typ_chan(ts, r, i);
    miss_typ_either(ts, r, i);
    miss_typ_choice(ts, r, i);
    miss_typ_break(ts, i);
    miss_typ_continue(ts, i);
    miss_typ_recursive(ts, r, i);
    miss_typ_iterative(ts, r, i);
    miss_typ_self(ts, i);
    miss_typ_send_type(ts, r, i);
    miss_typ_send(ts, r, i);
    miss_typ_recv_type(ts, r, i);
    miss_typ_receive(ts, r, i);
    reveal(typ);
}

/// Where `typ_name` starts, it decides what `typ` comes to.
pub(crate) proof fn only_typ_name(ts: Seq<Token>, i: int)
    requires
        token_at(ts, i, TokenKind::UppercaseIdentifier),
    ensures
        ({
            let r = rules(ts, i);
            let part = typ_name(ts, r, i);
            let whole = typ(ts, r, i);
            &&& !fails_openly(part) ==> whole == part.context(ts.len(), StrContext::Label("type"))
            &&& fails_openly(part) ==> fails_openly(whole)
        }),
{
    let r = rules(ts, i);
    miss_typ_var(ts, i);
    miss_typ_box(ts, r, i);
    miss_typ_chan(ts, r, i);
    miss_typ_either(ts, r, i);
    miss_typ_choice(ts, r, i);
    miss_typ_break(ts, i);
    miss_typ_continue(ts, i);
    miss_typ_recursive(ts, r, i);
    miss_typ_iterative(ts, r, i);
    miss_typ_self(ts, i);
    miss_typ_send_type(ts, r, i);
    miss_typ_send(ts, r, i);
    miss_typ_recv_type(ts, r, i);
    miss_typ_receive(ts, r, i);
    reveal(typ);
}

/// Where `typ_box` starts, it decides what `typ` comes to.
pub(crate) proof fn only_typ_box(ts: Seq<Token>, i: int)
    requires
        token_at(ts, i, TokenKind::Box),
    ensures
        ({
            let r = rules(ts, i);
            let part = typ_box(ts, r, i);
            let whole = typ(ts, r, i);
            &&& !fails_openly(part) ==> whole == part.context(ts.len(), StrContext::Label("type"))
            &&& fails_openly(part) ==> fails_openly(whole)
        }),
{
    let r = rules(ts, i);
    miss_typ_var(ts, i);
    miss_typ_name(ts, r, i);
    miss_typ_chan(ts, r, i);
    miss_typ_either(ts, r, i);
    miss_typ_choice(ts, r, i);
    miss_typ_break(ts, i);
    miss_typ_continue(ts, i);
    miss_typ_recursive(ts, r, i);
    miss_typ_iterative(ts, r, i);
    miss_typ_self(ts, i);
    miss_typ_send_type(ts, r, i);
    miss_typ_send(ts, r, i);
    miss_typ_recv_type(ts, r, i);
    miss_typ_receive(ts, r, i);
    reveal(typ);
}

/// Where `typ_chan` starts, it decides what `typ` comes to.
pub(crate) proof fn only_typ_chan(ts: Seq<Token>, i: int)
    requires
        token_at(ts, i, TokenKind::Dual),
    ensures
        ({
            let r = rules(ts, i);
            let part = typ_chan(ts, r, i);
            let whole = typ(ts, r, i);
            &&& !fails_openly(part) ==> whole == part.context(ts.len(), StrContext::Label("type"))
            &&& fails_openly(part) ==> fails_openly(whole)
        }),
{
    let r = rules(ts, i);
    miss_typ_var(ts, i);
    miss_typ_name(ts, r, i);
    miss_typ_box(ts, r, i);
    miss_typ_either(ts, r, i);
    miss_typ_choice(ts, r, i);
    miss_typ_break(ts, i);
    miss_typ_continue(ts, i);
    miss_typ_recursive(ts, r, i);
    miss_typ_iterative(ts, r, i);
    miss_typ_self(ts, i);
    miss_typ_send_type(ts, r, i);
    miss_typ_send(ts, r, i);
    miss_typ_recv_type(ts, r, i);
    miss_typ_receive(ts, r, i);
    reveal(typ);
}

/// Where `typ_send` starts, it decides what `typ` comes to.
pub(crate) proof fn only_typ_send(ts: Seq<Token>, i: int)
    requires
        token_at(ts, i, TokenKind::LParen),
        !token_at(ts, i + 1, TokenKind::Type),
    ensures
        ({
            let r = rules(ts, i);
            let part = typ_send(ts, r, i);
            let whole = typ(ts, r, i);
            &&& !fails_openly(part) ==> whole == part.context(ts.len(), StrContext::Label("type"))
            &&& fails_openly(part) ==> fails_openly(whole)
        }),
{
    let r = rules(ts, i);
    miss_typ_var(ts, i);
    miss_typ_name(ts, r, i);
    miss_typ_box(ts, r, i);
    miss_typ_chan(ts, r, i);
    miss_typ_either(ts, r, i);
    miss_typ_choice(ts, r, i);
    miss_typ_break(ts, i);
    miss_typ_continue(ts, i);
    miss_typ_recursive(ts, r, i);
    miss_typ_iterative(ts, r, i);
    miss_typ_self(ts, i);
    miss_typ_send_type(ts, r, i);
    miss_typ_recv_type(ts, r, i);
    miss_typ_receive(ts, r, i);
    reveal(typ);
}

/// Where `typ_receive` starts, it decides what `typ` comes to.
pub(crate) proof fn only_typ_receive(ts: Seq<Token>, i: int)
    requires
        token_at(ts, i, TokenKind::LBrack),
        !token_at(ts, i + 1, TokenKind::Type),
    ensures
        ({
            let r = rules(ts, i);
            let part = typ_receive(ts, r, i);
            let whole = typ(ts, r, i);
            &&& !fails_openly(part) ==> whole == part.context(ts.len(), StrContext::Label("type"))
            &&& fails_openly(part) ==> fails_openly(whole)
        }),
{
    let r = rules(ts, i);
    miss_typ_var(ts, i);
    miss_typ_name(ts, r, i);
    miss_typ_box(ts, r, i);
    miss_typ_chan(ts, r, i);
    miss_typ_either(ts, r, i);
    miss_typ_choice(ts, r, i);
    miss_typ_break(ts, i);
    miss_typ_continue(ts, i);
    miss_typ_recursive(ts, r, i);
    miss_typ_iterative(ts, r, i);
    miss_typ_self(ts, i);
    miss_typ_send_type(ts, r, i);
    miss_typ_send(ts, r, i);
    miss_typ_recv_type(ts, r, i);
    reveal(typ);
}

/// Where `typ_either` starts, it decides what `typ` comes to.
pub(crate) proof fn only_typ_either(ts: Seq<Token>, i: int)
    requires
        token_at(ts, i, TokenKind::Either),
    ensures
        ({
            let r = rules(ts, i);
            let part = typ_either(ts, r, i);
            let whole = typ(ts, r, i);
            &&& !fails_openly(part) ==> whole == part.context(ts.len(), StrContext::Label("type"))
            &&& fails_openly(part) ==> fails_openly(whole)
        }),
{
    let r = rules(ts, i);
    miss_typ_var(ts, i);
    miss_typ_name(ts, r, i);
    miss_typ_box(ts, r, i);
    miss_typ_chan(ts, r, i);
    miss_typ_choice(ts, r, i);
    miss_typ_break(ts, i);
    miss_typ_continue(ts, i);
    miss_typ_recursive(ts, r, i);
    miss_typ_iterative(ts, r, i);
    miss_typ_self(ts, i);
    miss_typ_send_type(ts, r, i);
    miss_typ_send(ts, r, i);
    miss_typ_recv_type(ts, r, i);
    miss_typ_receive(ts, r, i);
    reveal(typ);
}

/// Where `typ_choice` starts, it decides what `typ` comes to.
pub(crate) proof fn only_typ_choice(ts: Seq<Token>, i: int)
    requires
        token_at(ts, i, TokenKind::Choice),
    ensures
        ({
            let r = rules(ts, i);
            let part = typ_choice(ts, r, i);
            let whole = typ(ts, r, i);
            &&& !fails_openly(part) ==> whole == part.context(ts.len(), StrContext::Label("type"))
            &&& fails_openly(part) ==> fails_openly(whole)
        }),
{
    let r = rules(ts, i);
    miss_typ_var(ts, i);
    miss_typ_name(ts, r, i);
    miss_typ_box(ts, r, i);
    miss_typ_chan(ts, r, i);
    miss_typ_either(ts, r, i);
    miss_typ_break(ts, i);
    miss_typ_continue(ts, i);
    miss_typ_recursive(ts, r, i);
    miss_typ_iterative(ts, r, i);
    miss_typ_self(ts, i);
    miss_typ_send_type(ts, r, i);
    miss_typ_send(ts, r, i);
    miss_typ_recv_type(ts, r, i);
    miss_typ_receive(ts, r, i);
    reveal(typ);
}

/// Where `typ_break` starts, it decides what `typ` comes to.
pub(crate) proof fn only_typ_break(ts: Seq<Token>, i: int)
    requires
        token_at(ts, i, TokenKind::Bang),
    ensures
        ({
            let r = rules(ts, i);
            let part = typ_break(ts, i);
            let whole = typ(ts, r, i);
            &&& !fails_openly(part) ==> whole == part.context(ts.len(), StrContext::Label("type"))
            &&& fails_openly(part) ==> fails_openly(whole)
        }),
{
    let r = rules(ts, i);
    miss_typ_var(ts, i);
    miss_typ_name(ts, r, i);
    miss_typ_box(ts, r, i);
    miss_typ_chan(ts, r, i);
    miss_typ_either(ts, r, i);
    miss_typ_choice(ts, r, i);
    miss_typ_continue(ts, i);
    miss_typ_recursive(ts, r, i);
    miss_typ_iterative(ts, r, i);
    miss_typ_self(ts, i);
    miss_typ_send_type(ts, r, i);
    miss_typ_send(ts, r, i);
    miss_typ_recv_type(ts, r, i);
    miss_typ_receive(ts, r, i);
    reveal(typ);
}

/// Where `typ_continue` starts, it decides what `typ` comes to.
pub(crate) proof fn only_typ_continue(ts: Seq<Token>, i: int)
    requires
        token_at(ts, i, TokenKind::Quest),
    ensures
        ({
            let r = rules(ts, i);
            let part = typ_continue(ts, i);
            let whole = typ(ts, r, i);
            &&& !fails_openly(part) ==> whole == part.context(ts.len(), StrContext::Label("type"))
            &&& fails_openly(part) ==> fails_openly(whole)
        }),
{
    let r = rules(ts, i);
    miss_typ_var(ts, i);
    miss_typ_name(ts, r, i);
    miss_typ_box(ts, r, i);
    miss_typ_chan(ts, r, i);
    miss_typ_either(ts, r, i);
    miss_typ_choice(ts, r, i);
    miss_typ_break(ts, i);
    miss_typ_recursive(ts, r, i);
    miss_typ_iterative(ts, r, i);
    miss_typ_self(ts, i);
    miss_typ_send_type(ts, r, i);
    miss_typ_send(ts, r, i);
    miss_typ_recv_type(ts, r, i);
    miss_typ_receive(ts, r, i);
    reveal(typ);
}

/// Where `typ_recursive` starts, it decides what `typ` comes to.
pub(crate) proof fn only_typ_recursive(ts: Seq<Token>, i: int)
    requires
        token_at(ts, i, TokenKind::Recursive),
    ensures
        ({
            let r = rules(ts, i);
            let part = typ_recursive(ts, r, i);
            let whole = typ(ts, r, i);
            &&& !fails_openly(part) ==> whole == part.context(ts.len(), StrContext::Label("type"))
            &&& fails_openly(part) ==> fails_openly(whole)
        }),
{
    let r = rules(ts, i);
    miss_typ_var(ts, i);
    miss_typ_name(ts, r, i);
    miss_typ_box(ts, r, i);
    miss_typ_chan(ts, r, i);
    miss_typ_either(ts, r, i);
    miss_typ_choice(ts, r, i);
    miss_typ_break(ts, i);
    miss_typ_continue(ts, i);
    miss_typ_iterative(ts, r, i);
    miss_typ_self(ts, i);
    miss_typ_send_type(ts, r, i);
    miss_typ_send(ts, r, i);
    miss_typ_recv_type(ts, r, i);
    miss_typ_receive(ts, r, i);
    reveal(typ);
}

/// Where `typ_iterative` starts, it decides what `typ` comes to.
pub(crate) proof fn only_typ_iterative(ts: Seq<Token>, i: int)
    requires
        token_at(ts, i, TokenKind::Iterative),
    ensures
        ({
            let r = rules(ts, i);
            let part = typ_iterative(ts, r, i);
            let whole = typ(ts, r, i);
            &&& !fails_openly(part) ==> whole == part.context(ts.len(), StrContext::Label("type"))
            &&& fails_openly(part) ==> fails_openly(whole)
        }),
{
    let r = rules(ts, i);
    miss_typ_var(ts, i);
    miss_typ_name(ts, r, i);
    miss_typ_box(ts, r, i);
    miss_typ_chan(ts, r, i);
    miss_typ_either(ts, r, i);
    miss_typ_choice(ts, r, i);
    miss_typ_break(ts, i);
    miss_typ_continue(ts, i);
    miss_typ_recursive(ts, r, i);
    miss_typ_self(ts, i);
    miss_typ_send_type(ts, r, i);
    miss_typ_send(ts, r, i);
    miss_typ_recv_type(ts, r, i);
    miss_typ_receive(ts, r, i);
    reveal(typ);
}

/// Where `typ_self` starts, it decides what `typ` comes to.
pub(crate) proof fn only_typ_self(ts: Seq<Token>, i: int)
    requires
        token_at(ts, i, TokenKind::Self_),
    ensures
        ({
            let r = rules(ts, i);
            let part = typ_self(ts, i);
            let whole = typ(ts, r, i);
            &&& !fails_openly(part) ==> whole == part.context(ts.len(), StrContext::Label("type"))
            &&& fails_openly(part) ==> fails_openly(whole)
        }),
{
    let r = rules(ts, i);
    miss_typ_var(ts, i);
    miss_typ_name(ts, r, i);
    miss_typ_box(ts, r, i);
    miss_typ_chan(ts, r, i);
    miss_typ_either(ts, r, i);
    miss_typ_choice(ts, r, i);
    miss_typ_break(ts, i);
    miss_typ_continue(ts, i);
    miss_typ_recursive(ts, r, i);
    miss_typ_iterative(ts, r, i);
    miss_typ_send_type(ts, r, i);
    miss_typ_send(ts, r, i);
    miss_typ_recv_type(ts, r, i);
    miss_typ_receive(ts, r, i);
    reveal(typ);
}

/// Where `typ_send_type` starts, it decides what `typ` comes to.
pub(crate) proof fn only_typ_send_type(ts: Seq<Token>, i: int)
    requires
        token_at(ts, i, TokenKind::LParen),
        token_at(ts, i + 1, TokenKind::Type),
    ensures
        ({
            let r = rules(ts, i);
            let part = typ_send_type(ts, r, i);
            let whole = typ(ts, r, i);
            &&& !fails_openly(part) ==> whole == part.context(ts.len(), StrContext::Label("type"))
        }),
{
    let r = rules(ts, i);
    miss_typ_var(ts, i);
    miss_typ_name(ts, r, i);
    miss_typ_box(ts, r, i);
    miss_typ_chan(ts, r, i);
    miss_typ_either(ts, r, i);
    miss_typ_choice(ts, r, i);
    miss_typ_break(ts, i);
    miss_typ_continue(ts, i);
    miss_typ_recursive(ts, r, i);
    miss_typ_iterative(ts, r, i);
    miss_typ_self(ts, i);
    miss_typ_recv_type(ts, r, i);
    miss_typ_receive(ts, r, i);
    reveal(typ);
}

/// Where `typ_recv_type` starts, it decides what `typ` comes to.
pub(crate) proof fn only_typ_recv_type(ts: Seq<Token>, i: int)
    requires
        token_at(ts, i, TokenKind::LBrack),
        token_at(ts, i + 1, TokenKind::Type),
    ensures
        ({
            let r = rules(ts, i);
            let part = typ_recv_type(ts, r, i);
            let whole = typ(ts, r, i);
            &&& !fails_openly(part) ==> whole == part.context(ts.len(), StrContext::Label("type"))
        }),
{
    let r = rules(ts, i);
    miss_typ_var(ts, i);
    miss_typ_name(ts, r, i);
    miss_typ_box(ts, r, i);
    miss_typ_chan(ts, r, i);
    miss_typ_either(ts, r, i);
    miss_typ_choice(ts, r, i);
    miss_typ_break(ts, i);
    miss_typ_continue(ts, i);
    miss_typ_recursive(ts, r, i);
    miss_typ_iterative(ts, r, i);
    miss_typ_self(ts, i);
    miss_typ_send_type(ts, r, i);
    miss_typ_send(ts, r, i);
    reveal(typ);
}

/// Where `typ_branch_then` starts, it decides what `typ_branch` comes to.
pub(crate) proof fn only_typ_branch_then(ts: Seq<Token>, i: int)
    requires
        token_at(ts, i, TokenKind::FatArrow),
    ensures
        ({
            let r = rules(ts, i);
            let part = typ_branch_then(ts, r, i);
            let whole = typ_branch(ts, r, i);
            &&& !fails_openly(part) ==> whole == part
            &&& fails_openly(part) ==> fails_openly(whole)
        }),
{
    let r = rules(ts, i);
    miss_typ_branch_recv_type(ts, r, i);
    miss_typ_branch_receive(ts, r, i);
    reveal(typ_branch);
}

/// Where `typ_branch_receive` starts, it decides what `typ_branch` comes to.
pub(crate) proof fn only_typ_branch_receive(ts: Seq<Token>, i: int)
    requires
        token_at(ts, i, TokenKind::LParen),
        !token_at(ts, i + 1, TokenKind::Type),
    ensures
        ({
            let r = rules(ts, i);
            let part = typ_branch_receive(ts, r, i);
            let whole = typ_branch(ts, r, i);
            &&& !fails_openly(part) ==> whole == part
            &&& fails_openly(part) ==> fails_openly(whole)
        }),
{
    let r = rules(ts, i);
    miss_typ_branch_then(ts, r, i);
    miss_typ_branch_recv_type(ts, r, i);
    reveal(typ_branch);
}

/// Where `typ_branch_recv_type` starts, it decides what `typ_branch` comes to.
pub(crate) proof fn only_typ_branch_recv_type(ts: Seq<Token>, i: int)
    requires
        token_at(ts, i, TokenKind::LParen),
        token_at(ts, i + 1, TokenKind::Type),
    ensures
        ({
            let r = rules(ts, i);
            let part = typ_branch_recv_type(ts, r, i);
            let whole = typ_branch(ts, r, i);
            &&& !fails_openly(part) ==> whole == part
        }),
{
    let r = rules(ts, i);
    miss_typ_branch_then(ts, r, i);
    reveal(typ_branch);
}

/// Where `pattern_name` starts, it decides what `pattern` comes to.
pub(crate) proof fn only_pattern_name(ts: Seq<Token>, i: int)
    requires
        token_at(ts, i, TokenKind::LowercaseIdentifier),
    ensures
        ({
            let r = rules(ts, i);
            let part = pattern_name(ts, r, i);
            let whole = pattern(ts, r, i);
            &&& !fails_openly(part) ==> whole == part
            &&& fails_openly(part) ==> fails_openly(whole)
        }),
{
    let r = rules(ts, i);
    miss_pattern_receive_type(ts, r, i);
    miss_pattern_receive(ts, r, i);
    miss_pattern_continue(ts, i);
    miss_pattern_default(ts, r, i);
    miss_pattern_try(ts, r, i);
    reveal(pattern);
}

/// Where `pattern_receive` starts, it decides what `pattern` comes to.
pub(crate) proof fn only_pattern_receive(ts: Seq<Token>, i: int)
    requires
        token_at(ts, i, TokenKind::LParen),
        !token_at(ts, i + 1, TokenKind::Type),
    ensures
        ({
            let r = rules(ts, i);
            let part = pattern_receive(ts, r, i);
            let whole = pattern(ts, r, i);
            &&& !fails_openly(part) ==> whole == part
            &&& fails_openly(part) ==> fails_openly(whole)
        }),
{
    let r = rules(ts, i);
    miss_pattern_name(ts, r, i);
    miss_pattern_receive_type(ts, r, i);
    miss_pattern_continue(ts, i);
    miss_pattern_default(ts, r, i);
    miss_pattern_try(ts, r, i);
    reveal(pattern);
}

/// Where `pattern_continue` starts, it decides what `pattern` comes to.
pub(crate) proof fn only_pattern_continue(ts: Seq<Token>, i: int)
    requires
        token_at(ts, i, TokenKind::Bang),
    ensures
        ({
            let r = rules(ts, i);
            let part = pattern_continue(ts, i);
            let whole = pattern(ts, r, i);
            &&& !fails_openly(part) ==> whole == part
            &&& fails_openly(part) ==> fails_openly(whole)
        }),
{
    let r = rules(ts, i);
    miss_pattern_name(ts, r, i);
    miss_pattern_receive_type(ts, r, i);
    miss_pattern_receive(ts, r, i);
    miss_pattern_default(ts, r, i);
    miss_pattern_try(ts, r, i);
    reveal(pattern);
}

/// Where `pattern_try` starts, it decides what `pattern` comes to.
pub(crate) proof fn only_pattern_try(ts: Seq<Token>, i: int)
    requires
        token_at(ts, i, TokenKind::Try),
    ensures
        ({
            let r = rules(ts, i);
            let part = pattern_try(ts, r, i);
            let whole = pattern(ts, r, i);
            &&& !fails_openly(part) ==> whole == part
            &&& fails_openly(part) ==> fails_openly(whole)
        }),
{
    let r = rules(ts, i);
    miss_pattern_name(ts, r, i);
    miss_pattern_receive_type(ts, r, i);
    miss_pattern_receive(ts, r, i);
    miss_pattern_continue(ts, i);
    miss_pattern_default(ts, r, i);
    reveal(pattern);
}

/// Where `pattern_default` starts, it decides what `pattern` comes to.
pub(crate) proof fn only_pattern_default(ts: Seq<Token>, i: int)
    requires
        token_at(ts, i, TokenKind::Default),
    ensures
        ({
            let r = rules(ts, i);
            let part = pattern_default(ts, r, i);
            let whole = pattern(ts, r, i);
            &&& !fails_openly(part) ==> whole == part
            &&& fails_openly(part) ==> fails_openly(whole)
        }),
{
    let r = rules(ts, i);
    miss_pattern_name(ts, r, i);
    miss_pattern_receive_type(ts, r, i);
    miss_pattern_receive(ts, r, i);
    miss_pattern_continue(ts, i);
    miss_pattern_try(ts, r, i);
    reveal(pattern);
}

/// Where `pattern_receive_type` starts, it decides what `pattern` comes to.
pub(crate) proof fn only_pattern_receive_type(ts: Seq<Token>, i: int)
    requires
        token_at(ts, i, TokenKind::LParen),
        token_at(ts, i + 1, TokenKind::Type),
    ensures
        ({
            let r = rules(ts, i);
            let part = pattern_receive_type(ts, r, i);
            let whole = pattern(ts, r, i);
            &&& !fails_openly(part) ==> whole == part
        }),
{
    let r = rules(ts, i);
    miss_pattern_name(ts, r, i);
    miss_pattern_continue(ts, i);
    miss_pattern_default(ts, r, i);
    miss_pattern_try(ts, r, i);
    reveal(pattern);
}

/// Where `expr_list` starts, it decides what `expression` comes to.
pub(crate) proof fn only_expr_list(ts: Seq<Token>, i: int)
    requires
        token_at(ts, i, TokenKind::Star),
    ensures
        ({
            let r = rules(ts, i);
            let part = expr_list(ts, r, i);
            let whole = expression(ts, r, i);
            &&& !fails_openly(part)
                ==> whole == part.context(ts.len(), StrContext::Label("expression"))
        }),
{
    let r = rules(ts, i);
    miss_expr_literal(ts, i);
    miss_expr_let(ts, r, i);
    miss_expr_catch(ts, r, i);
    miss_expr_throw(ts, r, i);
    miss_expr_do(ts, r, i);
    miss_expr_box(ts, r, i);
    miss_expr_chan(ts, r, i);
    miss_application(ts, r, i);
    miss_expr_grouped(ts, r, i);
    reveal(expression);
}

/// Where `expr_let` starts, it decides what `expression` comes to.
pub(crate) proof fn only_expr_let(ts: Seq<Token>, i: int)
    requires
        token_at(ts, i, TokenKind::Let),
    ensures
        ({
            let r = rules(ts, i);
            let part = expr_let(ts, r, i);
            let whole = expression(ts, r, i);
            &&& !fails_openly(part)
                ==> whole == part.context(ts.len(), StrContext::Label("expression"))
        }),
{
    let r = rules(ts, i);
    miss_expr_literal(ts, i);
    miss_expr_list(ts, r, i);
    miss_expr_catch(ts, r, i);
    miss_expr_throw(ts, r, i);
    miss_expr_do(ts, r, i);
    miss_expr_box(ts, r, i);
    miss_expr_chan(ts, r, i);
    miss_application(ts, r, i);
    miss_expr_grouped(ts, r, i);
    reveal(expression);
}

/// Where `expr_catch` starts, it decides what `expression` comes to.
pub(crate) proof fn only_expr_catch(ts: Seq<Token>, i: int)
    requires
        token_at(ts, i, TokenKind::Catch),
    ensures
        ({
            let r = rules(ts, i);
            let part = expr_catch(ts, r, i);
            let whole = expression(ts, r, i);
            &&& !fails_openly(part)
                ==> whole == part.context(ts.len(), StrContext::Label("expression"))
        }),
{
    let r = rules(ts, i);
    miss_expr_literal(ts, i);
    miss_expr_list(ts, r, i);
    miss_expr_let(ts, r, i);
    miss_expr_throw(ts, r, i);
    miss_expr_do(ts, r, i);
    miss_expr_box(ts, r, i);
    miss_expr_chan(ts, r, i);
    miss_application(ts, r, i);
    miss_expr_grouped(ts, r, i);
    reveal(expression);
}

/// Where `expr_throw` starts, it decides what `expression` comes to.
pub(crate) proof fn only_expr_throw(ts: Seq<Token>, i: int)
    requires
        token_at(ts, i, TokenKind::Throw),
    ensures
        ({
            let r = rules(ts, i);
            let part = expr_throw(ts, r, i);
            let whole = expression(ts, r, i);
            &&& !fails_openly(part)
                ==> whole == part.context(ts.len(), StrContext::Label("expression"))
            &&& fails_openly(part) ==> fails_openly(whole)
        }),
{
    let r = rules(ts, i);
    miss_expr_literal(ts, i);
    miss_expr_list(ts, r, i);
    miss_expr_let(ts, r, i);
    miss_expr_catch(ts, r, i);
    miss_expr_do(ts, r, i);
    miss_expr_box(ts, r, i);
    miss_expr_chan(ts, r, i);
    miss_application(ts, r, i);
    miss_construction(ts, r, i);
    miss_expr_grouped(ts, r, i);
    reveal(expression);
}

/// Where `expr_do` starts, it decides what `expression` comes to.
pub(crate) proof fn only_expr_do(ts: Seq<Token>, i: int)
    requires
        token_at(ts, i, TokenKind::Do),
    ensures
        ({
            let r = rules(ts, i);
            let part = expr_do(ts, r, i);
            let whole = expression(ts, r, i);
            &&& !fails_openly(part)
                ==> whole == part.context(ts.len(), StrContext::Label("expression"))
        }),
{
    let r = rules(ts, i);
    miss_expr_literal(ts, i);
    miss_expr_list(ts, r, i);
    miss_expr_let(ts, r, i);
    miss_expr_catch(ts, r, i);
    miss_expr_throw(ts, r, i);
    miss_expr_box(ts, r, i);
    miss_expr_chan(ts, r, i);
    miss_application(ts, r, i);
    miss_expr_grouped(ts, r, i);
    reveal(expression);
}

/// Where `expr_box` starts, it decides what `expression` comes to.
pub(crate) proof fn only_expr_box(ts: Seq<Token>, i: int)
    requires
        token_at(ts, i, TokenKind::Box),
    ensures
        ({
            let r = rules(ts, i);
            let part = expr_box(ts, r, i);
            let whole = expression(ts, r, i);
            &&& !fails_openly(part)
                ==> whole == part.context(ts.len(), StrContext::Label("expression"))
        }),
{
    let r = rules(ts, i);
    miss_expr_literal(ts, i);
    miss_expr_list(ts, r, i);
    miss_expr_let(ts, r, i);
    miss_expr_catch(ts, r, i);
    miss_expr_throw(ts, r, i);
    miss_expr_do(ts, r, i);
    miss_expr_chan(ts, r, i);
    miss_application(ts, r, i);
    miss_expr_grouped(ts, r, i);
    reveal(expression);
}

/// Where `expr_chan` starts, it decides what `expression` comes to.
pub(crate) proof fn only_expr_chan(ts: Seq<Token>, i: int)
    requires
        token_at(ts, i, TokenKind::Chan),
    ensures
        ({
            let r = rules(ts, i);
            let part = expr_chan(ts, r, i);
            let whole = expression(ts, r, i);
            &&& !fails_openly(part)
                ==> whole == part.context(ts.len(), StrContext::Label("expression"))
        }),
{
    let r = rules(ts, i);
    miss_expr_literal(ts, i);
    miss_expr_list(ts, r, i);
    miss_expr_let(ts, r, i);
    miss_expr_catch(ts, r, i);
    miss_expr_throw(ts, r, i);
    miss_expr_do(ts, r, i);
    miss_expr_box(ts, r, i);
    miss_application(ts, r, i);
    miss_expr_grouped(ts, r, i);
    reveal(expression);
}

/// Where `expr_grouped` starts, it decides what `operand` comes to.
pub(crate) proof fn only_expr_grouped(ts: Seq<Token>, i: int)
    requires
        token_at(ts, i, TokenKind::LCurly),
    ensures
        ({
            let r = rules(ts, i);
            let part = expr_grouped(ts, r, i);
            let whole = operand(ts, r, i);
            &&& !fails_openly(part) ==> whole == part
            &&& fails_openly(part) ==> fails_openly(whole)
        }),
{
    let r = rules(ts, i);
    reveal(operand);
}

/// Where `cons_begin` starts, it decides what `construction` comes to.
pub(crate) proof fn only_cons_begin(ts: Seq<Token>, i: int)
    requires
        token_at(ts, i, TokenKind::Begin),
    ensures
        ({
            let r = rules(ts, i);
            let part = cons_begin(ts, r, i);
            let whole = construction(ts, r, i);
            &&& !fails_openly(part)
                ==> whole == part.context(ts.len(), StrContext::Label("construction"))
            &&& fails_openly(part) ==> fails_openly(whole)
        }),
{
    let r = rules(ts, i);
    miss_cons_unfounded(ts, r, i);
    miss_cons_loop(ts, i);
    miss_cons_then(ts, r, i);
    miss_cons_signal(ts, r, i);
    miss_cons_case(ts, r, i);
    miss_cons_break(ts, i);
    miss_cons_send_type(ts, r, i);
    miss_cons_send(ts, r, i);
    miss_cons_recv_type(ts, r, i);
    miss_cons_receive(ts, r, i);
    reveal(construction);
}

/// Where `cons_unfounded` starts, it decides what `construction` comes to.
pub(crate) proof fn only_cons_unfounded(ts: Seq<Token>, i: int)
    requires
        token_at(ts, i, TokenKind::Unfounded),
    ensures
        ({
            let r = rules(ts, i);
            let part = cons_unfounded(ts, r, i);
            let whole = construction(ts, r, i);
            &&& !fails_openly(part)
                ==> whole == part.context(ts.len(), StrContext::Label("construction"))
            &&& fails_openly(part) ==> fails_openly(whole)
        }),
{
    let r = rules(ts, i);
    miss_cons_begin(ts, r, i);
    miss_cons_loop(ts, i);
    miss_cons_then(ts, r, i);
    miss_cons_signal(ts, r, i);
    miss_cons_case(ts, r, i);
    miss_cons_break(ts, i);
    miss_cons_send_type(ts, r, i);
    miss_cons_send(ts, r, i);
    miss_cons_recv_type(ts, r, i);
    miss_cons_receive(ts, r, i);
    reveal(construction);
}

/// Where `cons_loop` starts, it decides what `construction` comes to.
pub(crate) proof fn only_cons_loop(ts: Seq<Token>, i: int)
    requires
        token_at(ts, i, TokenKind::Loop),
    ensures
        ({
            let r = rules(ts, i);
            let part = cons_loop(ts, i);
            let whole = construction(ts, r, i);
            &&& !fails_openly(part)
                ==> whole == part.context(ts.len(), StrContext::Label("construction"))
            &&& fails_openly(part) ==> fails_openly(whole)
        }),
{
    let r = rules(ts, i);
    miss_cons_begin(ts, r, i);
    miss_cons_unfounded(ts, r, i);
    miss_cons_then(ts, r, i);
    miss_cons_signal(ts, r, i);
    miss_cons_case(ts, r, i);
    miss_cons_break(ts, i);
    miss_cons_send_type(ts, r, i);
    miss_cons_send(ts, r, i);
    miss_cons_recv_type(ts, r, i);
    miss_cons_receive(ts, r, i);
    reveal(construction);
}

/// Where `cons_signal` starts, it decides what `construction` comes to.
pub(crate) proof fn only_cons_signal(ts: Seq<Token>, i: int)
    requires
        token_at(ts, i, TokenKind::Dot),
        token_at(ts, i + 1, TokenKind::LowercaseIdentifier),
    ensures
        ({
            let r = rules(ts, i);
            let part = cons_signal(ts, r, i);
            let whole = construction(ts, r, i);
            &&& !fails_openly(part)
                ==> whole == part.context(ts.len(), StrContext::Label("construction"))
            &&& fails_openly(part) ==> fails_openly(whole)
        }),
{
    let r = rules(ts, i);
    miss_cons_begin(ts, r, i);
    miss_cons_unfounded(ts, r, i);
    miss_cons_loop(ts, i);
    miss_cons_then(ts, r, i);
    miss_cons_case(ts, r, i);
    miss_cons_break(ts, i);
    miss_cons_send_type(ts, r, i);
    miss_cons_send(ts, r, i);
    miss_cons_recv_type(ts, r, i);
    miss_cons_receive(ts, r, i);
    reveal(construction);
}

/// Where `cons_case` starts, it decides what `construction` comes to.
pub(crate) proof fn only_cons_case(ts: Seq<Token>, i: int)
    requires
        token_at(ts, i, TokenKind::Case),
    ensures
        ({
            let r = rules(ts, i);
            let part = cons_case(ts, r, i);
            let whole = construction(ts, r, i);
            &&& !fails_openly(part)
                ==> whole == part.context(ts.len(), StrContext::Label("construction"))
            &&& fails_openly(part) ==> fails_openly(whole)
        }),
{
    let r = rules(ts, i);
    miss_cons_begin(ts, r, i);
    miss_cons_unfounded(ts, r, i);
    miss_cons_loop(ts, i);
    miss_cons_then(ts, r, i);
    miss_cons_signal(ts, r, i);
    miss_cons_break(ts, i);
    miss_cons_send_type(ts, r, i);
    miss_cons_send(ts, r, i);
    miss_cons_recv_type(ts, r, i);
    miss_cons_receive(ts, r, i);
    reveal(construction);
}

/// Where `cons_break` starts, it decides what `construction` comes to.
pub(crate) proof fn only_cons_break(ts: Seq<Token>, i: int)
    requires
        token_at(ts, i, TokenKind::Bang),
    ensures
        ({
            let r = rules(ts, i);
            let part = cons_break(ts, i);
            let whole = construction(ts, r, i);
            &&& !fails_openly(part)
                ==> whole == part.context(ts.len(), StrContext::Label("construction"))
            &&& fails_openly(part) ==> fails_openly(whole)
        }),
{
    let r = rules(ts, i);
    miss_cons_begin(ts, r, i);
    miss_cons_unfounded(ts, r, i);
    miss_cons_loop(ts, i);
    miss_cons_then(ts, r, i);
    miss_cons_signal(ts, r, i);
    miss_cons_case(ts, r, i);
    miss_cons_send_type(ts, r, i);
    miss_cons_send(ts, r, i);
    miss_cons_recv_type(ts, r, i);
    miss_cons_receive(ts, r, i);
    reveal(construction);
}

/// Where `cons_send` starts, it decides what `construction` comes to.
pub(crate) proof fn only_cons_send(ts: Seq<Token>, i: int)
    requires
        token_at(ts, i, TokenKind::LParen),
        !token_at(ts, i + 1, TokenKind::Type),
    ensures
        ({
            let r = rules(ts, i);
            let part = cons_send(ts, r, i);
            let whole = construction(ts, r, i);
            &&& !fails_openly(part)
                ==> whole == part.context(ts.len(), StrContext::Label("construction"))
            &&& fails_openly(part) ==> fails_openly(whole)
        }),
{
    let r = rules(ts, i);
    miss_cons_begin(ts, r, i);
    miss_cons_unfounded(ts, r, i);
    miss_cons_loop(ts, i);
    miss_cons_then(ts, r, i);
    miss_cons_signal(ts, r, i);
    miss_cons_case(ts, r, i);
    miss_cons_break(ts, i);
    miss_cons_send_type(ts, r, i);
    miss_cons_recv_type(ts, r, i);
    miss_cons_receive(ts, r, i);
    reveal(construction);
}

/// Where `cons_receive` starts, it decides what `construction` comes to.
pub(crate) proof fn only_cons_receive(ts: Seq<Token>, i: int)
    requires
        token_at(ts, i, TokenKind::LBrack),
        !token_at(ts, i + 1, TokenKind::Type),
    ensures
        ({
            let r = rules(ts, i);
            let part = cons_receive(ts, r, i);
            let whole = construction(ts, r, i);
            &&& !fails_openly(part)
                ==> whole == part.context(ts.len(), StrContext::Label("construction"))
            &&& fails_openly(part) ==> fails_openly(whole)
        }),
{
    let r = rules(ts, i);
    miss_cons_begin(ts, r, i);
    miss_cons_unfounded(ts, r, i);
    miss_cons_loop(ts, i);
    miss_cons_then(ts, r, i);
    miss_cons_signal(ts, r, i);
    miss_cons_case(ts, r, i);
    miss_cons_break(ts, i);
    miss_cons_send_type(ts, r, i);
    miss_cons_send(ts, r, i);
    miss_cons_recv_type(ts, r, i);
    reveal(construction);
}

/// Where `cons_send_type` starts, it decides what `construction` comes to.
pub(crate) proof fn only_cons_send_type(ts: Seq<Token>, i: int)
    requires
        token_at(ts, i, TokenKind::LParen),
        token_at(ts, i + 1, TokenKind::Type),
    ensures
        ({
            let r = rules(ts, i);
            let part = cons_send_type(ts, r, i);
            let whole = construction(ts, r, i);
            &&& !fails_openly(part)
                ==> whole == part.context(ts.len(), StrContext::Label("construction"))
        }),
{
    let r = rules(ts, i);
    miss_cons_begin(ts, r, i);
    miss_cons_unfounded(ts, r, i);
    miss_cons_loop(ts, i);
    miss_cons_then(ts, r, i);
    miss_cons_signal(ts, r, i);
    miss_cons_case(ts, r, i);
    miss_cons_break(ts, i);
    miss_cons_recv_type(ts, r, i);
    miss_cons_receive(ts, r, i);
    reveal(construction);
}

/// Where `cons_recv_type` starts, it decides what `construction` comes to.
pub(crate) proof fn only_cons_recv_type(ts: Seq<Token>, i: int)
    requires
        token_at(ts, i, TokenKind::LBrack),
        token_at(ts, i + 1, TokenKind::Type),
    ensures
        ({
            let r = rules(ts, i);
            let part = cons_recv_type(ts, r, i);
            let whole = construction(ts, r, i);
            &&& !fails_openly(part)
                ==> whole == part.context(ts.len(), StrContext::Label("construction"))
        }),
{
    let r = rules(ts, i);
    miss_cons_begin(ts, r, i);
    miss_cons_unfounded(ts, r, i);
    miss_cons_loop(ts, i);
    miss_cons_then(ts, r, i);
    miss_cons_signal(ts, r, i);
    miss_cons_case(ts, r, i);
    miss_cons_break(ts, i);
    miss_cons_send_type(ts, r, i);
    miss_cons_send(ts, r, i);
    reveal(construction);
}

/// Where `cons_branch_then` starts, it decides what `cons_branch` comes to.
pub(crate) proof fn only_cons_branch_then(ts: Seq<Token>, i: int)
    requires
        token_at(ts, i, TokenKind::FatArrow),
    ensures
        ({
            let r = rules(ts, i);
            let part = cons_branch_then(ts, r, i);
            let whole = cons_branch(ts, r, i);
            &&& !fails_openly(part) ==> whole == part
            &&& fails_openly(part) ==> fails_openly(whole)
        }),
{
    let r = rules(ts, i);
    miss_cons_branch_recv_type(ts, r, i);
    miss_cons_branch_receive(ts, r, i);
    reveal(cons_branch);
}

/// Where `cons_branch_receive` starts, it decides what `cons_branch` comes to.
pub(crate) proof fn only_cons_branch_receive(ts: Seq<Token>, i: int)
    requires
        token_at(ts, i, TokenKind::LParen),
        !token_at(ts, i + 1, TokenKind::Type),
    ensures
        ({
            let r = rules(ts, i);
            let part = cons_branch_receive(ts, r, i);
            let whole = cons_branch(ts, r, i);
            &&& !fails_openly(part) ==> whole == part
            &&& fails_openly(part) ==> fails_openly(whole)
        }),
{
    let r = rules(ts, i);
    miss_cons_branch_then(ts, r, i);
    miss_cons_branch_recv_type(ts, r, i);
    reveal(cons_branch);
}

/// Where `cons_branch_recv_type` starts, it decides what `cons_branch` comes to.
pub(crate) proof fn only_cons_branch_recv_type(ts: Seq<Token>, i: int)
    requires
        token_at(ts, i, TokenKind::LParen),
        token_at(ts, i + 1, TokenKind::Type),
    ensures
        ({
            let r = rules(ts, i);
            let part = cons_branch_recv_type(ts, r, i);
            let whole = cons_branch(ts, r, i);
            &&& !fails_openly(part) ==> whole == part
        }),
{
    let r = rules(ts, i);
    miss_cons_branch_then(ts, r, i);
    reveal(cons_branch);
}

/// Where `apply_begin` starts, it decides what `apply` comes to.
pub(crate) proof fn only_apply_begin(ts: Seq<Token>, i: int)
    requires
        token_at(ts, i, TokenKind::Dot),
        token_at(ts, i + 1, TokenKind::Begin),
    ensures
        ({
            let r = rules(ts, i);
            let part = apply_begin(ts, r, i);
            let whole = apply(ts, r, i);
            &&& !fails_openly(part) ==> whole == part.opt(i)
            &&& fails_openly(part) ==> whole == Outcome::Done(i, None::<Apply>)
        }),
{
    let r = rules(ts, i);
    miss_apply_unfounded(ts, r, i);
    miss_apply_loop(ts, i);
    miss_apply_signal(ts, r, i);
    miss_apply_case(ts, r, i);
    miss_apply_send_type(ts, r, i);
    miss_apply_send(ts, r, i);
    miss_apply_default(ts, r, i);
    miss_apply_try(ts, r, i);
    miss_apply_pipe(ts, r, i);
    reveal(apply);
}

/// Where `apply_unfounded` starts, it decides what `apply` comes to.
pub(crate) proof fn only_apply_unfounded(ts: Seq<Token>, i: int)
    requires
        token_at(ts, i, TokenKind::Dot),
        token_at(ts, i + 1, TokenKind::Unfounded),
    ensures
        ({
            let r = rules(ts, i);
            let part = apply_unfounded(ts, r, i);
            let whole = apply(ts, r, i);
            &&& !fails_openly(part) ==> whole == part.opt(i)
            &&& fails_openly(part) ==> whole == Outcome::Done(i, None::<Apply>)
        }),
{
    let r = rules(ts, i);
    miss_apply_begin(ts, r, i);
    miss_apply_loop(ts, i);
    miss_apply_signal(ts, r, i);
    miss_apply_case(ts, r, i);
    miss_apply_send_type(ts, r, i);
    miss_apply_send(ts, r, i);
    miss_apply_default(ts, r, i);
    miss_apply_try(ts, r, i);
    miss_apply_pipe(ts, r, i);
    reveal(apply);
}

/// Where `apply_loop` starts, it decides what `apply` comes to.
pub(crate) proof fn only_apply_loop(ts: Seq<Token>, i: int)
    requires
        token_at(ts, i, TokenKind::Dot),
        token_at(ts, i + 1, TokenKind::Loop),
    ensures
        ({
            let r = rules(ts, i);
            let part = apply_loop(ts, i);
            let whole = apply(ts, r, i);
            &&& !fails_openly(part) ==> whole == part.opt(i)
            &&& fails_openly(part) ==> whole == Outcome::Done(i, None::<Apply>)
        }),
{
    let r = rules(ts, i);
    miss_apply_begin(ts, r, i);
    miss_apply_unfounded(ts, r, i);
    miss_apply_signal(ts, r, i);
    miss_apply_case(ts, r, i);
    miss_apply_send_type(ts, r, i);
    miss_apply_send(ts, r, i);
    miss_apply_default(ts, r, i);
    miss_apply_try(ts, r, i);
    miss_apply_pipe(ts, r, i);
    reveal(apply);
}

/// Where `apply_signal` starts, it decides what `apply` comes to.
pub(crate) proof fn only_apply_signal(ts: Seq<Token>, i: int)
    requires
        token_at(ts, i, TokenKind::Dot),
        token_at(ts, i + 1, TokenKind::LowercaseIdentifier),
    ensures
        ({
            let r = rules(ts, i);
            let part = apply_signal(ts, r, i);
            let whole = apply(ts, r, i);
            &&& !fails_openly(part) ==> whole == part.opt(i)
            &&& fails_openly(part) ==> whole == Outcome::Done(i, None::<Apply>)
        }),
{
    let r = rules(ts, i);
    miss_apply_begin(ts, r, i);
    miss_apply_unfounded(ts, r, i);
    miss_apply_loop(ts, i);
    miss_apply_case(ts, r, i);
    miss_apply_send_type(ts, r, i);
    miss_apply_send(ts, r, i);
    miss_apply_default(ts, r, i);
    miss_apply_try(ts, r, i);
    miss_apply_pipe(ts, r, i);
    reveal(apply);
}

/// Where `apply_case` starts, it decides what `apply` comes to.
pub(crate) proof fn only_apply_case(ts: Seq<Token>, i: int)
    requires
        token_at(ts, i, TokenKind::Dot),
        token_at(ts, i + 1, TokenKind::Case),
    ensures
        ({
            let r = rules(ts, i);
            let part = apply_case(ts, r, i);
            let whole = apply(ts, r, i);
            &&& !fails_openly(part) ==> whole == part.opt(i)
            &&& fails_openly(part) ==> whole == Outcome::Done(i, None::<Apply>)
        }),
{
    let r = rules(ts, i);
    miss_apply_begin(ts, r, i);
    miss_apply_unfounded(ts, r, i);
    miss_apply_loop(ts, i);
    miss_apply_signal(ts, r, i);
    miss_apply_send_type(ts, r, i);
    miss_apply_send(ts, r, i);
    miss_apply_default(ts, r, i);
    miss_apply_try(ts, r, i);
    miss_apply_pipe(ts, r, i);
    reveal(apply);
}

/// Where `apply_send` starts, it decides what `apply` comes to.
pub(crate) proof fn only_apply_send(ts: Seq<Token>, i: int)
    requires
        token_at(ts, i, TokenKind::LParen),
        !token_at(ts, i + 1, TokenKind::Type),
    ensures
        ({
            let r = rules(ts, i);
            let part = apply_send(ts, r, i);
            let whole = apply(ts, r, i);
            &&& !fails_openly(part) ==> whole == part.opt(i)
            &&& fails_openly(part) ==> whole == Outcome::Done(i, None::<Apply>)
        }),
{
    let r = rules(ts, i);
    miss_apply_begin(ts, r, i);
    miss_apply_unfounded(ts, r, i);
    miss_apply_loop(ts, i);
    miss_apply_signal(ts, r, i);
    miss_apply_case(ts, r, i);
    miss_apply_send_type(ts, r, i);
    miss_apply_default(ts, r, i);
    miss_apply_try(ts, r, i);
    miss_apply_pipe(ts, r, i);
    reveal(apply);
}

/// Where `apply_send_type` starts, it decides what `apply` comes to.
pub(crate) proof fn only_apply_send_type(ts: Seq<Token>, i: int)
    requires
        token_at(ts, i, TokenKind::LParen),
        token_at(ts, i + 1, TokenKind::Type),
    ensures
        ({
            let r = rules(ts, i);
            let part = apply_send_type(ts, r, i);
            let whole = apply(ts, r, i);
            &&& !fails_openly(part) ==> whole == part.opt(i)
        }),
{
    let r = rules(ts, i);
    miss_apply_begin(ts, r, i);
    miss_apply_unfounded(ts, r, i);
    miss_apply_loop(ts, i);
    miss_apply_signal(ts, r, i);
    miss_apply_case(ts, r, i);
    miss_apply_default(ts, r, i);
    miss_apply_try(ts, r, i);
    miss_apply_pipe(ts, r, i);
    reveal(apply);
}

/// Where `apply_default` starts, it decides what `apply` comes to.
pub(crate) proof fn only_apply_default(ts: Seq<Token>, i: int)
    requires
        token_at(ts, i, TokenKind::Dot),
        token_at(ts, i + 1, TokenKind::Default),
    ensures
        ({
            let r = rules(ts, i);
            let part = apply_default(ts, r, i);
            let whole = apply(ts, r, i);
            &&& !fails_openly(part) ==> whole == part.opt(i)
            &&& fails_openly(part) ==> whole == Outcome::Done(i, None::<Apply>)
        }),
{
    let r = rules(ts, i);
    miss_apply_begin(ts, r, i);
    miss_apply_unfounded(ts, r, i);
    miss_apply_loop(ts, i);
    miss_apply_signal(ts, r, i);
    miss_apply_case(ts, r, i);
    miss_apply_send_type(ts, r, i);
    miss_apply_send(ts, r, i);
    miss_apply_try(ts, r, i);
    miss_apply_pipe(ts, r, i);
    reveal(apply);
}

/// Where `apply_try` starts, it decides what `apply` comes to.
pub(crate) proof fn only_apply_try(ts: Seq<Token>, i: int)
    requires
        token_at(ts, i, TokenKind::Dot),
        token_at(ts, i + 1, TokenKind::Try),
    ensures
        ({
            let r = rules(ts, i);
            let part = apply_try(ts, r, i);
            let whole = apply(ts, r, i);
            &&& !fails_openly(part) ==> whole == part.opt(i)
            &&& fails_openly(part) ==> whole == Outcome::Done(i, None::<Apply>)
        }),
{
    let r = rules(ts, i);
    miss_apply_begin(ts, r, i);
    miss_apply_unfounded(ts, r, i);
    miss_apply_loop(ts, i);
    miss_apply_signal(ts, r, i);
    miss_apply_case(ts, r, i);
    miss_apply_send_type(ts, r, i);
    miss_apply_send(ts, r, i);
    miss_apply_default(ts, r, i);
    miss_apply_pipe(ts, r, i);
    reveal(apply);
}

/// Where `apply_pipe` starts, it decides what `apply` comes to.
pub(crate) proof fn only_apply_pipe(ts: Seq<Token>, i: int)
    requires
        token_at(ts, i, TokenKind::ThinArrow),
    ensures
        ({
            let r = rules(ts, i);
            let part = apply_pipe(ts, r, i);
            let whole = apply(ts, r, i);
            &&& !fails_openly(part) ==> whole == part.opt(i)
            &&& fails_openly(part) ==> whole == Outcome::Done(i, None::<Apply>)
        }),
{
    let r = rules(ts, i);
    miss_apply_begin(ts, r, i);
    miss_apply_unfounded(ts, r, i);
    miss_apply_loop(ts, i);
    miss_apply_signal(ts, r, i);
    miss_apply_case(ts, r, i);
    miss_apply_send_type(ts, r, i);
    miss_apply_send(ts, r, i);
    miss_apply_default(ts, r, i);
    miss_apply_try(ts, r, i);
    reveal(apply);
}

/// Where `apply_branch_then` starts, it decides what `apply_branch` comes to.
pub(crate) proof fn only_apply_branch_then(ts: Seq<Token>, i: int)
    requires
        token_at(ts, i, TokenKind::LowercaseIdentifier),
    ensures
        ({
            let r = rules(ts, i);
            let part = apply_branch_then(ts, r, i);
            let whole = apply_branch(ts, r, i);
            &&& !fails_openly(part) ==> whole == part
            &&& fails_openly(part) ==> fails_openly(whole)
        }),
{
    let r = rules(ts, i);
    miss_apply_branch_recv_type(ts, r, i);
    miss_apply_branch_receive(ts, r, i);
    miss_apply_branch_continue(ts, r, i);
    miss_apply_branch_try(ts, r, i);
    miss_apply_branch_default(ts, r, i);
    reveal(apply_branch);
}

/// Where `apply_branch_receive` starts, it decides what `apply_branch` comes to.
pub(crate) proof fn only_apply_branch_receive(ts: Seq<Token>, i: int)
    requires
        token_at(ts, i, TokenKind::LParen),
        !token_at(ts, i + 1, TokenKind::Type),
    ensures
        ({
            let r = rules(ts, i);
            let part = apply_branch_receive(ts, r, i);
            let whole = apply_branch(ts, r, i);
            &&& !fails_openly(part) ==> whole == part
            &&& fails_openly(part) ==> fails_openly(whole)
        }),
{
    let r = rules(ts, i);
    miss_apply_branch_then(ts, r, i);
    miss_apply_branch_recv_type(ts, r, i);
    miss_apply_branch_continue(ts, r, i);
    miss_apply_branch_try(ts, r, i);
    miss_apply_branch_default(ts, r, i);
    reveal(apply_branch);
}

/// Where `apply_branch_continue` starts, it decides what `apply_branch` comes to.
pub(crate) proof fn only_apply_branch_continue(ts: Seq<Token>, i: int)
    requires
        token_at(ts, i, TokenKind::Bang),
    ensures
        ({
            let r = rules(ts, i);
            let part = apply_branch_continue(ts, r, i);
            let whole = apply_branch(ts, r, i);
            &&& !fails_openly(part) ==> whole == part
            &&& fails_openly(part) ==> fails_openly(whole)
        }),
{
    let r = rules(ts, i);
    miss_apply_branch_then(ts, r, i);
    miss_apply_branch_recv_type(ts, r, i);
    miss_apply_branch_receive(ts, r, i);
    miss_apply_branch_try(ts, r, i);
    miss_apply_branch_default(ts, r, i);
    reveal(apply_branch);
}

/// Where `apply_branch_recv_type` starts, it decides what `apply_branch` comes to.
pub(crate) proof fn only_apply_branch_recv_type(ts: Seq<Token>, i: int)
    requires
        token_at(ts, i, TokenKind::LParen),
        token_at(ts, i + 1, TokenKind::Type),
    ensures
        ({
            let r = rules(ts, i);
            let part = apply_branch_recv_type(ts, r, i);
            let whole = apply_branch(ts, r, i);
            &&& !fails_openly(part) ==> whole == part
        }),
{
    let r = rules(ts, i);
    miss_apply_branch_then(ts, r, i);
    miss_apply_branch_continue(ts, r, i);
    miss_apply_branch_try(ts, r, i);
    miss_apply_branch_default(ts, r, i);
    reveal(apply_branch);
}

/// Where `apply_branch_try` starts, it decides what `apply_branch` comes to.
pub(crate) proof fn only_apply_branch_try(ts: Seq<Token>, i: int)
    requires
        token_at(ts, i, TokenKind::Try),
    ensures
        ({
            let r = rules(ts, i);
            let part = apply_branch_try(ts, r, i);
            let whole = apply_branch(ts, r, i);
            &&& !fails_openly(part) ==> whole == part
            &&& fails_openly(part) ==> fails_openly(whole)
        }),
{
    let r = rules(ts, i);
    miss_apply_branch_then(ts, r, i);
    miss_apply_branch_recv_type(ts, r, i);
    miss_apply_branch_receive(ts, r, i);
    miss_apply_branch_continue(ts, r, i);
    miss_apply_branch_default(ts, r, i);
    reveal(apply_branch);
}

/// Where `apply_branch_default` starts, it decides what `apply_branch` comes to.
pub(crate) proof fn only_apply_branch_default(ts: Seq<Token>, i: int)
    requires
        token_at(ts, i, TokenKind::Default),
    ensures
        ({
            let r = rules(ts, i);
            let part = apply_branch_default(ts, r, i);
            let whole = apply_branch(ts, r, i);
            &&& !fails_openly(part) ==> whole == part
            &&& fails_openly(part) ==> fails_openly(whole)
        }),
{
    let r = rules(ts, i);
    miss_apply_branch_then(ts, r, i);
    miss_apply_branch_recv_type(ts, r, i);
    miss_apply_branch_receive(ts, r, i);
    miss_apply_branch_continue(ts, r, i);
    miss_apply_branch_try(ts, r, i);
    reveal(apply_branch);
}

/// Where `proc_let` starts, it decides what `process` comes to.
pub(crate) proof fn only_proc_let(ts: Seq<Token>, i: int)
    requires
        token_at(ts, i, TokenKind::Let),
    ensures
        ({
            let r = rules(ts, i);
            let part = proc_let(ts, r, i);
            let whole = process(ts, r, i);
            &&& !fails_openly(part)
                ==> whole == part.context(ts.len(), StrContext::Label("process"))
            &&& fails_openly(part) ==> fails_openly(whole)
        }),
{
    let r = rules(ts, i);
    miss_proc_catch(ts, r, i);
    miss_proc_throw(ts, r, i);
    miss_proc_telltypes(ts, r, i);
    miss_global_command(ts, r, i);
    miss_command(ts, r, i);
    reveal(process);
}

/// Where `proc_catch` starts, it decides what `process` comes to.
pub(crate) proof fn only_proc_catch(ts: Seq<Token>, i: int)
    requires
        token_at(ts, i, TokenKind::Catch),
    ensures
        ({
            let r = rules(ts, i);
            let part = proc_catch(ts, r, i);
            let whole = process(ts, r, i);
            &&& !fails_openly(part)
                ==> whole == part.context(ts.len(), StrContext::Label("process"))
            &&& fails_openly(part) ==> fails_openly(whole)
        }),
{
    let r = rules(ts, i);
    miss_proc_let(ts, r, i);
    miss_proc_throw(ts, r, i);
    miss_proc_telltypes(ts, r, i);
    miss_global_command(ts, r, i);
    miss_command(ts, r, i);
    reveal(process);
}

/// Where `proc_throw` starts, it decides what `process` comes to.
pub(crate) proof fn only_proc_throw(ts: Seq<Token>, i: int)
    requires
        token_at(ts, i, TokenKind::Throw),
    ensures
        ({
            let r = rules(ts, i);
            let part = proc_throw(ts, r, i);
            let whole = process(ts, r, i);
            &&& !fails_openly(part)
                ==> whole == part.context(ts.len(), StrContext::Label("process"))
            &&& fails_openly(part) ==> fails_openly(whole)
        }),
{
    let r = rules(ts, i);
    miss_proc_let(ts, r, i);
    miss_proc_catch(ts, r, i);
    miss_proc_telltypes(ts, r, i);
    miss_global_command(ts, r, i);
    miss_command(ts, r, i);
    reveal(process);
}

/// Where `proc_telltypes` starts, it decides what `process` comes to.
pub(crate) proof fn only_proc_telltypes(ts: Seq<Token>, i: int)
    requires
        token_at(ts, i, TokenKind::Telltypes),
    ensures
        ({
            let r = rules(ts, i);
            let part = proc_telltypes(ts, r, i);
            let whole = process(ts, r, i);
            &&& !fails_openly(part)
                ==> whole == part.context(ts.len(), StrContext::Label("process"))
            &&& fails_openly(part) ==> fails_openly(whole)
        }),
{
    let r = rules(ts, i);
    miss_proc_let(ts, r, i);
    miss_proc_catch(ts, r, i);
    miss_proc_throw(ts, r, i);
    miss_global_command(ts, r, i);
    miss_command(ts, r, i);
    reveal(process);
}

/// Where `global_command` starts, it decides what `process` comes to.
pub(crate) proof fn only_global_command(ts: Seq<Token>, i: int)
    requires
        token_at(ts, i, TokenKind::UppercaseIdentifier),
    ensures
        ({
            let r = rules(ts, i);
            let part = global_command(ts, r, i);
            let whole = process(ts, r, i);
            &&& !fails_openly(part)
                ==> whole == part.context(ts.len(), StrContext::Label("process"))
            &&& fails_openly(part) ==> fails_openly(whole)
        }),
{
    let r = rules(ts, i);
    miss_proc_let(ts, r, i);
    miss_proc_catch(ts, r, i);
    miss_proc_throw(ts, r, i);
    miss_proc_telltypes(ts, r, i);
    miss_command(ts, r, i);
    reveal(process);
}

/// Where `command` starts, it decides what `process` comes to.
pub(crate) proof fn only_command(ts: Seq<Token>, i: int)
    requires
        token_at(ts, i, TokenKind::LowercaseIdentifier),
    ensures
        ({
            let r = rules(ts, i);
            let part = command(ts, r, i);
            let whole = process(ts, r, i);
            &&& !fails_openly(part)
                ==> whole == part.context(ts.len(), StrContext::Label("process"))
            &&& fails_openly(part) ==> fails_openly(whole)
        }),
{
    let r = rules(ts, i);
    miss_proc_let(ts, r, i);
    miss_proc_catch(ts, r, i);
    miss_proc_throw(ts, r, i);
    miss_proc_telltypes(ts, r, i);
    miss_global_command(ts, r, i);
    reveal(process);
}

/// Where `cmd_link` starts, it decides what `cmd` comes to.
pub(crate) proof fn only_cmd_link(ts: Seq<Token>, i: int)
    requires
        token_at(ts, i, TokenKind::Link),
    ensures
        ({
            let r = rules(ts, i);
            let part = cmd_link(ts, r, i);
            let whole = cmd(ts, r, i);
            &&& !fails_openly(part)
                ==> whole == part.opt(i).context(ts.len(), StrContext::Label("command"))
            &&& fails_openly(part) ==> whole == Outcome::Done(i, None::<Command>)
        }),
{
    let r = rules(ts, i);
    miss_cmd_signal(ts, r, i);
    miss_cmd_case(ts, r, i);
    miss_cmd_break(ts, i);
    miss_cmd_continue(ts, r, i);
    miss_cmd_begin(ts, r, i);
    miss_cmd_unfounded(ts, r, i);
    miss_cmd_loop(ts, i);
    miss_cmd_send_type(ts, r, i);
    miss_cmd_send(ts, r, i);
    miss_cmd_recv_type(ts, r, i);
    miss_cmd_receive(ts, r, i);
    miss_cmd_try(ts, r, i);
    miss_cmd_default(ts, r, i);
    miss_cmd_pipe(ts, r, i);
    miss_process(ts, r, i);
    reveal(cmd_then);
    reveal(cmd_step);
    reveal(cmd);
}

/// Where `cmd_signal` starts, it decides what `cmd` comes to.
pub(crate) proof fn only_cmd_signal(ts: Seq<Token>, i: int)
    requires
        token_at(ts, i, TokenKind::Dot),
        token_at(ts, i + 1, TokenKind::LowercaseIdentifier),
    ensures
        ({
            let r = rules(ts, i);
            let part = cmd_signal(ts, r, i);
            let whole = cmd(ts, r, i);
            &&& !fails_openly(part)
                ==> whole == part.opt(i).context(ts.len(), StrContext::Label("command"))
            &&& fails_openly(part) ==> whole == Outcome::Done(i, None::<Command>)
        }),
{
    let r = rules(ts, i);
    miss_cmd_link(ts, r, i);
    miss_cmd_case(ts, r, i);
    miss_cmd_break(ts, i);
    miss_cmd_continue(ts, r, i);
    miss_cmd_begin(ts, r, i);
    miss_cmd_unfounded(ts, r, i);
    miss_cmd_loop(ts, i);
    miss_cmd_send_type(ts, r, i);
    miss_cmd_send(ts, r, i);
    miss_cmd_recv_type(ts, r, i);
    miss_cmd_receive(ts, r, i);
    miss_cmd_try(ts, r, i);
    miss_cmd_default(ts, r, i);
    miss_cmd_pipe(ts, r, i);
    miss_process(ts, r, i);
    reveal(cmd_then);
    reveal(cmd_step);
    reveal(cmd);
}

/// Where `cmd_case` starts, it decides what `cmd` comes to.
pub(crate) proof fn only_cmd_case(ts: Seq<Token>, i: int)
    requires
        token_at(ts, i, TokenKind::Dot),
        token_at(ts, i + 1, TokenKind::Case),
    ensures
        ({
            let r = rules(ts, i);
            let part = cmd_case(ts, r, i);
            let whole = cmd(ts, r, i);
            &&& !fails_openly(part)
                ==> whole == part.opt(i).context(ts.len(), StrContext::Label("command"))
            &&& fails_openly(part) ==> whole == Outcome::Done(i, None::<Command>)
        }),
{
    let r = rules(ts, i);
    miss_cmd_link(ts, r, i);
    miss_cmd_signal(ts, r, i);
    miss_cmd_break(ts, i);
    miss_cmd_continue(ts, r, i);
    miss_cmd_begin(ts, r, i);
    miss_cmd_unfounded(ts, r, i);
    miss_cmd_loop(ts, i);
    miss_cmd_send_type(ts, r, i);
    miss_cmd_send(ts, r, i);
    miss_cmd_recv_type(ts, r, i);
    miss_cmd_receive(ts, r, i);
    miss_cmd_try(ts, r, i);
    miss_cmd_default(ts, r, i);
    miss_cmd_pipe(ts, r, i);
    miss_process(ts, r, i);
    reveal(cmd_then);
    reveal(cmd_step);
    reveal(cmd);
}

/// Where `cmd_break` starts, it decides what `cmd` comes to.
pub(crate) proof fn only_cmd_break(ts: Seq<Token>, i: int)
    requires
        token_at(ts, i, TokenKind::Bang),
    ensures
        ({
            let r = rules(ts, i);
            let part = cmd_break(ts, i);
            let whole = cmd(ts, r, i);
            &&& !fails_openly(part)
                ==> whole == part.opt(i).context(ts.len(), StrContext::Label("command"))
            &&& fails_openly(part) ==> whole == Outcome::Done(i, None::<Command>)
        }),
{
    let r = rules(ts, i);
    miss_cmd_link(ts, r, i);
    miss_cmd_signal(ts, r, i);
    miss_cmd_case(ts, r, i);
    miss_cmd_continue(ts, r, i);
    miss_cmd_begin(ts, r, i);
    miss_cmd_unfounded(ts, r, i);
    miss_cmd_loop(ts, i);
    miss_cmd_send_type(ts, r, i);
    miss_cmd_send(ts, r, i);
    miss_cmd_recv_type(ts, r, i);
    miss_cmd_receive(ts, r, i);
    miss_cmd_try(ts, r, i);
    miss_cmd_default(ts, r, i);
    miss_cmd_pipe(ts, r, i);
    miss_process(ts, r, i);
    reveal(cmd_then);
    reveal(cmd_step);
    reveal(cmd);
}

/// Where `cmd_continue` starts, it decides what `cmd` comes to.
pub(crate) proof fn only_cmd_continue(ts: Seq<Token>, i: int)
    requires
        token_at(ts, i, TokenKind::Quest),
    ensures
        ({
            let r = rules(ts, i);
            let part = cmd_continue(ts, r, i);
            let whole = cmd(ts, r, i);
            &&& !fails_openly(part)
                ==> whole == part.opt(i).context(ts.len(), StrContext::Label("command"))
            &&& fails_openly(part) ==> whole == Outcome::Done(i, None::<Command>)
        }),
{
    let r = rules(ts, i);
    miss_cmd_link(ts, r, i);
    miss_cmd_signal(ts, r, i);
    miss_cmd_case(ts, r, i);
    miss_cmd_break(ts, i);
    miss_cmd_begin(ts, r, i);
    miss_cmd_unfounded(ts, r, i);
    miss_cmd_loop(ts, i);
    miss_cmd_send_type(ts, r, i);
    miss_cmd_send(ts, r, i);
    miss_cmd_recv_type(ts, r, i);
    miss_cmd_receive(ts, r, i);
    miss_cmd_try(ts, r, i);
    miss_cmd_default(ts, r, i);
    miss_cmd_pipe(ts, r, i);
    miss_process(ts, r, i);
    reveal(cmd_then);
    reveal(cmd_step);
    reveal(cmd);
}

/// Where `cmd_begin` starts, it decides what `cmd` comes to.
pub(crate) proof fn only_cmd_begin(ts: Seq<Token>, i: int)
    requires
        token_at(ts, i, TokenKind::Dot),
        token_at(ts, i + 1, TokenKind::Begin),
    ensures
        ({
            let r = rules(ts, i);
            let part = cmd_begin(ts, r, i);
            let whole = cmd(ts, r, i);
            &&& !fails_openly(part)
                ==> whole == part.opt(i).context(ts.len(), StrContext::Label("command"))
            &&& fails_openly(part) ==> whole == Outcome::Done(i, None::<Command>)
        }),
{
    let r = rules(ts, i);
    miss_cmd_link(ts, r, i);
    miss_cmd_signal(ts, r, i);
    miss_cmd_case(ts, r, i);
    miss_cmd_break(ts, i);
    miss_cmd_continue(ts, r, i);
    miss_cmd_unfounded(ts, r, i);
    miss_cmd_loop(ts, i);
    miss_cmd_send_type(ts, r, i);
    miss_cmd_send(ts, r, i);
    miss_cmd_recv_type(ts, r, i);
    miss_cmd_receive(ts, r, i);
    miss_cmd_try(ts, r, i);
    miss_cmd_default(ts, r, i);
    miss_cmd_pipe(ts, r, i);
    miss_process(ts, r, i);
    reveal(cmd_then);
    reveal(cmd_step);
    reveal(cmd);
}

/// Where `cmd_unfounded` starts, it decides what `cmd` comes to.
pub(crate) proof fn only_cmd_unfounded(ts: Seq<Token>, i: int)
    requires
        token_at(ts, i, TokenKind::Dot),
        token_at(ts, i + 1, TokenKind::Unfounded),
    ensures
        ({
            let r = rules(ts, i);
            let part = cmd_unfounded(ts, r, i);
            let whole = cmd(ts, r, i);
            &&& !fails_openly(part)
                ==> whole == part.opt(i).context(ts.len(), StrContext::Label("command"))
            &&& fails_openly(part) ==> whole == Outcome::Done(i, None::<Command>)
        }),
{
    let r = rules(ts, i);
    miss_cmd_link(ts, r, i);
    miss_cmd_signal(ts, r, i);
    miss_cmd_case(ts, r, i);
    miss_cmd_break(ts, i);
    miss_cmd_continue(ts, r, i);
    miss_cmd_begin(ts, r, i);
    miss_cmd_loop(ts, i);
    miss_cmd_send_type(ts, r, i);
    miss_cmd_send(ts, r, i);
    miss_cmd_recv_type(ts, r, i);
    miss_cmd_receive(ts, r, i);
    miss_cmd_try(ts, r, i);
    miss_cmd_default(ts, r, i);
    miss_cmd_pipe(ts, r, i);
    miss_process(ts, r, i);
    reveal(cmd_then);
    reveal(cmd_step);
    reveal(cmd);
}

/// Where `cmd_loop` starts, it decides what `cmd` comes to.
pub(crate) proof fn only_cmd_loop(ts: Seq<Token>, i: int)
    requires
        token_at(ts, i, TokenKind::Dot),
        token_at(ts, i + 1, TokenKind::Loop),
    ensures
        ({
            let r = rules(ts, i);
            let part = cmd_loop(ts, i);
            let whole = cmd(ts, r, i);
            &&& !fails_openly(part)
                ==> whole == part.opt(i).context(ts.len(), StrContext::Label("command"))
            &&& fails_openly(part) ==> whole == Outcome::Done(i, None::<Command>)
        }),
{
    let r = rules(ts, i);
    miss_cmd_link(ts, r, i);
    miss_cmd_signal(ts, r, i);
    miss_cmd_case(ts, r, i);
    miss_cmd_break(ts, i);
    miss_cmd_continue(ts, r, i);
    miss_cmd_begin(ts, r, i);
    miss_cmd_unfounded(ts, r, i);
    miss_cmd_send_type(ts, r, i);
    miss_cmd_send(ts, r, i);
    miss_cmd_recv_type(ts, r, i);
    miss_cmd_receive(ts, r, i);
    miss_cmd_try(ts, r, i);
    miss_cmd_default(ts, r, i);
    miss_cmd_pipe(ts, r, i);
    miss_process(ts, r, i);
    reveal(cmd_then);
    reveal(cmd_step);
    reveal(cmd);
}

/// Where `cmd_send_type` starts, it decides what `cmd` comes to.
pub(crate) proof fn only_cmd_send_type(ts: Seq<Token>, i: int)
    requires
        token_at(ts, i, TokenKind::LParen),
        token_at(ts, i + 1, TokenKind::Type),
    ensures
        ({
            let r = rules(ts, i);
            let part = cmd_send_type(ts, r, i);
            let whole = cmd(ts, r, i);
            &&& !fails_openly(part)
                ==> whole == part.opt(i).context(ts.len(), StrContext::Label("command"))
        }),
{
    let r = rules(ts, i);
    miss_cmd_link(ts, r, i);
    miss_cmd_signal(ts, r, i);
    miss_cmd_case(ts, r, i);
    miss_cmd_break(ts, i);
    miss_cmd_continue(ts, r, i);
    miss_cmd_begin(ts, r, i);
    miss_cmd_unfounded(ts, r, i);
    miss_cmd_loop(ts, i);
    miss_cmd_recv_type(ts, r, i);
    miss_cmd_receive(ts, r, i);
    miss_cmd_try(ts, r, i);
    miss_cmd_default(ts, r, i);
    miss_cmd_pipe(ts, r, i);
    miss_process(ts, r, i);
    reveal(cmd_then);
    reveal(cmd_step);
    reveal(cmd);
}

/// Where `cmd_send` starts, it decides what `cmd` comes to.
pub(crate) proof fn only_cmd_send(ts: Seq<Token>, i: int)
    requires
        token_at(ts, i, TokenKind::LParen),
        !token_at(ts, i + 1, TokenKind::Type),
    ensures
        ({
            let r = rules(ts, i);
            let part = cmd_send(ts, r, i);
            let whole = cmd(ts, r, i);
            &&& !fails_openly(part)
                ==> whole == part.opt(i).context(ts.len(), StrContext::Label("command"))
            &&& fails_openly(part) ==> whole == Outcome::Done(i, None::<Command>)
        }),
{
    let r = rules(ts, i);
    miss_cmd_link(ts, r, i);
    miss_cmd_signal(ts, r, i);
    miss_cmd_case(ts, r, i);
    miss_cmd_break(ts, i);
    miss_cmd_continue(ts, r, i);
    miss_cmd_begin(ts, r, i);
    miss_cmd_unfounded(ts, r, i);
    miss_cmd_loop(ts, i);
    miss_cmd_send_type(ts, r, i);
    miss_cmd_recv_type(ts, r, i);
    miss_cmd_receive(ts, r, i);
    miss_cmd_try(ts, r, i);
    miss_cmd_default(ts, r, i);
    miss_cmd_pipe(ts, r, i);
    miss_process(ts, r, i);
    reveal(cmd_then);
    reveal(cmd_step);
    reveal(cmd);
}

/// Where `cmd_recv_type` starts, it decides what `cmd` comes to.
pub(crate) proof fn only_cmd_recv_type(ts: Seq<Token>, i: int)
    requires
        token_at(ts, i, TokenKind::LBrack),
        token_at(ts, i + 1, TokenKind::Type),
    ensures
        ({
            let r = rules(ts, i);
            let part = cmd_recv_type(ts, r, i);
            let whole = cmd(ts, r, i);
            &&& !fails_openly(part)
                ==> whole == part.opt(i).context(ts.len(), StrContext::Label("command"))
        }),
{
    let r = rules(ts, i);
    miss_cmd_link(ts, r, i);
    miss_cmd_signal(ts, r, i);
    miss_cmd_case(ts, r, i);
    miss_cmd_break(ts, i);
    miss_cmd_continue(ts, r, i);
    miss_cmd_begin(ts, r, i);
    miss_cmd_unfounded(ts, r, i);
    miss_cmd_loop(ts, i);
    miss_cmd_send_type(ts, r, i);
    miss_cmd_send(ts, r, i);
    miss_cmd_try(ts, r, i);
    miss_cmd_default(ts, r, i);
    miss_cmd_pipe(ts, r, i);
    miss_process(ts, r, i);
    reveal(cmd_then);
    reveal(cmd_step);
    reveal(cmd);
}

/// Where `cmd_receive` starts, it decides what `cmd` comes to.
pub(crate) proof fn only_cmd_receive(ts: Seq<Token>, i: int)
    requires
        token_at(ts, i, TokenKind::LBrack),
        !token_at(ts, i + 1, TokenKind::Type),
    ensures
        ({
            let r = rules(ts, i);
            let part = cmd_receive(ts, r, i);
            let whole = cmd(ts, r, i);
            &&& !fails_openly(part)
                ==> whole == part.opt(i).context(ts.len(), StrContext::Label("command"))
            &&& fails_openly(part) ==> whole == Outcome::Done(i, None::<Command>)
        }),
{
    let r = rules(ts, i);
    miss_cmd_link(ts, r, i);
    miss_cmd_signal(ts, r, i);
    miss_cmd_case(ts, r, i);
    miss_cmd_break(ts, i);
    miss_cmd_continue(ts, r, i);
    miss_cmd_begin(ts, r, i);
    miss_cmd_unfounded(ts, r, i);
    miss_cmd_loop(ts, i);
    miss_cmd_send_type(ts, r, i);
    miss_cmd_send(ts, r, i);
    miss_cmd_recv_type(ts, r, i);
    miss_cmd_try(ts, r, i);
    miss_cmd_default(ts, r, i);
    miss_cmd_pipe(ts, r, i);
    miss_process(ts, r, i);
    reveal(cmd_then);
    reveal(cmd_step);
    reveal(cmd);
}

/// Where `cmd_try` starts, it decides what `cmd` comes to.
pub(crate) proof fn only_cmd_try(ts: Seq<Token>, i: int)
    requires
        token_at(ts, i, TokenKind::Dot),
        token_at(ts, i + 1, TokenKind::Try),
    ensures
        ({
            let r = rules(ts, i);
            let part = cmd_try(ts, r, i);
            let whole = cmd(ts, r, i);
            &&& !fails_openly(part)
                ==> whole == part.opt(i).context(ts.len(), StrContext::Label("command"))
            &&& fails_openly(part) ==> whole == Outcome::Done(i, None::<Command>)
        }),
{
    let r = rules(ts, i);
    miss_cmd_link(ts, r, i);
    miss_cmd_signal(ts, r, i);
    miss_cmd_case(ts, r, i);
    miss_cmd_break(ts, i);
    miss_cmd_continue(ts, r, i);
    miss_cmd_begin(ts, r, i);
    miss_cmd_unfounded(ts, r, i);
    miss_cmd_loop(ts, i);
    miss_cmd_send_type(ts, r, i);
    miss_cmd_send(ts, r, i);
    miss_cmd_recv_type(ts, r, i);
    miss_cmd_receive(ts, r, i);
    miss_cmd_default(ts, r, i);
    miss_cmd_pipe(ts, r, i);
    miss_process(ts, r, i);
    reveal(cmd_then);
    reveal(cmd_step);
    reveal(cmd);
}

/// Where `cmd_default` starts, it decides what `cmd` comes to.
pub(crate) proof fn only_cmd_default(ts: Seq<Token>, i: int)
    requires
        token_at(ts, i, TokenKind::Dot),
        token_at(ts, i + 1, TokenKind::Default),
    ensures
        ({
            let r = rules(ts, i);
            let part = cmd_default(ts, r, i);
            let whole = cmd(ts, r, i);
            &&& !fails_openly(part)
                ==> whole == part.opt(i).context(ts.len(), StrContext::Label("command"))
            &&& fails_openly(part) ==> whole == Outcome::Done(i, None::<Command>)
        }),
{
    let r = rules(ts, i);
    miss_cmd_link(ts, r, i);
    miss_cmd_signal(ts, r, i);
    miss_cmd_case(ts, r, i);
    miss_cmd_break(ts, i);
    miss_cmd_continue(ts, r, i);
    miss_cmd_begin(ts, r, i);
    miss_cmd_unfounded(ts, r, i);
    miss_cmd_loop(ts, i);
    miss_cmd_send_type(ts, r, i);
    miss_cmd_send(ts, r, i);
    miss_cmd_recv_type(ts, r, i);
    miss_cmd_receive(ts, r, i);
    miss_cmd_try(ts, r, i);
    miss_cmd_pipe(ts, r, i);
    miss_process(ts, r, i);
    reveal(cmd_then);
    reveal(cmd_step);
    reveal(cmd);
}

/// Where `cmd_pipe` starts, it decides what `cmd` comes to.
pub(crate) proof fn only_cmd_pipe(ts: Seq<Token>, i: int)
    requires
        token_at(ts, i, TokenKind::ThinArrow),
    ensures
        ({
            let r = rules(ts, i);
            let part = cmd_pipe(ts, r, i);
            let whole = cmd(ts, r, i);
            &&& !fails_openly(part)
                ==> whole == part.opt(i).context(ts.len(), StrContext::Label("command"))
            &&& fails_openly(part) ==> whole == Outcome::Done(i, None::<Command>)
        }),
{
    let r = rules(ts, i);
    miss_cmd_link(ts, r, i);
    miss_cmd_signal(ts, r, i);
    miss_cmd_case(ts, r, i);
    miss_cmd_break(ts, i);
    miss_cmd_continue(ts, r, i);
    miss_cmd_begin(ts, r, i);
    miss_cmd_unfounded(ts, r, i);
    miss_cmd_loop(ts, i);
    miss_cmd_send_type(ts, r, i);
    miss_cmd_send(ts, r, i);
    miss_cmd_recv_type(ts, r, i);
    miss_cmd_receive(ts, r, i);
    miss_cmd_try(ts, r, i);
    miss_cmd_default(ts, r, i);
    miss_process(ts, r, i);
    reveal(cmd_then);
    reveal(cmd_step);
    reveal(cmd);
}

/// Where `cmd_branch_then` starts, it decides what `cmd_branch` comes to.
pub(crate) proof fn only_cmd_branch_then(ts: Seq<Token>, i: int)
    requires
        token_at(ts, i, TokenKind::FatArrow),
    ensures
        ({
            let r = rules(ts, i);
            let part = cmd_branch_then(ts, r, i);
            let whole = cmd_branch(ts, r, i);
            &&& !fails_openly(part) ==> whole == part
            &&& fails_openly(part) ==> fails_openly(whole)
        }),
{
    let r = rules(ts, i);
    miss_cmd_branch_bind_then(ts, r, i);
    miss_cmd_branch_continue(ts, r, i);
    miss_cmd_branch_recv_type(ts, r, i);
    miss_cmd_branch_receive(ts, r, i);
    miss_cmd_branch_try(ts, r, i);
    miss_cmd_branch_default(ts, r, i);
    reveal(cmd_branch);
}

/// Where `cmd_branch_bind_then` starts, it decides what `cmd_branch` comes to.
pub(crate) proof fn only_cmd_branch_bind_then(ts: Seq<Token>, i: int)
    requires
        token_at(ts, i, TokenKind::LowercaseIdentifier),
    ensures
        ({
            let r = rules(ts, i);
            let part = cmd_branch_bind_then(ts, r, i);
            let whole = cmd_branch(ts, r, i);
            &&& !fails_openly(part) ==> whole == part
            &&& fails_openly(part) ==> fails_openly(whole)
        }),
{
    let r = rules(ts, i);
    miss_cmd_branch_then(ts, r, i);
    miss_cmd_branch_continue(ts, r, i);
    miss_cmd_branch_recv_type(ts, r, i);
    miss_cmd_branch_receive(ts, r, i);
    miss_cmd_branch_try(ts, r, i);
    miss_cmd_branch_default(ts, r, i);
    reveal(cmd_branch);
}

/// Where `cmd_branch_continue` starts, it decides what `cmd_branch` comes to.
pub(crate) proof fn only_cmd_branch_continue(ts: Seq<Token>, i: int)
    requires
        token_at(ts, i, TokenKind::Bang),
    ensures
        ({
            let r = rules(ts, i);
            let part = cmd_branch_continue(ts, r, i);
            let whole = cmd_branch(ts, r, i);
            &&& !fails_openly(part) ==> whole == part
            &&& fails_openly(part) ==> fails_openly(whole)
        }),
{
    let r = rules(ts, i);
    miss_cmd_branch_then(ts, r, i);
    miss_cmd_branch_bind_then(ts, r, i);
    miss_cmd_branch_recv_type(ts, r, i);
    miss_cmd_branch_receive(ts, r, i);
    miss_cmd_branch_try(ts, r, i);
    miss_cmd_branch_default(ts, r, i);
    reveal(cmd_branch);
}

/// Where `cmd_branch_recv_type` starts, it decides what `cmd_branch` comes to.
pub(crate) proof fn only_cmd_branch_recv_type(ts: Seq<Token>, i: int)
    requires
        token_at(ts, i, TokenKind::LParen),
        token_at(ts, i + 1, TokenKind::Type),
    ensures
        ({
            let r = rules(ts, i);
            let part = cmd_branch_recv_type(ts, r, i);
            let whole = cmd_branch(ts, r, i);
            &&& !fails_openly(part) ==> whole == part
        }),
{
    let r = rules(ts, i);
    miss_cmd_branch_then(ts, r, i);
    miss_cmd_branch_bind_then(ts, r, i);
    miss_cmd_branch_continue(ts, r, i);
    miss_cmd_branch_try(ts, r, i);
    miss_cmd_branch_default(ts, r, i);
    reveal(cmd_branch);
}

/// Where `cmd_branch_receive` starts, it decides what `cmd_branch` comes to.
pub(crate) proof fn only_cmd_branch_receive(ts: Seq<Token>, i: int)
    requires
        token_at(ts, i, TokenKind::LParen),
        !token_at(ts, i + 1, TokenKind::Type),
    ensures
        ({
            let r = rules(ts, i);
            let part = cmd_branch_receive(ts, r, i);
            let whole = cmd_branch(ts, r, i);
            &&& !fails_openly(part) ==> whole == part
            &&& fails_openly(part) ==> fails_openly(whole)
        }),
{
    let r = rules(ts, i);
    miss_cmd_branch_then(ts, r, i);
    miss_cmd_branch_bind_then(ts, r, i);
    miss_cmd_branch_continue(ts, r, i);
    miss_cmd_branch_recv_type(ts, r, i);
    miss_cmd_branch_try(ts, r, i);
    miss_cmd_branch_default(ts, r, i);
    reveal(cmd_branch);
}

/// Where `cmd_branch_try` starts, it decides what `cmd_branch` comes to.
pub(crate) proof fn only_cmd_branch_try(ts: Seq<Token>, i: int)
    requires
        token_at(ts, i, TokenKind::Try),
    ensures
        ({
            let r = rules(ts, i);
            let part = cmd_branch_try(ts, r, i);
            let whole = cmd_branch(ts, r, i);
            &&& !fails_openly(part) ==> whole == part
            &&& fails_openly(part) ==> fails_openly(whole)
        }),
{
    let r = rules(ts, i);
    miss_cmd_branch_then(ts, r, i);
    miss_cmd_branch_bind_then(ts, r, i);
    miss_cmd_branch_continue(ts, r, i);
    miss_cmd_branch_recv_type(ts, r, i);
    miss_cmd_branch_receive(ts, r, i);
    miss_cmd_branch_default(ts, r, i);
    reveal(cmd_branch);
}

/// Where `cmd_branch_default` starts, it decides what `cmd_branch` comes to.
pub(crate) proof fn only_cmd_branch_default(ts: Seq<Token>, i: int)
    requires
        token_at(ts, i, TokenKind::Default),
    ensures
        ({
            let r = rules(ts, i);
            let part = cmd_branch_default(ts, r, i);
            let whole = cmd_branch(ts, r, i);
            &&& !fails_openly(part) ==> whole == part
            &&& fails_openly(part) ==> fails_openly(whole)
        }),
{
    let r = rules(ts, i);
    miss_cmd_branch_then(ts, r, i);
    miss_cmd_branch_bind_then(ts, r, i);
    miss_cmd_branch_continue(ts, r, i);
    miss_cmd_branch_recv_type(ts, r, i);
    miss_cmd_branch_receive(ts, r, i);
    miss_cmd_branch_try(ts, r, i);
    reveal(cmd_branch);
}

} // verus!
