//! Which forms commit a parse, and what failures are called.
use super::super::error::StrContext;
use super::super::grammar::applications::{
    apply_branch, apply_branch_continue, apply_branch_default, apply_branch_receive,
    apply_branch_recv_type, apply_branch_then, apply_branch_try,
};
use super::super::grammar::commands::{
    cmd_branch, cmd_branch_bind_then, cmd_branch_continue, cmd_branch_default, cmd_branch_receive,
    cmd_branch_recv_type, cmd_branch_then, cmd_branch_try,
};
use super::super::grammar::constructions::{
    cons_begin, cons_branch, cons_branch_receive, cons_branch_recv_type, cons_branch_then,
    cons_break, cons_case, cons_loop, cons_receive, cons_recv_type, cons_send, cons_send_type,
    cons_unfounded, construction,
};
use super::super::grammar::expressions::{
    expr_box, expr_catch, expr_chan, expr_do, expr_let, expr_list, expr_literal, expr_literal_bytes,
    expr_literal_bytes_empty, expr_literal_bytes_nonempty, expr_literal_int, expr_literal_string,
    expr_throw, expression, literal_int,
};
use super::super::grammar::items::{declaration, definition, item, type_def};
use super::super::grammar::patterns::{
    pattern, pattern_continue, pattern_default, pattern_name, pattern_receive, pattern_receive_type,
    pattern_try,
};
use super::super::grammar::processes::{proc_catch, proc_let, proc_telltypes, proc_throw, process};
use super::super::grammar::types::{
    annotation, typ, typ_box, typ_branch, typ_branch_receive, typ_branch_recv_type, typ_branch_then,
    typ_break, typ_chan, typ_choice, typ_continue, typ_either, typ_iterative, typ_name, typ_receive,
    typ_recursive, typ_recv_type, typ_self, typ_send, typ_send_type, typ_var, type_args,
};
use super::super::grammar::rules;
use super::super::outcome::Outcome;
use super::misses::{
    only_cons_case, only_typ_box, only_typ_chan, only_typ_choice, only_typ_either,
    only_typ_iterative, only_typ_recv_type, only_typ_send_type,
};
use super::{fails_openly, token_at};
use crate::model::Token;
use crate::token::TokenKind;
use vstd::prelude::*;

verus! {

/// A type that starts with one of these is found, or else the failure rules out other
/// alternatives.
pub proof fn typ_commits(ts: Seq<Token>, i: int)
    requires
        0 <= i <= ts.len(),
    ensures
        token_at(ts, i, TokenKind::LowercaseIdentifier) ==> !fails_openly(typ(ts, rules(ts, i), i)),
        token_at(ts, i, TokenKind::UppercaseIdentifier) ==> !fails_openly(typ(ts, rules(ts, i), i)),
        token_at(ts, i, TokenKind::Box) ==> !fails_openly(typ(ts, rules(ts, i), i)),
        token_at(ts, i, TokenKind::Dual) ==> !fails_openly(typ(ts, rules(ts, i), i)),
        token_at(ts, i, TokenKind::Either) ==> !fails_openly(typ(ts, rules(ts, i), i)),
        token_at(ts, i, TokenKind::Choice) ==> !fails_openly(typ(ts, rules(ts, i), i)),
        token_at(ts, i, TokenKind::Bang) ==> !fails_openly(typ(ts, rules(ts, i), i)),
        token_at(ts, i, TokenKind::Quest) ==> !fails_openly(typ(ts, rules(ts, i), i)),
        token_at(ts, i, TokenKind::Recursive) ==> !fails_openly(typ(ts, rules(ts, i), i)),
        token_at(ts, i, TokenKind::Iterative) ==> !fails_openly(typ(ts, rules(ts, i), i)),
        token_at(ts, i, TokenKind::Self_) ==> !fails_openly(typ(ts, rules(ts, i), i)),
        token_at(ts, i, TokenKind::LParen) && token_at(ts, i + 1, TokenKind::Type)
            ==> !fails_openly(typ(ts, rules(ts, i), i)),
        token_at(ts, i, TokenKind::LParen) ==> !fails_openly(typ(ts, rules(ts, i), i)),
        token_at(ts, i, TokenKind::LBrack) && token_at(ts, i + 1, TokenKind::Type)
            ==> !fails_openly(typ(ts, rules(ts, i), i)),
        token_at(ts, i, TokenKind::LBrack) ==> !fails_openly(typ(ts, rules(ts, i), i)),
{
    let r = rules(ts, i);
    assert(token_at(ts, i, TokenKind::LowercaseIdentifier) ==> !fails_openly(typ_var(ts, i))) by {
        reveal(typ_var);
    }
    assert(token_at(ts, i, TokenKind::UppercaseIdentifier)
        ==> !fails_openly(typ_name(ts, r, i))) by {
        reveal(type_args);
        reveal(typ_name);
    }
    assert(token_at(ts, i, TokenKind::Box) ==> !fails_openly(typ_box(ts, r, i))) by {
        reveal(typ_box);
    }
    assert(token_at(ts, i, TokenKind::Dual) ==> !fails_openly(typ_chan(ts, r, i))) by {
        reveal(typ_chan);
    }
    assert(token_at(ts, i, TokenKind::Either) ==> !fails_openly(typ_either(ts, r, i))) by {
        reveal(typ_either);
    }
    assert(token_at(ts, i, TokenKind::Choice) ==> !fails_openly(typ_choice(ts, r, i))) by {
        reveal(typ_choice);
    }
    assert(token_at(ts, i, TokenKind::Bang) ==> !fails_openly(typ_break(ts, i))) by {
        reveal(typ_break);
    }
    assert(token_at(ts, i, TokenKind::Quest) ==> !fails_openly(typ_continue(ts, i))) by {
        reveal(typ_continue);
    }
    assert(token_at(ts, i, TokenKind::Recursive) ==> !fails_openly(typ_recursive(ts, r, i))) by {
        reveal(typ_recursive);
    }
    assert(token_at(ts, i, TokenKind::Iterative) ==> !fails_openly(typ_iterative(ts, r, i))) by {
        reveal(typ_iterative);
    }
    assert(token_at(ts, i, TokenKind::Self_) ==> !fails_openly(typ_self(ts, i))) by {
        reveal(typ_self);
    }
    assert(token_at(ts, i, TokenKind::LParen) && token_at(ts, i + 1, TokenKind::Type)
        ==> !fails_openly(typ_send_type(ts, r, i))) by {
        reveal(typ_send_type);
    }
    assert(token_at(ts, i, TokenKind::LParen) ==> !fails_openly(typ_send(ts, r, i))) by {
        reveal(typ_send);
    }
    assert(token_at(ts, i, TokenKind::LBrack) && token_at(ts, i + 1, TokenKind::Type)
        ==> !fails_openly(typ_recv_type(ts, r, i))) by {
        reveal(typ_recv_type);
    }
    assert(token_at(ts, i, TokenKind::LBrack) ==> !fails_openly(typ_receive(ts, r, i))) by {
        reveal(typ_receive);
    }
    reveal(typ);
}

/// A branch of a choice that starts with one of these is found, or else the failure rules out other
/// alternatives.
pub proof fn typ_branch_commits(ts: Seq<Token>, i: int)
    requires
        0 <= i <= ts.len(),
    ensures
        token_at(ts, i, TokenKind::FatArrow) ==> !fails_openly(typ_branch(ts, rules(ts, i), i)),
        token_at(ts, i, TokenKind::LParen) && token_at(ts, i + 1, TokenKind::Type)
            ==> !fails_openly(typ_branch(ts, rules(ts, i), i)),
        token_at(ts, i, TokenKind::LParen) ==> !fails_openly(typ_branch(ts, rules(ts, i), i)),
{
    let r = rules(ts, i);
    assert(token_at(ts, i, TokenKind::FatArrow) ==> !fails_openly(typ_branch_then(ts, r, i))) by {
        reveal(typ_branch_then);
    }
    assert(token_at(ts, i, TokenKind::LParen) && token_at(ts, i + 1, TokenKind::Type)
        ==> !fails_openly(typ_branch_recv_type(ts, r, i))) by {
        reveal(typ_branch_recv_type);
    }
    assert(token_at(ts, i, TokenKind::LParen) ==> !fails_openly(typ_branch_receive(ts, r, i))) by {
        reveal(typ_branch_receive);
    }
    reveal(typ_branch);
}

/// A pattern that starts with one of these is found, or else the failure rules out other
/// alternatives.
pub proof fn pattern_commits(ts: Seq<Token>, i: int)
    requires
        0 <= i <= ts.len(),
    ensures
        token_at(ts, i, TokenKind::LowercaseIdentifier)
            ==> !fails_openly(pattern(ts, rules(ts, i), i)),
        token_at(ts, i, TokenKind::LParen) && token_at(ts, i + 1, TokenKind::Type)
            ==> !fails_openly(pattern(ts, rules(ts, i), i)),
        token_at(ts, i, TokenKind::LParen) ==> !fails_openly(pattern(ts, rules(ts, i), i)),
        token_at(ts, i, TokenKind::Bang) ==> !fails_openly(pattern(ts, rules(ts, i), i)),
        token_at(ts, i, TokenKind::Default) && token_at(ts, i + 1, TokenKind::LParen)
            ==> !fails_openly(pattern(ts, rules(ts, i), i)),
        token_at(ts, i, TokenKind::Try) ==> !fails_openly(pattern(ts, rules(ts, i), i)),
{
    let r = rules(ts, i);
    assert(token_at(ts, i, TokenKind::LowercaseIdentifier)
        ==> !fails_openly(pattern_name(ts, r, i))) by {
        reveal(annotation);
        reveal(pattern_name);
    }
    assert(token_at(ts, i, TokenKind::LParen) && token_at(ts, i + 1, TokenKind::Type)
        ==> !fails_openly(pattern_receive_type(ts, r, i))) by {
        reveal(pattern_receive_type);
    }
    assert(token_at(ts, i, TokenKind::LParen) ==> !fails_openly(pattern_receive(ts, r, i))) by {
        reveal(pattern_receive);
    }
    assert(token_at(ts, i, TokenKind::Bang) ==> !fails_openly(pattern_continue(ts, i))) by {
        reveal(pattern_continue);
    }
    assert(token_at(ts, i, TokenKind::Default) && token_at(ts, i + 1, TokenKind::LParen)
        ==> !fails_openly(pattern_default(ts, r, i))) by {
        reveal(pattern_default);
    }
    assert(token_at(ts, i, TokenKind::Try) ==> !fails_openly(pattern_try(ts, r, i))) by {
        reveal(pattern_try);
    }
    reveal(pattern);
}

/// An expression that starts with one of these is found, or else the failure rules out other
/// alternatives.
pub proof fn expression_commits(ts: Seq<Token>, i: int)
    requires
        0 <= i <= ts.len(),
    ensures
        token_at(ts, i, TokenKind::Integer) ==> !fails_openly(expression(ts, rules(ts, i), i)),
        token_at(ts, i, TokenKind::String) ==> !fails_openly(expression(ts, rules(ts, i), i)),
        token_at(ts, i, TokenKind::Lt) && token_at(ts, i + 1, TokenKind::Link)
            ==> !fails_openly(expression(ts, rules(ts, i), i)),
        token_at(ts, i, TokenKind::Lt) && token_at(ts, i + 1, TokenKind::Lt)
            ==> !fails_openly(expression(ts, rules(ts, i), i)),
        token_at(ts, i, TokenKind::Star) ==> !fails_openly(expression(ts, rules(ts, i), i)),
        token_at(ts, i, TokenKind::Let) ==> !fails_openly(expression(ts, rules(ts, i), i)),
        token_at(ts, i, TokenKind::Catch) ==> !fails_openly(expression(ts, rules(ts, i), i)),
        token_at(ts, i, TokenKind::Throw) ==> !fails_openly(expression(ts, rules(ts, i), i)),
        token_at(ts, i, TokenKind::Do) ==> !fails_openly(expression(ts, rules(ts, i), i)),
        token_at(ts, i, TokenKind::Box) ==> !fails_openly(expression(ts, rules(ts, i), i)),
        token_at(ts, i, TokenKind::Chan) ==> !fails_openly(expression(ts, rules(ts, i), i)),
{
    let r = rules(ts, i);
    assert(token_at(ts, i, TokenKind::Integer) ==> !fails_openly(expr_literal(ts, i))) by {
        reveal(literal_int);
        reveal(expr_literal_int);
        reveal(expr_literal_bytes);
        reveal(expr_literal);
    }
    assert(token_at(ts, i, TokenKind::String) ==> !fails_openly(expr_literal(ts, i))) by {
        reveal(expr_literal_string);
        reveal(expr_literal_bytes);
        reveal(expr_literal);
    }
    assert(token_at(ts, i, TokenKind::Lt) && token_at(ts, i + 1, TokenKind::Link)
        ==> !fails_openly(expr_literal(ts, i))) by {
        reveal(expr_literal_bytes_empty);
        reveal(expr_literal_bytes);
        reveal(expr_literal);
    }
    assert(token_at(ts, i, TokenKind::Lt) && token_at(ts, i + 1, TokenKind::Lt)
        ==> !fails_openly(expr_literal(ts, i))) by {
        reveal(expr_literal_bytes_nonempty);
        reveal(expr_literal_bytes);
        reveal(expr_literal);
    }
    assert(token_at(ts, i, TokenKind::Star) ==> !fails_openly(expr_list(ts, r, i))) by {
        reveal(expr_list);
    }
    assert(token_at(ts, i, TokenKind::Let) ==> !fails_openly(expr_let(ts, r, i))) by {
        reveal(expr_let);
    }
    assert(token_at(ts, i, TokenKind::Catch) ==> !fails_openly(expr_catch(ts, r, i))) by {
        reveal(expr_catch);
    }
    assert(token_at(ts, i, TokenKind::Throw) ==> !fails_openly(expr_throw(ts, r, i))) by {
        reveal(expr_throw);
    }
    assert(token_at(ts, i, TokenKind::Do) ==> !fails_openly(expr_do(ts, r, i))) by {
        reveal(expr_do);
    }
    assert(token_at(ts, i, TokenKind::Box) ==> !fails_openly(expr_box(ts, r, i))) by {
        reveal(expr_box);
    }
    assert(token_at(ts, i, TokenKind::Chan) ==> !fails_openly(expr_chan(ts, r, i))) by {
        reveal(expr_chan);
    }
    reveal(expression);
}

/// A construction that starts with one of these is found, or else the failure rules out other
/// alternatives.
pub proof fn construction_commits(ts: Seq<Token>, i: int)
    requires
        0 <= i <= ts.len(),
    ensures
        token_at(ts, i, TokenKind::Begin) ==> !fails_openly(construction(ts, rules(ts, i), i)),
        token_at(ts, i, TokenKind::Unfounded) ==> !fails_openly(construction(ts, rules(ts, i), i)),
        token_at(ts, i, TokenKind::Loop) ==> !fails_openly(construction(ts, rules(ts, i), i)),
        token_at(ts, i, TokenKind::Case) ==> !fails_openly(construction(ts, rules(ts, i), i)),
        token_at(ts, i, TokenKind::Bang) ==> !fails_openly(construction(ts, rules(ts, i), i)),
        token_at(ts, i, TokenKind::LParen) && token_at(ts, i + 1, TokenKind::Type)
            ==> !fails_openly(construction(ts, rules(ts, i), i)),
        token_at(ts, i, TokenKind::LParen) ==> !fails_openly(construction(ts, rules(ts, i), i)),
        token_at(ts, i, TokenKind::LBrack) && token_at(ts, i + 1, TokenKind::Type)
            ==> !fails_openly(construction(ts, rules(ts, i), i)),
        token_at(ts, i, TokenKind::LBrack) ==> !fails_openly(construction(ts, rules(ts, i), i)),
{
    let r = rules(ts, i);
    assert(token_at(ts, i, TokenKind::Begin) ==> !fails_openly(cons_begin(ts, r, i))) by {
        reveal(cons_begin);
    }
    assert(token_at(ts, i, TokenKind::Unfounded) ==> !fails_openly(cons_unfounded(ts, r, i))) by {
        reveal(cons_unfounded);
    }
    assert(token_at(ts, i, TokenKind::Loop) ==> !fails_openly(cons_loop(ts, i))) by {
        reveal(cons_loop);
    }
    assert(token_at(ts, i, TokenKind::Case) ==> !fails_openly(cons_case(ts, r, i))) by {
        reveal(cons_case);
    }
    assert(token_at(ts, i, TokenKind::Bang) ==> !fails_openly(cons_break(ts, i))) by {
        reveal(cons_break);
    }
    assert(token_at(ts, i, TokenKind::LParen) && token_at(ts, i + 1, TokenKind::Type)
        ==> !fails_openly(cons_send_type(ts, r, i))) by {
        reveal(cons_send_type);
    }
    assert(token_at(ts, i, TokenKind::LParen) ==> !fails_openly(cons_send(ts, r, i))) by {
        reveal(cons_send);
    }
    assert(token_at(ts, i, TokenKind::LBrack) && token_at(ts, i + 1, TokenKind::Type)
        ==> !fails_openly(cons_recv_type(ts, r, i))) by {
        reveal(cons_recv_type);
    }
    assert(token_at(ts, i, TokenKind::LBrack) ==> !fails_openly(cons_receive(ts, r, i))) by {
        reveal(cons_receive);
    }
    reveal(construction);
}

/// A branch of a construction that starts with one of these is found, or else the failure rules out
/// other
/// alternatives.
pub proof fn cons_branch_commits(ts: Seq<Token>, i: int)
    requires
        0 <= i <= ts.len(),
    ensures
        token_at(ts, i, TokenKind::FatArrow) ==> !fails_openly(cons_branch(ts, rules(ts, i), i)),
        token_at(ts, i, TokenKind::LParen) && token_at(ts, i + 1, TokenKind::Type)
            ==> !fails_openly(cons_branch(ts, rules(ts, i), i)),
        token_at(ts, i, TokenKind::LParen) ==> !fails_openly(cons_branch(ts, rules(ts, i), i)),
{
    let r = rules(ts, i);
    assert(token_at(ts, i, TokenKind::FatArrow) ==> !fails_openly(cons_branch_then(ts, r, i))) by {
        reveal(cons_branch_then);
    }
    assert(token_at(ts, i, TokenKind::LParen) && token_at(ts, i + 1, TokenKind::Type)
        ==> !fails_openly(cons_branch_recv_type(ts, r, i))) by {
        reveal(cons_branch_recv_type);
    }
    assert(token_at(ts, i, TokenKind::LParen) ==> !fails_openly(cons_branch_receive(ts, r, i))) by {
        reveal(cons_branch_receive);
    }
    reveal(cons_branch);
}

/// A branch of an application that starts with one of these is found, or else the failure rules out
/// other
/// alternatives.
pub proof fn apply_branch_commits(ts: Seq<Token>, i: int)
    requires
        0 <= i <= ts.len(),
    ensures
        token_at(ts, i, TokenKind::LowercaseIdentifier)
            ==> !fails_openly(apply_branch(ts, rules(ts, i), i)),
        token_at(ts, i, TokenKind::LParen) && token_at(ts, i + 1, TokenKind::Type)
            ==> !fails_openly(apply_branch(ts, rules(ts, i), i)),
        token_at(ts, i, TokenKind::LParen) ==> !fails_openly(apply_branch(ts, rules(ts, i), i)),
        token_at(ts, i, TokenKind::Bang) ==> !fails_openly(apply_branch(ts, rules(ts, i), i)),
        token_at(ts, i, TokenKind::Try) ==> !fails_openly(apply_branch(ts, rules(ts, i), i)),
        token_at(ts, i, TokenKind::Default) && token_at(ts, i + 1, TokenKind::LParen)
            ==> !fails_openly(apply_branch(ts, rules(ts, i), i)),
{
    let r = rules(ts, i);
    assert(token_at(ts, i, TokenKind::LowercaseIdentifier)
        ==> !fails_openly(apply_branch_then(ts, r, i))) by {
        reveal(apply_branch_then);
    }
    assert(token_at(ts, i, TokenKind::LParen) && token_at(ts, i + 1, TokenKind::Type)
        ==> !fails_openly(apply_branch_recv_type(ts, r, i))) by {
        reveal(apply_branch_recv_type);
    }
    assert(token_at(ts, i, TokenKind::LParen)
        ==> !fails_openly(apply_branch_receive(ts, r, i))) by {
        reveal(apply_branch_receive);
    }
    assert(token_at(ts, i, TokenKind::Bang) ==> !fails_openly(apply_branch_continue(ts, r, i))) by {
        reveal(apply_branch_continue);
    }
    assert(token_at(ts, i, TokenKind::Try) ==> !fails_openly(apply_branch_try(ts, r, i))) by {
        reveal(apply_branch_try);
    }
    assert(token_at(ts, i, TokenKind::Default) && token_at(ts, i + 1, TokenKind::LParen)
        ==> !fails_openly(apply_branch_default(ts, r, i))) by {
        reveal(apply_branch_default);
    }
    reveal(apply_branch);
}

/// A process that starts with one of these is found, or else the failure rules out other
/// alternatives.
pub proof fn process_commits(ts: Seq<Token>, i: int)
    requires
        0 <= i <= ts.len(),
    ensures
        token_at(ts, i, TokenKind::Let) ==> !fails_openly(process(ts, rules(ts, i), i)),
        token_at(ts, i, TokenKind::Catch) ==> !fails_openly(process(ts, rules(ts, i), i)),
        token_at(ts, i, TokenKind::Throw) ==> !fails_openly(process(ts, rules(ts, i), i)),
        token_at(ts, i, TokenKind::Telltypes) ==> !fails_openly(process(ts, rules(ts, i), i)),
{
    let r = rules(ts, i);
    assert(token_at(ts, i, TokenKind::Let) ==> !fails_openly(proc_let(ts, r, i))) by {
        reveal(proc_let);
    }
    assert(token_at(ts, i, TokenKind::Catch) ==> !fails_openly(proc_catch(ts, r, i))) by {
        reveal(proc_catch);
    }
    assert(token_at(ts, i, TokenKind::Throw) ==> !fails_openly(proc_throw(ts, r, i))) by {
        reveal(proc_throw);
    }
    assert(token_at(ts, i, TokenKind::Telltypes) ==> !fails_openly(proc_telltypes(ts, r, i))) by {
        reveal(proc_telltypes);
    }
    reveal(process);
}

/// A branch of a command that starts with one of these is found, or else the failure rules out
/// other
/// alternatives.
pub proof fn cmd_branch_commits(ts: Seq<Token>, i: int)
    requires
        0 <= i <= ts.len(),
    ensures
        token_at(ts, i, TokenKind::FatArrow) ==> !fails_openly(cmd_branch(ts, rules(ts, i), i)),
        token_at(ts, i, TokenKind::LowercaseIdentifier)
            ==> !fails_openly(cmd_branch(ts, rules(ts, i), i)),
        token_at(ts, i, TokenKind::Bang) ==> !fails_openly(cmd_branch(ts, rules(ts, i), i)),
        token_at(ts, i, TokenKind::LParen) && token_at(ts, i + 1, TokenKind::Type)
            ==> !fails_openly(cmd_branch(ts, rules(ts, i), i)),
        token_at(ts, i, TokenKind::LParen) ==> !fails_openly(cmd_branch(ts, rules(ts, i), i)),
        token_at(ts, i, TokenKind::Try) ==> !fails_openly(cmd_branch(ts, rules(ts, i), i)),
        token_at(ts, i, TokenKind::Default) && token_at(ts, i + 1, TokenKind::LParen)
            ==> !fails_openly(cmd_branch(ts, rules(ts, i), i)),
{
    let r = rules(ts, i);
    assert(token_at(ts, i, TokenKind::FatArrow) ==> !fails_openly(cmd_branch_then(ts, r, i))) by {
        reveal(cmd_branch_then);
    }
    assert(token_at(ts, i, TokenKind::LowercaseIdentifier)
        ==> !fails_openly(cmd_branch_bind_then(ts, r, i))) by {
        reveal(cmd_branch_bind_then);
    }
    assert(token_at(ts, i, TokenKind::Bang) ==> !fails_openly(cmd_branch_continue(ts, r, i))) by {
        reveal(cmd_branch_continue);
    }
    assert(token_at(ts, i, TokenKind::LParen) && token_at(ts, i + 1, TokenKind::Type)
        ==> !fails_openly(cmd_branch_recv_type(ts, r, i))) by {
        reveal(cmd_branch_recv_type);
    }
    assert(token_at(ts, i, TokenKind::LParen) ==> !fails_openly(cmd_branch_receive(ts, r, i))) by {
        reveal(cmd_branch_receive);
    }
    assert(token_at(ts, i, TokenKind::Try) ==> !fails_openly(cmd_branch_try(ts, r, i))) by {
        reveal(cmd_branch_try);
    }
    assert(token_at(ts, i, TokenKind::Default) && token_at(ts, i + 1, TokenKind::LParen)
        ==> !fails_openly(cmd_branch_default(ts, r, i))) by {
        reveal(cmd_branch_default);
    }
    reveal(cmd_branch);
}

/// A type that is not found is called one where the parse failed: the last thing that is said of
/// the last failure.
pub proof fn typ_is_named(ts: Seq<Token>, i: int)
    ensures
        typ(ts, rules(ts, i), i) matches Outcome::Failed { at, error, .. } ==> {
            &&& error.len() > 0
            &&& error.last().0 == ts.len() - at
            &&& error.last().1.len() > 0
            &&& error.last().1.last() == StrContext::Label("type")
        },
{
    reveal(typ);
}

/// An expression that is not found is called one where the parse failed: the last thing that is
/// said of
/// the last failure.
pub proof fn expression_is_named(ts: Seq<Token>, i: int)
    ensures
        expression(ts, rules(ts, i), i) matches Outcome::Failed { at, error, .. } ==> {
            &&& error.len() > 0
            &&& error.last().0 == ts.len() - at
            &&& error.last().1.len() > 0
            &&& error.last().1.last() == StrContext::Label("expression")
        },
{
    reveal(expression);
}

/// A construction that is not found is called one where the parse failed: the last thing that is
/// said of
/// the last failure.
pub proof fn construction_is_named(ts: Seq<Token>, i: int)
    ensures
        construction(ts, rules(ts, i), i) matches Outcome::Failed { at, error, .. } ==> {
            &&& error.len() > 0
            &&& error.last().0 == ts.len() - at
            &&& error.last().1.len() > 0
            &&& error.last().1.last() == StrContext::Label("construction")
        },
{
    reveal(construction);
}

/// A process that is not found is called one where the parse failed: the last thing that is said of
/// the last failure.
pub proof fn process_is_named(ts: Seq<Token>, i: int)
    ensures
        process(ts, rules(ts, i), i) matches Outcome::Failed { at, error, .. } ==> {
            &&& error.len() > 0
            &&& error.last().0 == ts.len() - at
            &&& error.last().1.len() > 0
            &&& error.last().1.last() == StrContext::Label("process")
        },
{
    reveal(process);
}

/// Whether a parse fails and what is said last of the last failure is that it was within `inner`,
/// within `outer`.
pub open spec fn said_within<T>(
    ts: Seq<Token>,
    outcome: Outcome<T>,
    inner: &'static str,
    outer: &'static str,
) -> bool {
    outcome matches Outcome::Failed { at, error, .. } && error.len() > 0 && error.last().0
        == ts.len() - at && error.last().1.len() > 1 && error.last().1.last() == StrContext::Label(
        outer,
    ) && error.last().1.drop_last().last() == StrContext::Label(inner)
}

/// What fails within `box`, `dual` or `iterative`, within the branches of `either` or `choice`, or
/// among the names after `(type` or `[type`, is said to be there, within a type.
pub proof fn type_failures_are_named(ts: Seq<Token>, i: int)
    ensures
        ({
            let whole = typ(ts, rules(ts, i), i);
            &&& whole is Failed && token_at(ts, i, TokenKind::Box) ==> said_within(
                ts,
                whole,
                "box type",
                "type",
            )
            &&& whole is Failed && token_at(ts, i, TokenKind::Dual) ==> said_within(
                ts,
                whole,
                "dual type",
                "type",
            )
            &&& whole is Failed && token_at(ts, i, TokenKind::Iterative) ==> said_within(
                ts,
                whole,
                "iterative type body",
                "type",
            )
            &&& whole is Failed && token_at(ts, i, TokenKind::Either) ==> said_within(
                ts,
                whole,
                "either/choice branches",
                "type",
            )
            &&& whole is Failed && token_at(ts, i, TokenKind::Choice) ==> said_within(
                ts,
                whole,
                "either/choice branches",
                "type",
            )
            &&& token_at(ts, i, TokenKind::LParen) && token_at(ts, i + 1, TokenKind::Type)
                && !token_at(ts, i + 2, TokenKind::LowercaseIdentifier) ==> said_within(
                ts,
                whole,
                "list of type names to send",
                "type",
            )
            &&& token_at(ts, i, TokenKind::LBrack) && token_at(ts, i + 1, TokenKind::Type)
                && !token_at(ts, i + 2, TokenKind::LowercaseIdentifier) ==> said_within(
                ts,
                whole,
                "list of type names to receive",
                "type",
            )
        }),
{
    let whole = typ(ts, rules(ts, i), i);
    if whole is Failed && token_at(ts, i, TokenKind::Box) {
        only_typ_box(ts, i);
        reveal(typ_box);
    }
    if whole is Failed && token_at(ts, i, TokenKind::Dual) {
        only_typ_chan(ts, i);
        reveal(typ_chan);
    }
    if whole is Failed && token_at(ts, i, TokenKind::Iterative) {
        only_typ_iterative(ts, i);
        reveal(typ_iterative);
    }
    if whole is Failed && token_at(ts, i, TokenKind::Either) {
        only_typ_either(ts, i);
        reveal(typ_either);
    }
    if whole is Failed && token_at(ts, i, TokenKind::Choice) {
        only_typ_choice(ts, i);
        reveal(typ_choice);
    }
    if token_at(ts, i, TokenKind::LParen) && token_at(ts, i + 1, TokenKind::Type) && !token_at(
        ts,
        i + 2,
        TokenKind::LowercaseIdentifier,
    ) {
        only_typ_send_type(ts, i);
        reveal(typ_send_type);
    }
    if token_at(ts, i, TokenKind::LBrack) && token_at(ts, i + 1, TokenKind::Type) && !token_at(
        ts,
        i + 2,
        TokenKind::LowercaseIdentifier,
    ) {
        only_typ_recv_type(ts, i);
        reveal(typ_recv_type);
    }
}

/// What fails within the branches of `case` is said to be there, within a construction.
pub proof fn case_failure_is_named(ts: Seq<Token>, i: int)
    ensures
        construction(ts, rules(ts, i), i) is Failed && token_at(ts, i, TokenKind::Case)
            ==> said_within(
            ts,
            construction(ts, rules(ts, i), i),
            "either/choice branches",
            "construction",
        ),
{
    if token_at(ts, i, TokenKind::Case) {
        only_cons_case(ts, i);
        reveal(cons_case);
    }
}

/// What fails within an item is said to be within a definition of a type, a declaration or a
/// definition, whichever it starts like, within an item.
pub proof fn item_failures_are_named(ts: Seq<Token>, i: int)
    ensures
        item(ts, i) is Failed && token_at(ts, i, TokenKind::Type) ==> said_within(
            ts,
            item(ts, i),
            "type definition",
            "item",
        ),
        item(ts, i) is Failed && token_at(ts, i, TokenKind::Dec) ==> said_within(
            ts,
            item(ts, i),
            "declaration",
            "item",
        ),
        item(ts, i) is Failed && token_at(ts, i, TokenKind::Def) ==> said_within(
            ts,
            item(ts, i),
            "definition",
            "item",
        ),
{
    reveal(type_def);
    reveal(declaration);
    reveal(definition);
    reveal(item);
}

} // verus!
