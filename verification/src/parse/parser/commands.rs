//! Parsing of commands.
use super::super::error::StrContext;
use super::super::grammar::{commands, rules};
use super::super::outcome::{cut, opt, or, retry, Parsed};
use super::{Parser, rfold};
use crate::language::{
    Command, CommandBranch, CommandBranches, Expression, LocalName, Pattern, Process,
};
use crate::location::Span;
use crate::token::TokenKind;
use crate::types::Type;
use vstd::prelude::*;

verus! {

broadcast use {
    crate::language::group_language_models,
    crate::parse::grammar::group_rules,
    crate::types::group_type_models,
};

/// A command that does nothing.
pub(crate) fn noop_cmd(span: Span) -> (r: Command)
    ensures
        r.model() == commands::noop_cmd(span@),
{
    Command::Then(Box::new(Process::noop(span)))
}

impl<'t, 'i> Parser<'t, 'i> {
    /// A command that starts with a step of its own.
    pub(crate) fn cmd_step(&self, i: usize) -> (r: Parsed<Command>)
        requires
            self.ready(i),
        ensures
            self.parses(r, i, commands::cmd_step(self@, rules(self@, i as int), i as int)),
        decreases self@.len() - i, 2int,
    {
        reveal(commands::cmd_step);
        let r = self.cmd_link(i);
        let r = if retry(&r) { or(r, self.cmd_signal(i)) } else { r };
        let r = if retry(&r) { or(r, self.cmd_case(i)) } else { r };
        let r = if retry(&r) { or(r, self.cmd_break(i)) } else { r };
        let r = if retry(&r) { or(r, self.cmd_continue(i)) } else { r };
        let r = if retry(&r) { or(r, self.cmd_begin(i)) } else { r };
        let r = if retry(&r) { or(r, self.cmd_unfounded(i)) } else { r };
        let r = if retry(&r) { or(r, self.cmd_loop(i)) } else { r };
        let r = if retry(&r) { or(r, self.cmd_send_type(i)) } else { r };
        let r = if retry(&r) { or(r, self.cmd_send(i)) } else { r };
        let r = if retry(&r) { or(r, self.cmd_recv_type(i)) } else { r };
        let r = if retry(&r) { or(r, self.cmd_receive(i)) } else { r };
        let r = if retry(&r) { or(r, self.cmd_try(i)) } else { r };
        let r = if retry(&r) { or(r, self.cmd_default(i)) } else { r };
        if retry(&r) { or(r, self.cmd_pipe(i)) } else { r }
    }

    /// A command, if there is one.
    pub(crate) fn cmd(&self, i: usize) -> (r: Parsed<Option<Command>>)
        requires
            self.ready(i),
        ensures
            self.tries(r, i, commands::cmd(self@, rules(self@, i as int), i as int)),
        decreases self@.len() - i, 3int,
    {
        reveal(commands::cmd);
        let r = match self.cmd_step(i) {
            Ok((i, command)) => Ok((i, Some(command))),
            Err(f) => Err(f),
        };
        let r = if retry(&r) { or(r, self.cmd_then(i)) } else { r };
        self.context(r, StrContext::Label("command"))
    }

    /// The process that a command ends in, if it ends in one.
    pub(crate) fn cmd_then(&self, i: usize) -> (r: Parsed<Option<Command>>)
        requires
            self.ready(i),
        ensures
            self.tries(r, i, commands::cmd_then(self@, rules(self@, i as int), i as int)),
        decreases self@.len() - i, 2int,
    {
        reveal(commands::cmd_then);
        let start = match self.t(i, TokenKind::Semicolon) {
            Ok((j, _)) => j,
            Err(_) => i,
        };
        let (i, process) = opt(start, self.process(start))?;
        match process {
            Some(process) => Ok((i, Some(Command::Then(Box::new(process))))),
            None => Ok((i, None)),
        }
    }

    /// `<> e`
    pub(crate) fn cmd_link(&self, i: usize) -> (r: Parsed<Command>)
        requires
            self.ready(i),
        ensures
            self.parses(r, i, commands::cmd_link(self@, rules(self@, i as int), i as int)),
        decreases self@.len() - i, 0int,
    {
        reveal(commands::cmd_link);
        let (i, token) = self.t(i, TokenKind::Link)?;
        let (i, value) = cut(self.expression(i))?;
        Ok((i, Command::Link(token.span.join(value.span()), Box::new(value))))
    }

    /// `(e, f) c`
    pub(crate) fn cmd_send(&self, i: usize) -> (r: Parsed<Command>)
        requires
            self.ready(i),
        ensures
            self.parses(r, i, commands::cmd_send(self@, rules(self@, i as int), i as int)),
        decreases self@.len() - i, 0int,
    {
        reveal(commands::cmd_send);
        let ghost from = i as int;
        let (i, open) = self.t(i, TokenKind::LParen)?;
        let (i, args) = cut(self.expression_list(Ghost(from), i))?;
        let (i, close) = cut(self.t(i, TokenKind::RParen))?;
        let (i, rest) = cut(self.cmd(i))?;
        let rest = match rest {
            Some(rest) => rest,
            None => noop_cmd(close.span.only_end()),
        };
        let span = open.span.join(rest.span());
        let step = |x: Expression, rest: Command| -> (r: Command)
            ensures
                r.deep_view() == commands::send_step(span@)(x.deep_view(), rest.deep_view()),
            { Command::Send(span.clone(), x, Box::new(rest)) };
        Ok((i, rfold(args, rest, step, Ghost(commands::send_step(span@)))))
    }

    /// `[p, q] c`
    pub(crate) fn cmd_receive(&self, i: usize) -> (r: Parsed<Command>)
        requires
            self.ready(i),
        ensures
            self.parses(r, i, commands::cmd_receive(self@, rules(self@, i as int), i as int)),
        decreases self@.len() - i, 0int,
    {
        reveal(commands::cmd_receive);
        let ghost from = i as int;
        let (i, open) = self.t(i, TokenKind::LBrack)?;
        let (i, args) = cut(self.pattern_list(Ghost(from), i))?;
        let (i, close) = cut(self.t(i, TokenKind::RBrack))?;
        let (i, rest) = cut(self.cmd(i))?;
        let rest = match rest {
            Some(rest) => rest,
            None => noop_cmd(close.span.only_end()),
        };
        let span = open.span.join(rest.span());
        let step = |x: Pattern, rest: Command| -> (r: Command)
            ensures
                r.deep_view() == commands::receive_step(span@)(x.deep_view(), rest.deep_view()),
            { Command::Receive(span.clone(), x, Box::new(rest)) };
        Ok((i, rfold(args, rest, step, Ghost(commands::receive_step(span@)))))
    }

    /// `.x c`
    pub(crate) fn cmd_signal(&self, i: usize) -> (r: Parsed<Command>)
        requires
            self.ready(i),
        ensures
            self.parses(r, i, commands::cmd_signal(self@, rules(self@, i as int), i as int)),
        decreases self@.len() - i, 0int,
    {
        reveal(commands::cmd_signal);
        let (i, pre) = self.t(i, TokenKind::Dot)?;
        let (i, name) = self.local_name(i)?;
        let (i, rest) = self.cmd(i)?;
        let rest = match rest {
            Some(rest) => rest,
            None => noop_cmd(name.span.only_end()),
        };
        Ok((i, Command::Signal(pre.span.join(rest.span()), name, Box::new(rest))))
    }

    /// `.case { .x => { process } } process`
    pub(crate) fn cmd_case(&self, i: usize) -> (r: Parsed<Command>)
        requires
            self.ready(i),
        ensures
            self.parses(r, i, commands::cmd_case(self@, rules(self@, i as int), i as int)),
        decreases self@.len() - i, 0int,
    {
        reveal(commands::cmd_case);
        let ghost from = i as int;
        let (i, pre) = self.t(i, TokenKind::Dot)?;
        let (i, _) = self.t(i, TokenKind::Case)?;
        let (i, body) = cut(self.cmd_branch_body(Ghost(from), i))?;
        let (i, rest) = cut(opt(i, self.pass_process(i)))?;
        let rest = match rest {
            Some(rest) => Some(Box::new(rest)),
            None => None,
        };
        Ok((i, Command::Case(pre.span.join(body.0), CommandBranches(body.1), rest)))
    }

    /// `!`
    pub(crate) fn cmd_break(&self, i: usize) -> (r: Parsed<Command>)
        requires
            self.ready(i),
        ensures
            self.parses(r, i, commands::cmd_break(self@, i as int)),
    {
        reveal(commands::cmd_break);
        let (i, token) = self.t(i, TokenKind::Bang)?;
        Ok((i, Command::Break(token.span.clone())))
    }

    /// `? process`
    pub(crate) fn cmd_continue(&self, i: usize) -> (r: Parsed<Command>)
        requires
            self.ready(i),
        ensures
            self.parses(r, i, commands::cmd_continue(self@, rules(self@, i as int), i as int)),
        decreases self@.len() - i, 0int,
    {
        reveal(commands::cmd_continue);
        let (i, token) = self.t(i, TokenKind::Quest)?;
        let (i, rest) = opt(i, self.process(i))?;
        Ok((
            i,
            match rest {
                Some(rest) => Command::Continue(token.span.join(rest.span()), Box::new(rest)),
                None => Command::Continue(
                    token.span.clone(),
                    Box::new(Process::noop(token.span.only_end())),
                ),
            },
        ))
    }

    /// `.begin@l c`
    pub(crate) fn cmd_begin(&self, i: usize) -> (r: Parsed<Command>)
        requires
            self.ready(i),
        ensures
            self.parses(r, i, commands::cmd_begin(self@, rules(self@, i as int), i as int)),
        decreases self@.len() - i, 0int,
    {
        reveal(commands::cmd_begin);
        let (i, pre) = self.t(i, TokenKind::Dot)?;
        let (i, _) = self.t(i, TokenKind::Begin)?;
        let (i, label) = cut(self.label(i))?;
        let (i, rest) = cut(self.cmd(i))?;
        let rest = match (&label, rest) {
            (_, Some(rest)) => rest,
            (Some(label), None) => noop_cmd(label.span.only_end()),
            (None, None) => noop_cmd(pre.span.only_end()),
        };
        Ok((
            i,
            Command::Begin {
                span: pre.span.join(rest.span()),
                unfounded: false,
                label,
                then: Box::new(rest),
            },
        ))
    }

    /// `.unfounded@l c`
    pub(crate) fn cmd_unfounded(&self, i: usize) -> (r: Parsed<Command>)
        requires
            self.ready(i),
        ensures
            self.parses(r, i, commands::cmd_unfounded(self@, rules(self@, i as int), i as int)),
        decreases self@.len() - i, 0int,
    {
        reveal(commands::cmd_unfounded);
        let (i, pre) = self.t(i, TokenKind::Dot)?;
        let (i, _) = self.t(i, TokenKind::Unfounded)?;
        let (i, label) = cut(self.label(i))?;
        let (i, rest) = cut(self.cmd(i))?;
        let rest = match (&label, rest) {
            (_, Some(rest)) => rest,
            (Some(label), None) => noop_cmd(label.span.only_end()),
            (None, None) => noop_cmd(pre.span.only_end()),
        };
        Ok((
            i,
            Command::Begin {
                span: pre.span.join(rest.span()),
                unfounded: true,
                label,
                then: Box::new(rest),
            },
        ))
    }

    /// `.loop@l`
    pub(crate) fn cmd_loop(&self, i: usize) -> (r: Parsed<Command>)
        requires
            self.ready(i),
        ensures
            self.parses(r, i, commands::cmd_loop(self@, i as int)),
    {
        reveal(commands::cmd_loop);
        let (i, pre) = self.t(i, TokenKind::Dot)?;
        let (i, kw) = self.t(i, TokenKind::Loop)?;
        let (i, label) = cut(self.label(i))?;
        let span = match &label {
            Some(label) => pre.span.join(label.span.clone()),
            None => pre.span.join(kw.span.clone()),
        };
        Ok((i, Command::Loop(span, label)))
    }

    /// `(type a, b) c`
    pub(crate) fn cmd_send_type(&self, i: usize) -> (r: Parsed<Command>)
        requires
            self.ready(i),
        ensures
            self.parses(r, i, commands::cmd_send_type(self@, rules(self@, i as int), i as int)),
        decreases self@.len() - i, 0int,
    {
        reveal(commands::cmd_send_type);
        let ghost from = i as int;
        let (i, open) = self.open_type(i, TokenKind::LParen, "(type")?;
        let (i, args) = cut(self.typ_list(Ghost(from), i))?;
        let (i, close) = cut(self.t(i, TokenKind::RParen))?;
        let (i, rest) = cut(self.cmd(i))?;
        let rest = match rest {
            Some(rest) => rest,
            None => noop_cmd(close.span.only_end()),
        };
        let span = open.span.join(rest.span());
        let step = |x: Type, rest: Command| -> (r: Command)
            ensures
                r.deep_view() == commands::send_type_step(span@)(x.deep_view(), rest.deep_view()),
            { Command::SendType(span.clone(), x, Box::new(rest)) };
        Ok((i, rfold(args, rest, step, Ghost(commands::send_type_step(span@)))))
    }

    /// `[type a, b] c`
    pub(crate) fn cmd_recv_type(&self, i: usize) -> (r: Parsed<Command>)
        requires
            self.ready(i),
        ensures
            self.parses(r, i, commands::cmd_recv_type(self@, rules(self@, i as int), i as int)),
        decreases self@.len() - i, 0int,
    {
        reveal(commands::cmd_recv_type);
        let (i, open) = self.open_type(i, TokenKind::LBrack, "[type")?;
        let (i, args) = cut(self.name_list(i))?;
        let (i, close) = cut(self.t(i, TokenKind::RBrack))?;
        let (i, rest) = cut(self.cmd(i))?;
        let rest = match rest {
            Some(rest) => rest,
            None => noop_cmd(close.span.only_end()),
        };
        let span = open.span.join(rest.span());
        let step = |x: LocalName, rest: Command| -> (r: Command)
            ensures
                r.deep_view() == commands::receive_type_step(span@)(
                    x.deep_view(),
                    rest.deep_view(),
                ),
            { Command::ReceiveType(span.clone(), x, Box::new(rest)) };
        Ok((i, rfold(args, rest, step, Ghost(commands::receive_type_step(span@)))))
    }

    /// `.try@l c`
    pub(crate) fn cmd_try(&self, i: usize) -> (r: Parsed<Command>)
        requires
            self.ready(i),
        ensures
            self.parses(r, i, commands::cmd_try(self@, rules(self@, i as int), i as int)),
        decreases self@.len() - i, 0int,
    {
        reveal(commands::cmd_try);
        let (i, _) = self.t(i, TokenKind::Dot)?;
        let (i, kw) = self.t(i, TokenKind::Try)?;
        let (i, label) = self.label(i)?;
        let (i, rest) = self.cmd(i)?;
        let rest = match rest {
            Some(rest) => rest,
            None => noop_cmd(kw.span.only_end()),
        };
        Ok((i, Command::Try(kw.span.clone(), label, Box::new(rest))))
    }

    /// `.default(e) c`
    pub(crate) fn cmd_default(&self, i: usize) -> (r: Parsed<Command>)
        requires
            self.ready(i),
        ensures
            self.parses(r, i, commands::cmd_default(self@, rules(self@, i as int), i as int)),
        decreases self@.len() - i, 0int,
    {
        reveal(commands::cmd_default);
        let (i, _) = self.t(i, TokenKind::Dot)?;
        let (i, kw) = self.t(i, TokenKind::Default)?;
        let (i, _) = self.t(i, TokenKind::LParen)?;
        let (i, value) = self.expression(i)?;
        let (i, close) = self.t(i, TokenKind::RParen)?;
        let (i, rest) = self.cmd(i)?;
        let rest = match rest {
            Some(rest) => rest,
            None => noop_cmd(close.span.only_end()),
        };
        Ok((
            i,
            Command::Default(kw.span.join(rest.span()), Box::new(value), Box::new(rest)),
        ))
    }

    /// `->f c`
    pub(crate) fn cmd_pipe(&self, i: usize) -> (r: Parsed<Command>)
        requires
            self.ready(i),
        ensures
            self.parses(r, i, commands::cmd_pipe(self@, rules(self@, i as int), i as int)),
        decreases self@.len() - i, 0int,
    {
        reveal(commands::cmd_pipe);
        let (i, pre) = self.t(i, TokenKind::ThinArrow)?;
        let (i, function) = cut(self.operand(i))?;
        let (i, rest) = cut(self.cmd(i))?;
        let rest = match rest {
            Some(rest) => rest,
            None => noop_cmd(function.span().only_end()),
        };
        Ok((
            i,
            Command::Pipe(pre.span.join(function.span()), Box::new(function), Box::new(rest)),
        ))
    }

    /// What stands after a signal in `.case`.
    pub(crate) fn cmd_branch(&self, i: usize) -> (r: Parsed<CommandBranch>)
        requires
            self.ready(i),
        ensures
            self.parses(r, i, commands::cmd_branch(self@, rules(self@, i as int), i as int)),
        decreases self@.len() - i, 1int,
    {
        reveal(commands::cmd_branch);
        let r = self.cmd_branch_then(i);
        let r = if retry(&r) { or(r, self.cmd_branch_bind_then(i)) } else { r };
        let r = if retry(&r) { or(r, self.cmd_branch_continue(i)) } else { r };
        let r = if retry(&r) { or(r, self.cmd_branch_recv_type(i)) } else { r };
        let r = if retry(&r) { or(r, self.cmd_branch_receive(i)) } else { r };
        let r = if retry(&r) { or(r, self.cmd_branch_try(i)) } else { r };
        if retry(&r) { or(r, self.cmd_branch_default(i)) } else { r }
    }

    /// `=> { process }`
    pub(crate) fn cmd_branch_then(&self, i: usize) -> (r: Parsed<CommandBranch>)
        requires
            self.ready(i),
        ensures
            self.parses(r, i, commands::cmd_branch_then(self@, rules(self@, i as int), i as int)),
        decreases self@.len() - i, 0int,
    {
        reveal(commands::cmd_branch_then);
        let (i, pre) = self.t(i, TokenKind::FatArrow)?;
        let (i, open) = cut(self.t(i, TokenKind::LCurly))?;
        let (i, process) = cut(opt(i, self.process(i)))?;
        let (i, close) = cut(self.t(i, TokenKind::RCurly))?;
        let process = match process {
            Some(process) => process,
            None => Process::noop(open.span.only_end()),
        };
        Ok((i, CommandBranch::Then(pre.span.join(close.span.clone()), process)))
    }

    /// `x => { process }`
    pub(crate) fn cmd_branch_bind_then(&self, i: usize) -> (r: Parsed<CommandBranch>)
        requires
            self.ready(i),
        ensures
            self.parses(
                r,
                i,
                commands::cmd_branch_bind_then(self@, rules(self@, i as int), i as int),
            ),
        decreases self@.len() - i, 0int,
    {
        reveal(commands::cmd_branch_bind_then);
        let (i, name) = self.local_name(i)?;
        let (i, pre) = cut(self.t(i, TokenKind::FatArrow))?;
        let (i, open) = cut(self.t(i, TokenKind::LCurly))?;
        let (i, process) = cut(opt(i, self.process(i)))?;
        let (i, close) = cut(self.t(i, TokenKind::RCurly))?;
        let process = match process {
            Some(process) => process,
            None => Process::noop(open.span.only_end()),
        };
        Ok((i, CommandBranch::BindThen(pre.span.join(close.span.clone()), name, process)))
    }

    /// `(p, q) b`
    pub(crate) fn cmd_branch_receive(&self, i: usize) -> (r: Parsed<CommandBranch>)
        requires
            self.ready(i),
        ensures
            self.parses(
                r,
                i,
                commands::cmd_branch_receive(self@, rules(self@, i as int), i as int),
            ),
        decreases self@.len() - i, 0int,
    {
        reveal(commands::cmd_branch_receive);
        let ghost from = i as int;
        let (i, open) = self.t(i, TokenKind::LParen)?;
        let (i, args) = cut(self.pattern_list(Ghost(from), i))?;
        let (i, _) = cut(self.t(i, TokenKind::RParen))?;
        let (i, rest) = cut(self.cmd_branch(i))?;
        let span = open.span.join(rest.span());
        let step = |x: Pattern, rest: CommandBranch| -> (r: CommandBranch)
            ensures
                r.deep_view() == commands::branch_receive_step(span@)(
                    x.deep_view(),
                    rest.deep_view(),
                ),
            { CommandBranch::Receive(span.clone(), x, Box::new(rest)) };
        Ok((i, rfold(args, rest, step, Ghost(commands::branch_receive_step(span@)))))
    }

    /// `! => { process }`
    pub(crate) fn cmd_branch_continue(&self, i: usize) -> (r: Parsed<CommandBranch>)
        requires
            self.ready(i),
        ensures
            self.parses(
                r,
                i,
                commands::cmd_branch_continue(self@, rules(self@, i as int), i as int),
            ),
        decreases self@.len() - i, 0int,
    {
        reveal(commands::cmd_branch_continue);
        let (i, token) = self.t(i, TokenKind::Bang)?;
        let (i, _) = cut(self.t(i, TokenKind::FatArrow))?;
        let (i, open) = cut(self.t(i, TokenKind::LCurly))?;
        let (i, process) = cut(opt(i, self.process(i)))?;
        let (i, close) = cut(self.t(i, TokenKind::RCurly))?;
        let process = match process {
            Some(process) => process,
            None => Process::noop(open.span.only_end()),
        };
        Ok((i, CommandBranch::Continue(token.span.join(close.span.clone()), process)))
    }

    /// `(type a, b) c`
    pub(crate) fn cmd_branch_recv_type(&self, i: usize) -> (r: Parsed<CommandBranch>)
        requires
            self.ready(i),
        ensures
            self.parses(
                r,
                i,
                commands::cmd_branch_recv_type(self@, rules(self@, i as int), i as int),
            ),
        decreases self@.len() - i, 0int,
    {
        reveal(commands::cmd_branch_recv_type);
        let (i, open) = self.open_type(i, TokenKind::LParen, "(type")?;
        let (i, args) = cut(self.name_list(i))?;
        let (i, _) = cut(self.t(i, TokenKind::RParen))?;
        let (i, rest) = cut(self.cmd_branch(i))?;
        let span = open.span.join(rest.span());
        let step = |x: LocalName, rest: CommandBranch| -> (r: CommandBranch)
            ensures
                r.deep_view() == commands::branch_receive_type_step(span@)(
                    x.deep_view(),
                    rest.deep_view(),
                ),
            { CommandBranch::ReceiveType(span.clone(), x, Box::new(rest)) };
        Ok((i, rfold(args, rest, step, Ghost(commands::branch_receive_type_step(span@)))))
    }

    /// `try@l b`
    pub(crate) fn cmd_branch_try(&self, i: usize) -> (r: Parsed<CommandBranch>)
        requires
            self.ready(i),
        ensures
            self.parses(r, i, commands::cmd_branch_try(self@, rules(self@, i as int), i as int)),
        decreases self@.len() - i, 0int,
    {
        reveal(commands::cmd_branch_try);
        let (i, kw) = self.t(i, TokenKind::Try)?;
        let (i, label) = cut(self.label(i))?;
        let (i, rest) = cut(self.cmd_branch(i))?;
        Ok((i, CommandBranch::Try(kw.span.join(rest.span()), label, Box::new(rest))))
    }

    /// `default(e) b`
    pub(crate) fn cmd_branch_default(&self, i: usize) -> (r: Parsed<CommandBranch>)
        requires
            self.ready(i),
        ensures
            self.parses(
                r,
                i,
                commands::cmd_branch_default(self@, rules(self@, i as int), i as int),
            ),
        decreases self@.len() - i, 0int,
    {
        reveal(commands::cmd_branch_default);
        let (i, kw) = self.t(i, TokenKind::Default)?;
        let (i, _) = self.t(i, TokenKind::LParen)?;
        let (i, value) = cut(self.expression(i))?;
        let (i, _) = cut(self.t(i, TokenKind::RParen))?;
        let (i, rest) = cut(self.cmd_branch(i))?;
        Ok((
            i,
            CommandBranch::Default(kw.span.join(rest.span()), Box::new(value), Box::new(rest)),
        ))
    }
}

} // verus!
