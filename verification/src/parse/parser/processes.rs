//! Parsing of processes.
use super::super::error::StrContext;
use super::super::grammar::{processes, rules};
use super::super::outcome::{cut, opt, or, retry, Parsed};
use super::commands::noop_cmd;
use super::Parser;
use crate::language::Process;
use crate::token::TokenKind;
use vstd::prelude::*;

verus! {

broadcast use {
    crate::language::group_language_models,
    crate::parse::grammar::group_rules,
    crate::types::group_type_models,
};

impl<'t, 'i> Parser<'t, 'i> {
    /// A process.
    pub(crate) fn process(&self, i: usize) -> (r: Parsed<Process>)
        requires
            self.ready(i),
        ensures
            self.parses(r, i, processes::process(self@, rules(self@, i as int), i as int)),
        decreases self@.len() - i, 1int,
    {
        reveal(processes::process);
        let r = self.proc_let(i);
        let r = if retry(&r) { or(r, self.proc_catch(i)) } else { r };
        let r = if retry(&r) { or(r, self.proc_throw(i)) } else { r };
        let r = if retry(&r) { or(r, self.proc_telltypes(i)) } else { r };
        let r = if retry(&r) { or(r, self.global_command(i)) } else { r };
        let r = if retry(&r) { or(r, self.command(i)) } else { r };
        self.context(r, StrContext::Label("process"))
    }

    /// `let p = e process`
    pub(crate) fn proc_let(&self, i: usize) -> (r: Parsed<Process>)
        requires
            self.ready(i),
        ensures
            self.parses(r, i, processes::proc_let(self@, rules(self@, i as int), i as int)),
        decreases self@.len() - i, 0int,
    {
        reveal(processes::proc_let);
        let (i, pre) = self.t(i, TokenKind::Let)?;
        let (i, pattern) = cut(self.pattern(i))?;
        let (i, _) = cut(self.t(i, TokenKind::Eq))?;
        let (i, value) = cut(self.expression(i))?;
        let (i, rest) = cut(opt(i, self.process(i)))?;
        let rest = match rest {
            Some(rest) => rest,
            None => Process::noop(value.span().only_end()),
        };
        Ok((
            i,
            Process::Let {
                span: pre.span.join(value.span()),
                pattern,
                value: Box::new(value),
                then: Box::new(rest),
            },
        ))
    }

    /// `catch@l p => { process } process`
    pub(crate) fn proc_catch(&self, i: usize) -> (r: Parsed<Process>)
        requires
            self.ready(i),
        ensures
            self.parses(r, i, processes::proc_catch(self@, rules(self@, i as int), i as int)),
        decreases self@.len() - i, 0int,
    {
        reveal(processes::proc_catch);
        let (i, pre) = self.t(i, TokenKind::Catch)?;
        let (i, label) = cut(self.label(i))?;
        let (i, pattern) = cut(self.pattern(i))?;
        let (i, _) = cut(self.t(i, TokenKind::FatArrow))?;
        let (i, _) = cut(self.t(i, TokenKind::LCurly))?;
        let (i, block) = cut(self.process(i))?;
        let (i, _) = cut(self.t(i, TokenKind::RCurly))?;
        let (i, rest) = cut(self.process(i))?;
        Ok((
            i,
            Process::Catch {
                span: pre.span.join(block.span()),
                label,
                pattern,
                block: Box::new(block),
                then: Box::new(rest),
            },
        ))
    }

    /// `throw@l e`
    pub(crate) fn proc_throw(&self, i: usize) -> (r: Parsed<Process>)
        requires
            self.ready(i),
        ensures
            self.parses(r, i, processes::proc_throw(self@, rules(self@, i as int), i as int)),
        decreases self@.len() - i, 0int,
    {
        reveal(processes::proc_throw);
        let (i, pre) = self.t(i, TokenKind::Throw)?;
        let (i, label) = cut(self.label(i))?;
        let (i, value) = cut(self.expression(i))?;
        Ok((i, Process::Throw(pre.span.join(value.span()), label, Box::new(value))))
    }

    /// `telltypes process`
    pub(crate) fn proc_telltypes(&self, i: usize) -> (r: Parsed<Process>)
        requires
            self.ready(i),
        ensures
            self.parses(r, i, processes::proc_telltypes(self@, rules(self@, i as int), i as int)),
        decreases self@.len() - i, 0int,
    {
        reveal(processes::proc_telltypes);
        let (i, token) = self.t(i, TokenKind::Telltypes)?;
        let (i, rest) = cut(opt(i, self.process(i)))?;
        let rest = match rest {
            Some(rest) => rest,
            None => Process::noop(token.span.only_end()),
        };
        Ok((i, Process::Telltypes(token.span.clone(), Box::new(rest))))
    }

    /// A name and what is done with it.
    pub(crate) fn global_command(&self, i: usize) -> (r: Parsed<Process>)
        requires
            self.ready(i),
        ensures
            self.parses(r, i, processes::global_command(self@, rules(self@, i as int), i as int)),
        decreases self@.len() - i, 0int,
    {
        reveal(processes::global_command);
        let (i, name) = self.global_name(i)?;
        let (i, rest) = self.cmd(i)?;
        let rest = match rest {
            Some(rest) => rest,
            None => noop_cmd(name.span.only_end()),
        };
        Ok((i, Process::GlobalCommand(name, rest)))
    }

    /// A name and what is done with it.
    pub(crate) fn command(&self, i: usize) -> (r: Parsed<Process>)
        requires
            self.ready(i),
        ensures
            self.parses(r, i, processes::command(self@, rules(self@, i as int), i as int)),
        decreases self@.len() - i, 0int,
    {
        reveal(processes::command);
        let (i, name) = self.local_name(i)?;
        let (i, rest) = self.cmd(i)?;
        let rest = match rest {
            Some(rest) => rest,
            None => noop_cmd(name.span.only_end()),
        };
        Ok((i, Process::Command(name, rest)))
    }

    /// A process that takes over after the branches of a command.
    pub(crate) fn pass_process(&self, i: usize) -> (r: Parsed<Process>)
        requires
            self.ready(i),
        ensures
            self.parses(r, i, processes::pass_process(self@, rules(self@, i as int), i as int)),
        decreases self@.len() - i, 1int,
    {
        reveal(processes::pass_process);
        let r = self.proc_let(i);
        let r = if retry(&r) { or(r, self.proc_telltypes(i)) } else { r };
        let r = if retry(&r) { or(r, self.global_command(i)) } else { r };
        if retry(&r) { or(r, self.command(i)) } else { r }
    }
}

} // verus!
