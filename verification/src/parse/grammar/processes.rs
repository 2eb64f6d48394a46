//! The grammar of processes.
use super::super::error::StrContext;
use super::super::outcome::Outcome;
use super::commands::noop_cmd;
use super::{Rules, global_name, label, local_name, t};
use crate::model::{Command, Expression, GlobalName, LocalName, Pattern, Process, Token};
use crate::token::TokenKind;
use vstd::prelude::*;

verus! {

/// A process.
#[verifier::opaque]
pub open spec fn process(ts: Seq<Token>, r: Rules, i: int) -> Outcome<Process> {
    proc_let(ts, r, i)
        .or(proc_catch(ts, r, i))
        .or(proc_throw(ts, r, i))
        .or(proc_telltypes(ts, r, i))
        .or(global_command(ts, r, i))
        .or(command(ts, r, i))
        .context(ts.len(), StrContext::Label("process"))
}

/// `let p = e process`
#[verifier::opaque]
pub open spec fn proc_let(ts: Seq<Token>, r: Rules, i: int) -> Outcome<Process> {
    t(ts, i, TokenKind::Let).and_then(
        |i: int, pre: Token|
            (r.pattern)(i).and_then(
                |i: int, pattern: Pattern|
                    t(ts, i, TokenKind::Eq).and_then(
                        |i: int, eq: Token|
                            (r.expression)(i).and_then(
                                |i: int, value: Expression|
                                    (r.process)(i).opt(i).map(
                                        |rest: Option<Process>|
                                            {
                                                let rest = match rest {
                                                    Some(rest) => rest,
                                                    None => Process::Noop(value.span().only_end()),
                                                };
                                                Process::Let {
                                                    span: pre.span.join(value.span()),
                                                    pattern,
                                                    value: Box::new(value),
                                                    then: Box::new(rest),
                                                }
                                            },
                                    ),
                            ),
                    ),
            ).cut(),
    )
}

/// `catch@l p => { process } process`
#[verifier::opaque]
pub open spec fn proc_catch(ts: Seq<Token>, r: Rules, i: int) -> Outcome<Process> {
    t(ts, i, TokenKind::Catch).and_then(
        |i: int, pre: Token|
            label(ts, i).and_then(
                |i: int, label: Option<LocalName>|
                    (r.pattern)(i).and_then(
                        |i: int, pattern: Pattern|
                            t(ts, i, TokenKind::FatArrow).and_then(
                                |i: int, arrow: Token|
                                    t(ts, i, TokenKind::LCurly).and_then(
                                        |i: int, open: Token|
                                            (r.process)(i).and_then(
                                                |i: int, block: Process|
                                                    t(ts, i, TokenKind::RCurly).and_then(
                                                        |i: int, close: Token|
                                                            (r.process)(i).map(
                                                                |rest: Process|
                                                                    Process::Catch {
                                                                        span: pre.span.join(
                                                                            block.span(),
                                                                        ),
                                                                        label,
                                                                        pattern,
                                                                        block: Box::new(block),
                                                                        then: Box::new(rest),
                                                                    },
                                                            ),
                                                    ),
                                            ),
                                    ),
                            ),
                    ),
            ).cut(),
    )
}

/// `throw@l e`
#[verifier::opaque]
pub open spec fn proc_throw(ts: Seq<Token>, r: Rules, i: int) -> Outcome<Process> {
    t(ts, i, TokenKind::Throw).and_then(
        |i: int, pre: Token|
            label(ts, i).and_then(
                |i: int, label: Option<LocalName>|
                    (r.expression)(i).map(
                        |value: Expression|
                            Process::Throw(pre.span.join(value.span()), label, Box::new(value)),
                    ),
            ).cut(),
    )
}

/// `telltypes process`
#[verifier::opaque]
pub open spec fn proc_telltypes(ts: Seq<Token>, r: Rules, i: int) -> Outcome<Process> {
    t(ts, i, TokenKind::Telltypes).and_then(
        |i: int, token: Token|
            (r.process)(i).opt(i).map(
                |rest: Option<Process>|
                    {
                        let rest = match rest {
                            Some(rest) => rest,
                            None => Process::Noop(token.span.only_end()),
                        };
                        Process::Telltypes(token.span, Box::new(rest))
                    },
            ).cut(),
    )
}

/// A name and what is done with it.
#[verifier::opaque]
pub open spec fn global_command(ts: Seq<Token>, r: Rules, i: int) -> Outcome<Process> {
    global_name(ts, i).and_then(
        |i: int, name: GlobalName|
            (r.cmd)(i).map(
                |rest: Option<Command>|
                    {
                        let rest = match rest {
                            Some(rest) => rest,
                            None => noop_cmd(name.span.only_end()),
                        };
                        Process::GlobalCommand(name, rest)
                    },
            ),
    )
}

/// A name and what is done with it.
#[verifier::opaque]
pub open spec fn command(ts: Seq<Token>, r: Rules, i: int) -> Outcome<Process> {
    local_name(ts, i).and_then(
        |i: int, name: LocalName|
            (r.cmd)(i).map(
                |rest: Option<Command>|
                    {
                        let rest = match rest {
                            Some(rest) => rest,
                            None => noop_cmd(name.span.only_end()),
                        };
                        Process::Command(name, rest)
                    },
            ),
    )
}

/// A process that takes over after the branches of a command.
#[verifier::opaque]
pub open spec fn pass_process(ts: Seq<Token>, r: Rules, i: int) -> Outcome<Process> {
    proc_let(ts, r, i)
        .or(proc_telltypes(ts, r, i))
        .or(global_command(ts, r, i))
        .or(command(ts, r, i))
}

} // verus!
