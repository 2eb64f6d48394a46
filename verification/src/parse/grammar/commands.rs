//! The grammar of commands.
use super::super::error::StrContext;
use super::super::outcome::Outcome;
use super::processes::process;
use super::{Rules, branches_body, label, list1, local_name, open_type, t};
use crate::model::{
    Command, CommandBranch, Expression, LocalName, Pattern, Process, Span, Token, Type,
};
use crate::token::TokenKind;
use vstd::prelude::*;

verus! {

/// A command that starts with a step of its own.
#[verifier::opaque]
pub open spec fn cmd_step(ts: Seq<Token>, r: Rules, i: int) -> Outcome<Command> {
    cmd_link(ts, r, i)
        .or(cmd_signal(ts, r, i))
        .or(cmd_case(ts, r, i))
        .or(cmd_break(ts, i))
        .or(cmd_continue(ts, r, i))
        .or(cmd_begin(ts, r, i))
        .or(cmd_unfounded(ts, r, i))
        .or(cmd_loop(ts, i))
        .or(cmd_send_type(ts, r, i))
        .or(cmd_send(ts, r, i))
        .or(cmd_recv_type(ts, r, i))
        .or(cmd_receive(ts, r, i))
        .or(cmd_try(ts, r, i))
        .or(cmd_default(ts, r, i))
        .or(cmd_pipe(ts, r, i))
}

/// A command that does nothing.
pub open spec fn noop_cmd(span: Span) -> Command {
    Command::Then(Box::new(Process::Noop(span)))
}

/// A command, if there is one.
#[verifier::opaque]
pub open spec fn cmd(ts: Seq<Token>, r: Rules, i: int) -> Outcome<Option<Command>> {
    cmd_step(ts, r, i).map(|command: Command| Some(command))
        .or(cmd_then(ts, r, i))
        .context(ts.len(), StrContext::Label("command"))
}

/// The process that a command ends in, if it ends in one.
#[verifier::opaque]
pub open spec fn cmd_then(ts: Seq<Token>, r: Rules, i: int) -> Outcome<Option<Command>> {
    match t(ts, i, TokenKind::Semicolon) {
        Outcome::Done(j, _) => (r.process)(j).opt(j),
        Outcome::Failed { .. } => process(ts, r, i).opt(i),
    }.map(
        |process: Option<Process>|
            match process {
                Some(process) => Some(Command::Then(Box::new(process))),
                None => None,
            },
    )
}

/// `<> e`
#[verifier::opaque]
pub open spec fn cmd_link(ts: Seq<Token>, r: Rules, i: int) -> Outcome<Command> {
    t(ts, i, TokenKind::Link).and_then(
        |i: int, token: Token|
            (r.expression)(i).map(
                |value: Expression|
                    Command::Link(token.span.join(value.span()), Box::new(value)),
            ).cut(),
    )
}

/// What is sent, and what follows.
pub open spec fn send_step(span: Span) -> spec_fn(Expression, Command) -> Command {
    |x: Expression, rest: Command| Command::Send(span, x, Box::new(rest))
}

/// `(e, f) c`
#[verifier::opaque]
pub open spec fn cmd_send(ts: Seq<Token>, r: Rules, i: int) -> Outcome<Command> {
    t(ts, i, TokenKind::LParen).and_then(
        |i: int, open: Token|
            list1(ts, r.expression, i).and_then(
                |i: int, args: Seq<Expression>|
                    t(ts, i, TokenKind::RParen).and_then(
                        |i: int, close: Token|
                            (r.cmd)(i).map(
                                |rest: Option<Command>|
                                    {
                                        let rest = match rest {
                                            Some(rest) => rest,
                                            None => noop_cmd(close.span.only_end()),
                                        };
                                        let span = open.span.join(rest.span());
                                        args.fold_right(send_step(span), rest)
                                    },
                            ),
                    ),
            ).cut(),
    )
}

/// What is received, and what follows.
pub open spec fn receive_step(span: Span) -> spec_fn(Pattern, Command) -> Command {
    |x: Pattern, rest: Command| Command::Receive(span, x, Box::new(rest))
}

/// `[p, q] c`
#[verifier::opaque]
pub open spec fn cmd_receive(ts: Seq<Token>, r: Rules, i: int) -> Outcome<Command> {
    t(ts, i, TokenKind::LBrack).and_then(
        |i: int, open: Token|
            list1(ts, r.pattern, i).and_then(
                |i: int, args: Seq<Pattern>|
                    t(ts, i, TokenKind::RBrack).and_then(
                        |i: int, close: Token|
                            (r.cmd)(i).map(
                                |rest: Option<Command>|
                                    {
                                        let rest = match rest {
                                            Some(rest) => rest,
                                            None => noop_cmd(close.span.only_end()),
                                        };
                                        let span = open.span.join(rest.span());
                                        args.fold_right(receive_step(span), rest)
                                    },
                            ),
                    ),
            ).cut(),
    )
}

/// `.x c`
#[verifier::opaque]
pub open spec fn cmd_signal(ts: Seq<Token>, r: Rules, i: int) -> Outcome<Command> {
    t(ts, i, TokenKind::Dot).and_then(
        |i: int, pre: Token|
            local_name(ts, i).and_then(
                |i: int, name: LocalName|
                    (r.cmd)(i).map(
                        |rest: Option<Command>|
                            {
                                let rest = match rest {
                                    Some(rest) => rest,
                                    None => noop_cmd(name.span.only_end()),
                                };
                                Command::Signal(pre.span.join(rest.span()), name, Box::new(rest))
                            },
                    ),
            ),
    )
}

/// `.case { .x => { process } } process`
#[verifier::opaque]
pub open spec fn cmd_case(ts: Seq<Token>, r: Rules, i: int) -> Outcome<Command> {
    t(ts, i, TokenKind::Dot).and_then(
        |i: int, pre: Token|
            t(ts, i, TokenKind::Case).and_then(
                |i: int, kw: Token|
                    branches_body(ts, r.cmd_branch, i).and_then(
                        |i: int, body: (Span, Seq<(LocalName, CommandBranch)>)|
                            (r.pass_process)(i).opt(i).map(
                                |rest: Option<Process>|
                                    {
                                        let rest = match rest {
                                            Some(rest) => Some(Box::new(rest)),
                                            None => None,
                                        };
                                        Command::Case(pre.span.join(body.0), body.1, rest)
                                    },
                            ),
                    ).cut(),
            ),
    )
}

/// `!`
#[verifier::opaque]
pub open spec fn cmd_break(ts: Seq<Token>, i: int) -> Outcome<Command> {
    t(ts, i, TokenKind::Bang).map(|token: Token| Command::Break(token.span))
}

/// `? process`
#[verifier::opaque]
pub open spec fn cmd_continue(ts: Seq<Token>, r: Rules, i: int) -> Outcome<Command> {
    t(ts, i, TokenKind::Quest).and_then(
        |i: int, token: Token|
            (r.process)(i).opt(i).map(
                |rest: Option<Process>|
                    match rest {
                        Some(rest) => Command::Continue(
                            token.span.join(rest.span()),
                            Box::new(rest),
                        ),
                        None => Command::Continue(
                            token.span,
                            Box::new(Process::Noop(token.span.only_end())),
                        ),
                    },
            ),
    )
}

/// `.begin@l c`
#[verifier::opaque]
pub open spec fn cmd_begin(ts: Seq<Token>, r: Rules, i: int) -> Outcome<Command> {
    t(ts, i, TokenKind::Dot).and_then(
        |i: int, pre: Token|
            t(ts, i, TokenKind::Begin).and_then(
                |i: int, kw: Token|
                    label(ts, i).and_then(
                        |i: int, label: Option<LocalName>|
                            (r.cmd)(i).map(
                                |rest: Option<Command>|
                                    {
                                        let rest = match (label, rest) {
                                            (_, Some(rest)) => rest,
                                            (Some(label), None) => noop_cmd(label.span.only_end()),
                                            (None, None) => noop_cmd(pre.span.only_end()),
                                        };
                                        Command::Begin {
                                            span: pre.span.join(rest.span()),
                                            unfounded: false,
                                            label,
                                            then: Box::new(rest),
                                        }
                                    },
                            ),
                    ).cut(),
            ),
    )
}

/// `.unfounded@l c`
#[verifier::opaque]
pub open spec fn cmd_unfounded(ts: Seq<Token>, r: Rules, i: int) -> Outcome<Command> {
    t(ts, i, TokenKind::Dot).and_then(
        |i: int, pre: Token|
            t(ts, i, TokenKind::Unfounded).and_then(
                |i: int, kw: Token|
                    label(ts, i).and_then(
                        |i: int, label: Option<LocalName>|
                            (r.cmd)(i).map(
                                |rest: Option<Command>|
                                    {
                                        let rest = match (label, rest) {
                                            (_, Some(rest)) => rest,
                                            (Some(label), None) => noop_cmd(label.span.only_end()),
                                            (None, None) => noop_cmd(pre.span.only_end()),
                                        };
                                        Command::Begin {
                                            span: pre.span.join(rest.span()),
                                            unfounded: true,
                                            label,
                                            then: Box::new(rest),
                                        }
                                    },
                            ),
                    ).cut(),
            ),
    )
}

/// `.loop@l`
#[verifier::opaque]
pub open spec fn cmd_loop(ts: Seq<Token>, i: int) -> Outcome<Command> {
    t(ts, i, TokenKind::Dot).and_then(
        |i: int, pre: Token|
            t(ts, i, TokenKind::Loop).and_then(
                |i: int, kw: Token|
                    label(ts, i).map(
                        |label: Option<LocalName>|
                            {
                                let span = match label {
                                    Some(label) => pre.span.join(label.span),
                                    None => pre.span.join(kw.span),
                                };
                                Command::Loop(span, label)
                            },
                    ).cut(),
            ),
    )
}

/// A type that is sent, and what follows.
pub open spec fn send_type_step(span: Span) -> spec_fn(Type, Command) -> Command {
    |x: Type, rest: Command| Command::SendType(span, x, Box::new(rest))
}

/// `(type a, b) c`
#[verifier::opaque]
pub open spec fn cmd_send_type(ts: Seq<Token>, r: Rules, i: int) -> Outcome<Command> {
    open_type(ts, i, TokenKind::LParen, "(type").and_then(
        |i: int, open: Token|
            list1(ts, r.typ, i).and_then(
                |i: int, args: Seq<Type>|
                    t(ts, i, TokenKind::RParen).and_then(
                        |i: int, close: Token|
                            (r.cmd)(i).map(
                                |rest: Option<Command>|
                                    {
                                        let rest = match rest {
                                            Some(rest) => rest,
                                            None => noop_cmd(close.span.only_end()),
                                        };
                                        let span = open.span.join(rest.span());
                                        args.fold_right(send_type_step(span), rest)
                                    },
                            ),
                    ),
            ).cut(),
    )
}

/// The name of a type that is received, and what follows.
pub open spec fn receive_type_step(span: Span) -> spec_fn(LocalName, Command) -> Command {
    |x: LocalName, rest: Command| Command::ReceiveType(span, x, Box::new(rest))
}

/// `[type a, b] c`
#[verifier::opaque]
pub open spec fn cmd_recv_type(ts: Seq<Token>, r: Rules, i: int) -> Outcome<Command> {
    open_type(ts, i, TokenKind::LBrack, "[type").and_then(
        |i: int, open: Token|
            list1(ts, |i: int| local_name(ts, i), i).and_then(
                |i: int, args: Seq<LocalName>|
                    t(ts, i, TokenKind::RBrack).and_then(
                        |i: int, close: Token|
                            (r.cmd)(i).map(
                                |rest: Option<Command>|
                                    {
                                        let rest = match rest {
                                            Some(rest) => rest,
                                            None => noop_cmd(close.span.only_end()),
                                        };
                                        let span = open.span.join(rest.span());
                                        args.fold_right(receive_type_step(span), rest)
                                    },
                            ),
                    ),
            ).cut(),
    )
}

/// `.try@l c`
#[verifier::opaque]
pub open spec fn cmd_try(ts: Seq<Token>, r: Rules, i: int) -> Outcome<Command> {
    t(ts, i, TokenKind::Dot).and_then(
        |i: int, dot: Token|
            t(ts, i, TokenKind::Try).and_then(
                |i: int, kw: Token|
                    label(ts, i).and_then(
                        |i: int, label: Option<LocalName>|
                            (r.cmd)(i).map(
                                |rest: Option<Command>|
                                    {
                                        let rest = match rest {
                                            Some(rest) => rest,
                                            None => noop_cmd(kw.span.only_end()),
                                        };
                                        Command::Try(kw.span, label, Box::new(rest))
                                    },
                            ),
                    ),
            ),
    )
}

/// `.default(e) c`
#[verifier::opaque]
pub open spec fn cmd_default(ts: Seq<Token>, r: Rules, i: int) -> Outcome<Command> {
    t(ts, i, TokenKind::Dot).and_then(
        |i: int, dot: Token|
            t(ts, i, TokenKind::Default).and_then(
                |i: int, kw: Token|
                    t(ts, i, TokenKind::LParen).and_then(
                        |i: int, open: Token|
                            (r.expression)(i).and_then(
                                |i: int, value: Expression|
                                    t(ts, i, TokenKind::RParen).and_then(
                                        |i: int, close: Token|
                                            (r.cmd)(i).map(
                                                |rest: Option<Command>|
                                                    {
                                                        let rest = match rest {
                                                            Some(rest) => rest,
                                                            None => noop_cmd(close.span.only_end()),
                                                        };
                                                        Command::Default(
                                                            kw.span.join(rest.span()),
                                                            Box::new(value),
                                                            Box::new(rest),
                                                        )
                                                    },
                                            ),
                                    ),
                            ),
                    ),
            ),
    )
}

/// `->f c`
#[verifier::opaque]
pub open spec fn cmd_pipe(ts: Seq<Token>, r: Rules, i: int) -> Outcome<Command> {
    t(ts, i, TokenKind::ThinArrow).and_then(
        |i: int, pre: Token|
            (r.operand)(i).and_then(
                |i: int, function: Expression|
                    (r.cmd)(i).map(
                        |rest: Option<Command>|
                            {
                                let rest = match rest {
                                    Some(rest) => rest,
                                    None => noop_cmd(function.span().only_end()),
                                };
                                Command::Pipe(
                                    pre.span.join(function.span()),
                                    Box::new(function),
                                    Box::new(rest),
                                )
                            },
                    ),
            ).cut(),
    )
}

/// What stands after a signal in `.case`.
#[verifier::opaque]
pub open spec fn cmd_branch(ts: Seq<Token>, r: Rules, i: int) -> Outcome<CommandBranch> {
    cmd_branch_then(ts, r, i)
        .or(cmd_branch_bind_then(ts, r, i))
        .or(cmd_branch_continue(ts, r, i))
        .or(cmd_branch_recv_type(ts, r, i))
        .or(cmd_branch_receive(ts, r, i))
        .or(cmd_branch_try(ts, r, i))
        .or(cmd_branch_default(ts, r, i))
}

/// `=> { process }`
#[verifier::opaque]
pub open spec fn cmd_branch_then(ts: Seq<Token>, r: Rules, i: int) -> Outcome<CommandBranch> {
    t(ts, i, TokenKind::FatArrow).and_then(
        |i: int, pre: Token|
            t(ts, i, TokenKind::LCurly).and_then(
                |i: int, open: Token|
                    (r.process)(i).opt(i).and_then(
                        |i: int, process: Option<Process>|
                            t(ts, i, TokenKind::RCurly).map(
                                |close: Token|
                                    {
                                        let process = match process {
                                            Some(process) => process,
                                            None => Process::Noop(open.span.only_end()),
                                        };
                                        CommandBranch::Then(pre.span.join(close.span), process)
                                    },
                            ),
                    ),
            ).cut(),
    )
}

/// `x => { process }`
#[verifier::opaque]
pub open spec fn cmd_branch_bind_then(ts: Seq<Token>, r: Rules, i: int) -> Outcome<CommandBranch> {
    local_name(ts, i).and_then(
        |i: int, name: LocalName|
            t(ts, i, TokenKind::FatArrow).and_then(
                |i: int, pre: Token|
                    t(ts, i, TokenKind::LCurly).and_then(
                        |i: int, open: Token|
                            (r.process)(i).opt(i).and_then(
                                |i: int, process: Option<Process>|
                                    t(ts, i, TokenKind::RCurly).map(
                                        |close: Token|
                                            {
                                                let process = match process {
                                                    Some(process) => process,
                                                    None => Process::Noop(open.span.only_end()),
                                                };
                                                CommandBranch::BindThen(
                                                    pre.span.join(close.span),
                                                    name,
                                                    process,
                                                )
                                            },
                                    ),
                            ),
                    ),
            ).cut(),
    )
}

/// What a branch receives, and what follows.
pub open spec fn branch_receive_step(
    span: Span,
) -> spec_fn(Pattern, CommandBranch) -> CommandBranch {
    |x: Pattern, rest: CommandBranch| CommandBranch::Receive(span, x, Box::new(rest))
}

/// `(p, q) b`
#[verifier::opaque]
pub open spec fn cmd_branch_receive(ts: Seq<Token>, r: Rules, i: int) -> Outcome<CommandBranch> {
    t(ts, i, TokenKind::LParen).and_then(
        |i: int, open: Token|
            list1(ts, r.pattern, i).and_then(
                |i: int, args: Seq<Pattern>|
                    t(ts, i, TokenKind::RParen).and_then(
                        |i: int, close: Token|
                            (r.cmd_branch)(i).map(
                                |rest: CommandBranch|
                                    {
                                        let span = open.span.join(rest.span());
                                        args.fold_right(branch_receive_step(span), rest)
                                    },
                            ),
                    ),
            ).cut(),
    )
}

/// `! => { process }`
#[verifier::opaque]
pub open spec fn cmd_branch_continue(ts: Seq<Token>, r: Rules, i: int) -> Outcome<CommandBranch> {
    t(ts, i, TokenKind::Bang).and_then(
        |i: int, token: Token|
            t(ts, i, TokenKind::FatArrow).and_then(
                |i: int, arrow: Token|
                    t(ts, i, TokenKind::LCurly).and_then(
                        |i: int, open: Token|
                            (r.process)(i).opt(i).and_then(
                                |i: int, process: Option<Process>|
                                    t(ts, i, TokenKind::RCurly).map(
                                        |close: Token|
                                            {
                                                let process = match process {
                                                    Some(process) => process,
                                                    None => Process::Noop(open.span.only_end()),
                                                };
                                                CommandBranch::Continue(
                                                    token.span.join(close.span),
                                                    process,
                                                )
                                            },
                                    ),
                            ),
                    ),
            ).cut(),
    )
}

/// The name of a type that a branch receives, and what follows.
pub open spec fn branch_receive_type_step(
    span: Span,
) -> spec_fn(LocalName, CommandBranch) -> CommandBranch {
    |x: LocalName, rest: CommandBranch| CommandBranch::ReceiveType(span, x, Box::new(rest))
}

/// `(type a, b) c`
#[verifier::opaque]
pub open spec fn cmd_branch_recv_type(ts: Seq<Token>, r: Rules, i: int) -> Outcome<CommandBranch> {
    open_type(ts, i, TokenKind::LParen, "(type").and_then(
        |i: int, open: Token|
            list1(ts, |i: int| local_name(ts, i), i).and_then(
                |i: int, args: Seq<LocalName>|
                    t(ts, i, TokenKind::RParen).and_then(
                        |i: int, close: Token|
                            (r.cmd_branch)(i).map(
                                |rest: CommandBranch|
                                    {
                                        let span = open.span.join(rest.span());
                                        args.fold_right(branch_receive_type_step(span), rest)
                                    },
                            ),
                    ),
            ).cut(),
    )
}

/// `try@l b`
#[verifier::opaque]
pub open spec fn cmd_branch_try(ts: Seq<Token>, r: Rules, i: int) -> Outcome<CommandBranch> {
    t(ts, i, TokenKind::Try).and_then(
        |i: int, kw: Token|
            label(ts, i).and_then(
                |i: int, label: Option<LocalName>|
                    (r.cmd_branch)(i).map(
                        |rest: CommandBranch|
                            CommandBranch::Try(kw.span.join(rest.span()), label, Box::new(rest)),
                    ),
            ).cut(),
    )
}

/// `default(e) b`
#[verifier::opaque]
pub open spec fn cmd_branch_default(ts: Seq<Token>, r: Rules, i: int) -> Outcome<CommandBranch> {
    t(ts, i, TokenKind::Default).and_then(
        |i: int, kw: Token|
            t(ts, i, TokenKind::LParen).and_then(
                |i: int, open: Token|
                    (r.expression)(i).and_then(
                        |i: int, value: Expression|
                            t(ts, i, TokenKind::RParen).and_then(
                                |i: int, close: Token|
                                    (r.cmd_branch)(i).map(
                                        |rest: CommandBranch|
                                            CommandBranch::Default(
                                                kw.span.join(rest.span()),
                                                Box::new(value),
                                                Box::new(rest),
                                            ),
                                    ),
                            ),
                    ).cut(),
            ),
    )
}

} // verus!
