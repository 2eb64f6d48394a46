//! What texts come to: for each form of the language, what its parts are and what is made of
//! them. A part is said to stand from a place to another one if it is what is found there.
pub mod applications;
pub mod commands;
pub mod commits;
pub mod constructions;
pub mod errors;
pub mod expressions;
pub mod items;
pub mod misses;
pub mod parts;
pub mod patterns;
pub mod processes;
pub mod spans;
pub mod texts;
pub mod types;
pub mod views;

use super::error::{StrContext, StrContextValue};
use super::frame::{all_carry, frame_at};
use super::frame::applications::{carry_apply, carry_apply_branch};
use super::frame::commands::{carry_cmd, carry_cmd_branch};
use super::frame::constructions::{carry_cons_branch, carry_construction};
use super::frame::expressions::{carry_expression, carry_operand};
use super::frame::patterns::carry_pattern;
use super::frame::processes::{carry_pass_process, carry_process};
use super::frame::types::{carry_typ, carry_typ_branch};
use super::grammar::applications::{apply, apply_branch};
use super::grammar::commands::{cmd, cmd_branch};
use super::grammar::constructions::{cons_branch, construction};
use super::grammar::expressions::{expression, operand};
use super::grammar::patterns::pattern;
use super::grammar::processes::{pass_process, process};
use super::grammar::rules;
use super::grammar::types::{typ, typ_branch};
use super::outcome::Outcome;
use crate::branches::inserted;
use crate::model::{
    Apply, ApplyBranch, Command, CommandBranch, Construct, ConstructBranch, Expression, GlobalName,
    LocalName, Pattern, Process, Span, Token, Type,
};
use crate::token::TokenKind;
use vstd::prelude::*;

verus! {

/// Whether a token of the kind `kind` stands at `i`.
pub open spec fn token_at(ts: Seq<Token>, i: int, kind: TokenKind) -> bool {
    0 <= i < ts.len() && ts[i].kind == kind
}

/// Whether the name `name`, in lower case, stands at `i`.
pub open spec fn local_name_at(ts: Seq<Token>, i: int, name: LocalName) -> bool {
    &&& token_at(ts, i, TokenKind::LowercaseIdentifier)
    &&& name.span == ts[i].span
    &&& name.string == ts[i].raw
}

/// Whether the name `name`, in upper case, stands from `i` to `j`: a word, with the module that
/// it is of before it if a dot and another such word follow it.
pub open spec fn global_name_at(ts: Seq<Token>, i: int, j: int, name: GlobalName) -> bool {
    &&& token_at(ts, i, TokenKind::UppercaseIdentifier)
    &&& if token_at(ts, i + 1, TokenKind::Dot) && token_at(
        ts,
        i + 2,
        TokenKind::UppercaseIdentifier,
    ) {
        &&& j == i + 3
        &&& name.span == ts[i].span.join(ts[i + 2].span)
        &&& name.module == Some(ts[i].raw)
        &&& name.primary == ts[i + 2].raw
    } else {
        &&& j == i + 1
        &&& name.span == ts[i].span
        &&& name.module is None
        &&& name.primary == ts[i].raw
    }
}

/// Whether the label `label` stands from `i` to `j`: a name after an `@`, or nothing.
pub open spec fn label_at(ts: Seq<Token>, i: int, j: int, label: Option<LocalName>) -> bool {
    match label {
        Some(name) => {
            &&& token_at(ts, i, TokenKind::At)
            &&& local_name_at(ts, i + 1, name)
            &&& j == i + 2
        },
        None => {
            &&& !(token_at(ts, i, TokenKind::At) && token_at(
                ts,
                i + 1,
                TokenKind::LowercaseIdentifier,
            ))
            &&& 0 <= i <= ts.len()
            &&& j == i
        },
    }
}

/// Whether a parse fails and leaves room for other alternatives.
pub open spec fn fails_openly<T>(outcome: Outcome<T>) -> bool {
    outcome matches Outcome::Failed { cut: false, .. }
}

/// Whether a parse fails for good at `at`.
pub open spec fn fails_at<T>(outcome: Outcome<T>, at: int) -> bool {
    outcome matches Outcome::Failed { cut: true, at: place, .. } && place == at
}

/// Whether a parse fails for good at `at`, where a token of the kind `kind` was expected first of
/// all.
pub open spec fn lacks<T>(ts: Seq<Token>, outcome: Outcome<T>, at: int, kind: TokenKind) -> bool {
    &&& fails_at(outcome, at)
    &&& outcome matches Outcome::Failed { error, .. } && error.len() > 0 && error.last().0
        == ts.len() - at && error.last().1.len() > 0 && error.last().1[0] == StrContext::Expected(
        StrContextValue::StringLiteral(kind.expected()),
    )
}

/// Whether a parse fails for good where the parse of a part of it fails, if that does.
pub open spec fn fails_like<T, U>(whole: Outcome<T>, part: Outcome<U>) -> bool {
    part matches Outcome::Failed { at, .. } ==> fails_at(whole, at)
}

/// Whether the items `xs`, each after a comma, stand from `i` to `j`, with or without a comma
/// at the end.
pub open spec fn items_at<T>(
    ts: Seq<Token>,
    item: spec_fn(int) -> Outcome<T>,
    i: int,
    j: int,
    xs: Seq<T>,
) -> bool
    decreases xs.len(),
{
    if xs.len() == 0 {
        if token_at(ts, i, TokenKind::Comma) {
            j == i + 1 && fails_openly(item(i + 1))
        } else {
            j == i
        }
    } else {
        &&& token_at(ts, i, TokenKind::Comma)
        &&& match item(i + 1) {
            Outcome::Done(k, x) => x == xs[0] && items_at(ts, item, k, j, xs.drop_first()),
            Outcome::Failed { .. } => false,
        }
    }
}

/// Whether the items `xs`, one or more, stand from `i` to `j` with commas between them.
pub open spec fn list_at<T>(
    ts: Seq<Token>,
    item: spec_fn(int) -> Outcome<T>,
    i: int,
    j: int,
    xs: Seq<T>,
) -> bool {
    match item(i) {
        Outcome::Done(k, x) => {
            &&& xs.len() > 0
            &&& x == xs[0]
            &&& items_at(ts, item, k, j, xs.drop_first())
        },
        Outcome::Failed { .. } => false,
    }
}

/// Whether the branches `rows`, each after a dot and its name, stand from `i` to `j`.
pub open spec fn rows_at<T>(
    ts: Seq<Token>,
    branch: spec_fn(int) -> Outcome<T>,
    i: int,
    j: int,
    rows: Seq<(LocalName, T)>,
) -> bool
    decreases rows.len(),
{
    if rows.len() == 0 {
        &&& !(token_at(ts, i, TokenKind::Dot) && token_at(
            ts,
            i + 1,
            TokenKind::LowercaseIdentifier,
        ))
        &&& j == i
    } else {
        &&& token_at(ts, i, TokenKind::Dot)
        &&& local_name_at(ts, i + 1, rows[0].0)
        &&& match branch(i + 2) {
            Outcome::Done(k, value) => {
                let next = if token_at(ts, k, TokenKind::Comma) {
                    k + 1
                } else {
                    k
                };
                value == rows[0].1 && rows_at(ts, branch, next, j, rows.drop_first())
            },
            Outcome::Failed { .. } => false,
        }
    }
}

/// Whether the branches `rows` stand from `i` to `j`, in braces.
pub open spec fn body_at<T>(
    ts: Seq<Token>,
    branch: spec_fn(int) -> Outcome<T>,
    i: int,
    j: int,
    rows: Seq<(LocalName, T)>,
) -> bool {
    &&& token_at(ts, i, TokenKind::LCurly)
    &&& rows_at(ts, branch, i + 1, j - 1, rows)
    &&& token_at(ts, j - 1, TokenKind::RCurly)
}

/// The entries `before` with the rows put among them, one after the other.
pub open spec fn collected<T>(
    before: Seq<(LocalName, T)>,
    rows: Seq<(LocalName, T)>,
) -> Seq<(LocalName, T)>
    decreases rows.len(),
{
    if rows.len() == 0 {
        before
    } else {
        collected(inserted(before, rows[0].0, rows[0].1), rows.drop_first())
    }
}

/// Whether `x`, the type stands from `i` to `j`.
pub open spec fn typ_at(ts: Seq<Token>, i: int, j: int, x: Type) -> bool {
    0 <= i <= ts.len() && typ(ts, rules(ts, i), i) == Outcome::Done(j, x)
}

/// The production of `typ` at each place.
pub open spec fn typ_rule(ts: Seq<Token>) -> spec_fn(int) -> Outcome<Type> {
    |i: int| typ(ts, rules(ts, i), i)
}

/// What is found takes at least a token.
pub(crate) proof fn ahead_typ(ts: Seq<Token>, i: int, j: int, x: Type)
    requires
        typ_at(ts, i, j, x),
    ensures
        i < j <= ts.len(),
{
    all_carry(ts, ts, 0, i);
    carry_typ(frame_at(ts, ts, 0, i), i);
}

/// Whether `x`, the branch of a choice stands from `i` to `j`.
pub open spec fn typ_branch_at(ts: Seq<Token>, i: int, j: int, x: Type) -> bool {
    0 <= i <= ts.len() && typ_branch(ts, rules(ts, i), i) == Outcome::Done(j, x)
}

/// The production of `typ_branch` at each place.
pub open spec fn typ_branch_rule(ts: Seq<Token>) -> spec_fn(int) -> Outcome<Type> {
    |i: int| typ_branch(ts, rules(ts, i), i)
}

/// What is found takes at least a token.
pub(crate) proof fn ahead_typ_branch(ts: Seq<Token>, i: int, j: int, x: Type)
    requires
        typ_branch_at(ts, i, j, x),
    ensures
        i < j <= ts.len(),
{
    all_carry(ts, ts, 0, i);
    carry_typ_branch(frame_at(ts, ts, 0, i), i);
}

/// Whether `x`, the pattern stands from `i` to `j`.
pub open spec fn pattern_at(ts: Seq<Token>, i: int, j: int, x: Pattern) -> bool {
    0 <= i <= ts.len() && pattern(ts, rules(ts, i), i) == Outcome::Done(j, x)
}

/// The production of `pattern` at each place.
pub open spec fn pattern_rule(ts: Seq<Token>) -> spec_fn(int) -> Outcome<Pattern> {
    |i: int| pattern(ts, rules(ts, i), i)
}

/// What is found takes at least a token.
pub(crate) proof fn ahead_pattern(ts: Seq<Token>, i: int, j: int, x: Pattern)
    requires
        pattern_at(ts, i, j, x),
    ensures
        i < j <= ts.len(),
{
    all_carry(ts, ts, 0, i);
    carry_pattern(frame_at(ts, ts, 0, i), i);
}

/// Whether `x`, the expression stands from `i` to `j`.
pub open spec fn expression_at(ts: Seq<Token>, i: int, j: int, x: Expression) -> bool {
    0 <= i <= ts.len() && expression(ts, rules(ts, i), i) == Outcome::Done(j, x)
}

/// The production of `expression` at each place.
pub open spec fn expression_rule(ts: Seq<Token>) -> spec_fn(int) -> Outcome<Expression> {
    |i: int| expression(ts, rules(ts, i), i)
}

/// What is found takes at least a token.
pub(crate) proof fn ahead_expression(ts: Seq<Token>, i: int, j: int, x: Expression)
    requires
        expression_at(ts, i, j, x),
    ensures
        i < j <= ts.len(),
{
    all_carry(ts, ts, 0, i);
    carry_expression(frame_at(ts, ts, 0, i), i);
}

/// Whether `x`, the operand stands from `i` to `j`.
pub open spec fn operand_at(ts: Seq<Token>, i: int, j: int, x: Expression) -> bool {
    0 <= i <= ts.len() && operand(ts, rules(ts, i), i) == Outcome::Done(j, x)
}

/// The production of `operand` at each place.
pub open spec fn operand_rule(ts: Seq<Token>) -> spec_fn(int) -> Outcome<Expression> {
    |i: int| operand(ts, rules(ts, i), i)
}

/// What is found takes at least a token.
pub(crate) proof fn ahead_operand(ts: Seq<Token>, i: int, j: int, x: Expression)
    requires
        operand_at(ts, i, j, x),
    ensures
        i < j <= ts.len(),
{
    all_carry(ts, ts, 0, i);
    carry_operand(frame_at(ts, ts, 0, i), i);
}

/// Whether `x`, the construction stands from `i` to `j`.
pub open spec fn construction_at(ts: Seq<Token>, i: int, j: int, x: Construct) -> bool {
    0 <= i <= ts.len() && construction(ts, rules(ts, i), i) == Outcome::Done(j, x)
}

/// The production of `construction` at each place.
pub open spec fn construction_rule(ts: Seq<Token>) -> spec_fn(int) -> Outcome<Construct> {
    |i: int| construction(ts, rules(ts, i), i)
}

/// What is found takes at least a token.
pub(crate) proof fn ahead_construction(ts: Seq<Token>, i: int, j: int, x: Construct)
    requires
        construction_at(ts, i, j, x),
    ensures
        i < j <= ts.len(),
{
    all_carry(ts, ts, 0, i);
    carry_construction(frame_at(ts, ts, 0, i), i);
}

/// Whether `x`, the branch of a construction stands from `i` to `j`.
pub open spec fn cons_branch_at(ts: Seq<Token>, i: int, j: int, x: ConstructBranch) -> bool {
    0 <= i <= ts.len() && cons_branch(ts, rules(ts, i), i) == Outcome::Done(j, x)
}

/// The production of `cons_branch` at each place.
pub open spec fn cons_branch_rule(ts: Seq<Token>) -> spec_fn(int) -> Outcome<ConstructBranch> {
    |i: int| cons_branch(ts, rules(ts, i), i)
}

/// What is found takes at least a token.
pub(crate) proof fn ahead_cons_branch(ts: Seq<Token>, i: int, j: int, x: ConstructBranch)
    requires
        cons_branch_at(ts, i, j, x),
    ensures
        i < j <= ts.len(),
{
    all_carry(ts, ts, 0, i);
    carry_cons_branch(frame_at(ts, ts, 0, i), i);
}

/// Whether `x`, what is applied to an operand, or nothing, stands from `i` to `j`.
pub open spec fn apply_at(ts: Seq<Token>, i: int, j: int, x: Option<Apply>) -> bool {
    0 <= i <= ts.len() && apply(ts, rules(ts, i), i) == Outcome::Done(j, x)
}

/// The production of `apply` at each place.
pub open spec fn apply_rule(ts: Seq<Token>) -> spec_fn(int) -> Outcome<Option<Apply>> {
    |i: int| apply(ts, rules(ts, i), i)
}

/// What is found ends no earlier than it starts.
pub(crate) proof fn ahead_apply(ts: Seq<Token>, i: int, j: int, x: Option<Apply>)
    requires
        apply_at(ts, i, j, x),
    ensures
        i <= j <= ts.len(),
{
    all_carry(ts, ts, 0, i);
    carry_apply(frame_at(ts, ts, 0, i), i);
}

/// Whether `x`, the branch of an application stands from `i` to `j`.
pub open spec fn apply_branch_at(ts: Seq<Token>, i: int, j: int, x: ApplyBranch) -> bool {
    0 <= i <= ts.len() && apply_branch(ts, rules(ts, i), i) == Outcome::Done(j, x)
}

/// The production of `apply_branch` at each place.
pub open spec fn apply_branch_rule(ts: Seq<Token>) -> spec_fn(int) -> Outcome<ApplyBranch> {
    |i: int| apply_branch(ts, rules(ts, i), i)
}

/// What is found takes at least a token.
pub(crate) proof fn ahead_apply_branch(ts: Seq<Token>, i: int, j: int, x: ApplyBranch)
    requires
        apply_branch_at(ts, i, j, x),
    ensures
        i < j <= ts.len(),
{
    all_carry(ts, ts, 0, i);
    carry_apply_branch(frame_at(ts, ts, 0, i), i);
}

/// Whether `x`, the process stands from `i` to `j`.
pub open spec fn process_at(ts: Seq<Token>, i: int, j: int, x: Process) -> bool {
    0 <= i <= ts.len() && process(ts, rules(ts, i), i) == Outcome::Done(j, x)
}

/// The production of `process` at each place.
pub open spec fn process_rule(ts: Seq<Token>) -> spec_fn(int) -> Outcome<Process> {
    |i: int| process(ts, rules(ts, i), i)
}

/// What is found takes at least a token.
pub(crate) proof fn ahead_process(ts: Seq<Token>, i: int, j: int, x: Process)
    requires
        process_at(ts, i, j, x),
    ensures
        i < j <= ts.len(),
{
    all_carry(ts, ts, 0, i);
    carry_process(frame_at(ts, ts, 0, i), i);
}

/// Whether `x`, the process that takes over after branches stands from `i` to `j`.
pub open spec fn pass_process_at(ts: Seq<Token>, i: int, j: int, x: Process) -> bool {
    0 <= i <= ts.len() && pass_process(ts, rules(ts, i), i) == Outcome::Done(j, x)
}

/// The production of `pass_process` at each place.
pub open spec fn pass_process_rule(ts: Seq<Token>) -> spec_fn(int) -> Outcome<Process> {
    |i: int| pass_process(ts, rules(ts, i), i)
}

/// What is found takes at least a token.
pub(crate) proof fn ahead_pass_process(ts: Seq<Token>, i: int, j: int, x: Process)
    requires
        pass_process_at(ts, i, j, x),
    ensures
        i < j <= ts.len(),
{
    all_carry(ts, ts, 0, i);
    carry_pass_process(frame_at(ts, ts, 0, i), i);
}

/// Whether `x`, the command, or nothing, stands from `i` to `j`.
pub open spec fn cmd_at(ts: Seq<Token>, i: int, j: int, x: Option<Command>) -> bool {
    0 <= i <= ts.len() && cmd(ts, rules(ts, i), i) == Outcome::Done(j, x)
}

/// The production of `cmd` at each place.
pub open spec fn cmd_rule(ts: Seq<Token>) -> spec_fn(int) -> Outcome<Option<Command>> {
    |i: int| cmd(ts, rules(ts, i), i)
}

/// What is found ends no earlier than it starts.
pub(crate) proof fn ahead_cmd(ts: Seq<Token>, i: int, j: int, x: Option<Command>)
    requires
        cmd_at(ts, i, j, x),
    ensures
        i <= j <= ts.len(),
{
    all_carry(ts, ts, 0, i);
    carry_cmd(frame_at(ts, ts, 0, i), i);
}

/// Whether `x`, the branch of a command stands from `i` to `j`.
pub open spec fn cmd_branch_at(ts: Seq<Token>, i: int, j: int, x: CommandBranch) -> bool {
    0 <= i <= ts.len() && cmd_branch(ts, rules(ts, i), i) == Outcome::Done(j, x)
}

/// The production of `cmd_branch` at each place.
pub open spec fn cmd_branch_rule(ts: Seq<Token>) -> spec_fn(int) -> Outcome<CommandBranch> {
    |i: int| cmd_branch(ts, rules(ts, i), i)
}

/// What is found takes at least a token.
pub(crate) proof fn ahead_cmd_branch(ts: Seq<Token>, i: int, j: int, x: CommandBranch)
    requires
        cmd_branch_at(ts, i, j, x),
    ensures
        i < j <= ts.len(),
{
    all_carry(ts, ts, 0, i);
    carry_cmd_branch(frame_at(ts, ts, 0, i), i);
}

/// Whether the process `x`, or nothing if there is none, stands from `i` to `j`.
pub open spec fn opt_process_at(ts: Seq<Token>, i: int, j: int, x: Option<Process>) -> bool {
    match x {
        Some(x) => process_at(ts, i, j, x),
        None => {
            &&& 0 <= i <= ts.len()
            &&& fails_openly(process(ts, rules(ts, i), i))
            &&& j == i
        },
    }
}

/// Whether the process `x`, which takes over after branches, or nothing if there is none, stands
/// from `i` to `j`.
pub open spec fn opt_pass_process_at(ts: Seq<Token>, i: int, j: int, x: Option<Process>) -> bool {
    match x {
        Some(x) => pass_process_at(ts, i, j, x),
        None => {
            &&& 0 <= i <= ts.len()
            &&& fails_openly(pass_process(ts, rules(ts, i), i))
            &&& j == i
        },
    }
}

/// The process, or one that does nothing where `end` ends.
pub open spec fn or_noop_process(x: Option<Process>, end: Span) -> Process {
    match x {
        Some(x) => x,
        None => Process::Noop(end.only_end()),
    }
}

/// What is applied, or that nothing is where `end` ends.
pub open spec fn or_noop_apply(x: Option<Apply>, end: Span) -> Apply {
    match x {
        Some(x) => x,
        None => Apply::Noop(end.only_end()),
    }
}

/// The command, or one that does nothing where `end` ends.
pub open spec fn or_noop_command(x: Option<Command>, end: Span) -> Command {
    match x {
        Some(x) => x,
        None => Command::Then(Box::new(Process::Noop(end.only_end()))),
    }
}

/// Where the label ends, or else `end`.
pub open spec fn or_label_span(label: Option<LocalName>, end: Span) -> Span {
    match label {
        Some(label) => label.span,
        None => end,
    }
}

} // verus!
