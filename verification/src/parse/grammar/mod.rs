//! The grammar. A production is a function from the tokens `ts`, the rules `r` for what
//! comes further on, and a place `i` to the outcome of a parse from there.
pub mod applications;
pub mod commands;
pub mod constructions;
pub mod expressions;
pub mod items;
pub mod patterns;
pub mod processes;
pub mod types;

use super::error::{failure_at, StrContext, StrContextValue};
use super::outcome::{prepend, Outcome};
use crate::big_int::decimal;
use crate::branches::inserted;
use crate::escape::unescaped;
use crate::model::{
    Apply, ApplyBranch, Command, CommandBranch, Construct, ConstructBranch, Expression, GlobalName,
    LocalName, Pattern, Process, Span, Token, Type,
};
use crate::token::TokenKind;
use applications::{apply, apply_branch};
use commands::{cmd, cmd_branch};
use constructions::{cons_branch, construction};
use expressions::{expression, operand};
use patterns::pattern;
use processes::{pass_process, process};
use types::{typ, typ_branch};
use vstd::prelude::*;

verus! {

/// The recursive productions, each as a function from a place to an outcome.
pub struct Rules {
    pub typ: spec_fn(int) -> Outcome<Type>,
    pub typ_branch: spec_fn(int) -> Outcome<Type>,
    pub pattern: spec_fn(int) -> Outcome<Pattern>,
    pub expression: spec_fn(int) -> Outcome<Expression>,
    pub operand: spec_fn(int) -> Outcome<Expression>,
    pub construction: spec_fn(int) -> Outcome<Construct>,
    pub cons_branch: spec_fn(int) -> Outcome<ConstructBranch>,
    pub apply: spec_fn(int) -> Outcome<Option<Apply>>,
    pub apply_branch: spec_fn(int) -> Outcome<ApplyBranch>,
    pub process: spec_fn(int) -> Outcome<Process>,
    pub pass_process: spec_fn(int) -> Outcome<Process>,
    pub cmd: spec_fn(int) -> Outcome<Option<Command>>,
    pub cmd_branch: spec_fn(int) -> Outcome<CommandBranch>,
}

/// The recursive productions, for use at places after `from`.
#[verifier::opaque]
pub open spec fn rules(ts: Seq<Token>, from: int) -> Rules
    decreases ts.len() - from,
{
    Rules {
        typ: |i: int| if from < i <= ts.len() { typ(ts, rules(ts, i), i) } else { arbitrary() },
        typ_branch: |i: int|
            if from < i <= ts.len() { typ_branch(ts, rules(ts, i), i) } else { arbitrary() },
        pattern: |i: int|
            if from < i <= ts.len() { pattern(ts, rules(ts, i), i) } else { arbitrary() },
        expression: |i: int|
            if from < i <= ts.len() { expression(ts, rules(ts, i), i) } else { arbitrary() },
        operand: |i: int|
            if from < i <= ts.len() { operand(ts, rules(ts, i), i) } else { arbitrary() },
        construction: |i: int|
            if from < i <= ts.len() { construction(ts, rules(ts, i), i) } else { arbitrary() },
        cons_branch: |i: int|
            if from < i <= ts.len() { cons_branch(ts, rules(ts, i), i) } else { arbitrary() },
        apply: |i: int| if from < i <= ts.len() { apply(ts, rules(ts, i), i) } else { arbitrary() },
        apply_branch: |i: int|
            if from < i <= ts.len() { apply_branch(ts, rules(ts, i), i) } else { arbitrary() },
        process: |i: int|
            if from < i <= ts.len() { process(ts, rules(ts, i), i) } else { arbitrary() },
        pass_process: |i: int|
            if from < i <= ts.len() { pass_process(ts, rules(ts, i), i) } else { arbitrary() },
        cmd: |i: int| if from < i <= ts.len() { cmd(ts, rules(ts, i), i) } else { arbitrary() },
        cmd_branch: |i: int|
            if from < i <= ts.len() { cmd_branch(ts, rules(ts, i), i) } else { arbitrary() },
    }
}

pub broadcast proof fn rule_typ(ts: Seq<Token>, from: int, i: int)
    requires
        from < i <= ts.len(),
    ensures
        #[trigger] (rules(ts, from).typ)(i) == typ(ts, rules(ts, i), i),
{
    reveal(rules);
}

pub broadcast proof fn rule_typ_branch(ts: Seq<Token>, from: int, i: int)
    requires
        from < i <= ts.len(),
    ensures
        #[trigger] (rules(ts, from).typ_branch)(i) == typ_branch(ts, rules(ts, i), i),
{
    reveal(rules);
}

pub broadcast proof fn rule_pattern(ts: Seq<Token>, from: int, i: int)
    requires
        from < i <= ts.len(),
    ensures
        #[trigger] (rules(ts, from).pattern)(i) == pattern(ts, rules(ts, i), i),
{
    reveal(rules);
}

pub broadcast proof fn rule_expression(ts: Seq<Token>, from: int, i: int)
    requires
        from < i <= ts.len(),
    ensures
        #[trigger] (rules(ts, from).expression)(i) == expression(ts, rules(ts, i), i),
{
    reveal(rules);
}

pub broadcast proof fn rule_operand(ts: Seq<Token>, from: int, i: int)
    requires
        from < i <= ts.len(),
    ensures
        #[trigger] (rules(ts, from).operand)(i) == operand(ts, rules(ts, i), i),
{
    reveal(rules);
}

pub broadcast proof fn rule_construction(ts: Seq<Token>, from: int, i: int)
    requires
        from < i <= ts.len(),
    ensures
        #[trigger] (rules(ts, from).construction)(i) == construction(ts, rules(ts, i), i),
{
    reveal(rules);
}

pub broadcast proof fn rule_cons_branch(ts: Seq<Token>, from: int, i: int)
    requires
        from < i <= ts.len(),
    ensures
        #[trigger] (rules(ts, from).cons_branch)(i) == cons_branch(ts, rules(ts, i), i),
{
    reveal(rules);
}

pub broadcast proof fn rule_apply(ts: Seq<Token>, from: int, i: int)
    requires
        from < i <= ts.len(),
    ensures
        #[trigger] (rules(ts, from).apply)(i) == apply(ts, rules(ts, i), i),
{
    reveal(rules);
}

pub broadcast proof fn rule_apply_branch(ts: Seq<Token>, from: int, i: int)
    requires
        from < i <= ts.len(),
    ensures
        #[trigger] (rules(ts, from).apply_branch)(i) == apply_branch(ts, rules(ts, i), i),
{
    reveal(rules);
}

pub broadcast proof fn rule_process(ts: Seq<Token>, from: int, i: int)
    requires
        from < i <= ts.len(),
    ensures
        #[trigger] (rules(ts, from).process)(i) == process(ts, rules(ts, i), i),
{
    reveal(rules);
}

pub broadcast proof fn rule_pass_process(ts: Seq<Token>, from: int, i: int)
    requires
        from < i <= ts.len(),
    ensures
        #[trigger] (rules(ts, from).pass_process)(i) == pass_process(ts, rules(ts, i), i),
{
    reveal(rules);
}

pub broadcast proof fn rule_cmd(ts: Seq<Token>, from: int, i: int)
    requires
        from < i <= ts.len(),
    ensures
        #[trigger] (rules(ts, from).cmd)(i) == cmd(ts, rules(ts, i), i),
{
    reveal(rules);
}

pub broadcast proof fn rule_cmd_branch(ts: Seq<Token>, from: int, i: int)
    requires
        from < i <= ts.len(),
    ensures
        #[trigger] (rules(ts, from).cmd_branch)(i) == cmd_branch(ts, rules(ts, i), i),
{
    reveal(rules);
}

/// Each rule, used at a place further on, is its production there.
pub broadcast group group_rules {
    rule_typ,
    rule_typ_branch,
    rule_pattern,
    rule_expression,
    rule_operand,
    rule_construction,
    rule_cons_branch,
    rule_apply,
    rule_apply_branch,
    rule_process,
    rule_pass_process,
    rule_cmd,
    rule_cmd_branch,
}

/// `s` without its underscores.
pub open spec fn without_underscores(s: Seq<char>) -> Seq<char> {
    s.filter(|c: char| c != '_')
}

/// Whether a token of a literal denotes a value: a number, or a text whose escapes can be
/// resolved.
pub open spec fn token_is_valid(token: Token) -> bool {
    &&& token.kind == TokenKind::Integer ==> decimal(without_underscores(token.raw)) is Some
    &&& token.kind == TokenKind::String ==> unescaped(token.raw) is Some
}

/// Whether the tokens of literals denote values.
pub open spec fn tokens_are_valid(ts: Seq<Token>) -> bool {
    forall|i: int| 0 <= i < ts.len() ==> #[trigger] token_is_valid(ts[i])
}

/// The text of the tokens of a kind, or what they are called.
pub open spec fn expected(kind: TokenKind) -> StrContext {
    StrContext::Expected(StrContextValue::StringLiteral(kind.expected()))
}

/// `text`, by which something expected is described.
pub open spec fn described(text: &'static str) -> StrContext {
    StrContext::Expected(StrContextValue::Description(text))
}

/// A token of the kind `kind`.
pub open spec fn literal(ts: Seq<Token>, i: int, kind: TokenKind) -> Outcome<Token> {
    if 0 <= i < ts.len() && ts[i].kind == kind {
        Outcome::Done(i + 1, ts[i])
    } else {
        Outcome::Failed { cut: false, at: i, error: failure_at(ts.len() - i) }
    }
}

/// A token of the kind `kind`, whose text is named if it is not there.
pub open spec fn t(ts: Seq<Token>, i: int, kind: TokenKind) -> Outcome<Token> {
    literal(ts, i, kind).context(ts.len(), expected(kind))
}

/// A bracket of the kind `open` and the word `type`.
pub open spec fn open_type(
    ts: Seq<Token>,
    i: int,
    open: TokenKind,
    text: &'static str,
) -> Outcome<Token> {
    literal(ts, i, open).and_then(
        |i: int, a: Token| literal(ts, i, TokenKind::Type).map(|b: Token| a),
    ).context(ts.len(), described(text))
}

/// The items after the first one: a comma and an item, as often as they come.
pub open spec fn more_items<T>(
    ts: Seq<Token>,
    item: spec_fn(int) -> Outcome<T>,
    i: int,
) -> Outcome<Seq<T>>
    decreases ts.len() - i,
{
    match t(ts, i, TokenKind::Comma) {
        Outcome::Failed { .. } => Outcome::Done(i, Seq::empty()),
        Outcome::Done(j, _) => match item(j) {
            Outcome::Failed { cut: false, .. } => Outcome::Done(i, Seq::empty()),
            Outcome::Failed { cut, at, error } => Outcome::Failed { cut, at, error },
            Outcome::Done(k, x) => if i < k <= ts.len() {
                prepend(seq![x], more_items(ts, item, k))
            } else {
                arbitrary()
            },
        },
    }
}

/// A list whose first item is `first` and ends at `i`.
pub open spec fn list_after<T>(
    ts: Seq<Token>,
    item: spec_fn(int) -> Outcome<T>,
    i: int,
    first: T,
) -> Outcome<Seq<T>> {
    prepend(seq![first], more_items(ts, item, i)).and_then(
        |i: int, xs: Seq<T>| t(ts, i, TokenKind::Comma).opt(i).map(|comma: Option<Token>| xs),
    )
}

/// One or more items between commas, with or without a comma at the end.
pub open spec fn list1<T>(ts: Seq<Token>, item: spec_fn(int) -> Outcome<T>, i: int) -> Outcome<
    Seq<T>,
> {
    item(i).and_then(|i: int, first: T| list_after(ts, item, i, first))
}

/// Items between commas, with or without a comma at the end.
pub open spec fn list0<T>(ts: Seq<Token>, item: spec_fn(int) -> Outcome<T>, i: int) -> Outcome<
    Seq<T>,
> {
    match item(i) {
        Outcome::Failed { cut: false, .. } => t(ts, i, TokenKind::Comma).opt(i).map(
            |comma: Option<Token>| Seq::empty(),
        ),
        _ => list1(ts, item, i),
    }
}

/// A word in lower case.
pub open spec fn lowercase_identifier(ts: Seq<Token>, i: int) -> Outcome<Token> {
    literal(ts, i, TokenKind::LowercaseIdentifier).context(
        ts.len(),
        StrContext::Expected(StrContextValue::CharLiteral('_')),
    ).context(ts.len(), described("lower-case alphabetic"))
}

/// A name in lower case.
pub open spec fn local_name(ts: Seq<Token>, i: int) -> Outcome<LocalName> {
    lowercase_identifier(ts, i).map(
        |token: Token| LocalName { span: token.span, string: token.raw },
    )
}

/// A word in upper case.
pub open spec fn uppercase_identifier(ts: Seq<Token>, i: int) -> Outcome<Token> {
    literal(ts, i, TokenKind::UppercaseIdentifier).context(
        ts.len(),
        described("upper-case alphabetic"),
    )
}

/// A name in upper case: `Name` or `Module.Name`.
pub open spec fn global_name(ts: Seq<Token>, i: int) -> Outcome<GlobalName> {
    uppercase_identifier(ts, i).and_then(
        |i: int, first: Token|
            t(ts, i, TokenKind::Dot).and_then(
                |i: int, dot: Token| uppercase_identifier(ts, i),
            ).opt(i).map(
                |second: Option<Token>|
                    match second {
                        Some(second) => GlobalName {
                            span: first.span.join(second.span),
                            module: Some(first.raw),
                            primary: second.raw,
                        },
                        None => GlobalName { span: first.span, module: None, primary: first.raw },
                    },
            ),
    )
}

/// `@name`, or nothing.
pub open spec fn label(ts: Seq<Token>, i: int) -> Outcome<Option<LocalName>> {
    t(ts, i, TokenKind::At).and_then(|i: int, at: Token| local_name(ts, i)).opt(i)
}

/// A branch under its signal: `.name branch`, with or without a comma at the end.
pub open spec fn branch_row<T>(
    ts: Seq<Token>,
    branch: spec_fn(int) -> Outcome<T>,
    i: int,
) -> Outcome<(LocalName, T)> {
    t(ts, i, TokenKind::Dot).and_then(
        |i: int, dot: Token|
            local_name(ts, i).and_then(
                |i: int, name: LocalName|
                    branch(i).cut().and_then(
                        |i: int, value: T|
                            t(ts, i, TokenKind::Comma).opt(i).map(
                                |comma: Option<Token>| (name, value),
                            ),
                    ),
            ),
    )
}

/// Branches, as often as they come, after those in `before`.
pub open spec fn branch_rows<T>(
    ts: Seq<Token>,
    branch: spec_fn(int) -> Outcome<T>,
    before: Seq<(LocalName, T)>,
    i: int,
) -> Outcome<Seq<(LocalName, T)>>
    decreases ts.len() - i,
{
    match branch_row(ts, branch, i) {
        Outcome::Failed { cut: false, .. } => Outcome::Done(i, before),
        Outcome::Failed { cut, at, error } => Outcome::Failed { cut, at, error },
        Outcome::Done(j, row) => {
            let after = inserted(before, row.0, row.1);
            if i < j <= ts.len() {
                branch_rows(ts, branch, after, j)
            } else {
                Outcome::Done(j, after)
            }
        },
    }
}

/// `{ .name branch, .name branch }`
pub open spec fn branches_body<T>(
    ts: Seq<Token>,
    branch: spec_fn(int) -> Outcome<T>,
    i: int,
) -> Outcome<(Span, Seq<(LocalName, T)>)> {
    t(ts, i, TokenKind::LCurly).and_then(
        |i: int, open: Token|
            branch_rows(ts, branch, Seq::empty(), i).and_then(
                |i: int, branches: Seq<(LocalName, T)>|
                    t(ts, i, TokenKind::RCurly).map(
                        |close: Token| (open.span.join(close.span), branches),
                    ),
            ).cut(),
    ).context(ts.len(), StrContext::Label("either/choice branches"))
}

} // verus!
