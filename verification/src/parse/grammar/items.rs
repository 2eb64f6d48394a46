//! The grammar of modules.
use super::super::error::{failure_at, StrContext, StrContextValue};
use super::super::outcome::Outcome;
use super::types::{annotation, type_params};
use super::{described, global_name, rules, t, Rules};
use crate::model::{
    Declaration, Definition, Expression, GlobalName, LocalName, Module, Span, Token, Type, TypeDef,
};
use crate::program::empty_module;
use crate::token::TokenKind;
use vstd::prelude::*;

verus! {

/// What a module is made of. A definition may come with the type that it is annotated with.
pub enum Item {
    TypeDef(TypeDef),
    Declaration(Declaration),
    Definition(Definition<Expression>, Option<Type>),
}

/// `type Name<a, b> = c`, with nothing said of what was being parsed.
pub open spec fn type_def_body(ts: Seq<Token>, r: Rules, i: int) -> Outcome<TypeDef> {
    t(ts, i, TokenKind::Type).and_then(
        |i: int, pre: Token|
            global_name(ts, i).and_then(
                |i: int, name: GlobalName|
                    type_params(ts, i).and_then(
                        |i: int, params: Option<(Span, Seq<LocalName>)>|
                            t(ts, i, TokenKind::Eq).and_then(
                                |i: int, eq: Token|
                                    (r.typ)(i).map(
                                        |typ: Type|
                                            TypeDef {
                                                span: pre.span.join(typ.span()),
                                                name,
                                                params: match params {
                                                    Some((_, params)) => params,
                                                    None => Seq::empty(),
                                                },
                                                typ,
                                            },
                                    ),
                            ),
                    ),
            ).cut(),
    )
}

/// `type Name<a, b> = c`
#[verifier::opaque]
pub open spec fn type_def(ts: Seq<Token>, r: Rules, i: int) -> Outcome<TypeDef> {
    type_def_body(ts, r, i).context(ts.len(), StrContext::Label("type definition"))
}

/// `dec Name : a`, with nothing said of what was being parsed.
pub open spec fn declaration_body(ts: Seq<Token>, r: Rules, i: int) -> Outcome<Declaration> {
    t(ts, i, TokenKind::Dec).and_then(
        |i: int, pre: Token|
            global_name(ts, i).and_then(
                |i: int, name: GlobalName|
                    t(ts, i, TokenKind::Colon).and_then(
                        |i: int, colon: Token|
                            (r.typ)(i).map(
                                |typ: Type|
                                    Declaration { span: pre.span.join(typ.span()), name, typ },
                            ),
                    ),
            ).cut(),
    )
}

/// `dec Name : a`
#[verifier::opaque]
pub open spec fn declaration(ts: Seq<Token>, r: Rules, i: int) -> Outcome<Declaration> {
    declaration_body(ts, r, i).context(ts.len(), StrContext::Label("declaration"))
}

/// `def Name : a = e`, with nothing said of what was being parsed.
pub open spec fn definition_body(ts: Seq<Token>, r: Rules, i: int) -> Outcome<
    (Definition<Expression>, Option<Type>),
> {
    t(ts, i, TokenKind::Def).and_then(
        |i: int, pre: Token|
            global_name(ts, i).and_then(
                |i: int, name: GlobalName|
                    annotation(ts, r, i).and_then(
                        |i: int, typ: Option<Type>|
                            t(ts, i, TokenKind::Eq).and_then(
                                |i: int, eq: Token|
                                    (r.expression)(i).map(
                                        |expression: Expression|
                                            (
                                                Definition {
                                                    span: pre.span.join(expression.span()),
                                                    name,
                                                    expression,
                                                },
                                                typ,
                                            ),
                                    ),
                            ),
                    ),
            ).cut(),
    )
}

/// `def Name : a = e`
#[verifier::opaque]
pub open spec fn definition(ts: Seq<Token>, r: Rules, i: int) -> Outcome<
    (Definition<Expression>, Option<Type>),
> {
    definition_body(ts, r, i).context(ts.len(), StrContext::Label("definition"))
}

/// An item of a module.
#[verifier::opaque]
pub open spec fn item(ts: Seq<Token>, i: int) -> Outcome<Item> {
    let r = rules(ts, i);
    type_def(ts, r, i).map(|type_def: TypeDef| Item::TypeDef(type_def))
        .or(declaration(ts, r, i).map(|dec: Declaration| Item::Declaration(dec)))
        .or(
            definition(ts, r, i).map(
                |def: (Definition<Expression>, Option<Type>)| Item::Definition(def.0, def.1),
            ),
        )
        .context(ts.len(), StrContext::Label("item"))
}

/// A module with an item added. An annotated definition adds a declaration too.
pub open spec fn with_item(module: Module<Expression>, item: Item) -> Module<Expression> {
    match item {
        Item::TypeDef(type_def) => Module { type_defs: module.type_defs.push(type_def), ..module },
        Item::Declaration(dec) => Module { declarations: module.declarations.push(dec), ..module },
        Item::Definition(def, None) => Module {
            definitions: module.definitions.push(def),
            ..module
        },
        Item::Definition(def, Some(typ)) => Module {
            declarations: module.declarations.push(
                Declaration { span: def.span, name: def.name, typ },
            ),
            definitions: module.definitions.push(def),
            ..module
        },
    }
}

/// Items, as often as they come, after those in `before`.
pub open spec fn items(ts: Seq<Token>, before: Module<Expression>, i: int) -> Outcome<
    Module<Expression>,
>
    decreases ts.len() - i,
{
    match item(ts, i) {
        Outcome::Failed { cut: false, .. } => Outcome::Done(i, before),
        Outcome::Failed { cut, at, error } => Outcome::Failed { cut, at, error },
        Outcome::Done(j, item) => if i < j <= ts.len() {
            items(ts, with_item(before, item), j)
        } else {
            arbitrary()
        },
    }
}

/// The text `word`, which was expected.
pub open spec fn word(word: &'static str) -> StrContext {
    StrContext::Expected(StrContextValue::StringLiteral(word))
}

/// The end of the tokens.
pub open spec fn end_of_file(ts: Seq<Token>, i: int) -> Outcome<()> {
    let end: Outcome<()> = if i == ts.len() {
        Outcome::Done(i, ())
    } else {
        Outcome::Failed { cut: false, at: i, error: failure_at(ts.len() - i) }
    };
    end.context(ts.len(), word("type")).context(ts.len(), word("dec")).context(
        ts.len(),
        word("def"),
    ).context(ts.len(), described("end of file"))
}

/// A whole module.
pub open spec fn program(ts: Seq<Token>) -> Outcome<Module<Expression>> {
    items(ts, empty_module(), 0).and_then(
        |i: int, module: Module<Expression>| end_of_file(ts, i).map(|end: ()| module),
    )
}

} // verus!
