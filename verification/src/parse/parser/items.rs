//! Parsing of modules.
use super::super::error::{MyError, StrContext, StrContextValue};
use super::super::grammar::{items, rules};
use super::super::outcome::{cut, or, retry, Outcome, Parsed};
use super::{empty_vec, Parser};
use crate::language::Expression;
use crate::program::{empty_module, Declaration, Definition, Module, TypeDef};
use crate::token::TokenKind;
use crate::types::Type;
use vstd::prelude::*;

verus! {

broadcast use crate::parse::grammar::group_rules;

/// What a module is made of. A definition may come with the type that it is annotated with.
pub enum Item {
    TypeDef(TypeDef),
    Declaration(Declaration),
    Definition(Definition<Expression>, Option<Type>),
}

impl DeepView for Item {
    type V = items::Item;

    open spec fn deep_view(&self) -> items::Item {
        match self {
            Item::TypeDef(type_def) => items::Item::TypeDef(type_def.deep_view()),
            Item::Declaration(dec) => items::Item::Declaration(dec.deep_view()),
            Item::Definition(def, typ) => items::Item::Definition(
                def.deep_view(),
                typ.deep_view(),
            ),
        }
    }
}

/// Where the parse of a module failed, counted in tokens, and what was wrong.
pub struct ProgramParseError {
    pub offset: usize,
    pub error: MyError,
}

/// Adds an item to a module. An annotated definition adds a declaration too.
fn add_item(module: &mut Module<Expression>, item: Item)
    ensures
        final(module).deep_view() == items::with_item(old(module).deep_view(), item.deep_view()),
{
    let ghost before = module.deep_view();
    let ghost after = items::with_item(before, item.deep_view());
    match item {
        Item::TypeDef(type_def) => {
            module.type_defs.push(type_def);
        },
        Item::Declaration(dec) => {
            module.declarations.push(dec);
        },
        Item::Definition(def, annotation) => {
            if let Some(typ) = annotation {
                module.declarations.push(
                    Declaration { span: def.span.clone(), name: def.name.clone(), typ },
                );
            }
            module.definitions.push(def);
        },
    }
    assert(module.type_defs.deep_view() =~= after.type_defs);
    assert(module.declarations.deep_view() =~= after.declarations);
    assert(module.definitions.deep_view() =~= after.definitions);
}

impl<'t, 'i> Parser<'t, 'i> {
    /// `type Name<a, b> = c`, with nothing said of what was being parsed.
    fn type_def_body(&self, i: usize) -> (r: Parsed<TypeDef>)
        requires
            self.ready(i),
        ensures
            self.parses(r, i, items::type_def_body(self@, rules(self@, i as int), i as int)),
    {
        let (i, pre) = self.t(i, TokenKind::Type)?;
        let (i, name) = cut(self.global_name(i))?;
        let (i, params) = cut(self.type_params(i))?;
        let (i, _) = cut(self.t(i, TokenKind::Eq))?;
        let (i, typ) = cut(self.typ(i))?;
        let params = match params {
            Some((_, params)) => params,
            None => empty_vec(),
        };
        Ok((i, TypeDef { span: pre.span.join(typ.span()), name, params, typ }))
    }

    /// `type Name<a, b> = c`
    pub(crate) fn type_def(&self, i: usize) -> (r: Parsed<TypeDef>)
        requires
            self.ready(i),
        ensures
            self.parses(r, i, items::type_def(self@, rules(self@, i as int), i as int)),
    {
        reveal(items::type_def);
        self.context(self.type_def_body(i), StrContext::Label("type definition"))
    }

    /// `dec Name : a`, with nothing said of what was being parsed.
    fn declaration_body(&self, i: usize) -> (r: Parsed<Declaration>)
        requires
            self.ready(i),
        ensures
            self.parses(r, i, items::declaration_body(self@, rules(self@, i as int), i as int)),
    {
        let (i, pre) = self.t(i, TokenKind::Dec)?;
        let (i, name) = cut(self.global_name(i))?;
        let (i, _) = cut(self.t(i, TokenKind::Colon))?;
        let (i, typ) = cut(self.typ(i))?;
        Ok((i, Declaration { span: pre.span.join(typ.span()), name, typ }))
    }

    /// `dec Name : a`
    pub(crate) fn declaration(&self, i: usize) -> (r: Parsed<Declaration>)
        requires
            self.ready(i),
        ensures
            self.parses(r, i, items::declaration(self@, rules(self@, i as int), i as int)),
    {
        reveal(items::declaration);
        self.context(self.declaration_body(i), StrContext::Label("declaration"))
    }

    /// `def Name : a = e`, with nothing said of what was being parsed.
    fn definition_body(&self, i: usize) -> (r: Parsed<(Definition<Expression>, Option<Type>)>)
        requires
            self.ready(i),
        ensures
            self.parses(r, i, items::definition_body(self@, rules(self@, i as int), i as int)),
    {
        let ghost from = i as int;
        let (i, pre) = self.t(i, TokenKind::Def)?;
        let (i, name) = cut(self.global_name(i))?;
        let (i, annotation) = cut(self.annotation(Ghost(from), i))?;
        let (i, _) = cut(self.t(i, TokenKind::Eq))?;
        let (i, expression) = cut(self.expression(i))?;
        let span = pre.span.join(expression.span());
        Ok((i, (Definition { span, name, expression }, annotation)))
    }

    /// `def Name : a = e`
    pub(crate) fn definition(&self, i: usize) -> (r: Parsed<
        (Definition<Expression>, Option<Type>),
    >)
        requires
            self.ready(i),
        ensures
            self.parses(r, i, items::definition(self@, rules(self@, i as int), i as int)),
    {
        reveal(items::definition);
        self.context(self.definition_body(i), StrContext::Label("definition"))
    }

    /// An item of a module.
    fn item(&self, i: usize) -> (r: Parsed<Item>)
        requires
            self.ready(i),
        ensures
            self.parses(r, i, items::item(self@, i as int)),
    {
        reveal(items::item);
        let r = match self.type_def(i) {
            Ok((i, type_def)) => Ok((i, Item::TypeDef(type_def))),
            Err(f) => Err(f),
        };
        let r = if retry(&r) {
            let second = match self.declaration(i) {
                Ok((i, dec)) => Ok((i, Item::Declaration(dec))),
                Err(f) => Err(f),
            };
            or(r, second)
        } else {
            r
        };
        let r = if retry(&r) {
            let third = match self.definition(i) {
                Ok((i, (def, annotation))) => Ok((i, Item::Definition(def, annotation))),
                Err(f) => Err(f),
            };
            or(r, third)
        } else {
            r
        };
        self.context(r, StrContext::Label("item"))
    }

    /// Items, as often as they come.
    fn items(&self) -> (r: Parsed<Module<Expression>>)
        requires
            self.ready(0),
        ensures
            self.tries(r, 0, items::items(self@, empty_module(), 0)),
    {
        let mut module: Module<Expression> = Module::new();
        let mut k: usize = 0;
        let ghost all = items::items(self@, empty_module(), 0);
        loop
            invariant
                self.ready(k),
                all == items::items(self@, module.deep_view(), k as int),
                all == items::items(self@, empty_module(), 0),
            ensures
                k <= self@.len(),
                all == Outcome::Done(k as int, module.deep_view()),
            decreases self@.len() - k,
        {
            match self.item(k) {
                Err(f) => {
                    if f.cut {
                        return Err(f);
                    }
                    break;
                },
                Ok((j, item)) => {
                    add_item(&mut module, item);
                    k = j;
                },
            }
        }
        Ok((k, module))
    }

    /// The end of the tokens.
    fn end_of_file(&self, i: usize) -> (r: Parsed<()>)
        requires
            self.ready(i),
        ensures
            self.tries(r, i, items::end_of_file(self@, i as int)),
    {
        let r: Parsed<()> = if i == self.tokens.len() {
            Ok((i, ()))
        } else {
            self.fail(i)
        };
        let r = self.context(r, StrContext::Expected(StrContextValue::StringLiteral("type")));
        let r = self.context(r, StrContext::Expected(StrContextValue::StringLiteral("dec")));
        let r = self.context(r, StrContext::Expected(StrContextValue::StringLiteral("def")));
        self.context(r, StrContext::Expected(StrContextValue::Description("end of file")))
    }

    /// A whole module.
    pub(crate) fn program(&self) -> (r: Result<Module<Expression>, ProgramParseError>)
        requires
            self.ready(0),
        ensures
            match (items::program(self@), r) {
                (Outcome::Done(_, module), Ok(m)) => m.deep_view() == module,
                (Outcome::Failed { at, error, .. }, Err(e)) => {
                    &&& e.offset == at <= self@.len()
                    &&& e.error.model() == error
                },
                _ => false,
            },
    {
        let r = match self.items() {
            Err(f) => Err(f),
            Ok((i, module)) => match self.end_of_file(i) {
                Err(f) => Err(f),
                Ok(_) => Ok(module),
            },
        };
        match r {
            Ok(module) => Ok(module),
            Err(f) => Err(ProgramParseError { offset: f.at, error: f.error }),
        }
    }
}

} // verus!
