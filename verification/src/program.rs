//! Modules and what they define.
use crate::language::{GlobalName, LocalName};
use crate::location::Span;
use crate::model;
use crate::types::Type;
use vstd::prelude::*;

verus! {

/// The definition of a type.
#[derive(Debug, PartialEq)]
pub struct TypeDef {
    pub span: Span,
    pub name: GlobalName,
    pub params: Vec<LocalName>,
    pub typ: Type,
}

/// The declaration of the type of a definition.
#[derive(Debug, PartialEq)]
pub struct Declaration {
    pub span: Span,
    pub name: GlobalName,
    pub typ: Type,
}

/// A definition.
#[derive(Debug, PartialEq)]
pub struct Definition<Expr> {
    pub span: Span,
    pub name: GlobalName,
    pub expression: Expr,
}

/// The types, declarations and definitions of a module, each in the order they came.
#[derive(Debug, PartialEq)]
pub struct Module<Expr> {
    pub type_defs: Vec<TypeDef>,
    pub declarations: Vec<Declaration>,
    pub definitions: Vec<Definition<Expr>>,
}

impl DeepView for TypeDef {
    type V = model::TypeDef;

    open spec fn deep_view(&self) -> model::TypeDef {
        model::TypeDef {
            span: self.span@,
            name: self.name@,
            params: self.params.deep_view(),
            typ: self.typ.model(),
        }
    }
}

impl DeepView for Declaration {
    type V = model::Declaration;

    open spec fn deep_view(&self) -> model::Declaration {
        model::Declaration { span: self.span@, name: self.name@, typ: self.typ.model() }
    }
}

impl<Expr: DeepView> DeepView for Definition<Expr> {
    type V = model::Definition<Expr::V>;

    open spec fn deep_view(&self) -> model::Definition<Expr::V> {
        model::Definition {
            span: self.span@,
            name: self.name@,
            expression: self.expression.deep_view(),
        }
    }
}

impl<Expr: DeepView> DeepView for Module<Expr> {
    type V = model::Module<Expr::V>;

    open spec fn deep_view(&self) -> model::Module<Expr::V> {
        model::Module {
            type_defs: self.type_defs.deep_view(),
            declarations: self.declarations.deep_view(),
            definitions: self.definitions.deep_view(),
        }
    }
}

impl<Expr: DeepView> Module<Expr> {
    /// A module with nothing in it.
    pub fn new() -> (r: Module<Expr>)
        ensures
            r.deep_view() == empty_module::<Expr::V>(),
    {
        let r: Module<Expr> = Module {
            type_defs: Vec::new(),
            declarations: Vec::new(),
            definitions: Vec::new(),
        };
        assert(r.type_defs.deep_view() =~= Seq::<model::TypeDef>::empty());
        assert(r.declarations.deep_view() =~= Seq::<model::Declaration>::empty());
        assert(r.definitions.deep_view() =~= Seq::<model::Definition<Expr::V>>::empty());
        r
    }
}

/// What is built in instead of being written in the language: its type and its body.
#[derive(Debug, PartialEq)]
pub struct External<Body> {
    pub typ: Type,
    pub body: Body,
}

/// What an [`External`] says.
pub struct ExternalModel<Body> {
    pub typ: model::Type,
    pub body: Body,
}

impl<Body> DeepView for External<Body> {
    type V = ExternalModel<Body>;

    open spec fn deep_view(&self) -> ExternalModel<Body> {
        ExternalModel { typ: self.typ.model(), body: self.body }
    }
}

/// A name that stands nowhere in a source and in no module.
pub open spec fn external_name(name: Seq<char>) -> model::GlobalName {
    model::GlobalName { span: model::Span::Nowhere, module: None, primary: name }
}

impl TypeDef {
    /// A type that is built in, without parameters.
    pub fn external(name: &str, typ: Type) -> (r: TypeDef)
        ensures
            r.deep_view() == (model::TypeDef {
                span: model::Span::Nowhere,
                name: external_name(name@),
                params: Seq::empty(),
                typ: typ.model(),
            }),
    {
        let params: Vec<LocalName> = Vec::new();
        assert(params.deep_view() =~= Seq::<model::LocalName>::empty());
        TypeDef { span: Span::Nowhere, name: GlobalName::external(None, name), params, typ }
    }
}

impl<Body> Definition<External<Body>> {
    /// A definition that is built in.
    pub fn external(name: &str, typ: Type, body: Body) -> (r: Definition<External<Body>>)
        ensures
            r.deep_view() == (model::Definition {
                span: model::Span::Nowhere,
                name: external_name(name@),
                expression: ExternalModel { typ: typ.model(), body },
            }),
    {
        Definition {
            span: Span::Nowhere,
            name: GlobalName::external(None, name),
            expression: External { typ, body },
        }
    }
}

/// A module with nothing in it.
pub open spec fn empty_module<E>() -> model::Module<E> {
    model::Module {
        type_defs: Seq::empty(),
        declarations: Seq::empty(),
        definitions: Seq::empty(),
    }
}

} // verus!
