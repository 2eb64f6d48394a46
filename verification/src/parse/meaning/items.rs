//! What items and modules come to.
use super::super::error::{failure_at, with_context};
use super::super::frame::items::carry_item;
use super::super::frame::stands_in;
use super::super::grammar::expressions::expression;
use super::super::grammar::items::{
    declaration, definition, item, items, program, type_def, with_item, word, Item,
};
use super::super::grammar::types::{annotation, typ, type_params};
use super::super::grammar::{described, global_name, group_rules, list1, local_name, rules};
use super::super::laws::{no_item, starts_item};
use super::super::outcome::Outcome;
use super::parts::{found_global_name, found_names, names_at, read_global_name, read_names};
use super::{
    ahead_expression, ahead_typ, expression_at, fails_at, fails_like, global_name_at, lacks,
    token_at, typ_at,
};
use crate::model::{
    Declaration, Definition, Expression, GlobalName, LocalName, Module, Token, Type, TypeDef,
};
use crate::program::empty_module;
use crate::token::TokenKind;
use vstd::prelude::*;

verus! {

/// Whether the item `x` of a module stands from `i` to `j`.
pub open spec fn item_at(ts: Seq<Token>, i: int, j: int, x: Item) -> bool {
    0 <= i <= ts.len() && item(ts, i) == Outcome::Done(j, x)
}

/// Whether the names of the types that a type is given stand from `i` to `j`: names between
/// commas, in angle brackets, or nothing.
pub open spec fn params_at(ts: Seq<Token>, i: int, j: int, names: Seq<LocalName>) -> bool {
    if token_at(ts, i, TokenKind::Lt) {
        &&& names_at(ts, i + 1, j - 1, names)
        &&& token_at(ts, j - 1, TokenKind::Gt)
    } else {
        &&& 0 <= i <= ts.len()
        &&& j == i
        &&& names.len() == 0
    }
}

/// Whether the type that something is annotated with stands from `i` to `j`: a colon and a type,
/// or nothing.
pub open spec fn annotation_at(ts: Seq<Token>, i: int, j: int, x: Option<Type>) -> bool {
    if token_at(ts, i, TokenKind::Colon) {
        x is Some && typ_at(ts, i + 1, j, x->0)
    } else {
        &&& 0 <= i <= ts.len()
        &&& j == i
        &&& x is None
    }
}

/// `type Name<a, b> = c` is the definition of that type with these parameters as `c`.
pub proof fn type_definition(
    ts: Seq<Token>,
    i: int,
    name: GlobalName,
    name_end: int,
    params: Seq<LocalName>,
    params_end: int,
    x: Type,
    x_end: int,
)
    requires
        token_at(ts, i, TokenKind::Type),
        global_name_at(ts, i + 1, name_end, name),
        params_at(ts, name_end, params_end, params),
        token_at(ts, params_end, TokenKind::Eq),
        typ_at(ts, params_end + 1, x_end, x),
    ensures
        item_at(
            ts,
            i,
            x_end,
            Item::TypeDef(TypeDef { span: ts[i].span.join(x.span()), name, params, typ: x }),
        ),
{
    broadcast use group_rules;

    read_global_name(ts, i + 1, name_end, name);
    if token_at(ts, name_end, TokenKind::Lt) {
        read_names(ts, name_end + 1, params_end - 1, params);
    } else {
        assert(params =~= Seq::empty());
    }
    ahead_typ(ts, params_end + 1, x_end, x);
    reveal(type_params);
    reveal(type_def);
    reveal(item);
}

/// `dec Name : a` is the declaration of that name with the type `a`.
pub proof fn declaration_item(
    ts: Seq<Token>,
    i: int,
    name: GlobalName,
    name_end: int,
    x: Type,
    x_end: int,
)
    requires
        token_at(ts, i, TokenKind::Dec),
        global_name_at(ts, i + 1, name_end, name),
        token_at(ts, name_end, TokenKind::Colon),
        typ_at(ts, name_end + 1, x_end, x),
    ensures
        item_at(
            ts,
            i,
            x_end,
            Item::Declaration(Declaration { span: ts[i].span.join(x.span()), name, typ: x }),
        ),
{
    broadcast use group_rules;

    read_global_name(ts, i + 1, name_end, name);
    ahead_typ(ts, name_end + 1, x_end, x);
    reveal(type_def);
    reveal(declaration);
    reveal(item);
}

/// `def Name : a = e` is the definition of that name as `e`, with the type `a`, and
/// `def Name = e` the one with no type.
pub proof fn definition_item(
    ts: Seq<Token>,
    i: int,
    name: GlobalName,
    name_end: int,
    a: Option<Type>,
    a_end: int,
    e: Expression,
    e_end: int,
)
    requires
        token_at(ts, i, TokenKind::Def),
        global_name_at(ts, i + 1, name_end, name),
        annotation_at(ts, name_end, a_end, a),
        token_at(ts, a_end, TokenKind::Eq),
        expression_at(ts, a_end + 1, e_end, e),
    ensures
        item_at(
            ts,
            i,
            e_end,
            Item::Definition(
                Definition { span: ts[i].span.join(e.span()), name, expression: e },
                a,
            ),
        ),
{
    broadcast use group_rules;

    read_global_name(ts, i + 1, name_end, name);
    if token_at(ts, name_end, TokenKind::Colon) {
        ahead_typ(ts, name_end + 1, a_end, a->0);
    }
    ahead_expression(ts, a_end + 1, e_end, e);
    reveal(annotation);
    reveal(type_def);
    reveal(declaration);
    reveal(definition);
    reveal(item);
}

/// A text that is one item is a module with that item and nothing else: a definition of a type, a
/// declaration, or a definition, with a declaration of its type if it has one.
pub proof fn module_of_one_item(ts: Seq<Token>, x: Item)
    requires
        ts.len() > 0,
        item_at(ts, 0, ts.len() as int, x),
    ensures
        program(ts) == Outcome::Done(
            ts.len() as int,
            match x {
                Item::TypeDef(def) => Module {
                    type_defs: seq![def],
                    declarations: Seq::empty(),
                    definitions: Seq::empty(),
                },
                Item::Declaration(dec) => Module {
                    type_defs: Seq::empty(),
                    declarations: seq![dec],
                    definitions: Seq::empty(),
                },
                Item::Definition(def, None) => Module {
                    type_defs: Seq::empty(),
                    declarations: Seq::empty(),
                    definitions: seq![def],
                },
                Item::Definition(def, Some(typ)) => Module {
                    type_defs: Seq::empty(),
                    declarations: seq![Declaration { span: def.span, name: def.name, typ }],
                    definitions: seq![def],
                },
            },
        ),
{
    let n = ts.len() as int;
    let before = empty_module::<Expression>();
    let after = with_item(before, x);
    no_item(ts, n);
    assert(items(ts, after, n) == Outcome::Done(n, after));
    assert(items(ts, before, 0) == items(ts, after, n));
    assert(after.type_defs =~= match x {
        Item::TypeDef(def) => seq![def],
        _ => Seq::empty(),
    });
    assert(after.declarations =~= match x {
        Item::Declaration(dec) => seq![dec],
        Item::Definition(def, Some(typ)) => seq![
            Declaration { span: def.span, name: def.name, typ },
        ],
        _ => Seq::empty(),
    });
    assert(after.definitions =~= match x {
        Item::Definition(def, _) => seq![def],
        _ => Seq::empty(),
    });
}

/// What starts like `type Name<a, b> = c` is that, with all of its parts.
pub proof fn type_definition_parts(ts: Seq<Token>, i: int, j: int, whole: Item) -> (parts: (
    GlobalName,
    int,
    Seq<LocalName>,
    int,
    Type,
))
    requires
        item_at(ts, i, j, whole),
        token_at(ts, i, TokenKind::Type),
    ensures
        ({
            let (name, name_end, params, params_end, x) = parts;
            &&& global_name_at(ts, i + 1, name_end, name)
            &&& params_at(ts, name_end, params_end, params)
            &&& token_at(ts, params_end, TokenKind::Eq)
            &&& typ_at(ts, params_end + 1, j, x)
            &&& whole == Item::TypeDef(
                (TypeDef { span: ts[i].span.join(x.span()), name, params, typ: x }),
            )
        }),
{
    broadcast use group_rules;

    reveal(type_params);
    reveal(type_def);
    reveal(declaration);
    reveal(definition);
    reveal(item);
    let named = global_name(ts, i + 1);
    let name = named->Done_1;
    let name_end = named->Done_0;
    found_global_name(ts, i + 1, name_end, name);
    let (params, params_end) = if token_at(ts, name_end, TokenKind::Lt) {
        let found = list1(ts, |i: int| local_name(ts, i), name_end + 1);
        found_names(ts, name_end + 1, found->Done_0, found->Done_1);
        (found->Done_1, found->Done_0 + 1)
    } else {
        (Seq::empty(), name_end)
    };
    let found = typ(ts, rules(ts, params_end + 1), params_end + 1);
    (name, name_end, params, params_end, found->Done_1)
}

/// What starts like `dec Name : a` is that, with all of its parts.
pub proof fn declaration_parts(ts: Seq<Token>, i: int, j: int, whole: Item) -> (parts: (
    GlobalName,
    int,
    Type,
))
    requires
        item_at(ts, i, j, whole),
        token_at(ts, i, TokenKind::Dec),
    ensures
        ({
            let (name, name_end, x) = parts;
            &&& global_name_at(ts, i + 1, name_end, name)
            &&& token_at(ts, name_end, TokenKind::Colon)
            &&& typ_at(ts, name_end + 1, j, x)
            &&& whole == Item::Declaration(
                (Declaration { span: ts[i].span.join(x.span()), name, typ: x }),
            )
        }),
{
    broadcast use group_rules;

    reveal(type_def);
    reveal(declaration);
    reveal(definition);
    reveal(item);
    let named = global_name(ts, i + 1);
    let name = named->Done_1;
    let name_end = named->Done_0;
    found_global_name(ts, i + 1, name_end, name);
    let found = typ(ts, rules(ts, name_end + 1), name_end + 1);
    (name, name_end, found->Done_1)
}

/// What starts like `def Name : a = e` is that, with all of its parts, of which the type may be
/// missing.
pub proof fn definition_parts(ts: Seq<Token>, i: int, j: int, whole: Item) -> (parts: (
    GlobalName,
    int,
    Option<Type>,
    int,
    Expression,
))
    requires
        item_at(ts, i, j, whole),
        token_at(ts, i, TokenKind::Def),
    ensures
        ({
            let (name, name_end, a, a_end, e) = parts;
            &&& global_name_at(ts, i + 1, name_end, name)
            &&& annotation_at(ts, name_end, a_end, a)
            &&& token_at(ts, a_end, TokenKind::Eq)
            &&& expression_at(ts, a_end + 1, j, e)
            &&& whole == Item::Definition(
                (Definition { span: ts[i].span.join(e.span()), name, expression: e }),
                a,
            )
        }),
{
    broadcast use group_rules;

    reveal(annotation);
    reveal(type_def);
    reveal(declaration);
    reveal(definition);
    reveal(item);
    let named = global_name(ts, i + 1);
    let name = named->Done_1;
    let name_end = named->Done_0;
    found_global_name(ts, i + 1, name_end, name);
    let (a, a_end) = if token_at(ts, name_end, TokenKind::Colon) {
        let found = typ(ts, rules(ts, name_end + 1), name_end + 1);
        ahead_typ(ts, name_end + 1, found->Done_0, found->Done_1);
        (Some(found->Done_1), found->Done_0)
    } else {
        (None, name_end)
    };
    let found = expression(ts, rules(ts, a_end + 1), a_end + 1);
    (name, name_end, a, a_end, found->Done_1)
}

/// Whether the items `xs` stand from `i` to the end, one after the other.
pub open spec fn items_in(ts: Seq<Token>, i: int, xs: Seq<Item>) -> bool
    decreases xs.len(),
{
    if xs.len() == 0 {
        i == ts.len()
    } else {
        match item(ts, i) {
            Outcome::Done(k, x) => {
                &&& x == xs[0]
                &&& i < k <= ts.len()
                &&& items_in(ts, k, xs.drop_first())
            },
            Outcome::Failed { .. } => false,
        }
    }
}

/// The definitions of types among items, in order.
pub open spec fn type_defs_of(xs: Seq<Item>) -> Seq<TypeDef>
    decreases xs.len(),
{
    if xs.len() == 0 {
        Seq::empty()
    } else {
        let rest = type_defs_of(xs.drop_first());
        match xs[0] {
            Item::TypeDef(def) => seq![def] + rest,
            _ => rest,
        }
    }
}

/// The declarations among items, in order, those of the definitions with a type too.
pub open spec fn declarations_of(xs: Seq<Item>) -> Seq<Declaration>
    decreases xs.len(),
{
    if xs.len() == 0 {
        Seq::empty()
    } else {
        let rest = declarations_of(xs.drop_first());
        match xs[0] {
            Item::Declaration(dec) => seq![dec] + rest,
            Item::Definition(def, Some(typ)) => seq![
                Declaration { span: def.span, name: def.name, typ },
            ] + rest,
            _ => rest,
        }
    }
}

/// The definitions among items, in order.
pub open spec fn definitions_of(xs: Seq<Item>) -> Seq<Definition<Expression>>
    decreases xs.len(),
{
    if xs.len() == 0 {
        Seq::empty()
    } else {
        let rest = definitions_of(xs.drop_first());
        match xs[0] {
            Item::Definition(def, _) => seq![def] + rest,
            _ => rest,
        }
    }
}

/// Items to the end are added to a module in order.
proof fn items_are_added(ts: Seq<Token>, before: Module<Expression>, i: int, xs: Seq<Item>)
    requires
        0 <= i <= ts.len(),
        items_in(ts, i, xs),
    ensures
        items(ts, before, i) == Outcome::Done(
            ts.len() as int,
            (Module {
                type_defs: before.type_defs + type_defs_of(xs),
                declarations: before.declarations + declarations_of(xs),
                definitions: before.definitions + definitions_of(xs),
            }),
        ),
    decreases xs.len(),
{
    if xs.len() == 0 {
        no_item(ts, i);
        assert(before.type_defs + type_defs_of(xs) =~= before.type_defs);
        assert(before.declarations + declarations_of(xs) =~= before.declarations);
        assert(before.definitions + definitions_of(xs) =~= before.definitions);
    } else if let Outcome::Done(k, x) = item(ts, i) {
        let after = with_item(before, x);
        let rest = xs.drop_first();
        items_are_added(ts, after, k, rest);
        assert(after.type_defs + type_defs_of(rest) =~= before.type_defs + type_defs_of(xs));
        assert(after.declarations + declarations_of(rest) =~= before.declarations
            + declarations_of(xs));
        assert(after.definitions + definitions_of(rest) =~= before.definitions + definitions_of(
            xs,
        ));
    }
}

/// A text that is items, one after the other, is the module of these items, each kind in order.
pub proof fn module_of_items(ts: Seq<Token>, xs: Seq<Item>)
    requires
        items_in(ts, 0, xs),
    ensures
        program(ts) == Outcome::Done(
            ts.len() as int,
            (Module {
                type_defs: type_defs_of(xs),
                declarations: declarations_of(xs),
                definitions: definitions_of(xs),
            }),
        ),
{
    let nothing = empty_module::<Expression>();
    items_are_added(ts, nothing, 0, xs);
    assert(nothing.type_defs + type_defs_of(xs) =~= type_defs_of(xs));
    assert(nothing.declarations + declarations_of(xs) =~= declarations_of(xs));
    assert(nothing.definitions + definitions_of(xs) =~= definitions_of(xs));
}

/// The items that are found stand there.
proof fn found_module_items(ts: Seq<Token>, before: Module<Expression>, i: int) -> (xs: Seq<Item>)
    requires
        0 <= i <= ts.len(),
        items(ts, before, i) is Done,
        items(ts, before, i)->Done_0 == ts.len(),
    ensures
        items_in(ts, i, xs),
    decreases ts.len() - i,
{
    match item(ts, i) {
        Outcome::Done(k, x) => {
            item_takes_a_token(ts, i, k, x);
            let rest = found_module_items(ts, with_item(before, x), k);
            let xs = seq![x] + rest;
            assert(xs.drop_first() =~= rest);
            xs
        },
        Outcome::Failed { .. } => Seq::empty(),
    }
}

/// An item takes at least a token.
proof fn item_takes_a_token(ts: Seq<Token>, i: int, j: int, x: Item)
    requires
        item_at(ts, i, j, x),
    ensures
        i < j <= ts.len(),
{
    if i == ts.len() {
        no_item(ts, i);
    } else {
        assert(stands_in(ts, ts, 0));
        carry_item(ts, ts, 0, i);
    }
}

/// A text that is a module is items, one after the other.
pub proof fn module_has_items(ts: Seq<Token>) -> (xs: Seq<Item>)
    requires
        program(ts) is Done,
    ensures
        items_in(ts, 0, xs),
{
    found_module_items(ts, empty_module::<Expression>(), 0)
}

/// What starts like `type Name<a, b> = c` and lacks a part fails for good where that is missing.
pub proof fn type_definition_fails(
    ts: Seq<Token>,
    i: int,
    name: GlobalName,
    name_end: int,
    params: Seq<LocalName>,
    params_end: int,
)
    requires
        token_at(ts, i, TokenKind::Type),
    ensures
        !token_at(ts, i + 1, TokenKind::UppercaseIdentifier) ==> fails_at(item(ts, i), i + 1),
        global_name_at(ts, i + 1, name_end, name) && params_at(ts, name_end, params_end, params)
            && !token_at(ts, params_end, TokenKind::Eq) ==> lacks(
            ts,
            item(ts, i),
            params_end,
            TokenKind::Eq,
        ),
        global_name_at(ts, i + 1, name_end, name) && params_at(ts, name_end, params_end, params)
            && token_at(ts, params_end, TokenKind::Eq) ==> fails_like(
            item(ts, i),
            typ(ts, rules(ts, params_end + 1), params_end + 1),
        ),
{
    broadcast use group_rules;

    if global_name_at(ts, i + 1, name_end, name) {
        read_global_name(ts, i + 1, name_end, name);
        if params_at(ts, name_end, params_end, params) && token_at(ts, name_end, TokenKind::Lt) {
            read_names(ts, name_end + 1, params_end - 1, params);
        }
    }
    reveal(type_params);
    reveal(type_def);
    reveal(item);
}

/// What starts like `dec Name : a` and lacks a part fails for good where that is missing.
pub proof fn declaration_fails(ts: Seq<Token>, i: int, name: GlobalName, name_end: int)
    requires
        token_at(ts, i, TokenKind::Dec),
    ensures
        !token_at(ts, i + 1, TokenKind::UppercaseIdentifier) ==> fails_at(item(ts, i), i + 1),
        global_name_at(ts, i + 1, name_end, name) && !token_at(ts, name_end, TokenKind::Colon)
            ==> lacks(ts, item(ts, i), name_end, TokenKind::Colon),
        global_name_at(ts, i + 1, name_end, name) && token_at(ts, name_end, TokenKind::Colon)
            ==> fails_like(item(ts, i), typ(ts, rules(ts, name_end + 1), name_end + 1)),
{
    broadcast use group_rules;

    if global_name_at(ts, i + 1, name_end, name) {
        read_global_name(ts, i + 1, name_end, name);
    }
    reveal(type_def);
    reveal(declaration);
    reveal(item);
}

/// What starts like `def Name : a = e` and lacks a part other than the type fails for good where
/// that is missing.
pub proof fn definition_fails(
    ts: Seq<Token>,
    i: int,
    name: GlobalName,
    name_end: int,
    a: Option<Type>,
    a_end: int,
)
    requires
        token_at(ts, i, TokenKind::Def),
    ensures
        !token_at(ts, i + 1, TokenKind::UppercaseIdentifier) ==> fails_at(item(ts, i), i + 1),
        global_name_at(ts, i + 1, name_end, name) && annotation_at(ts, name_end, a_end, a)
            && !token_at(ts, a_end, TokenKind::Eq) ==> lacks(
            ts,
            item(ts, i),
            a_end,
            TokenKind::Eq,
        ),
        global_name_at(ts, i + 1, name_end, name) && annotation_at(ts, name_end, a_end, a)
            && token_at(ts, a_end, TokenKind::Eq) ==> fails_like(
            item(ts, i),
            expression(ts, rules(ts, a_end + 1), a_end + 1),
        ),
{
    broadcast use group_rules;

    if global_name_at(ts, i + 1, name_end, name) {
        read_global_name(ts, i + 1, name_end, name);
        if annotation_at(ts, name_end, a_end, a) && token_at(ts, name_end, TokenKind::Colon) {
            ahead_typ(ts, name_end + 1, a_end, a->0);
        }
    }
    reveal(annotation);
    reveal(type_def);
    reveal(declaration);
    reveal(definition);
    reveal(item);
}

/// Whether items stand from `i` to `k`, one after the other.
pub open spec fn items_to(ts: Seq<Token>, i: int, k: int, xs: Seq<Item>) -> bool
    decreases xs.len(),
{
    if xs.len() == 0 {
        i == k
    } else {
        match item(ts, i) {
            Outcome::Done(next, x) => {
                &&& x == xs[0]
                &&& i < next <= ts.len()
                &&& items_to(ts, next, k, xs.drop_first())
            },
            Outcome::Failed { .. } => false,
        }
    }
}

/// Once items were found up to `k`, it is from there that the others are looked for.
proof fn items_go_on(ts: Seq<Token>, before: Module<Expression>, i: int, k: int, xs: Seq<Item>)
    -> (after: Module<Expression>)
    requires
        0 <= i <= ts.len(),
        items_to(ts, i, k, xs),
    ensures
        i <= k <= ts.len(),
        items(ts, before, i) == items(ts, after, k),
    decreases xs.len(),
{
    if xs.len() == 0 {
        before
    } else {
        let next = item(ts, i)->Done_0;
        items_go_on(ts, with_item(before, xs[0]), next, k, xs.drop_first())
    }
}

/// A text that is items up to a place, and there neither ends nor goes on with an item, is no
/// module: the failure is there, where `type`, `dec`, `def` or the end was expected. If an item
/// starts there but fails, the module fails as that does.
pub proof fn module_fails(ts: Seq<Token>, k: int, xs: Seq<Item>)
    requires
        items_to(ts, 0, k, xs),
        k < ts.len(),
    ensures
        !starts_item(ts[k].kind) ==> program(ts) == (Outcome::Failed::<Module<Expression>> {
            cut: false,
            at: k,
            error: seq![
                (
                    ts.len() - k,
                    seq![word("type"), word("dec"), word("def"), described("end of file")],
                ),
            ],
        }),
        item(ts, k) matches Outcome::Failed { cut: true, at, error } ==> program(ts) == (
        Outcome::Failed::<Module<Expression>> { cut: true, at, error }),
{
    let after = items_go_on(ts, empty_module::<Expression>(), 0, k, xs);
    if !starts_item(ts[k].kind) {
        no_item(ts, k);
        let n = ts.len() - k;
        let e1 = with_context(failure_at(n), n, word("type"));
        let e2 = with_context(e1, n, word("dec"));
        let e3 = with_context(e2, n, word("def"));
        let e4 = with_context(e3, n, described("end of file"));
        assert(e1 =~~= seq![(n, seq![word("type")])]);
        assert(e2 =~~= seq![(n, seq![word("type"), word("dec")])]);
        assert(e3 =~~= seq![(n, seq![word("type"), word("dec"), word("def")])]);
        assert(e4 =~~= seq![
            (n, seq![word("type"), word("dec"), word("def"), described("end of file")]),
        ]);
    }
}

} // verus!
