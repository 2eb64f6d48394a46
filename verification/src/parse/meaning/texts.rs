//! What a text comes to that is put together of texts, each of which comes to something as a
//! whole.
use super::super::frame::expressions::carry_expression;
use super::super::frame::patterns::carry_pattern;
use super::super::frame::processes::carry_process;
use super::super::frame::types::carry_typ;
use super::super::frame::{all_carry, ends_all, frame_at, types_carry};
use super::super::grammar::items::{program, Item};
use super::super::grammar::types::{
    typ, typ_branch, typ_branch_receive, typ_branch_then, typ_receive, typ_send,
};
use super::super::grammar::{group_rules, list1, rules};
use super::super::laws::{
    after_commas, all_of_kind, are_types, before_parens, is_type, sent_at_once,
    type_stands_anywhere, type_starts_well, types_after_commas,
};
use super::super::outcome::Outcome;
use super::expressions::let_expression;
use super::items::{declaration_item, definition_item, module_of_one_item, type_definition};
use super::misses::{
    miss_typ_box, miss_typ_branch_recv_type, miss_typ_branch_then, miss_typ_break, miss_typ_chan,
    miss_typ_choice, miss_typ_continue, miss_typ_either, miss_typ_iterative, miss_typ_name,
    miss_typ_recursive, miss_typ_recv_type, miss_typ_self, miss_typ_send, miss_typ_send_type,
    miss_typ_var,
};
use super::processes::let_process;
use super::types::{fold_functions, fold_pairs, functions, pairs};
use super::{expression_at, fails_openly, pattern_at, process_at, token_at, typ_at, typ_branch_at};
use crate::model::{
    Declaration, Definition, Expression, GlobalName, Module, Pattern, Process, Token, Type, TypeDef,
};
use crate::token::TokenKind;
use vstd::prelude::*;

verus! {

/// Whether the tokens, as a whole, are the pattern `p`.
pub open spec fn is_pattern(ts: Seq<Token>, p: Pattern) -> bool {
    pattern_at(ts, 0, ts.len() as int, p)
}

/// Whether the tokens, as a whole, are the expression `e`.
pub open spec fn is_expression(ts: Seq<Token>, e: Expression) -> bool {
    expression_at(ts, 0, ts.len() as int, e)
}

/// Whether the tokens `inner` stand among the tokens `outer` from the place `at` on, before a
/// token that is never taken into what stands before it, or at the end.
spec fn placed(inner: Seq<Token>, outer: Seq<Token>, at: int) -> bool {
    &&& 0 <= at
    &&& at + inner.len() <= outer.len()
    &&& inner == outer.subrange(at, at + inner.len())
    &&& at + inner.len() < outer.len() ==> ends_all(outer[at + inner.len()].kind)
        && outer[at + inner.len()].kind != TokenKind::Type
}

/// What is found in the inner tokens is found in the outer ones.
proof fn placed_carries(inner: Seq<Token>, outer: Seq<Token>, at: int, i: int)
    requires
        placed(inner, outer, at),
        0 <= i <= inner.len(),
    ensures
        forall|j: int, p: Pattern| #[trigger]
            pattern_at(inner, i, j, p) ==> pattern_at(outer, at + i, at + j, p),
        forall|j: int, e: Expression| #[trigger]
            expression_at(inner, i, j, e) ==> expression_at(outer, at + i, at + j, e),
        forall|j: int, q: Process| #[trigger]
            process_at(inner, i, j, q) ==> process_at(outer, at + i, at + j, q),
{
    assert forall|k: int| 0 <= k < inner.len() implies #[trigger] inner[k] == outer[at + k] by {
        assert(outer.subrange(at, at + inner.len())[k] == outer[at + k]);
    }
    all_carry(inner, outer, at, i);
    let f = frame_at(inner, outer, at, i);
    carry_pattern(f, i);
    carry_expression(f, i);
    carry_process(f, i);
    assert(i + at == at + i);
}

/// `let P = E in F`
pub open spec fn let_text(
    kw: Token,
    p: Seq<Token>,
    eq: Token,
    e: Seq<Token>,
    kw_in: Token,
    f: Seq<Token>,
) -> Seq<Token> {
    seq![kw] + p + seq![eq] + e + seq![kw_in] + f
}

/// If `P`, `E` and `F` are, each as a whole, a pattern and two expressions, then
/// `let P = E in F` is, as a whole, the expression that takes that pattern to be the first of
/// them in the second one.
pub proof fn let_text_is_let(
    kw: Token,
    p_text: Seq<Token>,
    eq: Token,
    e_text: Seq<Token>,
    kw_in: Token,
    f_text: Seq<Token>,
    p: Pattern,
    e: Expression,
    f: Expression,
)
    requires
        kw.kind == TokenKind::Let,
        is_pattern(p_text, p),
        eq.kind == TokenKind::Eq,
        is_expression(e_text, e),
        kw_in.kind == TokenKind::In,
        is_expression(f_text, f),
    ensures
        is_expression(
            let_text(kw, p_text, eq, e_text, kw_in, f_text),
            Expression::Let {
                span: kw.span.join(f.span()),
                pattern: p,
                expression: Box::new(e),
                then: Box::new(f),
            },
        ),
{
    let ts = let_text(kw, p_text, eq, e_text, kw_in, f_text);
    let p_end = 1 + p_text.len() as int;
    let e_end = p_end + 1 + e_text.len();
    assert(p_text =~= ts.subrange(1, p_end));
    assert(e_text =~= ts.subrange(p_end + 1, e_end));
    assert(f_text =~= ts.subrange(e_end + 1, ts.len() as int));
    assert(ts[0] == kw && ts[p_end] == eq && ts[e_end] == kw_in);
    placed_carries(p_text, ts, 1, 0);
    placed_carries(e_text, ts, p_end + 1, 0);
    placed_carries(f_text, ts, e_end + 1, 0);
    assert(pattern_at(ts, 1, p_end, p));
    assert(expression_at(ts, p_end + 1, e_end, e));
    assert(expression_at(ts, e_end + 1, ts.len() as int, f));
    let_expression(ts, 0, p, p_end, e, e_end, f, ts.len() as int);
}

/// `let P = E Q`, of which `rest` is `E Q`.
pub open spec fn let_process_text(
    kw: Token,
    p: Seq<Token>,
    eq: Token,
    rest: Seq<Token>,
) -> Seq<Token> {
    seq![kw] + p + seq![eq] + rest
}

/// If `P` is, as a whole, a pattern, and `E Q` is, as a whole, an expression and a process after
/// it, then `let P = E Q` is, as a whole, the process that takes the pattern to be the expression
/// and goes on with the process.
pub proof fn let_process_text_is_let(
    kw: Token,
    p_text: Seq<Token>,
    eq: Token,
    rest: Seq<Token>,
    p: Pattern,
    e: Expression,
    e_end: int,
    q: Process,
)
    requires
        kw.kind == TokenKind::Let,
        is_pattern(p_text, p),
        eq.kind == TokenKind::Eq,
        expression_at(rest, 0, e_end, e),
        process_at(rest, e_end, rest.len() as int, q),
    ensures
        process_at(
            let_process_text(kw, p_text, eq, rest),
            0,
            let_process_text(kw, p_text, eq, rest).len() as int,
            Process::Let {
                span: kw.span.join(e.span()),
                pattern: p,
                value: Box::new(e),
                then: Box::new(q),
            },
        ),
{
    let ts = let_process_text(kw, p_text, eq, rest);
    let p_end = 1 + p_text.len() as int;
    assert(p_text =~= ts.subrange(1, p_end));
    assert(rest =~= ts.subrange(p_end + 1, ts.len() as int));
    assert(ts[0] == kw && ts[p_end] == eq);
    placed_carries(p_text, ts, 1, 0);
    placed_carries(rest, ts, p_end + 1, 0);
    placed_carries(rest, ts, p_end + 1, e_end);
    assert(pattern_at(ts, 1, p_end, p));
    assert(expression_at(ts, p_end + 1, p_end + 1 + e_end, e));
    assert(process_at(ts, p_end + 1 + e_end, ts.len() as int, q));
    let_process(ts, 0, p, p_end, e, p_end + 1 + e_end, Some(q), ts.len() as int);
}

/// Types between commas, in brackets, are the list of these types.
proof fn types_listed(
    open: Token,
    texts: Seq<Seq<Token>>,
    commas: Seq<Token>,
    close: Token,
    rest: Seq<Token>,
    types: Seq<Type>,
) -> (end: int)
    requires
        texts.len() > 0,
        are_types(texts, types),
        all_of_kind(commas, TokenKind::Comma),
        commas.len() >= texts.len() - 1,
        close.kind == TokenKind::RParen || close.kind == TokenKind::RBrack,
    ensures
        ({
            let ts = sent_at_once(open, texts, commas, close, rest);
            &&& 1 < end < ts.len()
            &&& ts.len() == end + 1 + rest.len()
            &&& ts[0] == open
            &&& ts[end] == close
            &&& rest == ts.subrange(end + 1, ts.len() as int)
            &&& !token_at(ts, 1, TokenKind::Type)
            &&& list1(ts, rules(ts, 0).typ, 1) == Outcome::Done(end, types)
        }),
{
    broadcast use group_rules;

    let ts = sent_at_once(open, texts, commas, close, rest);
    let first = texts[0];
    let more = after_commas(texts.skip(1), commas);
    let k = 1 + first.len() as int;
    let end = k + more.len();
    type_starts_well(first, types[0]);
    assert(ts[1] == first[0]);
    assert(ts[end] == close);
    assert(first =~= ts.subrange(1, k));
    assert(more =~= ts.subrange(k, end));
    assert(rest =~= ts.subrange(end + 1, ts.len() as int));
    if texts.len() > 1 {
        assert(more[0] == commas[0]);
        assert(ts[k] == more[0]);
    }
    type_stands_anywhere(first, types[0], ts, 1);
    assert(are_types(texts.skip(1), types.skip(1)));
    types_after_commas(ts, 0, k, texts.skip(1), commas, types.skip(1));
    assert(seq![types[0]] + types.skip(1) =~= types);
    end
}

/// If `A1`, .., `An` and `R` are, each as a whole, types, then `(A1, .., An) R` is, as a whole,
/// the pair of the first of them and of the pair of the second one and so on, down to `R`.
pub proof fn pair_text_is_pairs(
    open: Token,
    texts: Seq<Seq<Token>>,
    commas: Seq<Token>,
    close: Token,
    rest: Seq<Token>,
    types: Seq<Type>,
    last: Type,
)
    requires
        texts.len() > 0,
        are_types(texts, types),
        is_type(rest, last),
        open.kind == TokenKind::LParen,
        all_of_kind(commas, TokenKind::Comma),
        commas.len() >= texts.len() - 1,
        close.kind == TokenKind::RParen,
    ensures
        is_type(
            sent_at_once(open, texts, commas, close, rest),
            pairs(open.span.join(last.span()), types, last),
        ),
{
    broadcast use group_rules;

    let ts = sent_at_once(open, texts, commas, close, rest);
    let r = rules(ts, 0);
    let end = types_listed(open, texts, commas, close, rest, types);
    type_stands_anywhere(rest, last, ts, end + 1);
    fold_pairs(open.span.join(last.span()), types, last);
    reveal(typ_send);
    before_brackets(ts, 0);
    miss_typ_send_type(ts, r, 0);
    reveal(typ);
}

/// If `A1`, .., `An` and `R` are, each as a whole, types, then `[A1, .., An] R` is, as a whole,
/// the function from the first of them to the function from the second one and so on, down to
/// `R`.
pub proof fn function_text_is_functions(
    open: Token,
    texts: Seq<Seq<Token>>,
    commas: Seq<Token>,
    close: Token,
    rest: Seq<Token>,
    types: Seq<Type>,
    last: Type,
)
    requires
        texts.len() > 0,
        are_types(texts, types),
        is_type(rest, last),
        open.kind == TokenKind::LBrack,
        all_of_kind(commas, TokenKind::Comma),
        commas.len() >= texts.len() - 1,
        close.kind == TokenKind::RBrack,
    ensures
        is_type(
            sent_at_once(open, texts, commas, close, rest),
            functions(open.span.join(last.span()), types, last),
        ),
{
    broadcast use group_rules;

    let ts = sent_at_once(open, texts, commas, close, rest);
    let r = rules(ts, 0);
    let end = types_listed(open, texts, commas, close, rest, types);
    type_stands_anywhere(rest, last, ts, end + 1);
    fold_functions(open.span.join(last.span()), types, last);
    reveal(typ_receive);
    before_brackets(ts, 0);
    miss_typ_send_type(ts, r, 0);
    miss_typ_send(ts, r, 0);
    miss_typ_recv_type(ts, r, 0);
    reveal(typ);
}

/// If `A1`, .., `An` and `R` are, each as a whole, types, then the branch `(A1, .., An) => R` of a
/// choice is, as a whole, the function from the first of them to the function from the second one
/// and so on, down to `R`.
pub proof fn choice_text_is_functions(
    open: Token,
    texts: Seq<Seq<Token>>,
    commas: Seq<Token>,
    close: Token,
    arrow: Token,
    rest: Seq<Token>,
    types: Seq<Type>,
    last: Type,
)
    requires
        texts.len() > 0,
        are_types(texts, types),
        is_type(rest, last),
        open.kind == TokenKind::LParen,
        all_of_kind(commas, TokenKind::Comma),
        commas.len() >= texts.len() - 1,
        close.kind == TokenKind::RParen,
        arrow.kind == TokenKind::FatArrow,
    ensures
        typ_branch_at(
            sent_at_once(open, texts, commas, close, seq![arrow] + rest),
            0,
            sent_at_once(open, texts, commas, close, seq![arrow] + rest).len() as int,
            functions(open.span.join(last.span()), types, last),
        ),
{
    broadcast use group_rules;

    let ts = sent_at_once(open, texts, commas, close, seq![arrow] + rest);
    let r = rules(ts, 0);
    let end = types_listed(open, texts, commas, close, seq![arrow] + rest, types);
    let after = end + 1;
    assert(ts.subrange(after, ts.len() as int)[0] == arrow);
    assert(rest =~= ts.subrange(after + 1, ts.len() as int)) by {
        assert forall|k: int| 0 <= k < rest.len() implies #[trigger] rest[k] == ts[after + 1
            + k] by {
            assert((seq![arrow] + rest)[1 + k] == rest[k]);
            assert(ts.subrange(after, ts.len() as int)[1 + k] == ts[after + 1 + k]);
        }
    }
    type_stands_anywhere(rest, last, ts, after + 1);
    assert(typ_branch(ts, rules(ts, after), after) == Outcome::Done(ts.len() as int, last)) by {
        reveal(typ_branch_then);
        reveal(typ_branch);
    }
    fold_functions(open.span.join(last.span()), types, last);
    reveal(typ_branch_receive);
    miss_typ_branch_then(ts, r, 0);
    miss_typ_branch_recv_type(ts, r, 0);
    reveal(typ_branch);
}

/// A bracket starts none of the types that are tried before those in brackets.
proof fn before_brackets(ts: Seq<Token>, i: int)
    requires
        token_at(ts, i, TokenKind::LParen) || token_at(ts, i, TokenKind::LBrack),
    ensures
        ({
            let r = rules(ts, i);
            fails_openly(before_parens(ts, r, i))
        }),
{
    let r = rules(ts, i);
    miss_typ_var(ts, i);
    miss_typ_name(ts, r, i);
    miss_typ_box(ts, r, i);
    miss_typ_chan(ts, r, i);
    miss_typ_either(ts, r, i);
    miss_typ_choice(ts, r, i);
    miss_typ_break(ts, i);
    miss_typ_continue(ts, i);
    miss_typ_recursive(ts, r, i);
    miss_typ_iterative(ts, r, i);
    miss_typ_self(ts, i);
}

/// `type Name = T`, with the name in one word.
pub open spec fn type_def_text(kw: Token, name: Token, eq: Token, rest: Seq<Token>) -> Seq<Token> {
    seq![kw, name, eq] + rest
}

/// A name in one word.
pub open spec fn one_word(name: Token) -> GlobalName {
    GlobalName { span: name.span, module: None, primary: name.raw }
}

/// If `T` is, as a whole, a type, then `type Name = T` is, as a whole, the module with that
/// definition of a type, without parameters, and nothing else.
pub proof fn type_def_text_is_module(
    kw: Token,
    name: Token,
    eq: Token,
    rest: Seq<Token>,
    x: Type,
)
    requires
        kw.kind == TokenKind::Type,
        name.kind == TokenKind::UppercaseIdentifier,
        eq.kind == TokenKind::Eq,
        is_type(rest, x),
    ensures
        program(type_def_text(kw, name, eq, rest)) == Outcome::Done(
            3 + rest.len() as int,
            (Module::<Expression> {
                type_defs: seq![
                    TypeDef {
                        span: kw.span.join(x.span()),
                        name: one_word(name),
                        params: Seq::empty(),
                        typ: x,
                    },
                ],
                declarations: Seq::empty(),
                definitions: Seq::empty(),
            }),
        ),
{
    let ts = type_def_text(kw, name, eq, rest);
    assert(ts[0] == kw && ts[1] == name && ts[2] == eq);
    assert(rest =~= ts.subrange(3, ts.len() as int));
    type_stands_anywhere(rest, x, ts, 3);
    type_definition(ts, 0, one_word(name), 2, Seq::empty(), 2, x, ts.len() as int);
    let def = TypeDef {
        span: kw.span.join(x.span()),
        name: one_word(name),
        params: Seq::empty(),
        typ: x,
    };
    module_of_one_item(ts, Item::TypeDef(def));
}

/// If `T` is, as a whole, a type, then `dec Name : T` is, as a whole, the module with that
/// declaration and nothing else.
pub proof fn dec_text_is_module(kw: Token, name: Token, colon: Token, rest: Seq<Token>, x: Type)
    requires
        kw.kind == TokenKind::Dec,
        name.kind == TokenKind::UppercaseIdentifier,
        colon.kind == TokenKind::Colon,
        is_type(rest, x),
    ensures
        program(type_def_text(kw, name, colon, rest)) == Outcome::Done(
            3 + rest.len() as int,
            (Module::<Expression> {
                type_defs: Seq::empty(),
                declarations: seq![
                    Declaration { span: kw.span.join(x.span()), name: one_word(name), typ: x },
                ],
                definitions: Seq::empty(),
            }),
        ),
{
    let ts = type_def_text(kw, name, colon, rest);
    assert(ts[0] == kw && ts[1] == name && ts[2] == colon);
    assert(rest =~= ts.subrange(3, ts.len() as int));
    type_stands_anywhere(rest, x, ts, 3);
    declaration_item(ts, 0, one_word(name), 2, x, ts.len() as int);
    let dec = Declaration { span: kw.span.join(x.span()), name: one_word(name), typ: x };
    module_of_one_item(ts, Item::Declaration(dec));
}

/// If `E` is, as a whole, an expression, then `def Name = E` is, as a whole, the module with that
/// definition and nothing else.
pub proof fn def_text_is_module(
    kw: Token,
    name: Token,
    eq: Token,
    rest: Seq<Token>,
    e: Expression,
)
    requires
        kw.kind == TokenKind::Def,
        name.kind == TokenKind::UppercaseIdentifier,
        eq.kind == TokenKind::Eq,
        is_expression(rest, e),
    ensures
        program(type_def_text(kw, name, eq, rest)) == Outcome::Done(
            3 + rest.len() as int,
            (Module::<Expression> {
                type_defs: Seq::empty(),
                declarations: Seq::empty(),
                definitions: seq![
                    Definition {
                        span: kw.span.join(e.span()),
                        name: one_word(name),
                        expression: e,
                    },
                ],
            }),
        ),
{
    let ts = type_def_text(kw, name, eq, rest);
    assert(ts[0] == kw && ts[1] == name && ts[2] == eq);
    assert(rest =~= ts.subrange(3, ts.len() as int));
    placed_carries(rest, ts, 3, 0);
    assert(expression_at(ts, 3, ts.len() as int, e));
    definition_item(ts, 0, one_word(name), 2, None, 2, e, ts.len() as int);
    let def = Definition { span: kw.span.join(e.span()), name: one_word(name), expression: e };
    module_of_one_item(ts, Item::Definition(def, None));
}

/// `def Name : T = E`, with the name in one word.
pub open spec fn annotated_def_text(
    kw: Token,
    name: Token,
    colon: Token,
    t: Seq<Token>,
    eq: Token,
    rest: Seq<Token>,
) -> Seq<Token> {
    seq![kw, name, colon] + t + seq![eq] + rest
}

/// If `T` and `E` are, each as a whole, a type and an expression, then `def Name : T = E` is, as a
/// whole, the module with that definition, the declaration of its type, and nothing else.
pub proof fn annotated_def_text_is_module(
    kw: Token,
    name: Token,
    colon: Token,
    t: Seq<Token>,
    eq: Token,
    rest: Seq<Token>,
    x: Type,
    e: Expression,
)
    requires
        kw.kind == TokenKind::Def,
        name.kind == TokenKind::UppercaseIdentifier,
        colon.kind == TokenKind::Colon,
        is_type(t, x),
        eq.kind == TokenKind::Eq,
        is_expression(rest, e),
    ensures
        program(annotated_def_text(kw, name, colon, t, eq, rest)) == Outcome::Done(
            4 + t.len() as int + rest.len(),
            (Module::<Expression> {
                type_defs: Seq::empty(),
                declarations: seq![
                    Declaration { span: kw.span.join(e.span()), name: one_word(name), typ: x },
                ],
                definitions: seq![
                    Definition {
                        span: kw.span.join(e.span()),
                        name: one_word(name),
                        expression: e,
                    },
                ],
            }),
        ),
{
    let ts = annotated_def_text(kw, name, colon, t, eq, rest);
    let end = 3 + t.len() as int;
    assert(ts[0] == kw && ts[1] == name && ts[2] == colon && ts[end] == eq);
    assert(rest =~= ts.subrange(end + 1, ts.len() as int));
    assert forall|k: int| 0 <= k < t.len() implies #[trigger] t[k] == ts[3 + k] by {}
    types_carry(t, ts, 3, 0);
    carry_typ(frame_at(t, ts, 3, 0), 0);
    assert(typ_at(ts, 3, end, x));
    placed_carries(rest, ts, end + 1, 0);
    assert(expression_at(ts, end + 1, ts.len() as int, e));
    definition_item(ts, 0, one_word(name), 2, Some(x), end, e, ts.len() as int);
    let def = Definition { span: kw.span.join(e.span()), name: one_word(name), expression: e };
    module_of_one_item(ts, Item::Definition(def, Some(x)));
}

} // verus!
