//! What holds of the grammar as a whole.
use super::bytes_of;
use super::error::{failure_at, with_context, StrContext};
use super::frame::items::carry_item;
use super::frame::types::carry_typ;
use super::frame::{ends_at_item, frame_at, opens, stands_in, types_carry};
use super::grammar::expressions::{integer_value, literal_bytes_inner, literal_int};
use super::grammar::items::{
    declaration, definition, item, items, program, type_def, with_item, word, Item,
};
use super::grammar::types::{
    pair_step, typ, typ_box, typ_branch, typ_branch_recv_type, typ_branch_then, typ_break, typ_chan,
    typ_choice, typ_continue, typ_either, typ_iterative, typ_name, typ_recursive, typ_recv_type,
    typ_self, typ_receive, typ_send, typ_send_type, typ_var,
};
use super::grammar::{
    branch_row, branch_rows, branches_body, described, group_rules, list1, more_items, rules, Rules,
};
use super::outcome::Outcome;
use super::places::{places_do_not_matter, same_text};
use crate::branches::{inserted, inserted_sorted, sorted};
use crate::model::{Declaration, Definition, Expression, LocalName, Module, Span, Token, Type};
use crate::program::empty_module;
use crate::token::TokenKind;
use vstd::prelude::*;

verus! {

/// Whether a kind of tokens is one that an item of a module starts with.
pub open spec fn starts_item(kind: TokenKind) -> bool {
    kind == TokenKind::Type || kind == TokenKind::Dec || kind == TokenKind::Def
}

/// Where no item starts there is none, and another alternative may be tried.
pub proof fn no_item(ts: Seq<Token>, i: int)
    requires
        0 <= i <= ts.len(),
        i < ts.len() ==> !starts_item(ts[i].kind),
    ensures
        item(ts, i) matches Outcome::Failed { cut: false, .. },
{
    reveal(item);
    reveal(type_def);
    reveal(declaration);
    reveal(definition);
}

/// Where an item starts there is one, or an error that rules out anything else.
pub proof fn item_is_committed(ts: Seq<Token>, i: int)
    requires
        0 <= i < ts.len(),
        starts_item(ts[i].kind),
    ensures
        !(item(ts, i) matches Outcome::Failed { cut: false, .. }),
{
    reveal(item);
    reveal(type_def);
    reveal(declaration);
    reveal(definition);
}

/// No tokens are a module with nothing in it.
pub proof fn empty_program()
    ensures
        program(Seq::empty()) == Outcome::Done(0, empty_module::<Expression>()),
{
    no_item(Seq::empty(), 0);
}

/// Tokens that are a module are one as a whole: none is left over.
pub proof fn program_takes_all(ts: Seq<Token>)
    ensures
        (program(ts) matches Outcome::Done(end, _) ==> end == ts.len()),
{
}

/// Tokens that do not start with an item are no module. What was expected there is an item,
/// or the end.
pub proof fn program_starts_with_item(ts: Seq<Token>)
    requires
        ts.len() > 0,
        !starts_item(ts[0].kind),
    ensures
        program(ts) == (Outcome::Failed::<Module<Expression>> {
            cut: false,
            at: 0,
            error: seq![
                (
                    ts.len() as int,
                    seq![word("type"), word("dec"), word("def"), described("end of file")],
                ),
            ],
        }),
{
    no_item(ts, 0);
    let n = ts.len() as int;
    let e1 = with_context(failure_at(n), n, word("type"));
    let e2 = with_context(e1, n, word("dec"));
    let e3 = with_context(e2, n, word("def"));
    let e4 = with_context(e3, n, described("end of file"));
    assert(e1 =~~= seq![(n, seq![word("type")])]);
    assert(e2 =~~= seq![(n, seq![word("type"), word("dec")])]);
    assert(e3 =~~= seq![(n, seq![word("type"), word("dec"), word("def")])]);
    assert(e4 =~~= seq![
        (n, seq![word("type"), word("dec"), word("def"), described("end of file")]),
    ]);
}

/// A module with what is in `a`, and then what is in `b`.
pub open spec fn joined(a: Module<Expression>, b: Module<Expression>) -> Module<Expression> {
    Module {
        type_defs: a.type_defs + b.type_defs,
        declarations: a.declarations + b.declarations,
        definitions: a.definitions + b.definitions,
    }
}

/// The tokens of two modules, one after the other, are a module with what is in the first, and
/// then what is in the second.
pub proof fn program_joins(first: Seq<Token>, second: Seq<Token>)
    requires
        program(first) is Done,
        program(second) is Done,
    ensures
        program(first + second) == Outcome::Done(
            (first.len() + second.len()) as int,
            joined(program(first)->Done_1, program(second)->Done_1),
        ),
{
    let all = first + second;
    let n = first.len() as int;
    let nothing = empty_module::<Expression>();
    let m1 = program(first)->Done_1;
    let m2 = program(second)->Done_1;
    if second.len() > 0 && !starts_item(second[0].kind) {
        program_starts_with_item(second);
    }
    assert(stands_in(first, first, 0));
    assert(items(first, nothing, 0) == Outcome::Done(n, m1));
    assert(items(second, nothing, 0) == Outcome::Done(second.len() as int, m2));
    if first.len() > 0 {
        items_end_well(first, nothing, 0);
    }
    assert(stands_in(first, all, 0));
    assert(stands_in(second, all, n));
    assert(joined(nothing, nothing) == nothing);
    assert(joined(nothing, m1) == m1);
    assert(joined(m1, nothing) == m1);
    items_join(first, all, 0, nothing, nothing, 0);
    items_join(second, all, n, m1, nothing, 0);
    no_item(all, all.len() as int);
    assert(items(all, joined(m1, m2), all.len() as int) == Outcome::Done(
        all.len() as int,
        joined(m1, m2),
    ));
}

/// Items do not end with a token that opens something.
proof fn items_end_well(ts: Seq<Token>, before: Module<Expression>, i: int)
    requires
        0 <= i < ts.len(),
        (items(ts, before, i) matches Outcome::Done(end, _) && end == ts.len()),
    ensures
        !opens(ts.last().kind),
    decreases ts.len() - i,
{
    assert(stands_in(ts, ts, 0));
    carry_item(ts, ts, 0, i);
    if let Outcome::Done(j, it) = item(ts, i) {
        if j < ts.len() {
            items_end_well(ts, with_item(before, it), j);
        }
    }
}

/// Items that are all that some tokens are come to the same after other items.
proof fn items_join(
    inner: Seq<Token>,
    outer: Seq<Token>,
    offset: int,
    other: Module<Expression>,
    before: Module<Expression>,
    i: int,
)
    requires
        stands_in(inner, outer, offset),
        ends_at_item(inner, outer, offset),
        0 <= i <= inner.len(),
        (items(inner, before, i) matches Outcome::Done(end, _) && end == inner.len()),
    ensures
        items(outer, joined(other, before), i + offset) == items(
            outer,
            joined(other, items(inner, before, i)->Done_1),
            inner.len() + offset,
        ),
    decreases inner.len() - i,
{
    if i < inner.len() {
        carry_item(inner, outer, offset, i);
        if let Outcome::Done(j, it) = item(inner, i) {
            let next = with_item(before, it);
            assert(with_item(joined(other, before), it) == joined(other, next));
            items_join(inner, outer, offset, other, next, j);
        }
    } else {
        no_item(inner, i);
    }
}

/// A definition that is annotated with a type is also a declaration, with the same name and
/// at the same place.
pub proof fn annotated_definition_declares(
    module: Module<Expression>,
    def: Definition<Expression>,
    typ: Type,
)
    ensures
        with_item(module, Item::Definition(def, Some(typ))).definitions == with_item(
            module,
            Item::Definition(def, None),
        ).definitions,
        with_item(module, Item::Definition(def, Some(typ))).declarations == with_item(
            module,
            Item::Declaration(Declaration { span: def.span, name: def.name, typ }),
        ).declarations,
{
}

/// Whether two tokens of these kinds stand at `i`.
pub open spec fn stands_at(ts: Seq<Token>, i: int, first: TokenKind, second: TokenKind) -> bool {
    &&& 0 <= i
    &&& i + 1 < ts.len()
    &&& ts[i].kind == first
    &&& ts[i + 1].kind == second
}

/// A type that starts with `(type` is one that sends a type, whatever follows.
pub proof fn send_type_is_unambiguous(ts: Seq<Token>, r: Rules, i: int)
    requires
        stands_at(ts, i, TokenKind::LParen, TokenKind::Type),
    ensures
        typ(ts, r, i) == typ_send_type(ts, r, i).context(ts.len(), StrContext::Label("type")),
{
    let sent = typ_send_type(ts, r, i);
    assert(!(sent matches Outcome::Failed { cut: false, .. })) by {
        reveal(typ_send_type);
    }
    let before = before_parens(ts, r, i);
    assert(before matches Outcome::Failed { cut: false, .. }) by {
        no_type_before_parens(ts, r, i);
    }
    reveal(typ);
}

/// A type that starts with `[type` is one that receives a type, whatever follows.
pub proof fn receive_type_is_unambiguous(ts: Seq<Token>, r: Rules, i: int)
    requires
        stands_at(ts, i, TokenKind::LBrack, TokenKind::Type),
    ensures
        typ(ts, r, i) == typ_recv_type(ts, r, i).context(ts.len(), StrContext::Label("type")),
{
    let received = typ_recv_type(ts, r, i);
    assert(!(received matches Outcome::Failed { cut: false, .. })) by {
        reveal(typ_recv_type);
    }
    assert(typ_send_type(ts, r, i) matches Outcome::Failed { cut: false, .. }) by {
        reveal(typ_send_type);
    }
    assert(typ_send(ts, r, i) matches Outcome::Failed { cut: false, .. }) by {
        reveal(typ_send);
    }
    let before = before_parens(ts, r, i);
    assert(before matches Outcome::Failed { cut: false, .. }) by {
        no_type_before_parens(ts, r, i);
    }
    reveal(typ);
}

/// A branch of a choice that starts with `(type` is one that receives a type, whatever
/// follows.
pub proof fn branch_type_is_unambiguous(ts: Seq<Token>, r: Rules, i: int)
    requires
        stands_at(ts, i, TokenKind::LParen, TokenKind::Type),
    ensures
        typ_branch(ts, r, i) == typ_branch_recv_type(ts, r, i),
{
    reveal(typ_branch);
    reveal(typ_branch_then);
    reveal(typ_branch_recv_type);
}

/// Whether tokens are, as a whole, the type `t`.
pub open spec fn is_type(ts: Seq<Token>, t: Type) -> bool {
    typ(ts, rules(ts, 0), 0) == Outcome::Done(ts.len() as int, t)
}

/// Whether there are as many texts as types, and each is the type at its place.
pub open spec fn are_types(texts: Seq<Seq<Token>>, types: Seq<Type>) -> bool {
    &&& texts.len() == types.len()
    &&& forall|k: int| 0 <= k < texts.len() ==> is_type(#[trigger] texts[k], types[k])
}

/// Whether all tokens are of the kind `kind`.
pub open spec fn all_of_kind(ts: Seq<Token>, kind: TokenKind) -> bool {
    forall|k: int| 0 <= k < ts.len() ==> (#[trigger] ts[k]).kind == kind
}

/// Texts, each after a comma.
pub open spec fn after_commas(texts: Seq<Seq<Token>>, commas: Seq<Token>) -> Seq<Token>
    decreases texts.len(),
{
    if texts.len() == 0 {
        Seq::empty()
    } else {
        seq![commas[0]] + texts[0] + after_commas(texts.skip(1), commas.skip(1))
    }
}

/// `(A1, .., An) R`
pub open spec fn sent_at_once(
    open: Token,
    texts: Seq<Seq<Token>>,
    commas: Seq<Token>,
    close: Token,
    rest: Seq<Token>,
) -> Seq<Token> {
    seq![open] + texts[0] + after_commas(texts.skip(1), commas) + seq![close] + rest
}

/// `(A1) .. (An) R`
pub open spec fn sent_in_turn(
    opens: Seq<Token>,
    texts: Seq<Seq<Token>>,
    closes: Seq<Token>,
    rest: Seq<Token>,
) -> Seq<Token>
    decreases texts.len(),
{
    if texts.len() == 0 {
        rest
    } else {
        seq![opens[0]] + texts[0] + seq![closes[0]] + sent_in_turn(
            opens.skip(1),
            texts.skip(1),
            closes.skip(1),
            rest,
        )
    }
}

/// The type of what is sent in turn: pairs, each from its parenthesis to the end.
pub open spec fn pairs_in_turn(opens: Seq<Token>, types: Seq<Type>, rest: Type) -> Type
    decreases types.len(),
{
    if types.len() == 0 {
        rest
    } else {
        let next = pairs_in_turn(opens.skip(1), types.skip(1), rest);
        Type::Pair(opens[0].span.join(next.span()), Box::new(types[0]), Box::new(next))
    }
}

/// Tokens that are a type are that type wherever they stand before a comma, before a closing
/// bracket, or at the end.
pub proof fn type_stands_anywhere(ts: Seq<Token>, t: Type, outer: Seq<Token>, at: int)
    requires
        is_type(ts, t),
        0 <= at,
        at + ts.len() <= outer.len(),
        ts == outer.subrange(at, at + ts.len()),
        at + ts.len() < outer.len() ==> outer[at + ts.len()].kind == TokenKind::Comma
            || outer[at + ts.len()].kind == TokenKind::RParen || outer[at + ts.len()].kind
            == TokenKind::RBrack,
    ensures
        typ(outer, rules(outer, at), at) == Outcome::Done(at + ts.len(), t),
{
    assert forall|i: int| 0 <= i < ts.len() implies #[trigger] ts[i] == outer[at + i] by {
        assert(outer.subrange(at, at + ts.len())[i] == outer[at + i]);
    }
    types_carry(ts, outer, at, 0);
    carry_typ(frame_at(ts, outer, at, 0), 0);
}

/// A type has a token, and does not start with the word `type`.
pub(crate) proof fn type_starts_well(ts: Seq<Token>, t: Type)
    requires
        is_type(ts, t),
    ensures
        ts.len() > 0,
        ts[0].kind != TokenKind::Type,
{
    assert(stands_in(ts, ts, 0));
    types_carry(ts, ts, 0, 0);
    carry_typ(frame_at(ts, ts, 0, 0), 0);
    if ts[0].kind == TokenKind::Type {
        let r = rules(ts, 0);
        assert(before_parens(ts, r, 0) matches Outcome::Failed { cut: false, .. }) by {
            reveal(typ_var);
            reveal(typ_name);
            reveal(typ_box);
            reveal(typ_chan);
            reveal(typ_either);
            reveal(typ_choice);
            reveal(typ_break);
            reveal(typ_continue);
            reveal(typ_recursive);
            reveal(typ_iterative);
            reveal(typ_self);
        }
        reveal(typ_send_type);
        reveal(typ_send);
        reveal(typ_recv_type);
        reveal(typ_receive);
        reveal(typ);
    }
}

/// Types after commas, before a closing bracket, are items of a list.
pub(crate) proof fn types_after_commas(
    ts: Seq<Token>,
    from: int,
    at: int,
    texts: Seq<Seq<Token>>,
    commas: Seq<Token>,
    types: Seq<Type>,
)
    requires
        are_types(texts, types),
        all_of_kind(commas, TokenKind::Comma),
        commas.len() >= texts.len(),
        0 <= from < at,
        at + after_commas(texts, commas).len() < ts.len(),
        after_commas(texts, commas) == ts.subrange(at, at + after_commas(texts, commas).len()),
        ts[at + after_commas(texts, commas).len()].kind == TokenKind::RParen || ts[at
            + after_commas(texts, commas).len()].kind == TokenKind::RBrack,
    ensures
        more_items(ts, rules(ts, from).typ, at) == Outcome::Done(
            at + after_commas(texts, commas).len(),
            types,
        ),
    decreases texts.len(),
{
    broadcast use group_rules;

    let item = rules(ts, from).typ;
    let all = after_commas(texts, commas);
    let end = at + all.len();
    if texts.len() == 0 {
        assert(types =~= Seq::empty());
    } else {
        let first = texts[0];
        let more = after_commas(texts.skip(1), commas.skip(1));
        let k = at + 1 + first.len();
        assert(all == seq![commas[0]] + first + more);
        assert(ts[at] == all[0]);
        assert(first =~= ts.subrange(at + 1, k)) by {
            assert forall|i: int| 0 <= i < first.len() implies first[i] == ts.subrange(
                at + 1,
                k,
            )[i] by {
                assert(all[1 + i] == first[i]);
                assert(ts.subrange(at, end)[1 + i] == ts[at + 1 + i]);
            }
        }
        assert(more =~= ts.subrange(k, end)) by {
            assert forall|i: int| 0 <= i < more.len() implies more[i] == ts.subrange(k, end)[i] by {
                assert(all[1 + first.len() + i] == more[i]);
                assert(ts.subrange(at, end)[1 + first.len() + i] == ts[k + i]);
            }
        }
        if texts.len() > 1 {
            assert(more[0] == commas[1]);
            assert(ts[k] == more[0]);
        }
        type_stands_anywhere(first, types[0], ts, at + 1);
        type_starts_well(first, types[0]);
        assert(are_types(texts.skip(1), types.skip(1)));
        types_after_commas(ts, from, k, texts.skip(1), commas.skip(1), types.skip(1));
        assert(seq![types[0]] + types.skip(1) =~= types);
    }
}

/// Types between commas in parentheses, before a type, are pairs that nest to the right, the
/// first type outermost. Each pair is at the same place: from the parenthesis to the end.
pub proof fn sent_at_once_nests(
    open: Token,
    texts: Seq<Seq<Token>>,
    commas: Seq<Token>,
    close: Token,
    rest: Seq<Token>,
    types: Seq<Type>,
    last: Type,
)
    requires
        texts.len() > 0,
        are_types(texts, types),
        is_type(rest, last),
        open.kind == TokenKind::LParen,
        all_of_kind(commas, TokenKind::Comma),
        commas.len() >= texts.len() - 1,
        close.kind == TokenKind::RParen,
    ensures
        is_type(
            sent_at_once(open, texts, commas, close, rest),
            types.fold_right(pair_step(open.span.join(last.span())), last),
        ),
{
    broadcast use group_rules;

    let ts = sent_at_once(open, texts, commas, close, rest);
    let first = texts[0];
    let more = after_commas(texts.skip(1), commas);
    let r = rules(ts, 0);
    let k = 1 + first.len() as int;
    let end = k + more.len();
    type_starts_well(first, types[0]);
    assert(ts[0] == open);
    assert(ts[1] == first[0]);
    assert(ts[end] == close);
    assert(first =~= ts.subrange(1, k));
    assert(more =~= ts.subrange(k, end));
    assert(rest =~= ts.subrange(end + 1, ts.len() as int));
    if texts.len() > 1 {
        assert(more[0] == commas[0]);
        assert(ts[k] == more[0]);
    }
    type_stands_anywhere(first, types[0], ts, 1);
    assert(are_types(texts.skip(1), types.skip(1)));
    types_after_commas(ts, 0, k, texts.skip(1), commas, types.skip(1));
    assert(seq![types[0]] + types.skip(1) =~= types);
    assert(list1(ts, r.typ, 1) == Outcome::Done(end, types));
    type_stands_anywhere(rest, last, ts, end + 1);
    assert(typ_send(ts, r, 0) == Outcome::Done(
        ts.len() as int,
        types.fold_right(pair_step(open.span.join(last.span())), last),
    )) by {
        reveal(typ_send);
    }
    assert(typ_send_type(ts, r, 0) matches Outcome::Failed { cut: false, .. }) by {
        reveal(typ_send_type);
    }
    no_type_before_parens(ts, r, 0);
    reveal(typ);
}

/// Types, each in parentheses of its own, before a type, are pairs that nest to the right, the
/// first type outermost.
pub proof fn sent_in_turn_nests(
    opens: Seq<Token>,
    texts: Seq<Seq<Token>>,
    closes: Seq<Token>,
    rest: Seq<Token>,
    types: Seq<Type>,
    last: Type,
)
    requires
        are_types(texts, types),
        is_type(rest, last),
        all_of_kind(opens, TokenKind::LParen),
        opens.len() >= texts.len(),
        all_of_kind(closes, TokenKind::RParen),
        closes.len() >= texts.len(),
    ensures
        is_type(
            sent_in_turn(opens, texts, closes, rest),
            pairs_in_turn(opens, types, last),
        ),
    decreases texts.len(),
{
    if texts.len() > 0 {
        let next = sent_in_turn(opens.skip(1), texts.skip(1), closes.skip(1), rest);
        let nested = pairs_in_turn(opens.skip(1), types.skip(1), last);
        assert(are_types(texts.skip(1), types.skip(1)));
        sent_in_turn_nests(
            opens.skip(1),
            texts.skip(1),
            closes.skip(1),
            rest,
            types.skip(1),
            last,
        );
        let one = seq![texts[0]];
        let none = Seq::<Token>::empty();
        assert(one.skip(1) =~= Seq::empty());
        assert(are_types(one, seq![types[0]]));
        sent_at_once_nests(opens[0], one, none, closes[0], next, seq![types[0]], nested);
        assert(sent_at_once(opens[0], one, none, closes[0], next) =~= sent_in_turn(
            opens,
            texts,
            closes,
            rest,
        ));
        let step = pair_step(opens[0].span.join(nested.span()));
        reveal_with_fuel(Seq::fold_right, 2);
        assert(seq![types[0]].drop_last() =~= Seq::empty());
        assert(seq![types[0]].fold_right(step, nested) == step(types[0], nested));
    }
}

/// Whether types are the same but for the places of their parts.
pub open spec fn same_but_places(a: Seq<Type>, b: Seq<Type>) -> bool {
    &&& a.len() == b.len()
    &&& forall|k: int| 0 <= k < a.len() ==> (#[trigger] a[k]).placeless() == b[k].placeless()
}

/// Whether texts are the same but for the places where their tokens stand.
pub open spec fn same_texts(a: Seq<Seq<Token>>, b: Seq<Seq<Token>>) -> bool {
    &&& a.len() == b.len()
    &&& forall|k: int| 0 <= k < a.len() ==> same_text(#[trigger] a[k], b[k])
}

/// The type that tokens are as a whole, if they are one.
pub open spec fn type_of(ts: Seq<Token>) -> Type {
    typ(ts, rules(ts, 0), 0)->Done_1
}

/// Where `A1` to `An` and `R` are types, `(A1, .., An) R` and `(A1) .. (An) R` are the same type
/// but for the places of its parts.
pub proof fn sent_at_once_or_in_turn(
    open: Token,
    texts: Seq<Seq<Token>>,
    commas: Seq<Token>,
    close: Token,
    rest: Seq<Token>,
    opens: Seq<Token>,
    turn_texts: Seq<Seq<Token>>,
    closes: Seq<Token>,
    turn_rest: Seq<Token>,
)
    requires
        texts.len() > 0,
        forall|k: int|
            0 <= k < texts.len() ==> is_type(#[trigger] texts[k], type_of(texts[k])),
        is_type(rest, type_of(rest)),
        same_texts(texts, turn_texts),
        same_text(rest, turn_rest),
        open.kind == TokenKind::LParen,
        all_of_kind(commas, TokenKind::Comma),
        commas.len() >= texts.len() - 1,
        close.kind == TokenKind::RParen,
        all_of_kind(opens, TokenKind::LParen),
        opens.len() >= texts.len(),
        all_of_kind(closes, TokenKind::RParen),
        closes.len() >= texts.len(),
    ensures
        ({
            let once = sent_at_once(open, texts, commas, close, rest);
            let turn = sent_in_turn(opens, turn_texts, closes, turn_rest);
            &&& is_type(once, type_of(once))
            &&& is_type(turn, type_of(turn))
            &&& type_of(once).placeless() == type_of(turn).placeless()
        }),
{
    let last = type_of(rest);
    let turn_last = type_of(turn_rest);
    let types = Seq::new(texts.len(), |k: int| type_of(texts[k]));
    let turn_types = Seq::new(texts.len(), |k: int| type_of(turn_texts[k]));
    assert forall|k: int| 0 <= k < texts.len() implies is_type(
        #[trigger] turn_texts[k],
        turn_types[k],
    ) && types[k].placeless() == turn_types[k].placeless() by {
        assert(is_type(texts[k], type_of(texts[k])));
        assert(same_text(texts[k], turn_texts[k]));
        places_do_not_matter(texts[k], turn_texts[k], 0);
    }
    places_do_not_matter(rest, turn_rest, 0);
    assert(are_types(texts, types));
    assert(are_types(turn_texts, turn_types));
    sent_at_once_nests(open, texts, commas, close, rest, types, last);
    sent_in_turn_nests(opens, turn_texts, closes, turn_rest, turn_types, turn_last);
    let span = open.span.join(last.span());
    pairs_without_places(span, types, last, opens, turn_types, turn_last);
}

/// Pairs that nest to the right are the same but for places, wherever each of them is.
proof fn pairs_without_places(
    span: Span,
    types: Seq<Type>,
    last: Type,
    opens: Seq<Token>,
    turn_types: Seq<Type>,
    turn_last: Type,
)
    requires
        same_but_places(types, turn_types),
        last.placeless() == turn_last.placeless(),
    ensures
        types.fold_right(pair_step(span), last).placeless() == pairs_in_turn(
            opens,
            turn_types,
            turn_last,
        ).placeless(),
    decreases types.len(),
{
    let step = pair_step(span);
    types.lemma_fold_right_alt(step, last);
    if types.len() > 0 {
        let more = types.skip(1);
        assert(types.subrange(1, types.len() as int) =~= more);
        more.lemma_fold_right_alt(step, last);
        pairs_without_places(span, more, last, opens.skip(1), turn_types.skip(1), turn_last);
        assert(types[0].placeless() == turn_types[0].placeless());
        assert(types.fold_right(step, last) == step(types[0], more.fold_right(step, last)));
    }
}

/// The types that are tried before those in parentheses and brackets.
pub open spec fn before_parens(ts: Seq<Token>, r: Rules, i: int) -> Outcome<Type> {
    typ_var(ts, i)
        .or(typ_name(ts, r, i))
        .or(typ_box(ts, r, i))
        .or(typ_chan(ts, r, i))
        .or(typ_either(ts, r, i))
        .or(typ_choice(ts, r, i))
        .or(typ_break(ts, i))
        .or(typ_continue(ts, i))
        .or(typ_recursive(ts, r, i))
        .or(typ_iterative(ts, r, i))
        .or(typ_self(ts, i))
}

/// Parentheses and brackets leave room for the types that start with them.
proof fn no_type_before_parens(ts: Seq<Token>, r: Rules, i: int)
    requires
        0 <= i < ts.len(),
        ts[i].kind == TokenKind::LParen || ts[i].kind == TokenKind::LBrack,
    ensures
        (before_parens(ts, r, i) matches Outcome::Failed { cut: false, .. }),
{
    reveal(typ_var);
    reveal(typ_name);
    reveal(typ_box);
    reveal(typ_chan);
    reveal(typ_either);
    reveal(typ_choice);
    reveal(typ_break);
    reveal(typ_continue);
    reveal(typ_recursive);
    reveal(typ_iterative);
    reveal(typ_self);
}

/// Whether every token is a number.
pub open spec fn are_integers(ts: Seq<Token>) -> bool {
    forall|i: int| 0 <= i < ts.len() ==> (#[trigger] ts[i]).kind == TokenKind::Integer
}

/// Tokens denote bytes exactly if they are numbers: a byte each, which is the remainder of the
/// number modulo 256.
pub proof fn bytes_of_integers(ts: Seq<Token>)
    ensures
        bytes_of(ts) is Some <==> are_integers(ts),
        are_integers(ts) ==> bytes_of(ts) == Some(
            ts.map_values(|token: Token| (integer_value(token) % 256) as u8),
        ),
{
    bytes_from(ts, 0);
}

/// The bytes that tokens denote from `i` on, as far as they are numbers.
pub(crate) proof fn bytes_from(ts: Seq<Token>, i: int)
    requires
        0 <= i <= ts.len(),
    ensures
        (literal_bytes_inner(ts, i) matches Outcome::Done(end, bytes) && i <= end <= ts.len()
            && bytes.len() == end - i && (end < ts.len() ==> ts[end].kind != TokenKind::Integer)
            && (forall|k: int|
            i <= k < end ==> (#[trigger] ts[k]).kind == TokenKind::Integer && bytes[k - i] == (
            integer_value(ts[k]) % 256) as u8)),
    decreases ts.len() - i,
{
    reveal(literal_int);
    if i < ts.len() && ts[i].kind == TokenKind::Integer {
        bytes_from(ts, i + 1);
    }
}

/// Branches are sorted by name, and no name occurs twice.
pub proof fn branches_are_sorted<T>(ts: Seq<Token>, branch: spec_fn(int) -> Outcome<T>, i: int)
    ensures
        (branches_body(ts, branch, i) matches Outcome::Done(_, body) ==> sorted(body.1)),
{
    if 0 <= i < ts.len() {
        rows_are_sorted(ts, branch, Seq::empty(), i + 1);
    }
}

/// Branches stay sorted by name, however many are added.
proof fn rows_are_sorted<T>(
    ts: Seq<Token>,
    branch: spec_fn(int) -> Outcome<T>,
    before: Seq<(LocalName, T)>,
    i: int,
)
    requires
        sorted(before),
    ensures
        (branch_rows(ts, branch, before, i) matches Outcome::Done(_, after) ==> sorted(after)),
    decreases ts.len() - i,
{
    if let Outcome::Done(j, row) = branch_row(ts, branch, i) {
        inserted_sorted(before, row.0, row.1);
        if i < j <= ts.len() {
            rows_are_sorted(ts, branch, inserted(before, row.0, row.1), j);
        }
    }
}

} // verus!
