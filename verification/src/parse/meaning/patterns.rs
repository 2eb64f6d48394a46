//! What patterns come to.
use super::super::grammar::{group_rules, label, list1, local_name, rules};
use super::super::grammar::expressions::expression;
use super::super::grammar::patterns::{
    pattern, pattern_continue, pattern_default, pattern_name, pattern_receive, pattern_receive_type,
    pattern_try, receive_step, receive_type_step,
};
use super::super::grammar::types::{annotation, typ};
use super::{
    ahead_expression, ahead_pattern, ahead_typ, expression_at, fails_at, fails_like, label_at,
    lacks, local_name_at, pattern_at, token_at, typ_at,
};
use super::misses::{
    miss_pattern, miss_pattern_continue, miss_pattern_default, miss_pattern_receive,
    miss_pattern_receive_type, miss_pattern_try, only_pattern_continue, only_pattern_default,
    only_pattern_name, only_pattern_receive, only_pattern_receive_type, only_pattern_try,
};
use super::parts::{
    found_label, found_names, found_patterns, names_at, patterns_at, read_label, read_local_name,
    read_names, read_patterns,
};
use crate::model::{Expression, LocalName, Pattern, Span, Token, Type};
use crate::token::TokenKind;
use vstd::prelude::*;

verus! {

/// A pattern does not start with the word `type`.
pub(crate) proof fn not_word_type_pattern(ts: Seq<Token>, i: int, x: Pattern)
    requires
        exists|j: int| #[trigger] pattern_at(ts, i, j, x),
    ensures
        !token_at(ts, i, TokenKind::Type),
{
    let r = rules(ts, i);
    if token_at(ts, i, TokenKind::Type) {
        miss_pattern(ts, r, i);
    }
}

/// `x`, with no `:` after it, is the pattern of that name, with no type.
pub proof fn name_pattern(ts: Seq<Token>, i: int, n: LocalName)
    requires
        local_name_at(ts, i, n),
        !token_at(ts, i + 1, TokenKind::Colon),
    ensures
        pattern_at(
            ts,
            i,
            i + 1,
            Pattern::Name(n.span, n, None),
        ),
{
    broadcast use group_rules;

    read_local_name(ts, i, n);
    reveal(pattern_name);
    only_pattern_name(ts, i);
    reveal(annotation);
}

/// `x: a` is the pattern of that name with that type.
pub proof fn annotated_pattern(ts: Seq<Token>, i: int, n: LocalName, a: Type, a_end: int)
    requires
        local_name_at(ts, i, n),
        token_at(ts, i + 1, TokenKind::Colon),
        typ_at(ts, i + 2, a_end, a),
    ensures
        pattern_at(
            ts,
            i,
            a_end,
            Pattern::Name(n.span.join(a.span()), n, Some(a)),
        ),
{
    broadcast use group_rules;

    read_local_name(ts, i, n);
    ahead_typ(ts, i + 2, a_end, a);
    reveal(pattern_name);
    only_pattern_name(ts, i);
    reveal(annotation);
}

/// What starts like `x` is the pattern of that name, with the type after the colon if one follows
/// the name, and with none otherwise.
pub proof fn name_pattern_parts(ts: Seq<Token>, i: int, j: int, whole: Pattern) -> (parts: (
    LocalName,
    Option<Type>,
))
    requires
        pattern_at(ts, i, j, whole),
        token_at(ts, i, TokenKind::LowercaseIdentifier),
    ensures
        ({
            let (n, a) = parts;
            &&& local_name_at(ts, i, n)
            &&& if token_at(ts, i + 1, TokenKind::Colon) {
                &&& a is Some
                &&& typ_at(ts, i + 2, j, a->0)
                &&& whole == Pattern::Name(n.span.join((a->0).span()), n, a)
            } else {
                &&& j == i + 1
                &&& whole == Pattern::Name(n.span, n, None)
            }
        }),
{
    broadcast use group_rules;

    let r = rules(ts, i);
    miss_pattern_receive_type(ts, r, i);
    miss_pattern_receive(ts, r, i);
    miss_pattern_continue(ts, i);
    miss_pattern_default(ts, r, i);
    miss_pattern_try(ts, r, i);
    reveal(annotation);
    reveal(pattern_name);
    reveal(pattern);
    let n = LocalName { span: ts[i].span, string: ts[i].raw };
    if token_at(ts, i + 1, TokenKind::Colon) {
        let found = typ(ts, rules(ts, i + 2), i + 2);
        (n, Some(found->Done_1))
    } else {
        (n, None)
    }
}

/// The pattern that receives the first of `xs`, then the second one and so on, then `rest`.
pub open spec fn receives(span: Span, xs: Seq<Pattern>, rest: Pattern) -> Pattern
    decreases xs.len(),
{
    if xs.len() == 0 {
        rest
    } else {
        Pattern::Receive(span, Box::new(xs[0]), Box::new(receives(span, xs.drop_first(), rest)))
    }
}

/// One after the other, from the last one on.
pub(crate) proof fn fold_receives(span: Span, xs: Seq<Pattern>, rest: Pattern)
    ensures
        xs.fold_right(receive_step(span), rest) == receives(span, xs, rest),
    decreases xs.len(),
{
    xs.lemma_fold_right_alt(receive_step(span), rest);
    if xs.len() > 0 {
        let others = xs.drop_first();
        others.lemma_fold_right_alt(receive_step(span), rest);
        fold_receives(span, others, rest);
        assert(xs.subrange(1, xs.len() as int) =~= others);
    }
}

/// `(p, q) s` receives `p`, then `q`, then `s`.
pub proof fn receive_pattern(
    ts: Seq<Token>,
    i: int,
    args: Seq<Pattern>,
    args_end: int,
    rest: Pattern,
    rest_end: int,
)
    requires
        token_at(ts, i, TokenKind::LParen),
        patterns_at(ts, i + 1, args_end, args),
        token_at(ts, args_end, TokenKind::RParen),
        pattern_at(ts, args_end + 1, rest_end, rest),
    ensures
        pattern_at(
            ts,
            i,
            rest_end,
            receives(ts[i].span.join(rest.span()), args, rest),
        ),
{
    broadcast use group_rules;

    read_patterns(ts, i, i + 1, args_end, args);
    ahead_pattern(ts, args_end + 1, rest_end, rest);
    fold_receives(ts[i].span.join(rest.span()), args, rest);
    not_word_type_pattern(ts, i + 1, args[0]);
    reveal(pattern_receive);
    only_pattern_receive(ts, i);
}

/// What starts like `(p, q) s` is that, with all of its parts.
pub proof fn receive_pattern_parts(
    ts: Seq<Token>,
    i: int,
    j: int,
    whole: Pattern,
) -> (parts: (Seq<Pattern>, int, Pattern, int))
    requires
        pattern_at(ts, i, j, whole),
        token_at(ts, i, TokenKind::LParen),
        !token_at(ts, i + 1, TokenKind::Type),
    ensures
        ({
            let (args, args_end, rest, rest_end) = parts;
            &&& token_at(ts, i, TokenKind::LParen)
            &&& patterns_at(ts, i + 1, args_end, args)
            &&& token_at(ts, args_end, TokenKind::RParen)
            &&& pattern_at(ts, args_end + 1, rest_end, rest)
            &&& j == rest_end
            &&& whole == (receives(ts[i].span.join(rest.span()), args, rest))
        }),
{
    broadcast use group_rules;

    let r = rules(ts, i);
    only_pattern_receive(ts, i);
    reveal(pattern_receive);
    let args_found = list1(ts, r.pattern, i + 1);
    let args_end = args_found->Done_0;
    let args = args_found->Done_1;
    found_patterns(ts, i, i + 1, args_end, args);
    let rest_found = pattern(ts, rules(ts, args_end + 1), args_end + 1);
    let rest_end = rest_found->Done_0;
    let rest = rest_found->Done_1;
    ahead_pattern(ts, args_end + 1, rest_end, rest);
    fold_receives(ts[i].span.join(rest.span()), args, rest);
    (args, args_end, rest, rest_end)
}

/// What starts like `(p, q) s` and lacks a part fails for good where that is missing.
pub proof fn receive_pattern_fails(ts: Seq<Token>, i: int, args: Seq<Pattern>, args_end: int)
    requires
        token_at(ts, i, TokenKind::LParen),
        !token_at(ts, i + 1, TokenKind::Type),
    ensures
        fails_like(pattern(ts, rules(ts, i), i), pattern(ts, rules(ts, i + 1), i + 1)),
        patterns_at(ts, i + 1, args_end, args) && !token_at(ts, args_end, TokenKind::RParen)
            ==> lacks(ts, pattern(ts, rules(ts, i), i), args_end, TokenKind::RParen),
        patterns_at(ts, i + 1, args_end, args) && token_at(ts, args_end, TokenKind::RParen)
            ==> fails_like(pattern(ts, rules(ts, i), i), pattern(ts, rules(ts, args_end + 1),
            args_end + 1)),
{
    broadcast use group_rules;

    only_pattern_receive(ts, i);
    reveal(pattern_receive);
    if patterns_at(ts, i + 1, args_end, args) {
        read_patterns(ts, i, i + 1, args_end, args);
    }
}

/// `!` is the pattern of what ends.
pub proof fn continue_pattern(ts: Seq<Token>, i: int)
    requires
        token_at(ts, i, TokenKind::Bang),
    ensures
        pattern_at(
            ts,
            i,
            i + 1,
            Pattern::Continue(ts[i].span),
        ),
{
    broadcast use group_rules;

    reveal(pattern_continue);
    only_pattern_continue(ts, i);
}

/// `try@l p` tries, with the label `l`, and goes on with `p`.
pub proof fn try_pattern(
    ts: Seq<Token>,
    i: int,
    l: Option<LocalName>,
    l_end: int,
    p: Pattern,
    p_end: int,
)
    requires
        token_at(ts, i, TokenKind::Try),
        label_at(ts, i + 1, l_end, l),
        pattern_at(ts, l_end, p_end, p),
    ensures
        pattern_at(
            ts,
            i,
            p_end,
            Pattern::Try(ts[i].span.join(p.span()), l, Box::new(p)),
        ),
{
    broadcast use group_rules;

    read_label(ts, i + 1, l_end, l);
    ahead_pattern(ts, l_end, p_end, p);
    reveal(pattern_try);
    only_pattern_try(ts, i);
}

/// What starts like `try@l p` is that, with all of its parts.
pub proof fn try_pattern_parts(
    ts: Seq<Token>,
    i: int,
    j: int,
    whole: Pattern,
) -> (parts: (Option<LocalName>, int, Pattern, int))
    requires
        pattern_at(ts, i, j, whole),
        token_at(ts, i, TokenKind::Try),
    ensures
        ({
            let (l, l_end, p, p_end) = parts;
            &&& token_at(ts, i, TokenKind::Try)
            &&& label_at(ts, i + 1, l_end, l)
            &&& pattern_at(ts, l_end, p_end, p)
            &&& j == p_end
            &&& whole == (Pattern::Try(ts[i].span.join(p.span()), l, Box::new(p)))
        }),
{
    broadcast use group_rules;

    only_pattern_try(ts, i);
    reveal(pattern_try);
    let l_found = label(ts, i + 1);
    let l_end = l_found->Done_0;
    let l = l_found->Done_1;
    found_label(ts, i + 1, l_end, l);
    let p_found = pattern(ts, rules(ts, l_end), l_end);
    let p_end = p_found->Done_0;
    let p = p_found->Done_1;
    ahead_pattern(ts, l_end, p_end, p);
    (l, l_end, p, p_end)
}

/// What starts like `try@l p` and lacks a part fails for good where that is missing.
pub proof fn try_pattern_fails(ts: Seq<Token>, i: int, l: Option<LocalName>, l_end: int)
    requires
        token_at(ts, i, TokenKind::Try),
    ensures
        label_at(ts, i + 1, l_end, l)
            ==> fails_like(pattern(ts, rules(ts, i), i), pattern(ts, rules(ts, l_end), l_end)),
{
    broadcast use group_rules;

    only_pattern_try(ts, i);
    reveal(pattern_try);
    if label_at(ts, i + 1, l_end, l) {
        read_label(ts, i + 1, l_end, l);
    }
}

/// `default(e) p` has the default `e` and goes on with `p`.
pub proof fn default_pattern(
    ts: Seq<Token>,
    i: int,
    e: Expression,
    e_end: int,
    p: Pattern,
    p_end: int,
)
    requires
        token_at(ts, i, TokenKind::Default),
        token_at(ts, i + 1, TokenKind::LParen),
        expression_at(ts, i + 2, e_end, e),
        token_at(ts, e_end, TokenKind::RParen),
        pattern_at(ts, e_end + 1, p_end, p),
    ensures
        pattern_at(
            ts,
            i,
            p_end,
            Pattern::Default(ts[i].span.join(p.span()), Box::new(e), Box::new(p)),
        ),
{
    broadcast use group_rules;

    ahead_expression(ts, i + 2, e_end, e);
    ahead_pattern(ts, e_end + 1, p_end, p);
    reveal(pattern_default);
    only_pattern_default(ts, i);
}

/// What starts like `default(e) p` is that, with all of its parts.
pub proof fn default_pattern_parts(
    ts: Seq<Token>,
    i: int,
    j: int,
    whole: Pattern,
) -> (parts: (Expression, int, Pattern, int))
    requires
        pattern_at(ts, i, j, whole),
        token_at(ts, i, TokenKind::Default),
    ensures
        ({
            let (e, e_end, p, p_end) = parts;
            &&& token_at(ts, i, TokenKind::Default)
            &&& token_at(ts, i + 1, TokenKind::LParen)
            &&& expression_at(ts, i + 2, e_end, e)
            &&& token_at(ts, e_end, TokenKind::RParen)
            &&& pattern_at(ts, e_end + 1, p_end, p)
            &&& j == p_end
            &&& whole == (Pattern::Default(ts[i].span.join(p.span()), Box::new(e), Box::new(p)))
        }),
{
    broadcast use group_rules;

    only_pattern_default(ts, i);
    reveal(pattern_default);
    let e_found = expression(ts, rules(ts, i + 2), i + 2);
    let e_end = e_found->Done_0;
    let e = e_found->Done_1;
    ahead_expression(ts, i + 2, e_end, e);
    let p_found = pattern(ts, rules(ts, e_end + 1), e_end + 1);
    let p_end = p_found->Done_0;
    let p = p_found->Done_1;
    ahead_pattern(ts, e_end + 1, p_end, p);
    (e, e_end, p, p_end)
}

/// What starts like `default(e) p` and lacks a part fails for good where that is missing.
pub proof fn default_pattern_fails(ts: Seq<Token>, i: int, e: Expression, e_end: int)
    requires
        token_at(ts, i, TokenKind::Default),
        token_at(ts, i + 1, TokenKind::LParen),
    ensures
        fails_like(pattern(ts, rules(ts, i), i), expression(ts, rules(ts, i + 2), i + 2)),
        expression_at(ts, i + 2, e_end, e) && !token_at(ts, e_end, TokenKind::RParen)
            ==> lacks(ts, pattern(ts, rules(ts, i), i), e_end, TokenKind::RParen),
        expression_at(ts, i + 2, e_end, e) && token_at(ts, e_end, TokenKind::RParen)
            ==> fails_like(pattern(ts, rules(ts, i), i), pattern(ts, rules(ts, e_end + 1),
            e_end + 1)),
{
    broadcast use group_rules;

    only_pattern_default(ts, i);
    reveal(pattern_default);
    if expression_at(ts, i + 2, e_end, e) {
        ahead_expression(ts, i + 2, e_end, e);
    }
}

/// The pattern that receives a type under the first of the names `xs`, then one under the second
/// one
/// and so on, then `rest`.
pub open spec fn receives_types(span: Span, xs: Seq<LocalName>, rest: Pattern) -> Pattern
    decreases xs.len(),
{
    if xs.len() == 0 {
        rest
    } else {
        Pattern::ReceiveType(span, xs[0], Box::new(receives_types(span, xs.drop_first(), rest)))
    }
}

/// One after the other, from the last one on.
pub(crate) proof fn fold_receives_types(span: Span, xs: Seq<LocalName>, rest: Pattern)
    ensures
        xs.fold_right(receive_type_step(span), rest) == receives_types(span, xs, rest),
    decreases xs.len(),
{
    xs.lemma_fold_right_alt(receive_type_step(span), rest);
    if xs.len() > 0 {
        let others = xs.drop_first();
        others.lemma_fold_right_alt(receive_type_step(span), rest);
        fold_receives_types(span, others, rest);
        assert(xs.subrange(1, xs.len() as int) =~= others);
    }
}

/// `(type a, b) p` receives types under the names `a` and `b`, then `p`.
pub proof fn receive_type_pattern(
    ts: Seq<Token>,
    i: int,
    names: Seq<LocalName>,
    names_end: int,
    rest: Pattern,
    rest_end: int,
)
    requires
        token_at(ts, i, TokenKind::LParen),
        token_at(ts, i + 1, TokenKind::Type),
        names_at(ts, i + 2, names_end, names),
        token_at(ts, names_end, TokenKind::RParen),
        pattern_at(ts, names_end + 1, rest_end, rest),
    ensures
        pattern_at(
            ts,
            i,
            rest_end,
            receives_types(ts[i].span.join(rest.span()), names, rest),
        ),
{
    broadcast use group_rules;

    read_names(ts, i + 2, names_end, names);
    ahead_pattern(ts, names_end + 1, rest_end, rest);
    fold_receives_types(ts[i].span.join(rest.span()), names, rest);
    reveal(pattern_receive_type);
    only_pattern_receive_type(ts, i);
}

/// What starts like `(type a, b) p` is that, with all of its parts.
pub proof fn receive_type_pattern_parts(
    ts: Seq<Token>,
    i: int,
    j: int,
    whole: Pattern,
) -> (parts: (Seq<LocalName>, int, Pattern, int))
    requires
        pattern_at(ts, i, j, whole),
        token_at(ts, i, TokenKind::LParen),
        token_at(ts, i + 1, TokenKind::Type),
    ensures
        ({
            let (names, names_end, rest, rest_end) = parts;
            &&& token_at(ts, i, TokenKind::LParen)
            &&& token_at(ts, i + 1, TokenKind::Type)
            &&& names_at(ts, i + 2, names_end, names)
            &&& token_at(ts, names_end, TokenKind::RParen)
            &&& pattern_at(ts, names_end + 1, rest_end, rest)
            &&& j == rest_end
            &&& whole == (receives_types(ts[i].span.join(rest.span()), names, rest))
        }),
{
    broadcast use group_rules;

    only_pattern_receive_type(ts, i);
    reveal(pattern_receive_type);
    let names_found = list1(ts, |i: int| local_name(ts, i), i + 2);
    let names_end = names_found->Done_0;
    let names = names_found->Done_1;
    found_names(ts, i + 2, names_end, names);
    let rest_found = pattern(ts, rules(ts, names_end + 1), names_end + 1);
    let rest_end = rest_found->Done_0;
    let rest = rest_found->Done_1;
    ahead_pattern(ts, names_end + 1, rest_end, rest);
    fold_receives_types(ts[i].span.join(rest.span()), names, rest);
    (names, names_end, rest, rest_end)
}

/// What starts like `(type a, b) p` and lacks a part fails for good where that is missing.
pub proof fn receive_type_pattern_fails(
    ts: Seq<Token>,
    i: int,
    names: Seq<LocalName>,
    names_end: int,
)
    requires
        token_at(ts, i, TokenKind::LParen),
        token_at(ts, i + 1, TokenKind::Type),
    ensures
        !token_at(ts, i + 2, TokenKind::LowercaseIdentifier)
            ==> fails_at(pattern(ts, rules(ts, i), i), i + 2),
        names_at(ts, i + 2, names_end, names) && !token_at(ts, names_end, TokenKind::RParen)
            ==> lacks(ts, pattern(ts, rules(ts, i), i), names_end, TokenKind::RParen),
        names_at(ts, i + 2, names_end, names) && token_at(ts, names_end, TokenKind::RParen)
            ==> fails_like(pattern(ts, rules(ts, i), i), pattern(ts, rules(ts, names_end + 1),
            names_end + 1)),
{
    broadcast use group_rules;

    only_pattern_receive_type(ts, i);
    reveal(pattern_receive_type);
    if names_at(ts, i + 2, names_end, names) {
        read_names(ts, i + 2, names_end, names);
    }
}

} // verus!
