//! What expressions come to.
use super::super::grammar::{global_name, group_rules, label, list0, rules, without_underscores};
use super::super::grammar::applications::{application, apply};
use super::super::grammar::constructions::{cons_then_value, construction};
use super::super::grammar::expressions::{
    expr_box, expr_catch, expr_chan, expr_do, expr_grouped, expr_let, expr_list, expr_literal,
    expr_literal_bytes, expr_literal_bytes_empty, expr_literal_bytes_nonempty, expr_literal_int,
    expr_literal_string, expr_throw, expression, integer_value, literal_bytes_inner, literal_int,
    operand,
};
use super::super::grammar::patterns::pattern;
use super::super::grammar::processes::process;
use super::super::laws::bytes_from;
use super::super::outcome::Outcome;
use super::{
    ahead_apply, ahead_expression, ahead_operand, ahead_pattern, ahead_process, apply_at,
    construction_at, expression_at, fails_like, fails_openly, global_name_at, label_at, lacks,
    local_name_at, operand_at, opt_process_at, or_noop_process, pattern_at, token_at,
};
use super::misses::{
    miss_application, miss_cons_begin, miss_cons_break, miss_cons_case, miss_cons_loop,
    miss_cons_receive, miss_cons_recv_type, miss_cons_send, miss_cons_send_type, miss_cons_signal,
    miss_cons_unfounded, miss_expr_box, miss_expr_catch, miss_expr_chan, miss_expr_do,
    miss_expr_grouped, miss_expr_let, miss_expr_list, miss_expr_literal,
    miss_expr_literal_bytes_empty, miss_expr_literal_int, miss_expr_literal_string, miss_expr_throw,
    miss_expression, miss_operand, only_expr_box, only_expr_catch, only_expr_chan, only_expr_do,
    only_expr_grouped, only_expr_let, only_expr_list, only_expr_throw,
};
use super::parts::{
    expressions_at, found_expressions, found_global_name, found_label, read_expressions,
    read_global_name, read_label, read_local_name,
};
use crate::big_int::{digit_row_value, is_digit};
use crate::escape::unescaped;
use crate::model::{
    Apply, Construct, Expression, GlobalName, LocalName, Pattern, Primitive, Process, Token,
};
use crate::token::TokenKind;
use vstd::prelude::*;

verus! {

/// An expression does not start with the word `type`.
pub(crate) proof fn not_word_type_expression(ts: Seq<Token>, i: int, x: Expression)
    requires
        exists|j: int| #[trigger] expression_at(ts, i, j, x),
    ensures
        !token_at(ts, i, TokenKind::Type),
{
    let r = rules(ts, i);
    if token_at(ts, i, TokenKind::Type) {
        miss_expression(ts, r, i);
    }
}

/// A number is the integer that it denotes.
pub proof fn integer(ts: Seq<Token>, i: int)
    requires
        token_at(ts, i, TokenKind::Integer),
    ensures
        expression_at(
            ts,
            i,
            i + 1,
            Expression::Primitive(ts[i].span, Primitive::Int(integer_value(ts[i]))),
        ),
{
    broadcast use group_rules;

    reveal(literal_int);
    reveal(expr_literal_int);
    reveal(expr_literal);
    reveal(expression);
}

/// A text in quotes is the text with its escapes resolved.
pub proof fn string(ts: Seq<Token>, i: int)
    requires
        token_at(ts, i, TokenKind::String),
    ensures
        expression_at(
            ts,
            i,
            i + 1,
            Expression::Primitive(ts[i].span, Primitive::String(unescaped(ts[i].raw)->0)),
        ),
{
    broadcast use group_rules;

    miss_expr_literal_int(ts, i);
    reveal(expr_literal_string);
    reveal(expr_literal);
    reveal(expression);
}

/// `<<>>` is no bytes.
pub proof fn no_bytes(ts: Seq<Token>, i: int)
    requires
        token_at(ts, i, TokenKind::Lt),
        token_at(ts, i + 1, TokenKind::Link),
        token_at(ts, i + 2, TokenKind::Gt),
    ensures
        expression_at(
            ts,
            i,
            i + 3,
            Expression::Primitive(
                ts[i].span.join(ts[i + 2].span),
                Primitive::Bytes(Seq::empty()),
            ),
        ),
{
    broadcast use group_rules;

    miss_expr_literal_int(ts, i);
    miss_expr_literal_string(ts, i);
    reveal(expr_literal_bytes_empty);
    reveal(expr_literal_bytes);
    reveal(expr_literal);
    reveal(expression);
}

/// `*()` is the list of nothing.
pub proof fn empty_list(ts: Seq<Token>, i: int)
    requires
        token_at(ts, i, TokenKind::Star),
        token_at(ts, i + 1, TokenKind::LParen),
        token_at(ts, i + 2, TokenKind::RParen),
    ensures
        expression_at(
            ts,
            i,
            i + 3,
            Expression::List(ts[i].span.join(ts[i + 2].span), Seq::empty()),
        ),
{
    broadcast use group_rules;

    reveal(expr_list);
    only_expr_list(ts, i);
    miss_expr_literal(ts, i);
    miss_expression(ts, rules(ts, i + 2), i + 2);
}

/// `*(e, f)` is the list of `e` and `f`.
pub proof fn list(ts: Seq<Token>, i: int, items: Seq<Expression>, items_end: int)
    requires
        token_at(ts, i, TokenKind::Star),
        token_at(ts, i + 1, TokenKind::LParen),
        expressions_at(ts, i + 2, items_end, items),
        token_at(ts, items_end, TokenKind::RParen),
    ensures
        expression_at(
            ts,
            i,
            items_end + 1,
            Expression::List(ts[i].span.join(ts[items_end].span), items),
        ),
{
    broadcast use group_rules;

    read_expressions(ts, i, i + 2, items_end, items);
    reveal(expr_list);
    only_expr_list(ts, i);
}

/// `let p = e in f` takes `p` to be `e` in `f`.
pub proof fn let_expression(
    ts: Seq<Token>,
    i: int,
    p: Pattern,
    p_end: int,
    e: Expression,
    e_end: int,
    f: Expression,
    f_end: int,
)
    requires
        token_at(ts, i, TokenKind::Let),
        pattern_at(ts, i + 1, p_end, p),
        token_at(ts, p_end, TokenKind::Eq),
        expression_at(ts, p_end + 1, e_end, e),
        token_at(ts, e_end, TokenKind::In),
        expression_at(ts, e_end + 1, f_end, f),
    ensures
        expression_at(
            ts,
            i,
            f_end,
            Expression::Let {
                span: ts[i].span.join(f.span()),
                pattern: p,
                expression: Box::new(e),
                then: Box::new(f),
            },
        ),
{
    broadcast use group_rules;

    ahead_pattern(ts, i + 1, p_end, p);
    ahead_expression(ts, p_end + 1, e_end, e);
    ahead_expression(ts, e_end + 1, f_end, f);
    reveal(expr_let);
    only_expr_let(ts, i);
}

/// What starts like `let p = e in f` is that, with all of its parts.
pub proof fn let_expression_parts(
    ts: Seq<Token>,
    i: int,
    j: int,
    whole: Expression,
) -> (parts: (Pattern, int, Expression, int, Expression, int))
    requires
        expression_at(ts, i, j, whole),
        token_at(ts, i, TokenKind::Let),
    ensures
        ({
            let (p, p_end, e, e_end, f, f_end) = parts;
            &&& token_at(ts, i, TokenKind::Let)
            &&& pattern_at(ts, i + 1, p_end, p)
            &&& token_at(ts, p_end, TokenKind::Eq)
            &&& expression_at(ts, p_end + 1, e_end, e)
            &&& token_at(ts, e_end, TokenKind::In)
            &&& expression_at(ts, e_end + 1, f_end, f)
            &&& j == f_end
            &&& whole == (Expression::Let {
                span: ts[i].span.join(f.span()),
                pattern: p,
                expression: Box::new(e),
                then: Box::new(f),
            })
        }),
{
    broadcast use group_rules;

    only_expr_let(ts, i);
    reveal(expr_let);
    let p_found = pattern(ts, rules(ts, i + 1), i + 1);
    let p_end = p_found->Done_0;
    let p = p_found->Done_1;
    ahead_pattern(ts, i + 1, p_end, p);
    let e_found = expression(ts, rules(ts, p_end + 1), p_end + 1);
    let e_end = e_found->Done_0;
    let e = e_found->Done_1;
    ahead_expression(ts, p_end + 1, e_end, e);
    let f_found = expression(ts, rules(ts, e_end + 1), e_end + 1);
    let f_end = f_found->Done_0;
    let f = f_found->Done_1;
    ahead_expression(ts, e_end + 1, f_end, f);
    (p, p_end, e, e_end, f, f_end)
}

/// What starts like `let p = e in f` and lacks a part fails for good where that is missing.
pub proof fn let_expression_fails(
    ts: Seq<Token>,
    i: int,
    p: Pattern,
    p_end: int,
    e: Expression,
    e_end: int,
)
    requires
        token_at(ts, i, TokenKind::Let),
    ensures
        fails_like(expression(ts, rules(ts, i), i), pattern(ts, rules(ts, i + 1), i + 1)),
        pattern_at(ts, i + 1, p_end, p) && !token_at(ts, p_end, TokenKind::Eq)
            ==> lacks(ts, expression(ts, rules(ts, i), i), p_end, TokenKind::Eq),
        pattern_at(ts, i + 1, p_end, p) && token_at(ts, p_end, TokenKind::Eq)
            ==> fails_like(expression(ts, rules(ts, i), i), expression(ts, rules(ts, p_end + 1),
            p_end + 1)),
        pattern_at(ts, i + 1, p_end, p) && token_at(ts, p_end, TokenKind::Eq)
            && expression_at(ts, p_end + 1, e_end, e) && !token_at(ts, e_end, TokenKind::In)
            ==> lacks(ts, expression(ts, rules(ts, i), i), e_end, TokenKind::In),
        pattern_at(ts, i + 1, p_end, p) && token_at(ts, p_end, TokenKind::Eq)
            && expression_at(ts, p_end + 1, e_end, e) && token_at(ts, e_end, TokenKind::In)
            ==> fails_like(expression(ts, rules(ts, i), i), expression(ts, rules(ts, e_end + 1),
            e_end + 1)),
{
    broadcast use group_rules;

    only_expr_let(ts, i);
    reveal(expr_let);
    if pattern_at(ts, i + 1, p_end, p) {
        ahead_pattern(ts, i + 1, p_end, p);
        if expression_at(ts, p_end + 1, e_end, e) {
            ahead_expression(ts, p_end + 1, e_end, e);
        }
    }
}

/// `catch@l p => e in f` catches, with the label `l`, what is thrown in `f` as `p` in `e`.
pub proof fn catch_expression(
    ts: Seq<Token>,
    i: int,
    l: Option<LocalName>,
    l_end: int,
    p: Pattern,
    p_end: int,
    e: Expression,
    e_end: int,
    f: Expression,
    f_end: int,
)
    requires
        token_at(ts, i, TokenKind::Catch),
        label_at(ts, i + 1, l_end, l),
        pattern_at(ts, l_end, p_end, p),
        token_at(ts, p_end, TokenKind::FatArrow),
        expression_at(ts, p_end + 1, e_end, e),
        token_at(ts, e_end, TokenKind::In),
        expression_at(ts, e_end + 1, f_end, f),
    ensures
        expression_at(
            ts,
            i,
            f_end,
            Expression::Catch {
                span: ts[i].span.join(f.span()),
                label: l,
                pattern: p,
                block: Box::new(e),
                then: Box::new(f),
            },
        ),
{
    broadcast use group_rules;

    read_label(ts, i + 1, l_end, l);
    ahead_pattern(ts, l_end, p_end, p);
    ahead_expression(ts, p_end + 1, e_end, e);
    ahead_expression(ts, e_end + 1, f_end, f);
    reveal(expr_catch);
    only_expr_catch(ts, i);
}

/// What starts like `catch@l p => e in f` is that, with all of its parts.
pub proof fn catch_expression_parts(
    ts: Seq<Token>,
    i: int,
    j: int,
    whole: Expression,
) -> (parts: (Option<LocalName>, int, Pattern, int, Expression, int, Expression, int))
    requires
        expression_at(ts, i, j, whole),
        token_at(ts, i, TokenKind::Catch),
    ensures
        ({
            let (l, l_end, p, p_end, e, e_end, f, f_end) = parts;
            &&& token_at(ts, i, TokenKind::Catch)
            &&& label_at(ts, i + 1, l_end, l)
            &&& pattern_at(ts, l_end, p_end, p)
            &&& token_at(ts, p_end, TokenKind::FatArrow)
            &&& expression_at(ts, p_end + 1, e_end, e)
            &&& token_at(ts, e_end, TokenKind::In)
            &&& expression_at(ts, e_end + 1, f_end, f)
            &&& j == f_end
            &&& whole == (Expression::Catch {
                span: ts[i].span.join(f.span()),
                label: l,
                pattern: p,
                block: Box::new(e),
                then: Box::new(f),
            })
        }),
{
    broadcast use group_rules;

    only_expr_catch(ts, i);
    reveal(expr_catch);
    let l_found = label(ts, i + 1);
    let l_end = l_found->Done_0;
    let l = l_found->Done_1;
    found_label(ts, i + 1, l_end, l);
    let p_found = pattern(ts, rules(ts, l_end), l_end);
    let p_end = p_found->Done_0;
    let p = p_found->Done_1;
    ahead_pattern(ts, l_end, p_end, p);
    let e_found = expression(ts, rules(ts, p_end + 1), p_end + 1);
    let e_end = e_found->Done_0;
    let e = e_found->Done_1;
    ahead_expression(ts, p_end + 1, e_end, e);
    let f_found = expression(ts, rules(ts, e_end + 1), e_end + 1);
    let f_end = f_found->Done_0;
    let f = f_found->Done_1;
    ahead_expression(ts, e_end + 1, f_end, f);
    (l, l_end, p, p_end, e, e_end, f, f_end)
}

/// What starts like `catch@l p => e in f` and lacks a part fails for good where that is missing.
pub proof fn catch_expression_fails(
    ts: Seq<Token>,
    i: int,
    l: Option<LocalName>,
    l_end: int,
    p: Pattern,
    p_end: int,
    e: Expression,
    e_end: int,
)
    requires
        token_at(ts, i, TokenKind::Catch),
    ensures
        label_at(ts, i + 1, l_end, l)
            ==> fails_like(expression(ts, rules(ts, i), i), pattern(ts, rules(ts, l_end), l_end)),
        label_at(ts, i + 1, l_end, l) && pattern_at(ts, l_end, p_end, p)
            && !token_at(ts, p_end, TokenKind::FatArrow)
            ==> lacks(ts, expression(ts, rules(ts, i), i), p_end, TokenKind::FatArrow),
        label_at(ts, i + 1, l_end, l) && pattern_at(ts, l_end, p_end, p)
            && token_at(ts, p_end, TokenKind::FatArrow)
            ==> fails_like(expression(ts, rules(ts, i), i), expression(ts, rules(ts, p_end + 1),
            p_end + 1)),
        label_at(ts, i + 1, l_end, l) && pattern_at(ts, l_end, p_end, p)
            && token_at(ts, p_end, TokenKind::FatArrow) && expression_at(ts, p_end + 1, e_end, e)
            && !token_at(ts, e_end, TokenKind::In)
            ==> lacks(ts, expression(ts, rules(ts, i), i), e_end, TokenKind::In),
        label_at(ts, i + 1, l_end, l) && pattern_at(ts, l_end, p_end, p)
            && token_at(ts, p_end, TokenKind::FatArrow) && expression_at(ts, p_end + 1, e_end, e)
            && token_at(ts, e_end, TokenKind::In)
            ==> fails_like(expression(ts, rules(ts, i), i), expression(ts, rules(ts, e_end + 1),
            e_end + 1)),
{
    broadcast use group_rules;

    only_expr_catch(ts, i);
    reveal(expr_catch);
    if label_at(ts, i + 1, l_end, l) {
        read_label(ts, i + 1, l_end, l);
        if pattern_at(ts, l_end, p_end, p) {
            ahead_pattern(ts, l_end, p_end, p);
            if expression_at(ts, p_end + 1, e_end, e) {
                ahead_expression(ts, p_end + 1, e_end, e);
            }
        }
    }
}

/// `throw@l e` throws `e` to the label `l`.
pub proof fn throw_expression(
    ts: Seq<Token>,
    i: int,
    l: Option<LocalName>,
    l_end: int,
    e: Expression,
    e_end: int,
)
    requires
        token_at(ts, i, TokenKind::Throw),
        label_at(ts, i + 1, l_end, l),
        expression_at(ts, l_end, e_end, e),
    ensures
        expression_at(
            ts,
            i,
            e_end,
            Expression::Throw(ts[i].span.join(e.span()), l, Box::new(e)),
        ),
{
    broadcast use group_rules;

    read_label(ts, i + 1, l_end, l);
    ahead_expression(ts, l_end, e_end, e);
    reveal(expr_throw);
    only_expr_throw(ts, i);
}

/// What starts like `throw@l e` is that, with all of its parts.
pub proof fn throw_expression_parts(
    ts: Seq<Token>,
    i: int,
    j: int,
    whole: Expression,
) -> (parts: (Option<LocalName>, int, Expression, int))
    requires
        expression_at(ts, i, j, whole),
        token_at(ts, i, TokenKind::Throw),
    ensures
        ({
            let (l, l_end, e, e_end) = parts;
            &&& token_at(ts, i, TokenKind::Throw)
            &&& label_at(ts, i + 1, l_end, l)
            &&& expression_at(ts, l_end, e_end, e)
            &&& j == e_end
            &&& whole == (Expression::Throw(ts[i].span.join(e.span()), l, Box::new(e)))
        }),
{
    broadcast use group_rules;

    only_expr_throw(ts, i);
    reveal(expr_throw);
    let l_found = label(ts, i + 1);
    let l_end = l_found->Done_0;
    let l = l_found->Done_1;
    found_label(ts, i + 1, l_end, l);
    let e_found = expression(ts, rules(ts, l_end), l_end);
    let e_end = e_found->Done_0;
    let e = e_found->Done_1;
    ahead_expression(ts, l_end, e_end, e);
    (l, l_end, e, e_end)
}

/// What starts like `throw@l e` and lacks a part fails for good where that is missing.
pub proof fn throw_expression_fails(ts: Seq<Token>, i: int, l: Option<LocalName>, l_end: int)
    requires
        token_at(ts, i, TokenKind::Throw),
    ensures
        label_at(ts, i + 1, l_end, l)
            ==> fails_like(expression(ts, rules(ts, i), i), expression(ts, rules(ts, l_end),
            l_end)),
{
    broadcast use group_rules;

    only_expr_throw(ts, i);
    reveal(expr_throw);
    if label_at(ts, i + 1, l_end, l) {
        read_label(ts, i + 1, l_end, l);
    }
}

/// `do { q } in e` does `q`, or nothing if no process stands in the braces, and then is `e`.
pub proof fn do_expression(
    ts: Seq<Token>,
    i: int,
    q: Option<Process>,
    q_end: int,
    e: Expression,
    e_end: int,
)
    requires
        token_at(ts, i, TokenKind::Do),
        token_at(ts, i + 1, TokenKind::LCurly),
        opt_process_at(ts, i + 2, q_end, q),
        token_at(ts, q_end, TokenKind::RCurly),
        token_at(ts, q_end + 1, TokenKind::In),
        expression_at(ts, q_end + 2, e_end, e),
    ensures
        expression_at(
            ts,
            i,
            e_end,
            Expression::Do {
                span: ts[i].span.join(e.span()),
                process: Box::new(or_noop_process(q, ts[i + 1].span)),
                then: Box::new(e),
            },
        ),
{
    broadcast use group_rules;

    if let Some(x) = q {
        ahead_process(ts, i + 2, q_end, x);
    }
    ahead_expression(ts, q_end + 2, e_end, e);
    reveal(expr_do);
    only_expr_do(ts, i);
}

/// What starts like `do { q } in e` is that, with all of its parts.
pub proof fn do_expression_parts(
    ts: Seq<Token>,
    i: int,
    j: int,
    whole: Expression,
) -> (parts: (Option<Process>, int, Expression, int))
    requires
        expression_at(ts, i, j, whole),
        token_at(ts, i, TokenKind::Do),
    ensures
        ({
            let (q, q_end, e, e_end) = parts;
            &&& token_at(ts, i, TokenKind::Do)
            &&& token_at(ts, i + 1, TokenKind::LCurly)
            &&& opt_process_at(ts, i + 2, q_end, q)
            &&& token_at(ts, q_end, TokenKind::RCurly)
            &&& token_at(ts, q_end + 1, TokenKind::In)
            &&& expression_at(ts, q_end + 2, e_end, e)
            &&& j == e_end
            &&& whole == (Expression::Do {
                span: ts[i].span.join(e.span()),
                process: Box::new(or_noop_process(q, ts[i + 1].span)),
                then: Box::new(e),
            })
        }),
{
    broadcast use group_rules;

    only_expr_do(ts, i);
    reveal(expr_do);
    let q_found = process(ts, rules(ts, i + 2), i + 2);
    let q = match q_found {
        Outcome::Done(_, x) => Some(x),
        Outcome::Failed { .. } => None,
    };
    let q_end = match q_found {
        Outcome::Done(end, _) => end,
        Outcome::Failed { .. } => i + 2,
    };
    if let Some(x) = q {
        ahead_process(ts, i + 2, q_end, x);
    }
    let e_found = expression(ts, rules(ts, q_end + 2), q_end + 2);
    let e_end = e_found->Done_0;
    let e = e_found->Done_1;
    ahead_expression(ts, q_end + 2, e_end, e);
    (q, q_end, e, e_end)
}

/// What starts like `do { q } in e` and lacks a part fails for good where that is missing.
pub proof fn do_expression_fails(ts: Seq<Token>, i: int, q: Option<Process>, q_end: int)
    requires
        token_at(ts, i, TokenKind::Do),
    ensures
        !token_at(ts, i + 1, TokenKind::LCurly)
            ==> lacks(ts, expression(ts, rules(ts, i), i), i + 1, TokenKind::LCurly),
        token_at(ts, i + 1, TokenKind::LCurly)
            && !fails_openly(process(ts, rules(ts, i + 2), i + 2))
            ==> fails_like(expression(ts, rules(ts, i), i), process(ts, rules(ts, i + 2), i + 2)),
        token_at(ts, i + 1, TokenKind::LCurly) && opt_process_at(ts, i + 2, q_end, q)
            && !token_at(ts, q_end, TokenKind::RCurly)
            ==> lacks(ts, expression(ts, rules(ts, i), i), q_end, TokenKind::RCurly),
        token_at(ts, i + 1, TokenKind::LCurly) && opt_process_at(ts, i + 2, q_end, q)
            && token_at(ts, q_end, TokenKind::RCurly) && !token_at(ts, q_end + 1, TokenKind::In)
            ==> lacks(ts, expression(ts, rules(ts, i), i), q_end + 1, TokenKind::In),
        token_at(ts, i + 1, TokenKind::LCurly) && opt_process_at(ts, i + 2, q_end, q)
            && token_at(ts, q_end, TokenKind::RCurly) && token_at(ts, q_end + 1, TokenKind::In)
            ==> fails_like(expression(ts, rules(ts, i), i), expression(ts, rules(ts, q_end + 2),
            q_end + 2)),
{
    broadcast use group_rules;

    only_expr_do(ts, i);
    reveal(expr_do);
    if opt_process_at(ts, i + 2, q_end, q) {
        if let Some(x) = q { ahead_process(ts, i + 2, q_end, x); }
    }
}

/// `box e` is the box of `e`.
pub proof fn box_expression(ts: Seq<Token>, i: int, e: Expression, e_end: int)
    requires
        token_at(ts, i, TokenKind::Box),
        expression_at(ts, i + 1, e_end, e),
    ensures
        expression_at(
            ts,
            i,
            e_end,
            Expression::Box(ts[i].span, Box::new(e)),
        ),
{
    broadcast use group_rules;

    ahead_expression(ts, i + 1, e_end, e);
    reveal(expr_box);
    only_expr_box(ts, i);
}

/// What starts like `box e` is that, with all of its parts.
pub proof fn box_expression_parts(
    ts: Seq<Token>,
    i: int,
    j: int,
    whole: Expression,
) -> (parts: (Expression, int))
    requires
        expression_at(ts, i, j, whole),
        token_at(ts, i, TokenKind::Box),
    ensures
        ({
            let (e, e_end) = parts;
            &&& token_at(ts, i, TokenKind::Box)
            &&& expression_at(ts, i + 1, e_end, e)
            &&& j == e_end
            &&& whole == (Expression::Box(ts[i].span, Box::new(e)))
        }),
{
    broadcast use group_rules;

    only_expr_box(ts, i);
    reveal(expr_box);
    let e_found = expression(ts, rules(ts, i + 1), i + 1);
    let e_end = e_found->Done_0;
    let e = e_found->Done_1;
    ahead_expression(ts, i + 1, e_end, e);
    (e, e_end)
}

/// What starts like `box e` and lacks a part fails for good where that is missing.
pub proof fn box_expression_fails(ts: Seq<Token>, i: int)
    requires
        token_at(ts, i, TokenKind::Box),
    ensures
        fails_like(expression(ts, rules(ts, i), i), expression(ts, rules(ts, i + 1), i + 1)),
{
    broadcast use group_rules;

    only_expr_box(ts, i);
    reveal(expr_box);
}

/// `chan p { q }` does `q`, or nothing if no process stands in the braces, with the channel `p`.
pub proof fn chan_expression(
    ts: Seq<Token>,
    i: int,
    p: Pattern,
    p_end: int,
    q: Option<Process>,
    q_end: int,
)
    requires
        token_at(ts, i, TokenKind::Chan),
        pattern_at(ts, i + 1, p_end, p),
        token_at(ts, p_end, TokenKind::LCurly),
        opt_process_at(ts, p_end + 1, q_end, q),
        token_at(ts, q_end, TokenKind::RCurly),
    ensures
        expression_at(
            ts,
            i,
            q_end + 1,
            Expression::Chan {
                span: ts[i].span.join(ts[q_end].span),
                pattern: p,
                process: Box::new(or_noop_process(q, ts[p_end].span)),
            },
        ),
{
    broadcast use group_rules;

    ahead_pattern(ts, i + 1, p_end, p);
    if let Some(x) = q {
        ahead_process(ts, p_end + 1, q_end, x);
    }
    reveal(expr_chan);
    only_expr_chan(ts, i);
}

/// What starts like `chan p { q }` is that, with all of its parts.
pub proof fn chan_expression_parts(
    ts: Seq<Token>,
    i: int,
    j: int,
    whole: Expression,
) -> (parts: (Pattern, int, Option<Process>, int))
    requires
        expression_at(ts, i, j, whole),
        token_at(ts, i, TokenKind::Chan),
    ensures
        ({
            let (p, p_end, q, q_end) = parts;
            &&& token_at(ts, i, TokenKind::Chan)
            &&& pattern_at(ts, i + 1, p_end, p)
            &&& token_at(ts, p_end, TokenKind::LCurly)
            &&& opt_process_at(ts, p_end + 1, q_end, q)
            &&& token_at(ts, q_end, TokenKind::RCurly)
            &&& j == q_end + 1
            &&& whole == (Expression::Chan {
                span: ts[i].span.join(ts[q_end].span),
                pattern: p,
                process: Box::new(or_noop_process(q, ts[p_end].span)),
            })
        }),
{
    broadcast use group_rules;

    only_expr_chan(ts, i);
    reveal(expr_chan);
    let p_found = pattern(ts, rules(ts, i + 1), i + 1);
    let p_end = p_found->Done_0;
    let p = p_found->Done_1;
    ahead_pattern(ts, i + 1, p_end, p);
    let q_found = process(ts, rules(ts, p_end + 1), p_end + 1);
    let q = match q_found {
        Outcome::Done(_, x) => Some(x),
        Outcome::Failed { .. } => None,
    };
    let q_end = match q_found {
        Outcome::Done(end, _) => end,
        Outcome::Failed { .. } => p_end + 1,
    };
    if let Some(x) = q {
        ahead_process(ts, p_end + 1, q_end, x);
    }
    (p, p_end, q, q_end)
}

/// What starts like `chan p { q }` and lacks a part fails for good where that is missing.
pub proof fn chan_expression_fails(
    ts: Seq<Token>,
    i: int,
    p: Pattern,
    p_end: int,
    q: Option<Process>,
    q_end: int,
)
    requires
        token_at(ts, i, TokenKind::Chan),
    ensures
        fails_like(expression(ts, rules(ts, i), i), pattern(ts, rules(ts, i + 1), i + 1)),
        pattern_at(ts, i + 1, p_end, p) && !token_at(ts, p_end, TokenKind::LCurly)
            ==> lacks(ts, expression(ts, rules(ts, i), i), p_end, TokenKind::LCurly),
        pattern_at(ts, i + 1, p_end, p) && token_at(ts, p_end, TokenKind::LCurly)
            && !fails_openly(process(ts, rules(ts, p_end + 1), p_end + 1))
            ==> fails_like(expression(ts, rules(ts, i), i), process(ts, rules(ts, p_end + 1),
            p_end + 1)),
        pattern_at(ts, i + 1, p_end, p) && token_at(ts, p_end, TokenKind::LCurly)
            && opt_process_at(ts, p_end + 1, q_end, q) && !token_at(ts, q_end, TokenKind::RCurly)
            ==> lacks(ts, expression(ts, rules(ts, i), i), q_end, TokenKind::RCurly),
{
    broadcast use group_rules;

    only_expr_chan(ts, i);
    reveal(expr_chan);
    if pattern_at(ts, i + 1, p_end, p) {
        ahead_pattern(ts, i + 1, p_end, p);
        if opt_process_at(ts, p_end + 1, q_end, q) {
            if let Some(x) = q { ahead_process(ts, p_end + 1, q_end, x); }
        }
    }
}

/// An operand starts with a name or a brace.
proof fn operand_starts(ts: Seq<Token>, i: int, j: int, x: Expression)
    requires
        operand_at(ts, i, j, x),
    ensures
        token_at(ts, i, TokenKind::UppercaseIdentifier) || token_at(
            ts,
            i,
            TokenKind::LowercaseIdentifier,
        ) || token_at(ts, i, TokenKind::LCurly),
{
    if !token_at(ts, i, TokenKind::UppercaseIdentifier) && !token_at(
        ts,
        i,
        TokenKind::LowercaseIdentifier,
    ) && !token_at(ts, i, TokenKind::LCurly) {
        miss_operand(ts, rules(ts, i), i);
    }
}

/// An operand and what is applied to it are that application, and an operand to which nothing is
/// applied is the operand itself.
pub proof fn applied(
    ts: Seq<Token>,
    i: int,
    x: Expression,
    x_end: int,
    a: Option<Apply>,
    a_end: int,
)
    requires
        operand_at(ts, i, x_end, x),
        apply_at(ts, x_end, a_end, a),
    ensures
        expression_at(
            ts,
            i,
            a_end,
            match a {
                Some(a) => Expression::Application(x.span().join(a.span()), Box::new(x), a),
                None => x,
            },
        ),
{
    broadcast use group_rules;

    let r = rules(ts, i);
    ahead_operand(ts, i, x_end, x);
    ahead_apply(ts, x_end, a_end, a);
    operand_starts(ts, i, x_end, x);
    reveal(application);
    miss_expr_literal(ts, i);
    miss_expr_list(ts, r, i);
    miss_expr_let(ts, r, i);
    miss_expr_catch(ts, r, i);
    miss_expr_throw(ts, r, i);
    miss_expr_do(ts, r, i);
    miss_expr_box(ts, r, i);
    miss_expr_chan(ts, r, i);
    reveal(expression);
}

/// A name in upper case is the definition of that name.
pub proof fn global_operand(ts: Seq<Token>, i: int, n: GlobalName, n_end: int)
    requires
        global_name_at(ts, i, n_end, n),
    ensures
        operand_at(
            ts,
            i,
            n_end,
            Expression::Global(n.span, n),
        ),
{
    broadcast use group_rules;

    read_global_name(ts, i, n_end, n);
    reveal(operand);
}

/// A name in lower case is the variable of that name.
pub proof fn variable_operand(ts: Seq<Token>, i: int, n: LocalName)
    requires
        local_name_at(ts, i, n),
    ensures
        operand_at(
            ts,
            i,
            i + 1,
            Expression::Variable(n.span, n),
        ),
{
    broadcast use group_rules;

    read_local_name(ts, i, n);
    reveal(operand);
}

/// `{ e }` is `e` in braces.
pub proof fn grouped_operand(ts: Seq<Token>, i: int, e: Expression, e_end: int)
    requires
        token_at(ts, i, TokenKind::LCurly),
        expression_at(ts, i + 1, e_end, e),
        token_at(ts, e_end, TokenKind::RCurly),
    ensures
        operand_at(
            ts,
            i,
            e_end + 1,
            Expression::Grouped(ts[i].span.join(ts[e_end].span), Box::new(e)),
        ),
{
    broadcast use group_rules;

    ahead_expression(ts, i + 1, e_end, e);
    reveal(expr_grouped);
    only_expr_grouped(ts, i);
}

/// What starts like `{ e }` is that, with all of its parts.
pub proof fn grouped_operand_parts(
    ts: Seq<Token>,
    i: int,
    j: int,
    whole: Expression,
) -> (parts: (Expression, int))
    requires
        operand_at(ts, i, j, whole),
        token_at(ts, i, TokenKind::LCurly),
    ensures
        ({
            let (e, e_end) = parts;
            &&& token_at(ts, i, TokenKind::LCurly)
            &&& expression_at(ts, i + 1, e_end, e)
            &&& token_at(ts, e_end, TokenKind::RCurly)
            &&& j == e_end + 1
            &&& whole == (Expression::Grouped(ts[i].span.join(ts[e_end].span), Box::new(e)))
        }),
{
    broadcast use group_rules;

    only_expr_grouped(ts, i);
    reveal(expr_grouped);
    let e_found = expression(ts, rules(ts, i + 1), i + 1);
    let e_end = e_found->Done_0;
    let e = e_found->Done_1;
    ahead_expression(ts, i + 1, e_end, e);
    (e, e_end)
}

/// Whether a literal starts at `i`.
pub open spec fn starts_literal(ts: Seq<Token>, i: int) -> bool {
    ||| token_at(ts, i, TokenKind::Integer)
    ||| token_at(ts, i, TokenKind::String)
    ||| token_at(ts, i, TokenKind::Lt) && token_at(ts, i + 1, TokenKind::Link)
    ||| token_at(ts, i, TokenKind::Lt) && token_at(ts, i + 1, TokenKind::Lt)
}

/// An expression that starts like a literal, a name or a form with a word of its own is one or
/// fails for good, and so does an application if one in braces fails.
pub(crate) proof fn committed_expression(ts: Seq<Token>, i: int)
    requires
        0 <= i <= ts.len(),
    ensures
        ({
            let r = rules(ts, i);
            &&& starts_literal(ts, i) ==> !fails_openly(expr_literal(ts, i))
            &&& token_at(ts, i, TokenKind::Star) ==> !fails_openly(expr_list(ts, r, i))
            &&& token_at(ts, i, TokenKind::Let) ==> !fails_openly(expr_let(ts, r, i))
            &&& token_at(ts, i, TokenKind::Catch) ==> !fails_openly(expr_catch(ts, r, i))
            &&& token_at(ts, i, TokenKind::Do) ==> !fails_openly(expr_do(ts, r, i))
            &&& token_at(ts, i, TokenKind::Box) ==> !fails_openly(expr_box(ts, r, i))
            &&& token_at(ts, i, TokenKind::Chan) ==> !fails_openly(expr_chan(ts, r, i))
            &&& fails_openly(application(ts, r, i)) ==> fails_openly(expr_grouped(ts, r, i))
        }),
{
    broadcast use group_rules;

    let r = rules(ts, i);
    if starts_literal(ts, i) {
        assert(!fails_openly(expr_literal(ts, i))) by {
            reveal(literal_int);
            reveal(expr_literal_int);
            reveal(expr_literal_string);
            reveal(expr_literal_bytes_empty);
            reveal(expr_literal_bytes_nonempty);
            reveal(expr_literal_bytes);
            reveal(expr_literal);
        }
    }
    assert(token_at(ts, i, TokenKind::Star) ==> !fails_openly(expr_list(ts, r, i))) by {
        reveal(expr_list);
    }
    assert(token_at(ts, i, TokenKind::Let) ==> !fails_openly(expr_let(ts, r, i))) by {
        reveal(expr_let);
    }
    assert(token_at(ts, i, TokenKind::Catch) ==> !fails_openly(expr_catch(ts, r, i))) by {
        reveal(expr_catch);
    }
    assert(token_at(ts, i, TokenKind::Do) ==> !fails_openly(expr_do(ts, r, i))) by {
        reveal(expr_do);
    }
    assert(token_at(ts, i, TokenKind::Box) ==> !fails_openly(expr_box(ts, r, i))) by {
        reveal(expr_box);
    }
    assert(token_at(ts, i, TokenKind::Chan) ==> !fails_openly(expr_chan(ts, r, i))) by {
        reveal(expr_chan);
    }
    if fails_openly(application(ts, r, i)) {
        assert(fails_openly(operand(ts, r, i))) by {
            reveal(application);
            if let Outcome::Done(j, x) = operand(ts, r, i) {
                ahead_operand(ts, i, j, x);
                reveal(apply);
            }
        }
        reveal(operand);
    }
}

/// Whether a token of this kind is one that only constructions start with.
pub open spec fn starts_construction(kind: TokenKind) -> bool {
    ||| kind == TokenKind::Begin
    ||| kind == TokenKind::Unfounded
    ||| kind == TokenKind::Loop
    ||| kind == TokenKind::Dot
    ||| kind == TokenKind::Case
    ||| kind == TokenKind::Bang
    ||| kind == TokenKind::LParen
    ||| kind == TokenKind::LBrack
}

/// A construction that starts like no other expression is an expression.
pub proof fn construction_expression(ts: Seq<Token>, i: int, j: int, c: Construct)
    requires
        construction_at(ts, i, j, c),
        i < ts.len(),
        starts_construction(ts[i].kind),
    ensures
        expression_at(ts, i, j, Expression::Construction(c)),
{
    let r = rules(ts, i);
    miss_expr_literal(ts, i);
    miss_expr_list(ts, r, i);
    miss_expr_let(ts, r, i);
    miss_expr_catch(ts, r, i);
    miss_expr_throw(ts, r, i);
    miss_expr_do(ts, r, i);
    miss_expr_box(ts, r, i);
    miss_expr_chan(ts, r, i);
    miss_application(ts, r, i);
    reveal(expression);
}

/// `<<1 2>>` is the bytes of the numbers in it, in order: the remainder of each modulo 256.
pub proof fn bytes(ts: Seq<Token>, i: int, values: Seq<u8>)
    requires
        token_at(ts, i, TokenKind::Lt),
        token_at(ts, i + 1, TokenKind::Lt),
        forall|k: int|
            0 <= k < values.len() ==> token_at(ts, #[trigger] (i + 2 + k), TokenKind::Integer)
                && values[k] as int == integer_value(ts[i + 2 + k]) % 256,
        token_at(ts, i + 2 + values.len(), TokenKind::Gt),
        token_at(ts, i + 3 + values.len(), TokenKind::Gt),
    ensures
        expression_at(
            ts,
            i,
            i + 4 + values.len(),
            Expression::Primitive(
                ts[i].span.join(ts[i + 3 + values.len()].span),
                Primitive::Bytes(values),
            ),
        ),
{
    let at = i + 2;
    let end = at + values.len();
    bytes_from(ts, at);
    if let Outcome::Done(found, found_values) = literal_bytes_inner(ts, at) {
        if found < end {
            assert(token_at(ts, at + (found - at), TokenKind::Integer));
        }
        if found > end {
            assert(ts[end].kind == TokenKind::Integer);
        }
        assert forall|k: int| 0 <= k < values.len() implies values[k] == found_values[k] by {
            assert(token_at(ts, at + k, TokenKind::Integer));
            assert(found_values[at + k - at] == (integer_value(ts[at + k]) % 256) as u8);
        }
        assert(found_values =~= values);
    }
    miss_expr_literal_int(ts, i);
    miss_expr_literal_string(ts, i);
    miss_expr_literal_bytes_empty(ts, i);
    reveal(expr_literal_bytes_nonempty);
    reveal(expr_literal_bytes);
    reveal(expr_literal);
    reveal(expression);
}

/// Underscores among digits count for nothing.
pub(crate) proof fn underscores_count_for_nothing(s: Seq<char>)
    requires
        forall|k: int| 0 <= k < s.len() ==> is_digit(#[trigger] s[k]) || s[k] == '_',
    ensures
        digit_row_value(without_underscores(s)) == digit_row_value(s),
        forall|k: int|
            0 <= k < without_underscores(s).len()
                ==> is_digit(#[trigger] without_underscores(s)[k]),
        (exists|k: int| 0 <= k < s.len() && is_digit(#[trigger] s[k])) ==> without_underscores(
            s,
        ).len() > 0,
    decreases s.len(),
{
    reveal(Seq::filter);
    if s.len() > 0 {
        let rest = s.drop_last();
        assert forall|k: int| 0 <= k < rest.len() implies is_digit(#[trigger] rest[k]) || rest[k]
            == '_' by {
            assert(rest[k] == s[k]);
        }
        underscores_count_for_nothing(rest);
        if is_digit(s.last()) {
            let digits = without_underscores(rest).push(s.last());
            assert(without_underscores(s) == digits);
            assert(digits.drop_last() =~= without_underscores(rest));
        } else {
            assert(without_underscores(s) == without_underscores(rest));
            if exists|k: int| 0 <= k < s.len() && is_digit(#[trigger] s[k]) {
                let k = choose|k: int| 0 <= k < s.len() && is_digit(#[trigger] s[k]);
                assert(rest[k] == s[k]);
            }
        }
    }
}

/// A number of digits, at least one, and underscores denotes the number that the digits stand for.
pub proof fn number(token: Token)
    requires
        forall|k: int|
            0 <= k < token.raw.len() ==> is_digit(#[trigger] token.raw[k]) || token.raw[k] == '_',
        exists|k: int| 0 <= k < token.raw.len() && is_digit(#[trigger] token.raw[k]),
    ensures
        integer_value(token) == digit_row_value(token.raw),
{
    underscores_count_for_nothing(token.raw);
    assert(is_digit(without_underscores(token.raw)[0]));
}

/// What starts like `*(e, f)` is the list of what stands between the parentheses: nothing, or one
/// or more expressions with commas between them. A comma may stand at the end.
pub proof fn list_parts(ts: Seq<Token>, i: int, j: int, whole: Expression) -> (items: Seq<
    Expression,
>)
    requires
        expression_at(ts, i, j, whole),
        token_at(ts, i, TokenKind::Star),
    ensures
        token_at(ts, i + 1, TokenKind::LParen),
        token_at(ts, j - 1, TokenKind::RParen),
        items.len() > 0 ==> expressions_at(ts, i + 2, j - 1, items),
        items.len() == 0 ==> j - 1 == if token_at(ts, i + 2, TokenKind::Comma) {
            i + 3
        } else {
            i + 2
        },
        whole == Expression::List(ts[i].span.join(ts[j - 1].span), items),
{
    broadcast use group_rules;

    let r = rules(ts, i);
    miss_expr_literal(ts, i);
    miss_expr_let(ts, r, i);
    miss_expr_catch(ts, r, i);
    miss_expr_throw(ts, r, i);
    miss_expr_do(ts, r, i);
    miss_expr_box(ts, r, i);
    miss_expr_chan(ts, r, i);
    miss_application(ts, r, i);
    miss_expr_grouped(ts, r, i);
    reveal(expr_list);
    reveal(expression);
    let found = list0(ts, r.expression, i + 2);
    if !((r.expression)(i + 2) matches Outcome::Failed { cut: false, .. }) {
        found_expressions(ts, i, i + 2, found->Done_0, found->Done_1);
    }
    found->Done_1
}

/// What starts with a name or a brace is an operand and what is applied to it, if anything is.
pub proof fn applied_parts(ts: Seq<Token>, i: int, j: int, whole: Expression) -> (parts: (
    Expression,
    int,
    Option<Apply>,
))
    requires
        expression_at(ts, i, j, whole),
        token_at(ts, i, TokenKind::UppercaseIdentifier) || token_at(
            ts,
            i,
            TokenKind::LowercaseIdentifier,
        ) || token_at(ts, i, TokenKind::LCurly),
    ensures
        ({
            let (x, x_end, a) = parts;
            &&& operand_at(ts, i, x_end, x)
            &&& apply_at(ts, x_end, j, a)
            &&& whole == match a {
                Some(a) => Expression::Application(x.span().join(a.span()), Box::new(x), a),
                None => x,
            }
        }),
{
    broadcast use group_rules;

    let r = rules(ts, i);
    miss_expr_literal(ts, i);
    miss_expr_list(ts, r, i);
    miss_expr_let(ts, r, i);
    miss_expr_catch(ts, r, i);
    miss_expr_throw(ts, r, i);
    miss_expr_do(ts, r, i);
    miss_expr_box(ts, r, i);
    miss_expr_chan(ts, r, i);
    committed_expression(ts, i);
    let found = operand(ts, r, i);
    if fails_openly(application(ts, r, i)) {
        miss_cons_begin(ts, r, i);
        miss_cons_unfounded(ts, r, i);
        miss_cons_loop(ts, i);
        miss_cons_signal(ts, r, i);
        miss_cons_case(ts, r, i);
        miss_cons_break(ts, i);
        miss_cons_send_type(ts, r, i);
        miss_cons_send(ts, r, i);
        miss_cons_recv_type(ts, r, i);
        miss_cons_receive(ts, r, i);
        reveal(cons_then_value);
        reveal(construction);
    }
    reveal(application);
    reveal(expression);
    ahead_operand(ts, i, found->Done_0, found->Done_1);
    let applied = apply(ts, rules(ts, found->Done_0), found->Done_0);
    (found->Done_1, found->Done_0, applied->Done_1)
}

/// An operand is a name in upper case, a name in lower case, or an expression in braces.
pub proof fn operand_parts(ts: Seq<Token>, i: int, j: int, whole: Expression)
    requires
        operand_at(ts, i, j, whole),
    ensures
        match whole {
            Expression::Global(span, n) => global_name_at(ts, i, j, n) && span == n.span,
            Expression::Variable(span, n) => local_name_at(ts, i, n) && span == n.span && j == i
                + 1,
            Expression::Grouped(span, e) => {
                &&& token_at(ts, i, TokenKind::LCurly)
                &&& expression_at(ts, i + 1, j - 1, *e)
                &&& token_at(ts, j - 1, TokenKind::RCurly)
                &&& span == ts[i].span.join(ts[j - 1].span)
            },
            _ => false,
        },
{
    broadcast use group_rules;

    reveal(expr_grouped);
    reveal(operand);
    if token_at(ts, i, TokenKind::UppercaseIdentifier) {
        let name = global_name(ts, i);
        found_global_name(ts, i, name->Done_0, name->Done_1);
    }
}

/// What starts like a construction and like no other expression is one.
pub proof fn construction_expression_parts(
    ts: Seq<Token>,
    i: int,
    j: int,
    whole: Expression,
)
    requires
        expression_at(ts, i, j, whole),
        i < ts.len(),
        starts_construction(ts[i].kind),
    ensures
        (whole matches Expression::Construction(c) && construction_at(ts, i, j, c)),
{
    let r = rules(ts, i);
    miss_expr_literal(ts, i);
    miss_expr_list(ts, r, i);
    miss_expr_let(ts, r, i);
    miss_expr_catch(ts, r, i);
    miss_expr_throw(ts, r, i);
    miss_expr_do(ts, r, i);
    miss_expr_box(ts, r, i);
    miss_expr_chan(ts, r, i);
    miss_application(ts, r, i);
    miss_expr_grouped(ts, r, i);
    reveal(expression);
}

/// What starts like `<<1 2>>` is the bytes of the numbers in it, in order: the remainder of each
/// modulo 256.
pub proof fn bytes_parts(ts: Seq<Token>, i: int, j: int, whole: Expression) -> (values: Seq<u8>)
    requires
        expression_at(ts, i, j, whole),
        token_at(ts, i, TokenKind::Lt),
        token_at(ts, i + 1, TokenKind::Lt),
    ensures
        j == i + 4 + values.len(),
        forall|k: int|
            0 <= k < values.len() ==> token_at(ts, #[trigger] (i + 2 + k), TokenKind::Integer)
                && values[k] as int == integer_value(ts[i + 2 + k]) % 256,
        token_at(ts, j - 2, TokenKind::Gt),
        token_at(ts, j - 1, TokenKind::Gt),
        whole == Expression::Primitive(
            ts[i].span.join(ts[j - 1].span),
            Primitive::Bytes(values),
        ),
{
    let at = i + 2;
    bytes_from(ts, at);
    committed_expression(ts, i);
    miss_expr_literal_int(ts, i);
    miss_expr_literal_string(ts, i);
    miss_expr_literal_bytes_empty(ts, i);
    reveal(expr_literal_bytes_nonempty);
    reveal(expr_literal_bytes);
    reveal(expr_literal);
    reveal(expression);
    let found = literal_bytes_inner(ts, at);
    let values = found->Done_1;
    assert forall|k: int| 0 <= k < values.len() implies token_at(
        ts,
        #[trigger] (i + 2 + k),
        TokenKind::Integer,
    ) && values[k] as int == integer_value(ts[i + 2 + k]) % 256 by {
        assert(ts[at + k].kind == TokenKind::Integer);
        assert(values[at + k - at] == (integer_value(ts[at + k]) % 256) as u8);
    }
    values
}

} // verus!
