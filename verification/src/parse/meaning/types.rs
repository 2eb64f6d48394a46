//! What types come to.
use super::super::grammar::{
    branches_body, global_name, group_rules, label, list1, local_name, rules,
};
use super::super::grammar::types::{
    exists_step, forall_step, function_step, pair_step, typ, typ_box, typ_branch,
    typ_branch_receive, typ_branch_recv_type, typ_branch_then, typ_break, typ_chan, typ_choice,
    typ_continue, typ_either, typ_iterative, typ_name, typ_receive, typ_recursive, typ_recv_type,
    typ_self, typ_send, typ_send_type, typ_var, type_args,
};
use super::{
    ahead_typ, ahead_typ_branch, collected, fails_at, fails_like, global_name_at, label_at, lacks,
    local_name_at, token_at, typ_at, typ_branch_at,
};
use super::misses::{
    miss_typ, miss_typ_box, miss_typ_break, miss_typ_chan, miss_typ_choice, miss_typ_continue,
    miss_typ_either, miss_typ_iterative, miss_typ_receive, miss_typ_recursive, miss_typ_recv_type,
    miss_typ_self, miss_typ_send, miss_typ_send_type, miss_typ_var, only_typ_box,
    only_typ_branch_receive, only_typ_branch_recv_type, only_typ_branch_then, only_typ_break,
    only_typ_chan, only_typ_choice, only_typ_continue, only_typ_either, only_typ_iterative,
    only_typ_name, only_typ_receive, only_typ_recursive, only_typ_recv_type, only_typ_self,
    only_typ_send, only_typ_send_type, only_typ_var,
};
use super::parts::{
    found_global_name, found_label, found_names, found_typ_body, found_typ_branch_body, found_typs,
    names_at, read_global_name, read_label, read_local_name, read_names, read_typ_body,
    read_typ_branch_body, read_typs, typ_body_at, typ_branch_body_at, typs_at,
};
use crate::model::{GlobalName, LocalName, Span, Token, Type};
use crate::token::TokenKind;
use vstd::prelude::*;

verus! {

/// A type does not start with the word `type`.
pub(crate) proof fn not_word_type_typ(ts: Seq<Token>, i: int, x: Type)
    requires
        exists|j: int| #[trigger] typ_at(ts, i, j, x),
    ensures
        !token_at(ts, i, TokenKind::Type),
{
    let r = rules(ts, i);
    if token_at(ts, i, TokenKind::Type) {
        miss_typ(ts, r, i);
    }
}

/// `a` is the type variable `a`.
pub proof fn variable_type(ts: Seq<Token>, i: int, n: LocalName)
    requires
        local_name_at(ts, i, n),
    ensures
        typ_at(
            ts,
            i,
            i + 1,
            Type::Var(n.span, n),
        ),
{
    broadcast use group_rules;

    read_local_name(ts, i, n);
    reveal(typ_var);
    only_typ_var(ts, i);
}

/// What starts like `a` is that, with all of its parts.
pub proof fn variable_type_parts(ts: Seq<Token>, i: int, j: int, whole: Type) -> (parts: LocalName)
    requires
        typ_at(ts, i, j, whole),
        token_at(ts, i, TokenKind::LowercaseIdentifier),
    ensures
        ({
            let n = parts;
            &&& local_name_at(ts, i, n)
            &&& j == i + 1
            &&& whole == (Type::Var(n.span, n))
        }),
{
    broadcast use group_rules;

    only_typ_var(ts, i);
    reveal(typ_var);
    let n = LocalName { span: ts[i].span, string: ts[i].raw };
    n
}

/// `Name`, with no `<` after it, is the type of that name, with no arguments.
pub proof fn named_type(ts: Seq<Token>, i: int, n: GlobalName, n_end: int)
    requires
        global_name_at(ts, i, n_end, n),
        !token_at(ts, n_end, TokenKind::Lt),
    ensures
        typ_at(
            ts,
            i,
            n_end,
            Type::Name(n.span, n, Seq::empty()),
        ),
{
    broadcast use group_rules;

    read_global_name(ts, i, n_end, n);
    reveal(typ_name);
    only_typ_name(ts, i);
    reveal(type_args);
}

/// `Name<a, b>` is the type of that name, with the types between the brackets as its arguments, in
/// order.
pub proof fn named_type_with_args(
    ts: Seq<Token>,
    i: int,
    n: GlobalName,
    n_end: int,
    args: Seq<Type>,
    args_end: int,
)
    requires
        global_name_at(ts, i, n_end, n),
        token_at(ts, n_end, TokenKind::Lt),
        typs_at(ts, n_end + 1, args_end, args),
        token_at(ts, args_end, TokenKind::Gt),
    ensures
        typ_at(
            ts,
            i,
            args_end + 1,
            Type::Name(n.span.join(ts[n_end].span.join(ts[args_end].span)), n, args),
        ),
{
    broadcast use group_rules;

    read_global_name(ts, i, n_end, n);
    read_typs(ts, i, n_end + 1, args_end, args);
    reveal(typ_name);
    only_typ_name(ts, i);
    reveal(type_args);
}

/// What starts like `Name` is the type of that name, with the types between the angle brackets as
/// its arguments, in order, if such a bracket follows the name, and with none otherwise.
pub proof fn named_type_parts(ts: Seq<Token>, i: int, j: int, whole: Type) -> (parts: (
    GlobalName,
    int,
    Seq<Type>,
    int,
))
    requires
        typ_at(ts, i, j, whole),
        token_at(ts, i, TokenKind::UppercaseIdentifier),
    ensures
        ({
            let (n, n_end, args, args_end) = parts;
            &&& global_name_at(ts, i, n_end, n)
            &&& if token_at(ts, n_end, TokenKind::Lt) {
                &&& typs_at(ts, n_end + 1, args_end, args)
                &&& token_at(ts, args_end, TokenKind::Gt)
                &&& j == args_end + 1
                &&& whole == Type::Name(
                    n.span.join(ts[n_end].span.join(ts[args_end].span)),
                    n,
                    args,
                )
            } else {
                &&& j == n_end
                &&& whole == Type::Name(n.span, n, Seq::empty())
            }
        }),
{
    broadcast use group_rules;

    let r = rules(ts, i);
    miss_typ_var(ts, i);
    miss_typ_box(ts, r, i);
    miss_typ_chan(ts, r, i);
    miss_typ_either(ts, r, i);
    miss_typ_choice(ts, r, i);
    miss_typ_break(ts, i);
    miss_typ_continue(ts, i);
    miss_typ_recursive(ts, r, i);
    miss_typ_iterative(ts, r, i);
    miss_typ_self(ts, i);
    miss_typ_send_type(ts, r, i);
    miss_typ_send(ts, r, i);
    miss_typ_recv_type(ts, r, i);
    miss_typ_receive(ts, r, i);
    reveal(type_args);
    reveal(typ_name);
    reveal(typ);
    let name = global_name(ts, i);
    let n = name->Done_1;
    let n_end = name->Done_0;
    found_global_name(ts, i, n_end, n);
    if token_at(ts, n_end, TokenKind::Lt) {
        let found = list1(ts, r.typ, n_end + 1);
        found_typs(ts, i, n_end + 1, found->Done_0, found->Done_1);
        (n, n_end, found->Done_1, found->Done_0)
    } else {
        (n, n_end, Seq::empty(), n_end)
    }
}

/// `box a` is the box of `a`.
pub proof fn box_type(ts: Seq<Token>, i: int, x: Type, x_end: int)
    requires
        token_at(ts, i, TokenKind::Box),
        typ_at(ts, i + 1, x_end, x),
    ensures
        typ_at(
            ts,
            i,
            x_end,
            Type::Box(ts[i].span, Box::new(x)),
        ),
{
    broadcast use group_rules;

    ahead_typ(ts, i + 1, x_end, x);
    reveal(typ_box);
    only_typ_box(ts, i);
}

/// What starts like `box a` is that, with all of its parts.
pub proof fn box_type_parts(ts: Seq<Token>, i: int, j: int, whole: Type) -> (parts: (Type, int))
    requires
        typ_at(ts, i, j, whole),
        token_at(ts, i, TokenKind::Box),
    ensures
        ({
            let (x, x_end) = parts;
            &&& token_at(ts, i, TokenKind::Box)
            &&& typ_at(ts, i + 1, x_end, x)
            &&& j == x_end
            &&& whole == (Type::Box(ts[i].span, Box::new(x)))
        }),
{
    broadcast use group_rules;

    only_typ_box(ts, i);
    reveal(typ_box);
    let x_found = typ(ts, rules(ts, i + 1), i + 1);
    let x_end = x_found->Done_0;
    let x = x_found->Done_1;
    ahead_typ(ts, i + 1, x_end, x);
    (x, x_end)
}

/// What starts like `box a` and lacks a part fails for good where that is missing.
pub proof fn box_type_fails(ts: Seq<Token>, i: int)
    requires
        token_at(ts, i, TokenKind::Box),
    ensures
        fails_like(typ(ts, rules(ts, i), i), typ(ts, rules(ts, i + 1), i + 1)),
{
    broadcast use group_rules;

    only_typ_box(ts, i);
    reveal(typ_box);
}

/// `dual a` is the dual of `a`.
pub proof fn dual_type(ts: Seq<Token>, i: int, x: Type, x_end: int)
    requires
        token_at(ts, i, TokenKind::Dual),
        typ_at(ts, i + 1, x_end, x),
    ensures
        typ_at(
            ts,
            i,
            x_end,
            Type::Dual(ts[i].span, Box::new(x)),
        ),
{
    broadcast use group_rules;

    ahead_typ(ts, i + 1, x_end, x);
    reveal(typ_chan);
    only_typ_chan(ts, i);
}

/// What starts like `dual a` is that, with all of its parts.
pub proof fn dual_type_parts(ts: Seq<Token>, i: int, j: int, whole: Type) -> (parts: (Type, int))
    requires
        typ_at(ts, i, j, whole),
        token_at(ts, i, TokenKind::Dual),
    ensures
        ({
            let (x, x_end) = parts;
            &&& token_at(ts, i, TokenKind::Dual)
            &&& typ_at(ts, i + 1, x_end, x)
            &&& j == x_end
            &&& whole == (Type::Dual(ts[i].span, Box::new(x)))
        }),
{
    broadcast use group_rules;

    only_typ_chan(ts, i);
    reveal(typ_chan);
    let x_found = typ(ts, rules(ts, i + 1), i + 1);
    let x_end = x_found->Done_0;
    let x = x_found->Done_1;
    ahead_typ(ts, i + 1, x_end, x);
    (x, x_end)
}

/// What starts like `dual a` and lacks a part fails for good where that is missing.
pub proof fn dual_type_fails(ts: Seq<Token>, i: int)
    requires
        token_at(ts, i, TokenKind::Dual),
    ensures
        fails_like(typ(ts, rules(ts, i), i), typ(ts, rules(ts, i + 1), i + 1)),
{
    broadcast use group_rules;

    only_typ_chan(ts, i);
    reveal(typ_chan);
}

/// The pair of the first of `xs` and of the pair of the second one and so on, down to `rest`.
pub open spec fn pairs(span: Span, xs: Seq<Type>, rest: Type) -> Type
    decreases xs.len(),
{
    if xs.len() == 0 {
        rest
    } else {
        Type::Pair(span, Box::new(xs[0]), Box::new(pairs(span, xs.drop_first(), rest)))
    }
}

/// One after the other, from the last one on.
pub(crate) proof fn fold_pairs(span: Span, xs: Seq<Type>, rest: Type)
    ensures
        xs.fold_right(pair_step(span), rest) == pairs(span, xs, rest),
    decreases xs.len(),
{
    xs.lemma_fold_right_alt(pair_step(span), rest);
    if xs.len() > 0 {
        let others = xs.drop_first();
        others.lemma_fold_right_alt(pair_step(span), rest);
        fold_pairs(span, others, rest);
        assert(xs.subrange(1, xs.len() as int) =~= others);
    }
}

/// `(a, b) c` is the pair of `a` and of the pair of `b` and `c`.
pub proof fn pair_type(
    ts: Seq<Token>,
    i: int,
    args: Seq<Type>,
    args_end: int,
    rest: Type,
    rest_end: int,
)
    requires
        token_at(ts, i, TokenKind::LParen),
        typs_at(ts, i + 1, args_end, args),
        token_at(ts, args_end, TokenKind::RParen),
        typ_at(ts, args_end + 1, rest_end, rest),
    ensures
        typ_at(
            ts,
            i,
            rest_end,
            pairs(ts[i].span.join(rest.span()), args, rest),
        ),
{
    broadcast use group_rules;

    read_typs(ts, i, i + 1, args_end, args);
    ahead_typ(ts, args_end + 1, rest_end, rest);
    fold_pairs(ts[i].span.join(rest.span()), args, rest);
    not_word_type_typ(ts, i + 1, args[0]);
    reveal(typ_send);
    only_typ_send(ts, i);
}

/// What starts like `(a, b) c` is that, with all of its parts.
pub proof fn pair_type_parts(
    ts: Seq<Token>,
    i: int,
    j: int,
    whole: Type,
) -> (parts: (Seq<Type>, int, Type, int))
    requires
        typ_at(ts, i, j, whole),
        token_at(ts, i, TokenKind::LParen),
        !token_at(ts, i + 1, TokenKind::Type),
    ensures
        ({
            let (args, args_end, rest, rest_end) = parts;
            &&& token_at(ts, i, TokenKind::LParen)
            &&& typs_at(ts, i + 1, args_end, args)
            &&& token_at(ts, args_end, TokenKind::RParen)
            &&& typ_at(ts, args_end + 1, rest_end, rest)
            &&& j == rest_end
            &&& whole == (pairs(ts[i].span.join(rest.span()), args, rest))
        }),
{
    broadcast use group_rules;

    let r = rules(ts, i);
    only_typ_send(ts, i);
    reveal(typ_send);
    let args_found = list1(ts, r.typ, i + 1);
    let args_end = args_found->Done_0;
    let args = args_found->Done_1;
    found_typs(ts, i, i + 1, args_end, args);
    let rest_found = typ(ts, rules(ts, args_end + 1), args_end + 1);
    let rest_end = rest_found->Done_0;
    let rest = rest_found->Done_1;
    ahead_typ(ts, args_end + 1, rest_end, rest);
    fold_pairs(ts[i].span.join(rest.span()), args, rest);
    (args, args_end, rest, rest_end)
}

/// What starts like `(a, b) c` and lacks a part fails for good where that is missing.
pub proof fn pair_type_fails(ts: Seq<Token>, i: int, args: Seq<Type>, args_end: int)
    requires
        token_at(ts, i, TokenKind::LParen),
        !token_at(ts, i + 1, TokenKind::Type),
    ensures
        fails_like(typ(ts, rules(ts, i), i), typ(ts, rules(ts, i + 1), i + 1)),
        typs_at(ts, i + 1, args_end, args) && !token_at(ts, args_end, TokenKind::RParen)
            ==> lacks(ts, typ(ts, rules(ts, i), i), args_end, TokenKind::RParen),
        typs_at(ts, i + 1, args_end, args) && token_at(ts, args_end, TokenKind::RParen)
            ==> fails_like(typ(ts, rules(ts, i), i), typ(ts, rules(ts, args_end + 1),
            args_end + 1)),
{
    broadcast use group_rules;

    only_typ_send(ts, i);
    reveal(typ_send);
    if typs_at(ts, i + 1, args_end, args) {
        read_typs(ts, i, i + 1, args_end, args);
    }
}

/// The function from the first of `xs` to the function from the second one and so on, down to
/// `rest`.
pub open spec fn functions(span: Span, xs: Seq<Type>, rest: Type) -> Type
    decreases xs.len(),
{
    if xs.len() == 0 {
        rest
    } else {
        Type::Function(span, Box::new(xs[0]), Box::new(functions(span, xs.drop_first(), rest)))
    }
}

/// One after the other, from the last one on.
pub(crate) proof fn fold_functions(span: Span, xs: Seq<Type>, rest: Type)
    ensures
        xs.fold_right(function_step(span), rest) == functions(span, xs, rest),
    decreases xs.len(),
{
    xs.lemma_fold_right_alt(function_step(span), rest);
    if xs.len() > 0 {
        let others = xs.drop_first();
        others.lemma_fold_right_alt(function_step(span), rest);
        fold_functions(span, others, rest);
        assert(xs.subrange(1, xs.len() as int) =~= others);
    }
}

/// `[a, b] c` is the function from `a` to the function from `b` to `c`.
pub proof fn function_type(
    ts: Seq<Token>,
    i: int,
    args: Seq<Type>,
    args_end: int,
    rest: Type,
    rest_end: int,
)
    requires
        token_at(ts, i, TokenKind::LBrack),
        typs_at(ts, i + 1, args_end, args),
        token_at(ts, args_end, TokenKind::RBrack),
        typ_at(ts, args_end + 1, rest_end, rest),
    ensures
        typ_at(
            ts,
            i,
            rest_end,
            functions(ts[i].span.join(rest.span()), args, rest),
        ),
{
    broadcast use group_rules;

    read_typs(ts, i, i + 1, args_end, args);
    ahead_typ(ts, args_end + 1, rest_end, rest);
    fold_functions(ts[i].span.join(rest.span()), args, rest);
    not_word_type_typ(ts, i + 1, args[0]);
    reveal(typ_receive);
    only_typ_receive(ts, i);
}

/// What starts like `[a, b] c` is that, with all of its parts.
pub proof fn function_type_parts(
    ts: Seq<Token>,
    i: int,
    j: int,
    whole: Type,
) -> (parts: (Seq<Type>, int, Type, int))
    requires
        typ_at(ts, i, j, whole),
        token_at(ts, i, TokenKind::LBrack),
        !token_at(ts, i + 1, TokenKind::Type),
    ensures
        ({
            let (args, args_end, rest, rest_end) = parts;
            &&& token_at(ts, i, TokenKind::LBrack)
            &&& typs_at(ts, i + 1, args_end, args)
            &&& token_at(ts, args_end, TokenKind::RBrack)
            &&& typ_at(ts, args_end + 1, rest_end, rest)
            &&& j == rest_end
            &&& whole == (functions(ts[i].span.join(rest.span()), args, rest))
        }),
{
    broadcast use group_rules;

    let r = rules(ts, i);
    only_typ_receive(ts, i);
    reveal(typ_receive);
    let args_found = list1(ts, r.typ, i + 1);
    let args_end = args_found->Done_0;
    let args = args_found->Done_1;
    found_typs(ts, i, i + 1, args_end, args);
    let rest_found = typ(ts, rules(ts, args_end + 1), args_end + 1);
    let rest_end = rest_found->Done_0;
    let rest = rest_found->Done_1;
    ahead_typ(ts, args_end + 1, rest_end, rest);
    fold_functions(ts[i].span.join(rest.span()), args, rest);
    (args, args_end, rest, rest_end)
}

/// What starts like `[a, b] c` and lacks a part fails for good where that is missing.
pub proof fn function_type_fails(ts: Seq<Token>, i: int, args: Seq<Type>, args_end: int)
    requires
        token_at(ts, i, TokenKind::LBrack),
        !token_at(ts, i + 1, TokenKind::Type),
    ensures
        fails_like(typ(ts, rules(ts, i), i), typ(ts, rules(ts, i + 1), i + 1)),
        typs_at(ts, i + 1, args_end, args) && !token_at(ts, args_end, TokenKind::RBrack)
            ==> lacks(ts, typ(ts, rules(ts, i), i), args_end, TokenKind::RBrack),
        typs_at(ts, i + 1, args_end, args) && token_at(ts, args_end, TokenKind::RBrack)
            ==> fails_like(typ(ts, rules(ts, i), i), typ(ts, rules(ts, args_end + 1),
            args_end + 1)),
{
    broadcast use group_rules;

    only_typ_receive(ts, i);
    reveal(typ_receive);
    if typs_at(ts, i + 1, args_end, args) {
        read_typs(ts, i, i + 1, args_end, args);
    }
}

/// `either { .x a, .y b }` is the choice of one of the types by the sender, by name.
pub proof fn either_type(ts: Seq<Token>, i: int, rows: Seq<(LocalName, Type)>, rows_end: int)
    requires
        token_at(ts, i, TokenKind::Either),
        typ_body_at(ts, i + 1, rows_end, rows),
    ensures
        typ_at(
            ts,
            i,
            rows_end,
            Type::Either(ts[i].span.join(ts[i + 1].span.join(ts[rows_end - 1].span)),
                collected(Seq::empty(), rows)),
        ),
{
    broadcast use group_rules;

    read_typ_body(ts, i, i + 1, rows_end, rows);
    reveal(typ_either);
    only_typ_either(ts, i);
}

/// What starts like `either { .x a, .y b }` is that, with all of its parts.
pub proof fn either_type_parts(
    ts: Seq<Token>,
    i: int,
    j: int,
    whole: Type,
) -> (parts: (Seq<(LocalName, Type)>, int))
    requires
        typ_at(ts, i, j, whole),
        token_at(ts, i, TokenKind::Either),
    ensures
        ({
            let (rows, rows_end) = parts;
            &&& token_at(ts, i, TokenKind::Either)
            &&& typ_body_at(ts, i + 1, rows_end, rows)
            &&& j == rows_end
            &&& whole == (Type::Either(ts[i].span.join(ts[i + 1].span.join(ts[rows_end - 1].span)),
                collected(Seq::empty(), rows)))
        }),
{
    broadcast use group_rules;

    let r = rules(ts, i);
    only_typ_either(ts, i);
    reveal(typ_either);
    let rows_found = branches_body(ts, r.typ, i + 1);
    let rows_end = rows_found->Done_0;
    let rows = found_typ_body(ts, i, i + 1, rows_end, rows_found->Done_1);
    (rows, rows_end)
}

/// What starts like `either { .x a, .y b }` and lacks a part fails for good where that is missing.
pub proof fn either_type_fails(ts: Seq<Token>, i: int)
    requires
        token_at(ts, i, TokenKind::Either),
    ensures
        !token_at(ts, i + 1, TokenKind::LCurly)
            ==> lacks(ts, typ(ts, rules(ts, i), i), i + 1, TokenKind::LCurly),
{
    broadcast use group_rules;

    only_typ_either(ts, i);
    reveal(typ_either);
}

/// `choice { .x => a, .y => b }` is the choice of one of the types by the receiver, by name.
pub proof fn choice_type(ts: Seq<Token>, i: int, rows: Seq<(LocalName, Type)>, rows_end: int)
    requires
        token_at(ts, i, TokenKind::Choice),
        typ_branch_body_at(ts, i + 1, rows_end, rows),
    ensures
        typ_at(
            ts,
            i,
            rows_end,
            Type::Choice(ts[i].span.join(ts[i + 1].span.join(ts[rows_end - 1].span)),
                collected(Seq::empty(), rows)),
        ),
{
    broadcast use group_rules;

    read_typ_branch_body(ts, i, i + 1, rows_end, rows);
    reveal(typ_choice);
    only_typ_choice(ts, i);
}

/// What starts like `choice { .x => a, .y => b }` is that, with all of its parts.
pub proof fn choice_type_parts(
    ts: Seq<Token>,
    i: int,
    j: int,
    whole: Type,
) -> (parts: (Seq<(LocalName, Type)>, int))
    requires
        typ_at(ts, i, j, whole),
        token_at(ts, i, TokenKind::Choice),
    ensures
        ({
            let (rows, rows_end) = parts;
            &&& token_at(ts, i, TokenKind::Choice)
            &&& typ_branch_body_at(ts, i + 1, rows_end, rows)
            &&& j == rows_end
            &&& whole == (Type::Choice(ts[i].span.join(ts[i + 1].span.join(ts[rows_end - 1].span)),
                collected(Seq::empty(), rows)))
        }),
{
    broadcast use group_rules;

    let r = rules(ts, i);
    only_typ_choice(ts, i);
    reveal(typ_choice);
    let rows_found = branches_body(ts, r.typ_branch, i + 1);
    let rows_end = rows_found->Done_0;
    let rows = found_typ_branch_body(ts, i, i + 1, rows_end, rows_found->Done_1);
    (rows, rows_end)
}

/// What starts like `choice { .x => a, .y => b }` and lacks a part fails for good where that is
/// missing.
pub proof fn choice_type_fails(ts: Seq<Token>, i: int)
    requires
        token_at(ts, i, TokenKind::Choice),
    ensures
        !token_at(ts, i + 1, TokenKind::LCurly)
            ==> lacks(ts, typ(ts, rules(ts, i), i), i + 1, TokenKind::LCurly),
{
    broadcast use group_rules;

    only_typ_choice(ts, i);
    reveal(typ_choice);
}

/// `!` is the type of what ends.
pub proof fn break_type(ts: Seq<Token>, i: int)
    requires
        token_at(ts, i, TokenKind::Bang),
    ensures
        typ_at(
            ts,
            i,
            i + 1,
            Type::Break(ts[i].span),
        ),
{
    broadcast use group_rules;

    reveal(typ_break);
    only_typ_break(ts, i);
}

/// `?` is the type of what the other side ends.
pub proof fn continue_type(ts: Seq<Token>, i: int)
    requires
        token_at(ts, i, TokenKind::Quest),
    ensures
        typ_at(
            ts,
            i,
            i + 1,
            Type::Continue(ts[i].span),
        ),
{
    broadcast use group_rules;

    reveal(typ_continue);
    only_typ_continue(ts, i);
}

/// `recursive@l a` is the recursive type with the label `l` and the body `a`.
pub proof fn recursive_type(
    ts: Seq<Token>,
    i: int,
    l: Option<LocalName>,
    l_end: int,
    x: Type,
    x_end: int,
)
    requires
        token_at(ts, i, TokenKind::Recursive),
        label_at(ts, i + 1, l_end, l),
        typ_at(ts, l_end, x_end, x),
    ensures
        typ_at(
            ts,
            i,
            x_end,
            Type::Recursive {
                span: ts[i].span.join(x.span()),
                asc: Seq::empty(),
                label: l,
                body: Box::new(x),
            },
        ),
{
    broadcast use group_rules;

    read_label(ts, i + 1, l_end, l);
    ahead_typ(ts, l_end, x_end, x);
    reveal(typ_recursive);
    only_typ_recursive(ts, i);
}

/// What starts like `recursive@l a` is that, with all of its parts.
pub proof fn recursive_type_parts(
    ts: Seq<Token>,
    i: int,
    j: int,
    whole: Type,
) -> (parts: (Option<LocalName>, int, Type, int))
    requires
        typ_at(ts, i, j, whole),
        token_at(ts, i, TokenKind::Recursive),
    ensures
        ({
            let (l, l_end, x, x_end) = parts;
            &&& token_at(ts, i, TokenKind::Recursive)
            &&& label_at(ts, i + 1, l_end, l)
            &&& typ_at(ts, l_end, x_end, x)
            &&& j == x_end
            &&& whole == (Type::Recursive {
                span: ts[i].span.join(x.span()),
                asc: Seq::empty(),
                label: l,
                body: Box::new(x),
            })
        }),
{
    broadcast use group_rules;

    only_typ_recursive(ts, i);
    reveal(typ_recursive);
    let l_found = label(ts, i + 1);
    let l_end = l_found->Done_0;
    let l = l_found->Done_1;
    found_label(ts, i + 1, l_end, l);
    let x_found = typ(ts, rules(ts, l_end), l_end);
    let x_end = x_found->Done_0;
    let x = x_found->Done_1;
    ahead_typ(ts, l_end, x_end, x);
    (l, l_end, x, x_end)
}

/// What starts like `recursive@l a` and lacks a part fails for good where that is missing.
pub proof fn recursive_type_fails(ts: Seq<Token>, i: int, l: Option<LocalName>, l_end: int)
    requires
        token_at(ts, i, TokenKind::Recursive),
    ensures
        label_at(ts, i + 1, l_end, l)
            ==> fails_like(typ(ts, rules(ts, i), i), typ(ts, rules(ts, l_end), l_end)),
{
    broadcast use group_rules;

    only_typ_recursive(ts, i);
    reveal(typ_recursive);
    if label_at(ts, i + 1, l_end, l) {
        read_label(ts, i + 1, l_end, l);
    }
}

/// `iterative@l a` is the iterative type with the label `l` and the body `a`.
pub proof fn iterative_type(
    ts: Seq<Token>,
    i: int,
    l: Option<LocalName>,
    l_end: int,
    x: Type,
    x_end: int,
)
    requires
        token_at(ts, i, TokenKind::Iterative),
        label_at(ts, i + 1, l_end, l),
        typ_at(ts, l_end, x_end, x),
    ensures
        typ_at(
            ts,
            i,
            x_end,
            Type::Iterative {
                span: ts[i].span.join(x.span()),
                asc: Seq::empty(),
                label: l,
                body: Box::new(x),
            },
        ),
{
    broadcast use group_rules;

    read_label(ts, i + 1, l_end, l);
    ahead_typ(ts, l_end, x_end, x);
    reveal(typ_iterative);
    only_typ_iterative(ts, i);
}

/// What starts like `iterative@l a` is that, with all of its parts.
pub proof fn iterative_type_parts(
    ts: Seq<Token>,
    i: int,
    j: int,
    whole: Type,
) -> (parts: (Option<LocalName>, int, Type, int))
    requires
        typ_at(ts, i, j, whole),
        token_at(ts, i, TokenKind::Iterative),
    ensures
        ({
            let (l, l_end, x, x_end) = parts;
            &&& token_at(ts, i, TokenKind::Iterative)
            &&& label_at(ts, i + 1, l_end, l)
            &&& typ_at(ts, l_end, x_end, x)
            &&& j == x_end
            &&& whole == (Type::Iterative {
                span: ts[i].span.join(x.span()),
                asc: Seq::empty(),
                label: l,
                body: Box::new(x),
            })
        }),
{
    broadcast use group_rules;

    only_typ_iterative(ts, i);
    reveal(typ_iterative);
    let l_found = label(ts, i + 1);
    let l_end = l_found->Done_0;
    let l = l_found->Done_1;
    found_label(ts, i + 1, l_end, l);
    let x_found = typ(ts, rules(ts, l_end), l_end);
    let x_end = x_found->Done_0;
    let x = x_found->Done_1;
    ahead_typ(ts, l_end, x_end, x);
    (l, l_end, x, x_end)
}

/// What starts like `iterative@l a` and lacks a part fails for good where that is missing.
pub proof fn iterative_type_fails(ts: Seq<Token>, i: int, l: Option<LocalName>, l_end: int)
    requires
        token_at(ts, i, TokenKind::Iterative),
    ensures
        label_at(ts, i + 1, l_end, l)
            ==> fails_like(typ(ts, rules(ts, i), i), typ(ts, rules(ts, l_end), l_end)),
{
    broadcast use group_rules;

    only_typ_iterative(ts, i);
    reveal(typ_iterative);
    if label_at(ts, i + 1, l_end, l) {
        read_label(ts, i + 1, l_end, l);
    }
}

/// `self@l` is the type itself that has the label `l`.
pub proof fn self_type(ts: Seq<Token>, i: int, l: Option<LocalName>, l_end: int)
    requires
        token_at(ts, i, TokenKind::Self_),
        label_at(ts, i + 1, l_end, l),
    ensures
        typ_at(
            ts,
            i,
            l_end,
            Type::Self_(
                match l {
                    Some(name) => ts[i].span.join(name.span),
                    None => ts[i].span,
                },
                l,
            ),
        ),
{
    broadcast use group_rules;

    read_label(ts, i + 1, l_end, l);
    reveal(typ_self);
    only_typ_self(ts, i);
}

/// What starts like `self@l` is that, with all of its parts.
pub proof fn self_type_parts(
    ts: Seq<Token>,
    i: int,
    j: int,
    whole: Type,
) -> (parts: (Option<LocalName>, int))
    requires
        typ_at(ts, i, j, whole),
        token_at(ts, i, TokenKind::Self_),
    ensures
        ({
            let (l, l_end) = parts;
            &&& token_at(ts, i, TokenKind::Self_)
            &&& label_at(ts, i + 1, l_end, l)
            &&& j == l_end
            &&& whole == (Type::Self_(
                match l {
                    Some(name) => ts[i].span.join(name.span),
                    None => ts[i].span,
                },
                l,
            ))
        }),
{
    broadcast use group_rules;

    only_typ_self(ts, i);
    reveal(typ_self);
    let l_found = label(ts, i + 1);
    let l_end = l_found->Done_0;
    let l = l_found->Done_1;
    found_label(ts, i + 1, l_end, l);
    (l, l_end)
}

/// The type that hides the first of the names `xs`, in one that hides the second one and so on,
/// down
/// to `rest`.
pub open spec fn existentials(span: Span, xs: Seq<LocalName>, rest: Type) -> Type
    decreases xs.len(),
{
    if xs.len() == 0 {
        rest
    } else {
        Type::Exists(span, xs[0], Box::new(existentials(span, xs.drop_first(), rest)))
    }
}

/// One after the other, from the last one on.
pub(crate) proof fn fold_existentials(span: Span, xs: Seq<LocalName>, rest: Type)
    ensures
        xs.fold_right(exists_step(span), rest) == existentials(span, xs, rest),
    decreases xs.len(),
{
    xs.lemma_fold_right_alt(exists_step(span), rest);
    if xs.len() > 0 {
        let others = xs.drop_first();
        others.lemma_fold_right_alt(exists_step(span), rest);
        fold_existentials(span, others, rest);
        assert(xs.subrange(1, xs.len() as int) =~= others);
    }
}

/// `(type a, b) c` is the type `c` in which `b` is hidden, and then `a`.
pub proof fn exists_type(
    ts: Seq<Token>,
    i: int,
    names: Seq<LocalName>,
    names_end: int,
    rest: Type,
    rest_end: int,
)
    requires
        token_at(ts, i, TokenKind::LParen),
        token_at(ts, i + 1, TokenKind::Type),
        names_at(ts, i + 2, names_end, names),
        token_at(ts, names_end, TokenKind::RParen),
        typ_at(ts, names_end + 1, rest_end, rest),
    ensures
        typ_at(
            ts,
            i,
            rest_end,
            existentials(ts[i].span.join(rest.span()), names, rest),
        ),
{
    broadcast use group_rules;

    read_names(ts, i + 2, names_end, names);
    ahead_typ(ts, names_end + 1, rest_end, rest);
    fold_existentials(ts[i].span.join(rest.span()), names, rest);
    reveal(typ_send_type);
    only_typ_send_type(ts, i);
}

/// What starts like `(type a, b) c` is that, with all of its parts.
pub proof fn exists_type_parts(
    ts: Seq<Token>,
    i: int,
    j: int,
    whole: Type,
) -> (parts: (Seq<LocalName>, int, Type, int))
    requires
        typ_at(ts, i, j, whole),
        token_at(ts, i, TokenKind::LParen),
        token_at(ts, i + 1, TokenKind::Type),
    ensures
        ({
            let (names, names_end, rest, rest_end) = parts;
            &&& token_at(ts, i, TokenKind::LParen)
            &&& token_at(ts, i + 1, TokenKind::Type)
            &&& names_at(ts, i + 2, names_end, names)
            &&& token_at(ts, names_end, TokenKind::RParen)
            &&& typ_at(ts, names_end + 1, rest_end, rest)
            &&& j == rest_end
            &&& whole == (existentials(ts[i].span.join(rest.span()), names, rest))
        }),
{
    broadcast use group_rules;

    only_typ_send_type(ts, i);
    reveal(typ_send_type);
    let names_found = list1(ts, |i: int| local_name(ts, i), i + 2);
    let names_end = names_found->Done_0;
    let names = names_found->Done_1;
    found_names(ts, i + 2, names_end, names);
    let rest_found = typ(ts, rules(ts, names_end + 1), names_end + 1);
    let rest_end = rest_found->Done_0;
    let rest = rest_found->Done_1;
    ahead_typ(ts, names_end + 1, rest_end, rest);
    fold_existentials(ts[i].span.join(rest.span()), names, rest);
    (names, names_end, rest, rest_end)
}

/// What starts like `(type a, b) c` and lacks a part fails for good where that is missing.
pub proof fn exists_type_fails(ts: Seq<Token>, i: int, names: Seq<LocalName>, names_end: int)
    requires
        token_at(ts, i, TokenKind::LParen),
        token_at(ts, i + 1, TokenKind::Type),
    ensures
        !token_at(ts, i + 2, TokenKind::LowercaseIdentifier)
            ==> fails_at(typ(ts, rules(ts, i), i), i + 2),
        names_at(ts, i + 2, names_end, names) && !token_at(ts, names_end, TokenKind::RParen)
            ==> lacks(ts, typ(ts, rules(ts, i), i), names_end, TokenKind::RParen),
        names_at(ts, i + 2, names_end, names) && token_at(ts, names_end, TokenKind::RParen)
            ==> fails_like(typ(ts, rules(ts, i), i), typ(ts, rules(ts, names_end + 1),
            names_end + 1)),
{
    broadcast use group_rules;

    only_typ_send_type(ts, i);
    reveal(typ_send_type);
    if names_at(ts, i + 2, names_end, names) {
        read_names(ts, i + 2, names_end, names);
    }
}

/// The type for all types of the first of the names `xs`, in one for all of the second one and so
/// on,
/// down to `rest`.
pub open spec fn universals(span: Span, xs: Seq<LocalName>, rest: Type) -> Type
    decreases xs.len(),
{
    if xs.len() == 0 {
        rest
    } else {
        Type::Forall(span, xs[0], Box::new(universals(span, xs.drop_first(), rest)))
    }
}

/// One after the other, from the last one on.
pub(crate) proof fn fold_universals(span: Span, xs: Seq<LocalName>, rest: Type)
    ensures
        xs.fold_right(forall_step(span), rest) == universals(span, xs, rest),
    decreases xs.len(),
{
    xs.lemma_fold_right_alt(forall_step(span), rest);
    if xs.len() > 0 {
        let others = xs.drop_first();
        others.lemma_fold_right_alt(forall_step(span), rest);
        fold_universals(span, others, rest);
        assert(xs.subrange(1, xs.len() as int) =~= others);
    }
}

/// `[type a, b] c` is the type `c` for all types `b`, for all types `a`.
pub proof fn forall_type(
    ts: Seq<Token>,
    i: int,
    names: Seq<LocalName>,
    names_end: int,
    rest: Type,
    rest_end: int,
)
    requires
        token_at(ts, i, TokenKind::LBrack),
        token_at(ts, i + 1, TokenKind::Type),
        names_at(ts, i + 2, names_end, names),
        token_at(ts, names_end, TokenKind::RBrack),
        typ_at(ts, names_end + 1, rest_end, rest),
    ensures
        typ_at(
            ts,
            i,
            rest_end,
            universals(ts[i].span.join(rest.span()), names, rest),
        ),
{
    broadcast use group_rules;

    read_names(ts, i + 2, names_end, names);
    ahead_typ(ts, names_end + 1, rest_end, rest);
    fold_universals(ts[i].span.join(rest.span()), names, rest);
    reveal(typ_recv_type);
    only_typ_recv_type(ts, i);
}

/// What starts like `[type a, b] c` is that, with all of its parts.
pub proof fn forall_type_parts(
    ts: Seq<Token>,
    i: int,
    j: int,
    whole: Type,
) -> (parts: (Seq<LocalName>, int, Type, int))
    requires
        typ_at(ts, i, j, whole),
        token_at(ts, i, TokenKind::LBrack),
        token_at(ts, i + 1, TokenKind::Type),
    ensures
        ({
            let (names, names_end, rest, rest_end) = parts;
            &&& token_at(ts, i, TokenKind::LBrack)
            &&& token_at(ts, i + 1, TokenKind::Type)
            &&& names_at(ts, i + 2, names_end, names)
            &&& token_at(ts, names_end, TokenKind::RBrack)
            &&& typ_at(ts, names_end + 1, rest_end, rest)
            &&& j == rest_end
            &&& whole == (universals(ts[i].span.join(rest.span()), names, rest))
        }),
{
    broadcast use group_rules;

    only_typ_recv_type(ts, i);
    reveal(typ_recv_type);
    let names_found = list1(ts, |i: int| local_name(ts, i), i + 2);
    let names_end = names_found->Done_0;
    let names = names_found->Done_1;
    found_names(ts, i + 2, names_end, names);
    let rest_found = typ(ts, rules(ts, names_end + 1), names_end + 1);
    let rest_end = rest_found->Done_0;
    let rest = rest_found->Done_1;
    ahead_typ(ts, names_end + 1, rest_end, rest);
    fold_universals(ts[i].span.join(rest.span()), names, rest);
    (names, names_end, rest, rest_end)
}

/// What starts like `[type a, b] c` and lacks a part fails for good where that is missing.
pub proof fn forall_type_fails(ts: Seq<Token>, i: int, names: Seq<LocalName>, names_end: int)
    requires
        token_at(ts, i, TokenKind::LBrack),
        token_at(ts, i + 1, TokenKind::Type),
    ensures
        !token_at(ts, i + 2, TokenKind::LowercaseIdentifier)
            ==> fails_at(typ(ts, rules(ts, i), i), i + 2),
        names_at(ts, i + 2, names_end, names) && !token_at(ts, names_end, TokenKind::RBrack)
            ==> lacks(ts, typ(ts, rules(ts, i), i), names_end, TokenKind::RBrack),
        names_at(ts, i + 2, names_end, names) && token_at(ts, names_end, TokenKind::RBrack)
            ==> fails_like(typ(ts, rules(ts, i), i), typ(ts, rules(ts, names_end + 1),
            names_end + 1)),
{
    broadcast use group_rules;

    only_typ_recv_type(ts, i);
    reveal(typ_recv_type);
    if names_at(ts, i + 2, names_end, names) {
        read_names(ts, i + 2, names_end, names);
    }
}

/// In a choice, `=> a` is `a`.
pub proof fn choice_branch(ts: Seq<Token>, i: int, x: Type, x_end: int)
    requires
        token_at(ts, i, TokenKind::FatArrow),
        typ_at(ts, i + 1, x_end, x),
    ensures
        typ_branch_at(
            ts,
            i,
            x_end,
            x,
        ),
{
    broadcast use group_rules;

    ahead_typ(ts, i + 1, x_end, x);
    reveal(typ_branch_then);
    only_typ_branch_then(ts, i);
}

/// What starts like `=> a` is that, with all of its parts.
pub proof fn choice_branch_parts(
    ts: Seq<Token>,
    i: int,
    j: int,
    whole: Type,
) -> (parts: (Type, int))
    requires
        typ_branch_at(ts, i, j, whole),
        token_at(ts, i, TokenKind::FatArrow),
    ensures
        ({
            let (x, x_end) = parts;
            &&& token_at(ts, i, TokenKind::FatArrow)
            &&& typ_at(ts, i + 1, x_end, x)
            &&& j == x_end
            &&& whole == (x)
        }),
{
    broadcast use group_rules;

    only_typ_branch_then(ts, i);
    reveal(typ_branch_then);
    let x_found = typ(ts, rules(ts, i + 1), i + 1);
    let x_end = x_found->Done_0;
    let x = x_found->Done_1;
    ahead_typ(ts, i + 1, x_end, x);
    (x, x_end)
}

/// What starts like `=> a` and lacks a part fails for good where that is missing.
pub proof fn choice_branch_fails(ts: Seq<Token>, i: int)
    requires
        token_at(ts, i, TokenKind::FatArrow),
    ensures
        fails_like(typ_branch(ts, rules(ts, i), i), typ(ts, rules(ts, i + 1), i + 1)),
{
    broadcast use group_rules;

    only_typ_branch_then(ts, i);
    reveal(typ_branch_then);
}

/// In a choice, `(a, b) => c` is the function from `a` to the function from `b` to `c`.
pub proof fn choice_branch_function(
    ts: Seq<Token>,
    i: int,
    args: Seq<Type>,
    args_end: int,
    rest: Type,
    rest_end: int,
)
    requires
        token_at(ts, i, TokenKind::LParen),
        typs_at(ts, i + 1, args_end, args),
        token_at(ts, args_end, TokenKind::RParen),
        typ_branch_at(ts, args_end + 1, rest_end, rest),
    ensures
        typ_branch_at(
            ts,
            i,
            rest_end,
            functions(ts[i].span.join(rest.span()), args, rest),
        ),
{
    broadcast use group_rules;

    read_typs(ts, i, i + 1, args_end, args);
    ahead_typ_branch(ts, args_end + 1, rest_end, rest);
    fold_functions(ts[i].span.join(rest.span()), args, rest);
    not_word_type_typ(ts, i + 1, args[0]);
    reveal(typ_branch_receive);
    only_typ_branch_receive(ts, i);
}

/// What starts like `(a, b) => c` is that, with all of its parts.
pub proof fn choice_branch_function_parts(
    ts: Seq<Token>,
    i: int,
    j: int,
    whole: Type,
) -> (parts: (Seq<Type>, int, Type, int))
    requires
        typ_branch_at(ts, i, j, whole),
        token_at(ts, i, TokenKind::LParen),
        !token_at(ts, i + 1, TokenKind::Type),
    ensures
        ({
            let (args, args_end, rest, rest_end) = parts;
            &&& token_at(ts, i, TokenKind::LParen)
            &&& typs_at(ts, i + 1, args_end, args)
            &&& token_at(ts, args_end, TokenKind::RParen)
            &&& typ_branch_at(ts, args_end + 1, rest_end, rest)
            &&& j == rest_end
            &&& whole == (functions(ts[i].span.join(rest.span()), args, rest))
        }),
{
    broadcast use group_rules;

    let r = rules(ts, i);
    only_typ_branch_receive(ts, i);
    reveal(typ_branch_receive);
    let args_found = list1(ts, r.typ, i + 1);
    let args_end = args_found->Done_0;
    let args = args_found->Done_1;
    found_typs(ts, i, i + 1, args_end, args);
    let rest_found = typ_branch(ts, rules(ts, args_end + 1), args_end + 1);
    let rest_end = rest_found->Done_0;
    let rest = rest_found->Done_1;
    ahead_typ_branch(ts, args_end + 1, rest_end, rest);
    fold_functions(ts[i].span.join(rest.span()), args, rest);
    (args, args_end, rest, rest_end)
}

/// What starts like `(a, b) => c` and lacks a part fails for good where that is missing.
pub proof fn choice_branch_function_fails(ts: Seq<Token>, i: int, args: Seq<Type>, args_end: int)
    requires
        token_at(ts, i, TokenKind::LParen),
        !token_at(ts, i + 1, TokenKind::Type),
    ensures
        fails_like(typ_branch(ts, rules(ts, i), i), typ(ts, rules(ts, i + 1), i + 1)),
        typs_at(ts, i + 1, args_end, args) && !token_at(ts, args_end, TokenKind::RParen)
            ==> lacks(ts, typ_branch(ts, rules(ts, i), i), args_end, TokenKind::RParen),
        typs_at(ts, i + 1, args_end, args) && token_at(ts, args_end, TokenKind::RParen)
            ==> fails_like(typ_branch(ts, rules(ts, i), i), typ_branch(ts, rules(ts, args_end + 1),
            args_end + 1)),
{
    broadcast use group_rules;

    only_typ_branch_receive(ts, i);
    reveal(typ_branch_receive);
    if typs_at(ts, i + 1, args_end, args) {
        read_typs(ts, i, i + 1, args_end, args);
    }
}

/// In a choice, `(type a, b) => c` is the type `c` for all types `b`, for all types `a`.
pub proof fn choice_branch_forall(
    ts: Seq<Token>,
    i: int,
    names: Seq<LocalName>,
    names_end: int,
    rest: Type,
    rest_end: int,
)
    requires
        token_at(ts, i, TokenKind::LParen),
        token_at(ts, i + 1, TokenKind::Type),
        names_at(ts, i + 2, names_end, names),
        token_at(ts, names_end, TokenKind::RParen),
        typ_branch_at(ts, names_end + 1, rest_end, rest),
    ensures
        typ_branch_at(
            ts,
            i,
            rest_end,
            universals(ts[i].span.join(rest.span()), names, rest),
        ),
{
    broadcast use group_rules;

    read_names(ts, i + 2, names_end, names);
    ahead_typ_branch(ts, names_end + 1, rest_end, rest);
    fold_universals(ts[i].span.join(rest.span()), names, rest);
    reveal(typ_branch_recv_type);
    only_typ_branch_recv_type(ts, i);
}

/// What starts like `(type a, b) => c` is that, with all of its parts.
pub proof fn choice_branch_forall_parts(
    ts: Seq<Token>,
    i: int,
    j: int,
    whole: Type,
) -> (parts: (Seq<LocalName>, int, Type, int))
    requires
        typ_branch_at(ts, i, j, whole),
        token_at(ts, i, TokenKind::LParen),
        token_at(ts, i + 1, TokenKind::Type),
    ensures
        ({
            let (names, names_end, rest, rest_end) = parts;
            &&& token_at(ts, i, TokenKind::LParen)
            &&& token_at(ts, i + 1, TokenKind::Type)
            &&& names_at(ts, i + 2, names_end, names)
            &&& token_at(ts, names_end, TokenKind::RParen)
            &&& typ_branch_at(ts, names_end + 1, rest_end, rest)
            &&& j == rest_end
            &&& whole == (universals(ts[i].span.join(rest.span()), names, rest))
        }),
{
    broadcast use group_rules;

    only_typ_branch_recv_type(ts, i);
    reveal(typ_branch_recv_type);
    let names_found = list1(ts, |i: int| local_name(ts, i), i + 2);
    let names_end = names_found->Done_0;
    let names = names_found->Done_1;
    found_names(ts, i + 2, names_end, names);
    let rest_found = typ_branch(ts, rules(ts, names_end + 1), names_end + 1);
    let rest_end = rest_found->Done_0;
    let rest = rest_found->Done_1;
    ahead_typ_branch(ts, names_end + 1, rest_end, rest);
    fold_universals(ts[i].span.join(rest.span()), names, rest);
    (names, names_end, rest, rest_end)
}

/// What starts like `(type a, b) => c` and lacks a part fails for good where that is missing.
pub proof fn choice_branch_forall_fails(
    ts: Seq<Token>,
    i: int,
    names: Seq<LocalName>,
    names_end: int,
)
    requires
        token_at(ts, i, TokenKind::LParen),
        token_at(ts, i + 1, TokenKind::Type),
    ensures
        !token_at(ts, i + 2, TokenKind::LowercaseIdentifier)
            ==> fails_at(typ_branch(ts, rules(ts, i), i), i + 2),
        names_at(ts, i + 2, names_end, names) && !token_at(ts, names_end, TokenKind::RParen)
            ==> lacks(ts, typ_branch(ts, rules(ts, i), i), names_end, TokenKind::RParen),
        names_at(ts, i + 2, names_end, names) && token_at(ts, names_end, TokenKind::RParen)
            ==> fails_like(typ_branch(ts, rules(ts, i), i), typ_branch(ts, rules(ts,
            names_end + 1), names_end + 1)),
{
    broadcast use group_rules;

    only_typ_branch_recv_type(ts, i);
    reveal(typ_branch_recv_type);
    if names_at(ts, i + 2, names_end, names) {
        read_names(ts, i + 2, names_end, names);
    }
}

} // verus!
