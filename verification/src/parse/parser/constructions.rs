//! Parsing of constructions.
use super::super::error::StrContext;
use super::super::grammar::{constructions, rules};
use super::super::outcome::{cut, or, retry, Parsed};
use super::{Parser, rfold};
use crate::language::{
    Construct, ConstructBranch, ConstructBranches, Expression, LocalName, Pattern,
};
use crate::token::TokenKind;
use crate::types::Type;
use vstd::prelude::*;

verus! {

broadcast use {
    crate::language::group_language_models,
    crate::parse::grammar::group_rules,
    crate::types::group_type_models,
};

impl<'t, 'i> Parser<'t, 'i> {
    /// A construction.
    pub(crate) fn construction(&self, i: usize) -> (r: Parsed<Construct>)
        requires
            self.ready(i),
        ensures
            self.parses(r, i, constructions::construction(self@, rules(self@, i as int), i as int)),
        decreases self@.len() - i, 5int,
    {
        reveal(constructions::construction);
        let r = self.cons_begin(i);
        let r = if retry(&r) { or(r, self.cons_unfounded(i)) } else { r };
        let r = if retry(&r) { or(r, self.cons_loop(i)) } else { r };
        let r = if retry(&r) { or(r, self.cons_then(i)) } else { r };
        let r = if retry(&r) { or(r, self.cons_signal(i)) } else { r };
        let r = if retry(&r) { or(r, self.cons_case(i)) } else { r };
        let r = if retry(&r) { or(r, self.cons_break(i)) } else { r };
        let r = if retry(&r) { or(r, self.cons_send_type(i)) } else { r };
        let r = if retry(&r) { or(r, self.cons_send(i)) } else { r };
        let r = if retry(&r) { or(r, self.cons_recv_type(i)) } else { r };
        let r = if retry(&r) { or(r, self.cons_receive(i)) } else { r };
        self.context(r, StrContext::Label("construction"))
    }

    /// An expression that ends a construction.
    pub(crate) fn cons_then_value(&self, i: usize) -> (r: Parsed<Expression>)
        requires
            self.ready(i),
        ensures
            self.parses(
                r,
                i,
                constructions::cons_then_value(self@, rules(self@, i as int), i as int),
            ),
        decreases self@.len() - i, 3int,
    {
        reveal(constructions::cons_then_value);
        let r = self.expr_literal(i);
        let r = if retry(&r) { or(r, self.expr_list(i)) } else { r };
        let r = if retry(&r) { or(r, self.expr_box(i)) } else { r };
        let r = if retry(&r) { or(r, self.expr_chan(i)) } else { r };
        let r = if retry(&r) { or(r, self.expr_let(i)) } else { r };
        let r = if retry(&r) { or(r, self.expr_catch(i)) } else { r };
        let r = if retry(&r) { or(r, self.expr_do(i)) } else { r };
        let r = if retry(&r) { or(r, self.application(i)) } else { r };
        if retry(&r) { or(r, self.expr_grouped(i)) } else { r }
    }

    /// `e`
    pub(crate) fn cons_then(&self, i: usize) -> (r: Parsed<Construct>)
        requires
            self.ready(i),
        ensures
            self.parses(r, i, constructions::cons_then(self@, rules(self@, i as int), i as int)),
        decreases self@.len() - i, 4int,
    {
        let (i, value) = self.cons_then_value(i)?;
        Ok((i, Construct::Then(Box::new(value))))
    }

    /// `(e, f) c`
    pub(crate) fn cons_send(&self, i: usize) -> (r: Parsed<Construct>)
        requires
            self.ready(i),
        ensures
            self.parses(r, i, constructions::cons_send(self@, rules(self@, i as int), i as int)),
        decreases self@.len() - i, 0int,
    {
        reveal(constructions::cons_send);
        let ghost from = i as int;
        let (i, open) = self.t(i, TokenKind::LParen)?;
        let (i, args) = cut(self.expression_list(Ghost(from), i))?;
        let (i, _) = cut(self.t(i, TokenKind::RParen))?;
        let (i, rest) = cut(self.construction(i))?;
        let span = open.span.join(rest.span());
        let step = |x: Expression, rest: Construct| -> (r: Construct)
            ensures
                r.deep_view() == constructions::send_step(span@)(x.deep_view(), rest.deep_view()),
            { Construct::Send(span.clone(), Box::new(x), Box::new(rest)) };
        Ok((i, rfold(args, rest, step, Ghost(constructions::send_step(span@)))))
    }

    /// `[p, q] c`
    pub(crate) fn cons_receive(&self, i: usize) -> (r: Parsed<Construct>)
        requires
            self.ready(i),
        ensures
            self.parses(r, i, constructions::cons_receive(self@, rules(self@, i as int), i as int)),
        decreases self@.len() - i, 0int,
    {
        reveal(constructions::cons_receive);
        let ghost from = i as int;
        let (i, open) = self.t(i, TokenKind::LBrack)?;
        let (i, args) = cut(self.pattern_list(Ghost(from), i))?;
        let (i, _) = cut(self.t(i, TokenKind::RBrack))?;
        let (i, rest) = cut(self.construction(i))?;
        let span = open.span.join(rest.span());
        let step = |x: Pattern, rest: Construct| -> (r: Construct)
            ensures
                r.deep_view() == constructions::receive_step(span@)(
                    x.deep_view(),
                    rest.deep_view(),
                ),
            { Construct::Receive(span.clone(), x, Box::new(rest)) };
        Ok((i, rfold(args, rest, step, Ghost(constructions::receive_step(span@)))))
    }

    /// `.x c`
    pub(crate) fn cons_signal(&self, i: usize) -> (r: Parsed<Construct>)
        requires
            self.ready(i),
        ensures
            self.parses(r, i, constructions::cons_signal(self@, rules(self@, i as int), i as int)),
        decreases self@.len() - i, 0int,
    {
        reveal(constructions::cons_signal);
        let (i, pre) = self.t(i, TokenKind::Dot)?;
        let (i, chosen) = self.local_name(i)?;
        let (i, rest) = self.construction(i)?;
        Ok((i, Construct::Signal(pre.span.join(rest.span()), chosen, Box::new(rest))))
    }

    /// `case { .x => e, .y => f }`
    pub(crate) fn cons_case(&self, i: usize) -> (r: Parsed<Construct>)
        requires
            self.ready(i),
        ensures
            self.parses(r, i, constructions::cons_case(self@, rules(self@, i as int), i as int)),
        decreases self@.len() - i, 0int,
    {
        reveal(constructions::cons_case);
        let ghost from = i as int;
        let (i, pre) = self.t(i, TokenKind::Case)?;
        let (i, body) = cut(self.cons_branch_body(Ghost(from), i))?;
        Ok((i, Construct::Case(pre.span.join(body.0), ConstructBranches(body.1))))
    }

    /// `!`
    pub(crate) fn cons_break(&self, i: usize) -> (r: Parsed<Construct>)
        requires
            self.ready(i),
        ensures
            self.parses(r, i, constructions::cons_break(self@, i as int)),
    {
        reveal(constructions::cons_break);
        let (i, token) = self.t(i, TokenKind::Bang)?;
        Ok((i, Construct::Break(token.span.clone())))
    }

    /// `begin@l c`
    pub(crate) fn cons_begin(&self, i: usize) -> (r: Parsed<Construct>)
        requires
            self.ready(i),
        ensures
            self.parses(r, i, constructions::cons_begin(self@, rules(self@, i as int), i as int)),
        decreases self@.len() - i, 0int,
    {
        reveal(constructions::cons_begin);
        let (i, pre) = self.t(i, TokenKind::Begin)?;
        let (i, label) = cut(self.label(i))?;
        let (i, rest) = cut(self.construction(i))?;
        Ok((
            i,
            Construct::Begin {
                span: pre.span.join(rest.span()),
                unfounded: false,
                label,
                then: Box::new(rest),
            },
        ))
    }

    /// `unfounded@l c`
    pub(crate) fn cons_unfounded(&self, i: usize) -> (r: Parsed<Construct>)
        requires
            self.ready(i),
        ensures
            self.parses(
                r,
                i,
                constructions::cons_unfounded(self@, rules(self@, i as int), i as int),
            ),
        decreases self@.len() - i, 0int,
    {
        reveal(constructions::cons_unfounded);
        let (i, pre) = self.t(i, TokenKind::Unfounded)?;
        let (i, label) = cut(self.label(i))?;
        let (i, rest) = cut(self.construction(i))?;
        Ok((
            i,
            Construct::Begin {
                span: pre.span.join(rest.span()),
                unfounded: true,
                label,
                then: Box::new(rest),
            },
        ))
    }

    /// `loop@l`
    pub(crate) fn cons_loop(&self, i: usize) -> (r: Parsed<Construct>)
        requires
            self.ready(i),
        ensures
            self.parses(r, i, constructions::cons_loop(self@, i as int)),
    {
        reveal(constructions::cons_loop);
        let (i, token) = self.t(i, TokenKind::Loop)?;
        let (i, label) = cut(self.label(i))?;
        let span = match &label {
            Some(label) => token.span.join(label.span.clone()),
            None => token.span.clone(),
        };
        Ok((i, Construct::Loop(span, label)))
    }

    /// `(type a, b) c`
    pub(crate) fn cons_send_type(&self, i: usize) -> (r: Parsed<Construct>)
        requires
            self.ready(i),
        ensures
            self.parses(
                r,
                i,
                constructions::cons_send_type(self@, rules(self@, i as int), i as int),
            ),
        decreases self@.len() - i, 0int,
    {
        reveal(constructions::cons_send_type);
        let ghost from = i as int;
        let (i, open) = self.open_type(i, TokenKind::LParen, "(type")?;
        let (i, args) = cut(self.typ_list(Ghost(from), i))?;
        let (i, _) = cut(self.t(i, TokenKind::RParen))?;
        let (i, rest) = cut(self.construction(i))?;
        let span = open.span.join(rest.span());
        let step = |x: Type, rest: Construct| -> (r: Construct)
            ensures
                r.deep_view() == constructions::send_type_step(span@)(
                    x.deep_view(),
                    rest.deep_view(),
                ),
            { Construct::SendType(span.clone(), x, Box::new(rest)) };
        Ok((i, rfold(args, rest, step, Ghost(constructions::send_type_step(span@)))))
    }

    /// `[type a, b] c`
    pub(crate) fn cons_recv_type(&self, i: usize) -> (r: Parsed<Construct>)
        requires
            self.ready(i),
        ensures
            self.parses(
                r,
                i,
                constructions::cons_recv_type(self@, rules(self@, i as int), i as int),
            ),
        decreases self@.len() - i, 0int,
    {
        reveal(constructions::cons_recv_type);
        let (i, open) = self.open_type(i, TokenKind::LBrack, "[type")?;
        let (i, args) = cut(self.name_list(i))?;
        let (i, _) = cut(self.t(i, TokenKind::RBrack))?;
        let (i, rest) = cut(self.construction(i))?;
        let span = open.span.join(rest.span());
        let step = |x: LocalName, rest: Construct| -> (r: Construct)
            ensures
                r.deep_view() == constructions::receive_type_step(span@)(
                    x.deep_view(),
                    rest.deep_view(),
                ),
            { Construct::ReceiveType(span.clone(), x, Box::new(rest)) };
        Ok((i, rfold(args, rest, step, Ghost(constructions::receive_type_step(span@)))))
    }

    /// What stands after a signal in `case`.
    pub(crate) fn cons_branch(&self, i: usize) -> (r: Parsed<ConstructBranch>)
        requires
            self.ready(i),
        ensures
            self.parses(r, i, constructions::cons_branch(self@, rules(self@, i as int), i as int)),
        decreases self@.len() - i, 1int,
    {
        reveal(constructions::cons_branch);
        let r = self.cons_branch_then(i);
        let r = if retry(&r) { or(r, self.cons_branch_recv_type(i)) } else { r };
        if retry(&r) { or(r, self.cons_branch_receive(i)) } else { r }
    }

    /// `=> e`
    pub(crate) fn cons_branch_then(&self, i: usize) -> (r: Parsed<ConstructBranch>)
        requires
            self.ready(i),
        ensures
            self.parses(
                r,
                i,
                constructions::cons_branch_then(self@, rules(self@, i as int), i as int),
            ),
        decreases self@.len() - i, 0int,
    {
        reveal(constructions::cons_branch_then);
        let (i, pre) = self.t(i, TokenKind::FatArrow)?;
        let (i, value) = cut(self.expression(i))?;
        Ok((i, ConstructBranch::Then(pre.span.join(value.span()), value)))
    }

    /// `(p, q) b`
    pub(crate) fn cons_branch_receive(&self, i: usize) -> (r: Parsed<ConstructBranch>)
        requires
            self.ready(i),
        ensures
            self.parses(
                r,
                i,
                constructions::cons_branch_receive(self@, rules(self@, i as int), i as int),
            ),
        decreases self@.len() - i, 0int,
    {
        reveal(constructions::cons_branch_receive);
        let ghost from = i as int;
        let (i, open) = self.t(i, TokenKind::LParen)?;
        let (i, args) = cut(self.pattern_list(Ghost(from), i))?;
        let (i, _) = cut(self.t(i, TokenKind::RParen))?;
        let (i, rest) = cut(self.cons_branch(i))?;
        let span = open.span.join(rest.span());
        let step = |x: Pattern, rest: ConstructBranch| -> (r: ConstructBranch)
            ensures
                r.deep_view() == constructions::branch_receive_step(span@)(
                    x.deep_view(),
                    rest.deep_view(),
                ),
            { ConstructBranch::Receive(span.clone(), x, Box::new(rest)) };
        Ok((i, rfold(args, rest, step, Ghost(constructions::branch_receive_step(span@)))))
    }

    /// `(type a, b) c`
    pub(crate) fn cons_branch_recv_type(&self, i: usize) -> (r: Parsed<ConstructBranch>)
        requires
            self.ready(i),
        ensures
            self.parses(
                r,
                i,
                constructions::cons_branch_recv_type(self@, rules(self@, i as int), i as int),
            ),
        decreases self@.len() - i, 0int,
    {
        reveal(constructions::cons_branch_recv_type);
        let (i, open) = self.open_type(i, TokenKind::LParen, "(type")?;
        let (i, args) = cut(self.name_list(i))?;
        let (i, _) = cut(self.t(i, TokenKind::RParen))?;
        let (i, rest) = cut(self.cons_branch(i))?;
        let span = open.span.join(rest.span());
        let step = |x: LocalName, rest: ConstructBranch| -> (r: ConstructBranch)
            ensures
                r.deep_view() == constructions::branch_receive_type_step(span@)(
                    x.deep_view(),
                    rest.deep_view(),
                ),
            { ConstructBranch::ReceiveType(span.clone(), x, Box::new(rest)) };
        Ok((
            i,
            rfold(args, rest, step, Ghost(constructions::branch_receive_type_step(span@))),
        ))
    }
}

} // verus!
