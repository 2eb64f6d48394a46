//! Parsing of applications.
use super::super::error::StrContext;
use super::super::grammar::{applications, rules};
use super::super::outcome::{cut, opt, or, retry, Parsed};
use super::{Parser, rfold};
use crate::language::{Apply, ApplyBranch, ApplyBranches, Expression, LocalName, Pattern};
use crate::token::TokenKind;
use crate::types::Type;
use vstd::prelude::*;

verus! {

broadcast use {
    crate::language::group_language_models,
    crate::parse::grammar::group_rules,
    crate::types::group_type_models,
};

impl<'t, 'i> Parser<'t, 'i> {
    /// An operand and what is applied to it.
    pub(crate) fn application(&self, i: usize) -> (r: Parsed<Expression>)
        requires
            self.ready(i),
        ensures
            self.parses(r, i, applications::application(self@, rules(self@, i as int), i as int)),
        decreases self@.len() - i, 2int,
    {
        reveal(applications::application);
        let context = StrContext::Label("application");
        match self.operand(i) {
            Err(f) => self.context(Err(f), context),
            Ok((i, expr)) => match self.apply(i) {
                Err(f) => self.context(Err(f), context),
                Ok((i, Some(apply))) => {
                    let span = expr.span().join(apply.span());
                    Ok((i, Expression::Application(span, Box::new(expr), apply)))
                },
                Ok((i, None)) => Ok((i, expr)),
            },
        }
    }

    /// What is applied to an operand, if anything is.
    pub(crate) fn apply(&self, i: usize) -> (r: Parsed<Option<Apply>>)
        requires
            self.ready(i),
        ensures
            self.tries(r, i, applications::apply(self@, rules(self@, i as int), i as int)),
        decreases self@.len() - i, 1int,
    {
        reveal(applications::apply);
        let r = self.apply_begin(i);
        let r = if retry(&r) { or(r, self.apply_unfounded(i)) } else { r };
        let r = if retry(&r) { or(r, self.apply_loop(i)) } else { r };
        let r = if retry(&r) { or(r, self.apply_signal(i)) } else { r };
        let r = if retry(&r) { or(r, self.apply_case(i)) } else { r };
        let r = if retry(&r) { or(r, self.apply_send_type(i)) } else { r };
        let r = if retry(&r) { or(r, self.apply_send(i)) } else { r };
        let r = if retry(&r) { or(r, self.apply_default(i)) } else { r };
        let r = if retry(&r) { or(r, self.apply_try(i)) } else { r };
        let r = if retry(&r) { or(r, self.apply_pipe(i)) } else { r };
        opt(i, r)
    }

    /// `(e, f) a`
    pub(crate) fn apply_send(&self, i: usize) -> (r: Parsed<Apply>)
        requires
            self.ready(i),
        ensures
            self.parses(r, i, applications::apply_send(self@, rules(self@, i as int), i as int)),
        decreases self@.len() - i, 0int,
    {
        reveal(applications::apply_send);
        let ghost from = i as int;
        let (i, open) = self.t(i, TokenKind::LParen)?;
        let (i, args) = cut(self.expression_list(Ghost(from), i))?;
        let (i, close) = cut(self.t(i, TokenKind::RParen))?;
        let (i, rest) = cut(self.apply(i))?;
        let rest = match rest {
            Some(rest) => rest,
            None => Apply::noop(close.span.only_end()),
        };
        let span = open.span.join(rest.span());
        let step = |x: Expression, rest: Apply| -> (r: Apply)
            ensures
                r.deep_view() == applications::send_step(span@)(x.deep_view(), rest.deep_view()),
            { Apply::Send(span.clone(), Box::new(x), Box::new(rest)) };
        Ok((i, rfold(args, rest, step, Ghost(applications::send_step(span@)))))
    }

    /// `.x a`
    pub(crate) fn apply_signal(&self, i: usize) -> (r: Parsed<Apply>)
        requires
            self.ready(i),
        ensures
            self.parses(r, i, applications::apply_signal(self@, rules(self@, i as int), i as int)),
        decreases self@.len() - i, 0int,
    {
        reveal(applications::apply_signal);
        let (i, pre) = self.t(i, TokenKind::Dot)?;
        let (i, chosen) = self.local_name(i)?;
        let (i, rest) = self.apply(i)?;
        let rest = match rest {
            Some(rest) => rest,
            None => Apply::noop(chosen.span.only_end()),
        };
        Ok((i, Apply::Signal(pre.span.join(rest.span()), chosen, Box::new(rest))))
    }

    /// `.case { .x y => e }`
    pub(crate) fn apply_case(&self, i: usize) -> (r: Parsed<Apply>)
        requires
            self.ready(i),
        ensures
            self.parses(r, i, applications::apply_case(self@, rules(self@, i as int), i as int)),
        decreases self@.len() - i, 0int,
    {
        reveal(applications::apply_case);
        let ghost from = i as int;
        let (i, pre) = self.t(i, TokenKind::Dot)?;
        let (i, _) = self.t(i, TokenKind::Case)?;
        let (i, body) = cut(self.apply_branch_body(Ghost(from), i))?;
        Ok((i, Apply::Case(pre.span.join(body.0), ApplyBranches(body.1))))
    }

    /// `.begin@l a`
    pub(crate) fn apply_begin(&self, i: usize) -> (r: Parsed<Apply>)
        requires
            self.ready(i),
        ensures
            self.parses(r, i, applications::apply_begin(self@, rules(self@, i as int), i as int)),
        decreases self@.len() - i, 0int,
    {
        reveal(applications::apply_begin);
        let (i, pre) = self.t(i, TokenKind::Dot)?;
        let (i, _) = self.t(i, TokenKind::Begin)?;
        let (i, label) = cut(self.label(i))?;
        let (i, rest) = cut(self.apply(i))?;
        let rest = match (&label, rest) {
            (_, Some(rest)) => rest,
            (Some(label), None) => Apply::noop(label.span.only_end()),
            (None, None) => Apply::noop(pre.span.only_end()),
        };
        Ok((
            i,
            Apply::Begin {
                span: pre.span.join(rest.span()),
                unfounded: false,
                label,
                then: Box::new(rest),
            },
        ))
    }

    /// `.unfounded@l a`
    pub(crate) fn apply_unfounded(&self, i: usize) -> (r: Parsed<Apply>)
        requires
            self.ready(i),
        ensures
            self.parses(
                r,
                i,
                applications::apply_unfounded(self@, rules(self@, i as int), i as int),
            ),
        decreases self@.len() - i, 0int,
    {
        reveal(applications::apply_unfounded);
        let (i, pre) = self.t(i, TokenKind::Dot)?;
        let (i, _) = self.t(i, TokenKind::Unfounded)?;
        let (i, label) = cut(self.label(i))?;
        let (i, rest) = cut(self.apply(i))?;
        let rest = match (&label, rest) {
            (_, Some(rest)) => rest,
            (Some(label), None) => Apply::noop(label.span.only_end()),
            (None, None) => Apply::noop(pre.span.only_end()),
        };
        Ok((
            i,
            Apply::Begin {
                span: pre.span.join(rest.span()),
                unfounded: true,
                label,
                then: Box::new(rest),
            },
        ))
    }

    /// `.loop@l`
    pub(crate) fn apply_loop(&self, i: usize) -> (r: Parsed<Apply>)
        requires
            self.ready(i),
        ensures
            self.parses(r, i, applications::apply_loop(self@, i as int)),
    {
        reveal(applications::apply_loop);
        let (i, pre) = self.t(i, TokenKind::Dot)?;
        let (i, kw) = self.t(i, TokenKind::Loop)?;
        let (i, label) = cut(self.label(i))?;
        let span = match &label {
            Some(label) => pre.span.join(label.span.clone()),
            None => pre.span.join(kw.span.clone()),
        };
        Ok((i, Apply::Loop(span, label)))
    }

    /// `(type a, b) f`
    pub(crate) fn apply_send_type(&self, i: usize) -> (r: Parsed<Apply>)
        requires
            self.ready(i),
        ensures
            self.parses(
                r,
                i,
                applications::apply_send_type(self@, rules(self@, i as int), i as int),
            ),
        decreases self@.len() - i, 0int,
    {
        reveal(applications::apply_send_type);
        let ghost from = i as int;
        let (i, open) = self.open_type(i, TokenKind::LParen, "(type")?;
        let (i, args) = cut(self.typ_list(Ghost(from), i))?;
        let (i, close) = cut(self.t(i, TokenKind::RParen))?;
        let (i, rest) = cut(self.apply(i))?;
        let rest = match rest {
            Some(rest) => rest,
            None => Apply::noop(close.span.only_end()),
        };
        let span = open.span.join(rest.span());
        let step = |x: Type, rest: Apply| -> (r: Apply)
            ensures
                r.deep_view() == applications::send_type_step(span@)(
                    x.deep_view(),
                    rest.deep_view(),
                ),
            { Apply::SendType(span.clone(), x, Box::new(rest)) };
        Ok((i, rfold(args, rest, step, Ghost(applications::send_type_step(span@)))))
    }

    /// `.try@l a`
    pub(crate) fn apply_try(&self, i: usize) -> (r: Parsed<Apply>)
        requires
            self.ready(i),
        ensures
            self.parses(r, i, applications::apply_try(self@, rules(self@, i as int), i as int)),
        decreases self@.len() - i, 0int,
    {
        reveal(applications::apply_try);
        let (i, _) = self.t(i, TokenKind::Dot)?;
        let (i, pre) = self.t(i, TokenKind::Try)?;
        let (i, label) = cut(self.label(i))?;
        let (i, rest) = cut(self.apply(i))?;
        let rest = match rest {
            Some(rest) => rest,
            None => Apply::noop(pre.span.only_end()),
        };
        Ok((i, Apply::Try(pre.span.join(pre.span.clone()), label, Box::new(rest))))
    }

    /// `.default(e) a`
    pub(crate) fn apply_default(&self, i: usize) -> (r: Parsed<Apply>)
        requires
            self.ready(i),
        ensures
            self.parses(r, i, applications::apply_default(self@, rules(self@, i as int), i as int)),
        decreases self@.len() - i, 0int,
    {
        reveal(applications::apply_default);
        let (i, _) = self.t(i, TokenKind::Dot)?;
        let (i, pre) = self.t(i, TokenKind::Default)?;
        let (i, _) = cut(self.t(i, TokenKind::LParen))?;
        let (i, value) = cut(self.expression(i))?;
        let (i, close) = cut(self.t(i, TokenKind::RParen))?;
        let (i, rest) = cut(self.apply(i))?;
        let rest = match rest {
            Some(rest) => rest,
            None => Apply::noop(close.span.only_end()),
        };
        Ok((i, Apply::Default(pre.span.join(rest.span()), Box::new(value), Box::new(rest))))
    }

    /// `->f a`
    pub(crate) fn apply_pipe(&self, i: usize) -> (r: Parsed<Apply>)
        requires
            self.ready(i),
        ensures
            self.parses(r, i, applications::apply_pipe(self@, rules(self@, i as int), i as int)),
        decreases self@.len() - i, 0int,
    {
        reveal(applications::apply_pipe);
        let (i, pre) = self.t(i, TokenKind::ThinArrow)?;
        let (i, function) = cut(self.operand(i))?;
        let (i, rest) = cut(self.apply(i))?;
        let rest = match rest {
            Some(rest) => rest,
            None => Apply::noop(function.span().only_end()),
        };
        Ok((
            i,
            Apply::Pipe(pre.span.join(function.span()), Box::new(function), Box::new(rest)),
        ))
    }

    /// What stands after a signal in `.case`.
    pub(crate) fn apply_branch(&self, i: usize) -> (r: Parsed<ApplyBranch>)
        requires
            self.ready(i),
        ensures
            self.parses(r, i, applications::apply_branch(self@, rules(self@, i as int), i as int)),
        decreases self@.len() - i, 1int,
    {
        reveal(applications::apply_branch);
        let r = self.apply_branch_then(i);
        let r = if retry(&r) { or(r, self.apply_branch_recv_type(i)) } else { r };
        let r = if retry(&r) { or(r, self.apply_branch_receive(i)) } else { r };
        let r = if retry(&r) { or(r, self.apply_branch_continue(i)) } else { r };
        let r = if retry(&r) { or(r, self.apply_branch_try(i)) } else { r };
        if retry(&r) { or(r, self.apply_branch_default(i)) } else { r }
    }

    /// `x => e`
    pub(crate) fn apply_branch_then(&self, i: usize) -> (r: Parsed<ApplyBranch>)
        requires
            self.ready(i),
        ensures
            self.parses(
                r,
                i,
                applications::apply_branch_then(self@, rules(self@, i as int), i as int),
            ),
        decreases self@.len() - i, 0int,
    {
        reveal(applications::apply_branch_then);
        let (i, name) = self.local_name(i)?;
        let (i, _) = cut(self.t(i, TokenKind::FatArrow))?;
        let (i, value) = cut(self.expression(i))?;
        Ok((i, ApplyBranch::Then(name.span.join(value.span()), name, value)))
    }

    /// `(p, q) b`
    pub(crate) fn apply_branch_receive(&self, i: usize) -> (r: Parsed<ApplyBranch>)
        requires
            self.ready(i),
        ensures
            self.parses(
                r,
                i,
                applications::apply_branch_receive(self@, rules(self@, i as int), i as int),
            ),
        decreases self@.len() - i, 0int,
    {
        reveal(applications::apply_branch_receive);
        let ghost from = i as int;
        let (i, open) = self.t(i, TokenKind::LParen)?;
        let (i, args) = cut(self.pattern_list(Ghost(from), i))?;
        let (i, _) = cut(self.t(i, TokenKind::RParen))?;
        let (i, rest) = cut(self.apply_branch(i))?;
        let span = open.span.join(rest.span());
        let step = |x: Pattern, rest: ApplyBranch| -> (r: ApplyBranch)
            ensures
                r.deep_view() == applications::branch_receive_step(span@)(
                    x.deep_view(),
                    rest.deep_view(),
                ),
            { ApplyBranch::Receive(span.clone(), x, Box::new(rest)) };
        Ok((i, rfold(args, rest, step, Ghost(applications::branch_receive_step(span@)))))
    }

    /// `! => e`
    pub(crate) fn apply_branch_continue(&self, i: usize) -> (r: Parsed<ApplyBranch>)
        requires
            self.ready(i),
        ensures
            self.parses(
                r,
                i,
                applications::apply_branch_continue(self@, rules(self@, i as int), i as int),
            ),
        decreases self@.len() - i, 0int,
    {
        reveal(applications::apply_branch_continue);
        let (i, token) = self.t(i, TokenKind::Bang)?;
        let (i, _) = cut(self.t(i, TokenKind::FatArrow))?;
        let (i, value) = cut(self.expression(i))?;
        Ok((i, ApplyBranch::Continue(token.span.join(value.span()), value)))
    }

    /// `(type a, b) c`
    pub(crate) fn apply_branch_recv_type(&self, i: usize) -> (r: Parsed<ApplyBranch>)
        requires
            self.ready(i),
        ensures
            self.parses(
                r,
                i,
                applications::apply_branch_recv_type(self@, rules(self@, i as int), i as int),
            ),
        decreases self@.len() - i, 0int,
    {
        reveal(applications::apply_branch_recv_type);
        let (i, open) = self.open_type(i, TokenKind::LParen, "(type")?;
        let (i, args) = cut(self.name_list(i))?;
        let (i, _) = cut(self.t(i, TokenKind::RParen))?;
        let (i, rest) = cut(self.apply_branch(i))?;
        let span = open.span.join(rest.span());
        let step = |x: LocalName, rest: ApplyBranch| -> (r: ApplyBranch)
            ensures
                r.deep_view() == applications::branch_receive_type_step(span@)(
                    x.deep_view(),
                    rest.deep_view(),
                ),
            { ApplyBranch::ReceiveType(span.clone(), x, Box::new(rest)) };
        Ok((
            i,
            rfold(args, rest, step, Ghost(applications::branch_receive_type_step(span@))),
        ))
    }

    /// `try@l b`
    pub(crate) fn apply_branch_try(&self, i: usize) -> (r: Parsed<ApplyBranch>)
        requires
            self.ready(i),
        ensures
            self.parses(
                r,
                i,
                applications::apply_branch_try(self@, rules(self@, i as int), i as int),
            ),
        decreases self@.len() - i, 0int,
    {
        reveal(applications::apply_branch_try);
        let (i, kw) = self.t(i, TokenKind::Try)?;
        let (i, label) = cut(self.label(i))?;
        let (i, rest) = cut(self.apply_branch(i))?;
        Ok((i, ApplyBranch::Try(kw.span.join(rest.span()), label, Box::new(rest))))
    }

    /// `default(e) b`
    pub(crate) fn apply_branch_default(&self, i: usize) -> (r: Parsed<ApplyBranch>)
        requires
            self.ready(i),
        ensures
            self.parses(
                r,
                i,
                applications::apply_branch_default(self@, rules(self@, i as int), i as int),
            ),
        decreases self@.len() - i, 0int,
    {
        reveal(applications::apply_branch_default);
        let (i, kw) = self.t(i, TokenKind::Default)?;
        let (i, _) = self.t(i, TokenKind::LParen)?;
        let (i, value) = cut(self.expression(i))?;
        let (i, _) = cut(self.t(i, TokenKind::RParen))?;
        let (i, rest) = cut(self.apply_branch(i))?;
        Ok((
            i,
            ApplyBranch::Default(kw.span.join(rest.span()), Box::new(value), Box::new(rest)),
        ))
    }
}

} // verus!
