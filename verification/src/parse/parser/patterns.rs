//! Parsing of patterns.
use super::super::grammar::{patterns, rules};
use super::super::outcome::{cut, or, retry, Parsed};
use super::{Parser, rfold};
use crate::language::{LocalName, Pattern};
use crate::token::TokenKind;
use vstd::prelude::*;

verus! {

broadcast use {
    crate::language::group_language_models,
    crate::parse::grammar::group_rules,
    crate::types::group_type_models,
};

impl<'t, 'i> Parser<'t, 'i> {
    /// A pattern.
    pub(crate) fn pattern(&self, i: usize) -> (r: Parsed<Pattern>)
        requires
            self.ready(i),
        ensures
            self.parses(r, i, patterns::pattern(self@, rules(self@, i as int), i as int)),
        decreases self@.len() - i, 1int,
    {
        reveal(patterns::pattern);
        let r = self.pattern_name(i);
        let r = if retry(&r) { or(r, self.pattern_receive_type(i)) } else { r };
        let r = if retry(&r) { or(r, self.pattern_receive(i)) } else { r };
        let r = if retry(&r) { or(r, self.pattern_continue(i)) } else { r };
        let r = if retry(&r) { or(r, self.pattern_default(i)) } else { r };
        if retry(&r) { or(r, self.pattern_try(i)) } else { r }
    }

    /// `x: a`
    pub(crate) fn pattern_name(&self, i: usize) -> (r: Parsed<Pattern>)
        requires
            self.ready(i),
        ensures
            self.parses(r, i, patterns::pattern_name(self@, rules(self@, i as int), i as int)),
        decreases self@.len() - i, 0int,
    {
        reveal(patterns::pattern_name);
        let ghost from = i as int;
        let (i, name) = self.local_name(i)?;
        let (i, annotation) = self.annotation(Ghost(from), i)?;
        let span = match &annotation {
            Some(typ) => name.span.join(typ.span()),
            None => name.span.clone(),
        };
        Ok((i, Pattern::Name(span, name, annotation)))
    }

    /// `(p, q) s`
    pub(crate) fn pattern_receive(&self, i: usize) -> (r: Parsed<Pattern>)
        requires
            self.ready(i),
        ensures
            self.parses(r, i, patterns::pattern_receive(self@, rules(self@, i as int), i as int)),
        decreases self@.len() - i, 0int,
    {
        reveal(patterns::pattern_receive);
        let ghost from = i as int;
        let (i, open) = self.t(i, TokenKind::LParen)?;
        let (i, args) = cut(self.pattern_list(Ghost(from), i))?;
        let (i, _) = cut(self.t(i, TokenKind::RParen))?;
        let (i, rest) = cut(self.pattern(i))?;
        let span = open.span.join(rest.span());
        let step = |x: Pattern, rest: Pattern| -> (r: Pattern)
            ensures
                r.deep_view() == patterns::receive_step(span@)(x.deep_view(), rest.deep_view()),
            { Pattern::Receive(span.clone(), Box::new(x), Box::new(rest)) };
        Ok((i, rfold(args, rest, step, Ghost(patterns::receive_step(span@)))))
    }

    /// `!`
    pub(crate) fn pattern_continue(&self, i: usize) -> (r: Parsed<Pattern>)
        requires
            self.ready(i),
        ensures
            self.parses(r, i, patterns::pattern_continue(self@, i as int)),
    {
        reveal(patterns::pattern_continue);
        let (i, token) = self.t(i, TokenKind::Bang)?;
        Ok((i, Pattern::Continue(token.span.clone())))
    }

    /// `try@l p`
    pub(crate) fn pattern_try(&self, i: usize) -> (r: Parsed<Pattern>)
        requires
            self.ready(i),
        ensures
            self.parses(r, i, patterns::pattern_try(self@, rules(self@, i as int), i as int)),
        decreases self@.len() - i, 0int,
    {
        reveal(patterns::pattern_try);
        let (i, pre) = self.t(i, TokenKind::Try)?;
        let (i, label) = cut(self.label(i))?;
        let (i, rest) = cut(self.pattern(i))?;
        Ok((i, Pattern::Try(pre.span.join(rest.span()), label, Box::new(rest))))
    }

    /// `default(e) p`
    pub(crate) fn pattern_default(&self, i: usize) -> (r: Parsed<Pattern>)
        requires
            self.ready(i),
        ensures
            self.parses(r, i, patterns::pattern_default(self@, rules(self@, i as int), i as int)),
        decreases self@.len() - i, 0int,
    {
        reveal(patterns::pattern_default);
        let (i, pre) = self.t(i, TokenKind::Default)?;
        let (i, _) = self.t(i, TokenKind::LParen)?;
        let (i, value) = cut(self.expression(i))?;
        let (i, _) = cut(self.t(i, TokenKind::RParen))?;
        let (i, rest) = cut(self.pattern(i))?;
        Ok((
            i,
            Pattern::Default(pre.span.join(rest.span()), Box::new(value), Box::new(rest)),
        ))
    }

    /// `(type a, b) p`
    pub(crate) fn pattern_receive_type(&self, i: usize) -> (r: Parsed<Pattern>)
        requires
            self.ready(i),
        ensures
            self.parses(
                r,
                i,
                patterns::pattern_receive_type(self@, rules(self@, i as int), i as int),
            ),
        decreases self@.len() - i, 0int,
    {
        reveal(patterns::pattern_receive_type);
        let (i, open) = self.open_type(i, TokenKind::LParen, "(type")?;
        let (i, args) = cut(self.name_list(i))?;
        let (i, _) = cut(self.t(i, TokenKind::RParen))?;
        let (i, rest) = cut(self.pattern(i))?;
        let span = open.span.join(rest.span());
        let step = |x: LocalName, rest: Pattern| -> (r: Pattern)
            ensures
                r.deep_view() == patterns::receive_type_step(span@)(
                    x.deep_view(),
                    rest.deep_view(),
                ),
            { Pattern::ReceiveType(span.clone(), x, Box::new(rest)) };
        Ok((i, rfold(args, rest, step, Ghost(patterns::receive_type_step(span@)))))
    }
}

} // verus!
