//! Parsing of types.
use super::super::error::StrContext;
use super::super::grammar::{rules, types};
use super::super::outcome::{cut, or, retry, Parsed};
use super::{Parser, empty_vec, rfold};
use crate::language::LocalName;
use crate::location::Span;
use crate::token::TokenKind;
use crate::types::Type;
use vstd::prelude::*;

verus! {

broadcast use {
    crate::language::group_language_models,
    crate::parse::grammar::group_rules,
    crate::types::group_type_models,
};

impl<'t, 'i> Parser<'t, 'i> {
    /// A type.
    pub(crate) fn typ(&self, i: usize) -> (r: Parsed<Type>)
        requires
            self.ready(i),
        ensures
            self.parses(r, i, types::typ(self@, rules(self@, i as int), i as int)),
        decreases self@.len() - i, 1int,
    {
        reveal(types::typ);
        let r = self.typ_var(i);
        let r = if retry(&r) { or(r, self.typ_name(i)) } else { r };
        let r = if retry(&r) { or(r, self.typ_box(i)) } else { r };
        let r = if retry(&r) { or(r, self.typ_chan(i)) } else { r };
        let r = if retry(&r) { or(r, self.typ_either(i)) } else { r };
        let r = if retry(&r) { or(r, self.typ_choice(i)) } else { r };
        let r = if retry(&r) { or(r, self.typ_break(i)) } else { r };
        let r = if retry(&r) { or(r, self.typ_continue(i)) } else { r };
        let r = if retry(&r) { or(r, self.typ_recursive(i)) } else { r };
        let r = if retry(&r) { or(r, self.typ_iterative(i)) } else { r };
        let r = if retry(&r) { or(r, self.typ_self(i)) } else { r };
        let r = if retry(&r) { or(r, self.typ_send_type(i)) } else { r };
        let r = if retry(&r) { or(r, self.typ_send(i)) } else { r };
        let r = if retry(&r) { or(r, self.typ_recv_type(i)) } else { r };
        let r = if retry(&r) { or(r, self.typ_receive(i)) } else { r };
        self.context(r, StrContext::Label("type"))
    }

    /// `a`
    pub(crate) fn typ_var(&self, i: usize) -> (r: Parsed<Type>)
        requires
            self.ready(i),
        ensures
            self.parses(r, i, types::typ_var(self@, i as int)),
    {
        reveal(types::typ_var);
        let (i, name) = self.local_name(i)?;
        Ok((i, Type::Var(name.span.clone(), name)))
    }

    /// `Name<a, b>`
    pub(crate) fn typ_name(&self, i: usize) -> (r: Parsed<Type>)
        requires
            self.ready(i),
        ensures
            self.parses(r, i, types::typ_name(self@, rules(self@, i as int), i as int)),
        decreases self@.len() - i, 0int,
    {
        reveal(types::typ_name);
        let ghost from = i as int;
        let (i, name) = self.global_name(i)?;
        let (i, args) = self.type_args(Ghost(from), i)?;
        Ok((
            i,
            match args {
                Some((span, args)) => Type::Name(name.span.join(span), name, args),
                None => Type::Name(name.span.clone(), name, empty_vec()),
            },
        ))
    }

    /// `box a`
    pub(crate) fn typ_box(&self, i: usize) -> (r: Parsed<Type>)
        requires
            self.ready(i),
        ensures
            self.parses(r, i, types::typ_box(self@, rules(self@, i as int), i as int)),
        decreases self@.len() - i, 0int,
    {
        reveal(types::typ_box);
        let (i, pre) = self.t(i, TokenKind::Box)?;
        let (i, inner) = cut(self.context(self.typ(i), StrContext::Label("box type")))?;
        Ok((i, Type::Box(pre.span.clone(), Box::new(inner))))
    }

    /// `dual a`
    pub(crate) fn typ_chan(&self, i: usize) -> (r: Parsed<Type>)
        requires
            self.ready(i),
        ensures
            self.parses(r, i, types::typ_chan(self@, rules(self@, i as int), i as int)),
        decreases self@.len() - i, 0int,
    {
        reveal(types::typ_chan);
        let (i, pre) = self.t(i, TokenKind::Dual)?;
        let (i, inner) = cut(self.context(self.typ(i), StrContext::Label("dual type")))?;
        Ok((i, Type::Dual(pre.span.clone(), Box::new(inner))))
    }

    /// `(a, b) c`
    pub(crate) fn typ_send(&self, i: usize) -> (r: Parsed<Type>)
        requires
            self.ready(i),
        ensures
            self.parses(r, i, types::typ_send(self@, rules(self@, i as int), i as int)),
        decreases self@.len() - i, 0int,
    {
        reveal(types::typ_send);
        let ghost from = i as int;
        let (i, open) = self.t(i, TokenKind::LParen)?;
        let (i, args) = cut(self.typ_list(Ghost(from), i))?;
        let (i, _) = cut(self.t(i, TokenKind::RParen))?;
        let (i, rest) = cut(self.typ(i))?;
        let span = open.span.join(rest.span());
        let step = |x: Type, rest: Type| -> (r: Type)
            ensures
                r.deep_view() == types::pair_step(span@)(x.deep_view(), rest.deep_view()),
            { Type::Pair(span.clone(), Box::new(x), Box::new(rest)) };
        Ok((i, rfold(args, rest, step, Ghost(types::pair_step(span@)))))
    }

    /// `[a, b] c`
    pub(crate) fn typ_receive(&self, i: usize) -> (r: Parsed<Type>)
        requires
            self.ready(i),
        ensures
            self.parses(r, i, types::typ_receive(self@, rules(self@, i as int), i as int)),
        decreases self@.len() - i, 0int,
    {
        reveal(types::typ_receive);
        let ghost from = i as int;
        let (i, open) = self.t(i, TokenKind::LBrack)?;
        let (i, args) = cut(self.typ_list(Ghost(from), i))?;
        let (i, _) = cut(self.t(i, TokenKind::RBrack))?;
        let (i, rest) = cut(self.typ(i))?;
        let span = open.span.join(rest.span());
        let step = |x: Type, rest: Type| -> (r: Type)
            ensures
                r.deep_view() == types::function_step(span@)(x.deep_view(), rest.deep_view()),
            { Type::Function(span.clone(), Box::new(x), Box::new(rest)) };
        Ok((i, rfold(args, rest, step, Ghost(types::function_step(span@)))))
    }

    /// `either { .x a, .y b }`
    pub(crate) fn typ_either(&self, i: usize) -> (r: Parsed<Type>)
        requires
            self.ready(i),
        ensures
            self.parses(r, i, types::typ_either(self@, rules(self@, i as int), i as int)),
        decreases self@.len() - i, 0int,
    {
        reveal(types::typ_either);
        let ghost from = i as int;
        let (i, pre) = self.t(i, TokenKind::Either)?;
        let (i, body) = cut(self.typ_body(Ghost(from), i))?;
        Ok((i, Type::Either(pre.span.join(body.0), body.1)))
    }

    /// `choice { .x => a, .y => b }`
    pub(crate) fn typ_choice(&self, i: usize) -> (r: Parsed<Type>)
        requires
            self.ready(i),
        ensures
            self.parses(r, i, types::typ_choice(self@, rules(self@, i as int), i as int)),
        decreases self@.len() - i, 0int,
    {
        reveal(types::typ_choice);
        let ghost from = i as int;
        let (i, pre) = self.t(i, TokenKind::Choice)?;
        let (i, body) = cut(self.typ_branch_body(Ghost(from), i))?;
        Ok((i, Type::Choice(pre.span.join(body.0), body.1)))
    }

    /// `!`
    pub(crate) fn typ_break(&self, i: usize) -> (r: Parsed<Type>)
        requires
            self.ready(i),
        ensures
            self.parses(r, i, types::typ_break(self@, i as int)),
    {
        reveal(types::typ_break);
        let (i, token) = self.t(i, TokenKind::Bang)?;
        Ok((i, Type::Break(token.span.clone())))
    }

    /// `?`
    pub(crate) fn typ_continue(&self, i: usize) -> (r: Parsed<Type>)
        requires
            self.ready(i),
        ensures
            self.parses(r, i, types::typ_continue(self@, i as int)),
    {
        reveal(types::typ_continue);
        let (i, token) = self.t(i, TokenKind::Quest)?;
        Ok((i, Type::Continue(token.span.clone())))
    }

    /// `recursive@l a`
    pub(crate) fn typ_recursive(&self, i: usize) -> (r: Parsed<Type>)
        requires
            self.ready(i),
        ensures
            self.parses(r, i, types::typ_recursive(self@, rules(self@, i as int), i as int)),
        decreases self@.len() - i, 0int,
    {
        reveal(types::typ_recursive);
        let (i, pre) = self.t(i, TokenKind::Recursive)?;
        let (i, label) = cut(self.label(i))?;
        let (i, body) = cut(self.typ(i))?;
        Ok((
            i,
            Type::Recursive {
                span: pre.span.join(body.span()),
                asc: empty_vec(),
                label,
                body: Box::new(body),
            },
        ))
    }

    /// `iterative@l a`
    pub(crate) fn typ_iterative(&self, i: usize) -> (r: Parsed<Type>)
        requires
            self.ready(i),
        ensures
            self.parses(r, i, types::typ_iterative(self@, rules(self@, i as int), i as int)),
        decreases self@.len() - i, 0int,
    {
        reveal(types::typ_iterative);
        let (i, pre) = self.t(i, TokenKind::Iterative)?;
        let (i, label) = cut(
            self.context(self.label(i), StrContext::Label("iterative type body")),
        )?;
        let (i, body) = cut(self.context(self.typ(i), StrContext::Label("iterative type body")))?;
        Ok((
            i,
            Type::Iterative {
                span: pre.span.join(body.span()),
                asc: empty_vec(),
                label,
                body: Box::new(body),
            },
        ))
    }

    /// `self@l`
    pub(crate) fn typ_self(&self, i: usize) -> (r: Parsed<Type>)
        requires
            self.ready(i),
        ensures
            self.parses(r, i, types::typ_self(self@, i as int)),
    {
        reveal(types::typ_self);
        let (i, token) = self.t(i, TokenKind::Self_)?;
        let (i, label) = cut(
            self.context(self.label(i), StrContext::Label("self type loop label")),
        )?;
        let span = match &label {
            Some(label) => token.span.join(label.span.clone()),
            None => token.span.clone(),
        };
        Ok((i, Type::Self_(span, label)))
    }

    /// `(type a, b) c`
    pub(crate) fn typ_send_type(&self, i: usize) -> (r: Parsed<Type>)
        requires
            self.ready(i),
        ensures
            self.parses(r, i, types::typ_send_type(self@, rules(self@, i as int), i as int)),
        decreases self@.len() - i, 0int,
    {
        reveal(types::typ_send_type);
        let (i, open) = self.open_type(i, TokenKind::LParen, "(type")?;
        let (i, args) = cut(
            self.context(self.name_list(i), StrContext::Label("list of type names to send")),
        )?;
        let (i, _) = cut(self.t(i, TokenKind::RParen))?;
        let (i, rest) = cut(self.typ(i))?;
        let span = open.span.join(rest.span());
        let step = |x: LocalName, rest: Type| -> (r: Type)
            ensures
                r.deep_view() == types::exists_step(span@)(x.deep_view(), rest.deep_view()),
            { Type::Exists(span.clone(), x, Box::new(rest)) };
        Ok((i, rfold(args, rest, step, Ghost(types::exists_step(span@)))))
    }

    /// `[type a, b] c`
    pub(crate) fn typ_recv_type(&self, i: usize) -> (r: Parsed<Type>)
        requires
            self.ready(i),
        ensures
            self.parses(r, i, types::typ_recv_type(self@, rules(self@, i as int), i as int)),
        decreases self@.len() - i, 0int,
    {
        reveal(types::typ_recv_type);
        let (i, open) = self.open_type(i, TokenKind::LBrack, "[type")?;
        let (i, args) = cut(
            self.context(self.name_list(i), StrContext::Label("list of type names to receive")),
        )?;
        let (i, _) = cut(self.t(i, TokenKind::RBrack))?;
        let (i, rest) = cut(self.typ(i))?;
        let span = open.span.join(rest.span());
        let step = |x: LocalName, rest: Type| -> (r: Type)
            ensures
                r.deep_view() == types::forall_step(span@)(x.deep_view(), rest.deep_view()),
            { Type::Forall(span.clone(), x, Box::new(rest)) };
        Ok((i, rfold(args, rest, step, Ghost(types::forall_step(span@)))))
    }

    /// `<a, b>` with names, or nothing.
    pub(crate) fn type_params(&self, i: usize) -> (r: Parsed<Option<(Span, Vec<LocalName>)>>)
        requires
            self.ready(i),
        ensures
            self.tries(r, i, types::type_params(self@, i as int)),
    {
        reveal(types::type_params);
        match self.t(i, TokenKind::Lt) {
            Err(_) => Ok((i, None)),
            Ok((i, open)) => {
                let (i, names) = cut(self.name_list(i))?;
                let (i, close) = cut(self.t(i, TokenKind::Gt))?;
                Ok((i, Some((open.span.join(close.span.clone()), names))))
            },
        }
    }

    /// `<a, b>` with types, or nothing.
    pub(crate) fn type_args(&self, Ghost(from): Ghost<int>, i: usize) -> (r: Parsed<
        Option<(Span, Vec<Type>)>,
    >)
        requires
            self.ready(i),
            from < i,
        ensures
            self.tries(r, i, types::type_args(self@, rules(self@, from), i as int)),
        decreases self@.len() - i, 9int,
    {
        reveal(types::type_args);
        match self.t(i, TokenKind::Lt) {
            Err(_) => Ok((i, None)),
            Ok((i, open)) => {
                let (i, types) = cut(self.typ_list(Ghost(from), i))?;
                let (i, close) = cut(self.t(i, TokenKind::Gt))?;
                Ok((i, Some((open.span.join(close.span.clone()), types))))
            },
        }
    }

    /// What stands after a signal in `choice`.
    pub(crate) fn typ_branch(&self, i: usize) -> (r: Parsed<Type>)
        requires
            self.ready(i),
        ensures
            self.parses(r, i, types::typ_branch(self@, rules(self@, i as int), i as int)),
        decreases self@.len() - i, 1int,
    {
        reveal(types::typ_branch);
        let r = self.typ_branch_then(i);
        let r = if retry(&r) { or(r, self.typ_branch_recv_type(i)) } else { r };
        if retry(&r) { or(r, self.typ_branch_receive(i)) } else { r }
    }

    /// `=> a`
    pub(crate) fn typ_branch_then(&self, i: usize) -> (r: Parsed<Type>)
        requires
            self.ready(i),
        ensures
            self.parses(r, i, types::typ_branch_then(self@, rules(self@, i as int), i as int)),
        decreases self@.len() - i, 0int,
    {
        reveal(types::typ_branch_then);
        let (i, _) = self.t(i, TokenKind::FatArrow)?;
        let (i, rest) = cut(self.typ(i))?;
        Ok((i, rest))
    }

    /// `(a, b) c`
    pub(crate) fn typ_branch_receive(&self, i: usize) -> (r: Parsed<Type>)
        requires
            self.ready(i),
        ensures
            self.parses(r, i, types::typ_branch_receive(self@, rules(self@, i as int), i as int)),
        decreases self@.len() - i, 0int,
    {
        reveal(types::typ_branch_receive);
        let ghost from = i as int;
        let (i, open) = self.t(i, TokenKind::LParen)?;
        let (i, args) = cut(self.typ_list(Ghost(from), i))?;
        let (i, _) = cut(self.t(i, TokenKind::RParen))?;
        let (i, rest) = cut(self.typ_branch(i))?;
        let span = open.span.join(rest.span());
        let step = |x: Type, rest: Type| -> (r: Type)
            ensures
                r.deep_view() == types::function_step(span@)(x.deep_view(), rest.deep_view()),
            { Type::Function(span.clone(), Box::new(x), Box::new(rest)) };
        Ok((i, rfold(args, rest, step, Ghost(types::function_step(span@)))))
    }

    /// `(type a, b) c`
    pub(crate) fn typ_branch_recv_type(&self, i: usize) -> (r: Parsed<Type>)
        requires
            self.ready(i),
        ensures
            self.parses(r, i, types::typ_branch_recv_type(self@, rules(self@, i as int), i as int)),
        decreases self@.len() - i, 0int,
    {
        reveal(types::typ_branch_recv_type);
        let (i, open) = self.open_type(i, TokenKind::LParen, "(type")?;
        let (i, args) = cut(self.name_list(i))?;
        let (i, _) = cut(self.t(i, TokenKind::RParen))?;
        let (i, rest) = cut(self.typ_branch(i))?;
        let span = open.span.join(rest.span());
        let step = |x: LocalName, rest: Type| -> (r: Type)
            ensures
                r.deep_view() == types::forall_step(span@)(x.deep_view(), rest.deep_view()),
            { Type::Forall(span.clone(), x, Box::new(rest)) };
        Ok((i, rfold(args, rest, step, Ghost(types::forall_step(span@)))))
    }

    /// `: a`, or nothing.
    pub(crate) fn annotation(&self, Ghost(from): Ghost<int>, i: usize) -> (r: Parsed<Option<Type>>)
        requires
            self.ready(i),
            from < i,
        ensures
            self.tries(r, i, types::annotation(self@, rules(self@, from), i as int)),
        decreases self@.len() - i, 9int,
    {
        reveal(types::annotation);
        match self.t(i, TokenKind::Colon) {
            Err(_) => Ok((i, None)),
            Ok((i, _)) => {
                let (i, typ) = cut(self.typ(i))?;
                Ok((i, Some(typ)))
            },
        }
    }
}

} // verus!
