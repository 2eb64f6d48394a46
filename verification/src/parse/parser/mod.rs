//! The parser: each method parses one production of the grammar.
pub mod applications;
pub mod commands;
pub mod constructions;
pub mod expressions;
pub mod items;
pub mod patterns;
pub mod processes;
pub mod types;

use super::error::{MyError, StrContext, StrContextValue};
use super::grammar;
use super::grammar::{rules, tokens_are_valid};
use super::outcome::{
    advances, cut, in_range, join_one, opt, outcome, prepend, retry, Failure, Outcome,
    Parsed,
};
use crate::arc_text::arc_from;
use crate::branches::Branches;
use crate::language::{
    ApplyBranch, CommandBranch, ConstructBranch, Expression, GlobalName, LocalName, Pattern,
};
use crate::location::Span;
use crate::model;
use crate::token::{Token, TokenKind};
use crate::types::Type;
use vstd::prelude::*;

verus! {

broadcast use super::grammar::group_rules;

/// The tokens to parse.
pub struct Parser<'t, 'i> {
    pub tokens: &'t Vec<Token<'i>>,
}

/// No items.
pub(crate) fn empty_vec<T: DeepView>() -> (r: Vec<T>)
    ensures
        r.deep_view() == Seq::<T::V>::empty(),
{
    let r: Vec<T> = Vec::new();
    assert(r.deep_view() =~= Seq::<T::V>::empty());
    r
}

/// Folds the items into `rest`, from the last one to the first.
pub(crate) fn rfold<A: DeepView, B: DeepView, F: Fn(A, B) -> B>(
    items: Vec<A>,
    rest: B,
    f: F,
    Ghost(g): Ghost<spec_fn(A::V, B::V) -> B::V>,
) -> (r: B)
    requires
        forall|a: A, b: B| call_requires(f, (a, b)),
        forall|a: A, b: B, c: B|
            call_ensures(f, (a, b), c) ==> c.deep_view() == g(a.deep_view(), b.deep_view()),
    ensures
        r.deep_view() == items.deep_view().fold_right(g, rest.deep_view()),
{
    let mut items = items;
    let mut rest = rest;
    let ghost all = items.deep_view().fold_right(g, rest.deep_view());
    loop
        invariant
            forall|a: A, b: B| call_requires(f, (a, b)),
            forall|a: A, b: B, c: B|
                call_ensures(f, (a, b), c) ==> c.deep_view() == g(a.deep_view(), b.deep_view()),
            items.deep_view().fold_right(g, rest.deep_view()) == all,
        ensures
            rest.deep_view() == all,
        decreases items@.len(),
    {
        let ghost before = items.deep_view();
        match items.pop() {
            None => {
                break;
            },
            Some(item) => {
                assert(items.deep_view() =~= before.drop_last());
                rest = f(item, rest);
            },
        }
    }
    rest
}

impl<'t, 'i> Parser<'t, 'i> {
    /// What the tokens say.
    pub open spec fn view(&self) -> Seq<model::Token> {
        self.tokens.deep_view()
    }

    /// Whether a parse can start at `i`.
    pub open spec fn ready(&self, i: usize) -> bool {
        &&& i <= self@.len()
        &&& tokens_are_valid(self@)
    }

    /// Whether `r`, the result of a parse from `i`, comes to `o`.
    pub open spec fn tries<T: DeepView>(&self, r: Parsed<T>, i: usize, o: Outcome<T::V>) -> bool {
        &&& outcome(r) == o
        &&& in_range(r, i as int, self@.len())
    }

    /// Whether `r`, the result of a parse from `i`, comes to `o` and takes a token if it is
    /// a success.
    pub open spec fn parses<T: DeepView>(&self, r: Parsed<T>, i: usize, o: Outcome<T::V>) -> bool {
        &&& self.tries(r, i, o)
        &&& advances(r, i as int)
    }

    /// A failure at `i`.
    pub(crate) fn fail<T: DeepView>(&self, i: usize) -> (r: Parsed<T>)
        requires
            i <= self@.len(),
        ensures
            r matches Err(f) && !f.cut && f.at == i && f.error.model() == super::error::failure_at(
                self@.len() - i,
            ),
    {
        Err(Failure { cut: false, at: i, error: MyError::from_input(self.tokens.len() - i) })
    }

    /// A token of the kind `kind`.
    pub(crate) fn literal(&self, i: usize, kind: TokenKind) -> (r: Parsed<&'t Token<'i>>)
        requires
            self.ready(i),
        ensures
            self.parses(r, i, grammar::literal(self@, i as int, kind)),
            r matches Err(f) ==> !f.cut,
    {
        if i < self.tokens.len() && self.tokens[i].kind == kind {
            Ok((i + 1, &self.tokens[i]))
        } else {
            self.fail(i)
        }
    }

    /// A token of the kind `kind`, whose text is named if it is not there.
    pub(crate) fn t(&self, i: usize, kind: TokenKind) -> (r: Parsed<&'t Token<'i>>)
        requires
            self.ready(i),
        ensures
            self.parses(r, i, grammar::t(self@, i as int, kind)),
            r matches Err(f) ==> !f.cut,
    {
        self.context(
            self.literal(i, kind),
            StrContext::Expected(StrContextValue::StringLiteral(kind.expected())),
        )
    }

    /// A bracket of the kind `open` and the word `type`.
    pub(crate) fn open_type(&self, i: usize, open: TokenKind, text: &'static str) -> (r: Parsed<
        &'t Token<'i>,
    >)
        requires
            self.ready(i),
        ensures
            self.parses(r, i, grammar::open_type(self@, i as int, open, text)),
    {
        let context = StrContext::Expected(StrContextValue::Description(text));
        match self.literal(i, open) {
            Err(f) => self.context(Err(f), context),
            Ok((i, bracket)) => match self.literal(i, TokenKind::Type) {
                Err(f) => self.context(Err(f), context),
                Ok((i, _)) => Ok((i, bracket)),
            },
        }
    }

    /// A result whose failure gets a context.
    pub(crate) fn context<T: DeepView>(&self, r: Parsed<T>, context: StrContext) -> (s: Parsed<T>)
        requires
            in_range(r, 0, self@.len()),
        ensures
            outcome(s) == outcome(r).context(self@.len(), context),
            r is Ok ==> s == r,
            r matches Err(f) ==> (s matches Err(g) && g.at == f.at && g.cut == f.cut),
    {
        match r {
            Ok(x) => Ok(x),
            Err(f) => Err(
                Failure {
                    cut: f.cut,
                    at: f.at,
                    error: f.error.add_context(self.tokens.len() - f.at, context),
                },
            ),
        }
    }

    /// One or more items between commas, with or without a comma at the end.
    pub(crate) fn list1<T: DeepView, F: Fn(usize) -> Parsed<T>>(
        &self,
        i: usize,
        item: F,
        Ghost(g): Ghost<spec_fn(int) -> Outcome<T::V>>,
    ) -> (r: Parsed<Vec<T>>)
        requires
            self.ready(i),
            forall|j: usize| i <= j <= self@.len() ==> call_requires(item, (j,)),
            forall|j: usize, r: Parsed<T>| #[trigger]
                call_ensures(item, (j,), r) ==> self.parses(r, j, g(j as int)),
        ensures
            self.parses(r, i, grammar::list1(self@, g, i as int)),
    {
        let (end, first) = item(i)?;
        self.list_after(end, first, item, Ghost(g))
    }

    /// Items between commas, with or without a comma at the end.
    pub(crate) fn list0<T: DeepView, F: Fn(usize) -> Parsed<T>>(
        &self,
        i: usize,
        item: F,
        Ghost(g): Ghost<spec_fn(int) -> Outcome<T::V>>,
    ) -> (r: Parsed<Vec<T>>)
        requires
            self.ready(i),
            forall|j: usize| i <= j <= self@.len() ==> call_requires(item, (j,)),
            forall|j: usize, r: Parsed<T>| #[trigger]
                call_ensures(item, (j,), r) ==> self.parses(r, j, g(j as int)),
        ensures
            self.tries(r, i, grammar::list0(self@, g, i as int)),
    {
        let r = item(i);
        if retry(&r) {
            let items: Vec<T> = Vec::new();
            assert(items.deep_view() =~= Seq::<T::V>::empty());
            match self.t(i, TokenKind::Comma) {
                Ok((j, _)) => Ok((j, items)),
                Err(_) => Ok((i, items)),
            }
        } else {
            let (end, first) = r?;
            self.list_after(end, first, item, Ghost(g))
        }
    }

    /// The rest of a list whose first item ends at `i`.
    fn list_after<T: DeepView, F: Fn(usize) -> Parsed<T>>(
        &self,
        i: usize,
        first: T,
        item: F,
        Ghost(g): Ghost<spec_fn(int) -> Outcome<T::V>>,
    ) -> (r: Parsed<Vec<T>>)
        requires
            self.ready(i),
            forall|j: usize| i <= j <= self@.len() ==> call_requires(item, (j,)),
            forall|j: usize, r: Parsed<T>| #[trigger]
                call_ensures(item, (j,), r) ==> self.parses(r, j, g(j as int)),
        ensures
            self.tries(r, i, grammar::list_after(self@, g, i as int, first.deep_view())),
    {
        let mut items: Vec<T> = Vec::new();
        items.push(first);
        let mut k = i;
        let ghost all = prepend(
            seq![first.deep_view()],
            grammar::more_items(self@, g, i as int),
        );
        assert(items.deep_view() =~= seq![first.deep_view()]);
        loop
            invariant
                self.ready(i),
                i <= k <= self@.len(),
                forall|j: usize| i <= j <= self@.len() ==> call_requires(item, (j,)),
                forall|j: usize, r: Parsed<T>| #[trigger]
                    call_ensures(item, (j,), r) ==> self.parses(r, j, g(j as int)),
                all == prepend(items.deep_view(), grammar::more_items(self@, g, k as int)),
                all == prepend(
                    seq![first.deep_view()],
                    grammar::more_items(self@, g, i as int),
                ),
            ensures
                all == Outcome::Done(k as int, items.deep_view()),
            decreases self@.len() - k,
        {
            assert(items.deep_view() + Seq::<T::V>::empty() =~= items.deep_view());
            match self.t(k, TokenKind::Comma) {
                Err(_) => {
                    break;
                },
                Ok((j, _)) => match item(j) {
                    Err(f) => {
                        if f.cut {
                            return Err(f);
                        }
                        break;
                    },
                    Ok((e, x)) => {
                        let ghost before = items.deep_view();
                        items.push(x);
                        proof {
                            assert(items.deep_view() =~= before.push(x.deep_view()));
                            join_one(
                                before,
                                x.deep_view(),
                                grammar::more_items(self@, g, e as int),
                            );
                        }
                        k = e;
                    },
                },
            }
        }
        match self.t(k, TokenKind::Comma) {
            Ok((j, _)) => Ok((j, items)),
            Err(_) => Ok((k, items)),
        }
    }

    /// `{ .name branch, .name branch }`
    pub(crate) fn branches_body<T: DeepView, F: Fn(usize) -> Parsed<T>>(
        &self,
        i: usize,
        branch: F,
        Ghost(g): Ghost<spec_fn(int) -> Outcome<T::V>>,
    ) -> (r: Parsed<(Span, Branches<T>)>)
        requires
            self.ready(i),
            forall|j: usize| i <= j <= self@.len() ==> call_requires(branch, (j,)),
            forall|j: usize, r: Parsed<T>| #[trigger]
                call_ensures(branch, (j,), r) ==> self.parses(r, j, g(j as int)),
        ensures
            self.parses(r, i, grammar::branches_body(self@, g, i as int)),
    {
        let context = StrContext::Label("either/choice branches");
        match self.t(i, TokenKind::LCurly) {
            Err(f) => self.context(Err(f), context),
            Ok((i, open)) => match self.branch_rows(i, branch, Ghost(g)) {
                Err(f) => self.context(cut(Err(f)), context),
                Ok((i, branches)) => match self.t(i, TokenKind::RCurly) {
                    Err(f) => self.context(cut(Err(f)), context),
                    Ok((i, close)) => Ok((i, (open.span.join(close.span.clone()), branches))),
                },
            },
        }
    }

    /// Branches, as often as they come.
    fn branch_rows<T: DeepView, F: Fn(usize) -> Parsed<T>>(
        &self,
        i: usize,
        branch: F,
        Ghost(g): Ghost<spec_fn(int) -> Outcome<T::V>>,
    ) -> (r: Parsed<Branches<T>>)
        requires
            self.ready(i),
            forall|j: usize| i <= j <= self@.len() ==> call_requires(branch, (j,)),
            forall|j: usize, r: Parsed<T>| #[trigger]
                call_ensures(branch, (j,), r) ==> self.parses(r, j, g(j as int)),
        ensures
            self.tries(r, i, grammar::branch_rows(self@, g, Seq::empty(), i as int)),
    {
        let mut branches: Branches<T> = Branches::new();
        let mut k = i;
        let ghost all = grammar::branch_rows(self@, g, Seq::empty(), i as int);
        loop
            invariant
                self.ready(i),
                i <= k <= self@.len(),
                branches.wf(),
                forall|j: usize| i <= j <= self@.len() ==> call_requires(branch, (j,)),
                forall|j: usize, r: Parsed<T>| #[trigger]
                    call_ensures(branch, (j,), r) ==> self.parses(r, j, g(j as int)),
                all == grammar::branch_rows(self@, g, branches.deep_view(), k as int),
                all == grammar::branch_rows(self@, g, Seq::empty(), i as int),
            ensures
                all == Outcome::Done(k as int, branches.deep_view()),
            decreases self@.len() - k,
        {
            match self.branch_row(k, &branch, Ghost(g)) {
                Err(f) => {
                    if f.cut {
                        return Err(f);
                    }
                    break;
                },
                Ok((j, (name, value))) => {
                    branches.insert(name, value);
                    k = j;
                },
            }
        }
        Ok((k, branches))
    }

    /// A branch under its signal: `.name branch`, with or without a comma at the end.
    fn branch_row<T: DeepView, F: Fn(usize) -> Parsed<T>>(
        &self,
        i: usize,
        branch: &F,
        Ghost(g): Ghost<spec_fn(int) -> Outcome<T::V>>,
    ) -> (r: Parsed<(LocalName, T)>)
        requires
            self.ready(i),
            forall|j: usize| i <= j <= self@.len() ==> call_requires(*branch, (j,)),
            forall|j: usize, r: Parsed<T>| #[trigger]
                call_ensures(*branch, (j,), r) ==> self.parses(r, j, g(j as int)),
        ensures
            self.parses(r, i, grammar::branch_row(self@, g, i as int)),
    {
        let (i, _) = self.t(i, TokenKind::Dot)?;
        let (i, name) = self.local_name(i)?;
        let (i, value) = cut(branch(i))?;
        match self.t(i, TokenKind::Comma) {
            Ok((i, _)) => Ok((i, (name, value))),
            Err(_) => Ok((i, (name, value))),
        }
    }

    /// A name in lower case.
    pub(crate) fn local_name(&self, i: usize) -> (r: Parsed<LocalName>)
        requires
            self.ready(i),
        ensures
            self.parses(r, i, grammar::local_name(self@, i as int)),
            r matches Err(f) ==> !f.cut,
    {
        let (i, token) = self.lowercase_identifier(i)?;
        Ok((i, LocalName { span: token.span.clone(), string: arc_from(token.raw) }))
    }

    /// A word in lower case.
    fn lowercase_identifier(&self, i: usize) -> (r: Parsed<&'t Token<'i>>)
        requires
            self.ready(i),
        ensures
            self.parses(r, i, grammar::lowercase_identifier(self@, i as int)),
            r matches Err(f) ==> !f.cut,
    {
        let r = self.literal(i, TokenKind::LowercaseIdentifier);
        let r = self.context(r, StrContext::Expected(StrContextValue::CharLiteral('_')));
        self.context(
            r,
            StrContext::Expected(StrContextValue::Description("lower-case alphabetic")),
        )
    }

    /// A word in upper case.
    fn uppercase_identifier(&self, i: usize) -> (r: Parsed<&'t Token<'i>>)
        requires
            self.ready(i),
        ensures
            self.parses(r, i, grammar::uppercase_identifier(self@, i as int)),
            r matches Err(f) ==> !f.cut,
    {
        let r = self.literal(i, TokenKind::UppercaseIdentifier);
        self.context(
            r,
            StrContext::Expected(StrContextValue::Description("upper-case alphabetic")),
        )
    }

    /// A name in upper case: `Name` or `Module.Name`.
    pub(crate) fn global_name(&self, i: usize) -> (r: Parsed<GlobalName>)
        requires
            self.ready(i),
        ensures
            self.parses(r, i, grammar::global_name(self@, i as int)),
            r matches Err(f) ==> !f.cut,
    {
        let (i, first) = self.uppercase_identifier(i)?;
        let second = match self.t(i, TokenKind::Dot) {
            Err(f) => Err(f),
            Ok((j, _)) => self.uppercase_identifier(j),
        };
        match second {
            Ok((j, second)) => {
                let span = first.span.join(second.span.clone());
                let module = Some(first.raw.to_owned());
                Ok((j, GlobalName { span, module, primary: second.raw.to_owned() }))
            },
            Err(_) => {
                let span = first.span.clone();
                Ok((i, GlobalName { span, module: None, primary: first.raw.to_owned() }))
            },
        }
    }

    /// `@name`, or nothing.
    pub(crate) fn label(&self, i: usize) -> (r: Parsed<Option<LocalName>>)
        requires
            self.ready(i),
        ensures
            self.tries(r, i, grammar::label(self@, i as int)),
    {
        let r = match self.t(i, TokenKind::At) {
            Err(f) => Err(f),
            Ok((j, _)) => self.local_name(j),
        };
        opt(i, r)
    }

    /// Names between commas.
    pub(crate) fn name_list(&self, i: usize) -> (r: Parsed<Vec<LocalName>>)
        requires
            self.ready(i),
        ensures
            self.parses(
                r,
                i,
                grammar::list1(self@, |j: int| grammar::local_name(self@, j), i as int),
            ),
    {
        let ghost g = |j: int| grammar::local_name(self@, j);
        let item = |j: usize| -> (r: Parsed<LocalName>)
            requires
                self.ready(j),
            ensures
                self.parses(r, j, g(j as int)),
            { self.local_name(j) };
        self.list1(i, item, Ghost(g))
    }

    /// Types between commas.
    pub(crate) fn typ_list(&self, Ghost(from): Ghost<int>, i: usize) -> (r: Parsed<Vec<Type>>)
        requires
            self.ready(i),
            from < i,
        ensures
            self.parses(r, i, grammar::list1(self@, rules(self@, from).typ, i as int)),
        decreases self@.len() - i, 8int,
    {
        let ghost g = rules(self@, from).typ;
        let item = |j: usize| -> (r: Parsed<Type>)
            requires
                self.ready(j),
                i <= j,
            ensures
                self.parses(r, j, g(j as int)),
            { self.typ(j) };
        self.list1(i, item, Ghost(g))
    }

    /// Patterns between commas.
    pub(crate) fn pattern_list(&self, Ghost(from): Ghost<int>, i: usize) -> (r: Parsed<
        Vec<Pattern>,
    >)
        requires
            self.ready(i),
            from < i,
        ensures
            self.parses(r, i, grammar::list1(self@, rules(self@, from).pattern, i as int)),
        decreases self@.len() - i, 8int,
    {
        let ghost g = rules(self@, from).pattern;
        let item = |j: usize| -> (r: Parsed<Pattern>)
            requires
                self.ready(j),
                i <= j,
            ensures
                self.parses(r, j, g(j as int)),
            { self.pattern(j) };
        self.list1(i, item, Ghost(g))
    }

    /// Expressions between commas.
    pub(crate) fn expression_list(&self, Ghost(from): Ghost<int>, i: usize) -> (r: Parsed<
        Vec<Expression>,
    >)
        requires
            self.ready(i),
            from < i,
        ensures
            self.parses(r, i, grammar::list1(self@, rules(self@, from).expression, i as int)),
        decreases self@.len() - i, 8int,
    {
        let ghost g = rules(self@, from).expression;
        let item = |j: usize| -> (r: Parsed<Expression>)
            requires
                self.ready(j),
                i <= j,
            ensures
                self.parses(r, j, g(j as int)),
            { self.expression(j) };
        self.list1(i, item, Ghost(g))
    }

    /// Expressions between commas, or none.
    pub(crate) fn expression_list0(&self, Ghost(from): Ghost<int>, i: usize) -> (r: Parsed<
        Vec<Expression>,
    >)
        requires
            self.ready(i),
            from < i,
        ensures
            self.tries(r, i, grammar::list0(self@, rules(self@, from).expression, i as int)),
        decreases self@.len() - i, 8int,
    {
        let ghost g = rules(self@, from).expression;
        let item = |j: usize| -> (r: Parsed<Expression>)
            requires
                self.ready(j),
                i <= j,
            ensures
                self.parses(r, j, g(j as int)),
            { self.expression(j) };
        self.list0(i, item, Ghost(g))
    }

    /// The branches of `either`.
    pub(crate) fn typ_body(&self, Ghost(from): Ghost<int>, i: usize) -> (r: Parsed<
        (Span, Branches<Type>),
    >)
        requires
            self.ready(i),
            from < i,
        ensures
            self.parses(
                r,
                i,
                grammar::branches_body(self@, rules(self@, from).typ, i as int),
            ),
        decreases self@.len() - i, 8int,
    {
        let ghost g = rules(self@, from).typ;
        let branch = |j: usize| -> (r: Parsed<Type>)
            requires
                self.ready(j),
                i <= j,
            ensures
                self.parses(r, j, g(j as int)),
            { self.typ(j) };
        self.branches_body(i, branch, Ghost(g))
    }

    /// The branches of `choice`.
    pub(crate) fn typ_branch_body(&self, Ghost(from): Ghost<int>, i: usize) -> (r: Parsed<
        (Span, Branches<Type>),
    >)
        requires
            self.ready(i),
            from < i,
        ensures
            self.parses(
                r,
                i,
                grammar::branches_body(self@, rules(self@, from).typ_branch, i as int),
            ),
        decreases self@.len() - i, 8int,
    {
        let ghost g = rules(self@, from).typ_branch;
        let branch = |j: usize| -> (r: Parsed<Type>)
            requires
                self.ready(j),
                i <= j,
            ensures
                self.parses(r, j, g(j as int)),
            { self.typ_branch(j) };
        self.branches_body(i, branch, Ghost(g))
    }

    /// The branches of a construction.
    pub(crate) fn cons_branch_body(&self, Ghost(from): Ghost<int>, i: usize) -> (r: Parsed<
        (Span, Branches<ConstructBranch>),
    >)
        requires
            self.ready(i),
            from < i,
        ensures
            self.parses(
                r,
                i,
                grammar::branches_body(self@, rules(self@, from).cons_branch, i as int),
            ),
        decreases self@.len() - i, 8int,
    {
        let ghost g = rules(self@, from).cons_branch;
        let branch = |j: usize| -> (r: Parsed<ConstructBranch>)
            requires
                self.ready(j),
                i <= j,
            ensures
                self.parses(r, j, g(j as int)),
            { self.cons_branch(j) };
        self.branches_body(i, branch, Ghost(g))
    }

    /// The branches of an application.
    pub(crate) fn apply_branch_body(&self, Ghost(from): Ghost<int>, i: usize) -> (r: Parsed<
        (Span, Branches<ApplyBranch>),
    >)
        requires
            self.ready(i),
            from < i,
        ensures
            self.parses(
                r,
                i,
                grammar::branches_body(self@, rules(self@, from).apply_branch, i as int),
            ),
        decreases self@.len() - i, 8int,
    {
        let ghost g = rules(self@, from).apply_branch;
        let branch = |j: usize| -> (r: Parsed<ApplyBranch>)
            requires
                self.ready(j),
                i <= j,
            ensures
                self.parses(r, j, g(j as int)),
            { self.apply_branch(j) };
        self.branches_body(i, branch, Ghost(g))
    }

    /// The branches of a command.
    pub(crate) fn cmd_branch_body(&self, Ghost(from): Ghost<int>, i: usize) -> (r: Parsed<
        (Span, Branches<CommandBranch>),
    >)
        requires
            self.ready(i),
            from < i,
        ensures
            self.parses(
                r,
                i,
                grammar::branches_body(self@, rules(self@, from).cmd_branch, i as int),
            ),
        decreases self@.len() - i, 8int,
    {
        let ghost g = rules(self@, from).cmd_branch;
        let branch = |j: usize| -> (r: Parsed<CommandBranch>)
            requires
                self.ready(j),
                i <= j,
            ensures
                self.parses(r, j, g(j as int)),
            { self.cmd_branch(j) };
        self.branches_body(i, branch, Ghost(g))
    }

}

} // verus!
