//! Types.
use crate::branches::{found, inserted, inserted_found, inserted_sorted, sorted, Branches};
use crate::language::{GlobalName, LocalName};
use crate::location::Span;
use crate::model;
use vstd::prelude::*;

verus! {

/// The built-in types.
#[derive(Debug, Clone, Copy, PartialEq, Eq)]
pub enum PrimitiveType {
    Nat,
    Int,
    String,
    Char,
    Byte,
    Bytes,
}

/// A type.
#[derive(Debug, PartialEq)]
pub enum Type {
    /// A built-in type.
    Primitive(Span, PrimitiveType),
    /// `a`
    Var(Span, LocalName),
    /// `Name<a, b>`
    Name(Span, GlobalName, Vec<Type>),
    /// `box a`
    Box(Span, Box<Type>),
    /// `dual a`: the type of the other end of a channel of type `a`.
    Dual(Span, Box<Type>),
    /// `(a) b`
    Pair(Span, Box<Type>, Box<Type>),
    /// `[a] b`
    Function(Span, Box<Type>, Box<Type>),
    /// `either { .x a, .y b }`
    Either(Span, Branches<Type>),
    /// `choice { .x => a, .y => b }`
    Choice(Span, Branches<Type>),
    /// `!`
    Break(Span),
    /// `?`
    Continue(Span),
    /// `recursive@l a`; `asc` lists the loops that the type ascends to.
    Recursive {
        span: Span,
        asc: Vec<Option<LocalName>>,
        label: Option<LocalName>,
        body: Box<Type>,
    },
    /// `iterative@l a`; `asc` lists the loops that the type ascends to.
    Iterative {
        span: Span,
        asc: Vec<Option<LocalName>>,
        label: Option<LocalName>,
        body: Box<Type>,
    },
    /// `self@l`
    Self_(Span, Option<LocalName>),
    /// `(type a) b`
    Exists(Span, LocalName, Box<Type>),
    /// `[type a] b`
    Forall(Span, LocalName, Box<Type>),
}

impl Type {
    /// What the value says, with its texts, numbers and lists as mathematical values.
    pub open spec fn model(self) -> model::Type
        decreases self,
    {
        match self {
            Type::Primitive(span, a) => model::Type::Primitive(span@, a),
            Type::Var(span, a) => model::Type::Var(span@, a@),
            Type::Name(span, a, b) => model::Type::Name(
                span@,
                a@,
                Seq::new(
                    b@.len(),
                    |i: int| if 0 <= i < b@.len() { b@[i].model() } else { arbitrary() },
                ),
            ),
            Type::Box(span, a) => model::Type::Box(span@, Box::new(a.model())),
            Type::Dual(span, a) => model::Type::Dual(span@, Box::new(a.model())),
            Type::Pair(span, a, b) => model::Type::Pair(
                span@,
                Box::new(a.model()),
                Box::new(b.model()),
            ),
            Type::Function(span, a, b) => model::Type::Function(
                span@,
                Box::new(a.model()),
                Box::new(b.model()),
            ),
            Type::Either(span, a) => model::Type::Either(
                span@,
                Seq::new(
                    a.entries@.len(),
                    |i: int|
                        if 0 <= i < a.entries@.len() {
                            (a.entries@[i].0@, a.entries@[i].1.model())
                        } else {
                            arbitrary()
                        },
                ),
            ),
            Type::Choice(span, a) => model::Type::Choice(
                span@,
                Seq::new(
                    a.entries@.len(),
                    |i: int|
                        if 0 <= i < a.entries@.len() {
                            (a.entries@[i].0@, a.entries@[i].1.model())
                        } else {
                            arbitrary()
                        },
                ),
            ),
            Type::Break(span) => model::Type::Break(span@),
            Type::Continue(span) => model::Type::Continue(span@),
            Type::Recursive { span, asc, label, body } => model::Type::Recursive {
                span: span@,
                asc: asc.deep_view(),
                label: label.deep_view(),
                body: Box::new(body.model()),
            },
            Type::Iterative { span, asc, label, body } => model::Type::Iterative {
                span: span@,
                asc: asc.deep_view(),
                label: label.deep_view(),
                body: Box::new(body.model()),
            },
            Type::Self_(span, a) => model::Type::Self_(span@, a.deep_view()),
            Type::Exists(span, a, b) => model::Type::Exists(span@, a@, Box::new(b.model())),
            Type::Forall(span, a, b) => model::Type::Forall(span@, a@, Box::new(b.model())),
        }
    }
}

impl DeepView for Type {
    type V = model::Type;

    open spec fn deep_view(&self) -> model::Type {
        self.model()
    }
}

pub broadcast proof fn type_name_model(span: Span, name: GlobalName, args: Vec<Type>)
    ensures
        #[trigger] Type::Name(span, name, args).model() == model::Type::Name(
            span@,
            name@,
            args.deep_view(),
        ),
{
    if let model::Type::Name(_, _, xs) = Type::Name(span, name, args).model() {
        assert(xs =~= args.deep_view());
    }
}

pub broadcast proof fn type_either_model(span: Span, branches: Branches<Type>)
    ensures
        #[trigger] Type::Either(span, branches).model() == model::Type::Either(
            span@,
            branches.deep_view(),
        ),
{
    if let model::Type::Either(_, xs) = Type::Either(span, branches).model() {
        assert(xs =~= branches.deep_view());
    }
}

pub broadcast proof fn type_choice_model(span: Span, branches: Branches<Type>)
    ensures
        #[trigger] Type::Choice(span, branches).model() == model::Type::Choice(
            span@,
            branches.deep_view(),
        ),
{
    if let model::Type::Choice(_, xs) = Type::Choice(span, branches).model() {
        assert(xs =~= branches.deep_view());
    }
}

/// What types with lists in them say, in terms of the lists.
pub broadcast group group_type_models {
    type_name_model,
    type_either_model,
    type_choice_model,
}

impl Type {
    /// The stretch of the source that the value covers.
    pub fn span(&self) -> (r: Span)
        ensures
            r@ == self.model().span(),
        decreases self,
    {
        match self {
            Type::Primitive(span, ..) => span.clone(),
            Type::Var(span, ..) => span.clone(),
            Type::Name(span, ..) => span.clone(),
            Type::Box(span, ..) => span.clone(),
            Type::Dual(span, ..) => span.clone(),
            Type::Pair(span, ..) => span.clone(),
            Type::Function(span, ..) => span.clone(),
            Type::Either(span, ..) => span.clone(),
            Type::Choice(span, ..) => span.clone(),
            Type::Break(span) => span.clone(),
            Type::Continue(span) => span.clone(),
            Type::Recursive { span, .. } => span.clone(),
            Type::Iterative { span, .. } => span.clone(),
            Type::Self_(span, ..) => span.clone(),
            Type::Exists(span, ..) => span.clone(),
            Type::Forall(span, ..) => span.clone(),
        }
    }
}

/// Types under names, put there one after the other.
pub open spec fn branches_of(branches: Seq<(Seq<char>, model::Type)>) -> Seq<
    (model::LocalName, model::Type),
>
    decreases branches.len(),
{
    if branches.len() == 0 {
        Seq::empty()
    } else {
        let (name, typ) = branches.last();
        inserted(
            branches_of(branches.drop_last()),
            model::LocalName { span: model::Span::Nowhere, string: name },
            typ,
        )
    }
}

impl Type {
    /// The type of strings.
    pub fn string() -> (r: Type)
        ensures
            r.model() == model::Type::Primitive(model::Span::Nowhere, PrimitiveType::String),
    {
        Type::Primitive(Span::Nowhere, PrimitiveType::String)
    }

    /// The type with a name and arguments.
    pub fn name(module: Option<&str>, primary: &str, args: Vec<Type>) -> (r: Type)
        ensures
            r.model() == model::Type::Name(
                model::Span::Nowhere,
                model::GlobalName {
                    span: model::Span::Nowhere,
                    module: match module {
                        Some(module) => Some(module@),
                        None => None,
                    },
                    primary: primary@,
                },
                args.deep_view(),
            ),
    {
        broadcast use group_type_models;

        Type::Name(Span::Nowhere, GlobalName::external(module, primary), args)
    }

    /// The type of functions.
    pub fn function(arg: Type, result: Type) -> (r: Type)
        ensures
            r.model() == model::Type::Function(
                model::Span::Nowhere,
                Box::new(arg.model()),
                Box::new(result.model()),
            ),
    {
        Type::Function(Span::Nowhere, Box::new(arg), Box::new(result))
    }

    /// The type of values that are one of the branches.
    pub fn either(branches: Vec<(&str, Type)>) -> (r: Type)
        ensures
            r.model() == model::Type::Either(
                model::Span::Nowhere,
                branches_of(branches.deep_view()),
            ),
    {
        broadcast use group_type_models;

        let ghost all = branches.deep_view();
        let mut rest = branches;
        let mut reversed: Vec<(&str, Type)> = Vec::new();
        loop
            invariant
                rest.deep_view() + reversed.deep_view().reverse() == all,
            ensures
                rest@.len() == 0,
            decreases rest@.len(),
        {
            let ghost before = rest.deep_view();
            let ghost after = reversed.deep_view();
            match rest.pop() {
                None => {
                    break;
                },
                Some(branch) => {
                    assert(before =~= rest.deep_view().push(branch.deep_view()));
                    reversed.push(branch);
                    assert(reversed.deep_view() =~= after.push(branch.deep_view()));
                    assert(rest.deep_view() + reversed.deep_view().reverse() =~= before
                        + after.reverse());
                },
            }
        }
        assert(reversed.deep_view().reverse() =~= all);
        let mut entries: Branches<Type> = Branches::new();
        let ghost mut done: int = 0;
        assert(all.take(0) =~= Seq::empty());
        loop
            invariant
                0 <= done <= all.len(),
                reversed.deep_view().reverse() == all.skip(done),
                entries.wf(),
                entries.deep_view() == branches_of(all.take(done)),
            ensures
                done == all.len(),
            decreases reversed@.len(),
        {
            let ghost before = reversed.deep_view();
            match reversed.pop() {
                None => {
                    assert(before.reverse().len() == 0);
                    break;
                },
                Some((name, typ)) => {
                    proof {
                        let entry = (name@, typ.model());
                        assert(before.last() == entry);
                        assert(before.reverse()[0] == entry);
                        assert(all.skip(done)[0] == all[done]);
                        assert(reversed.deep_view() =~= before.drop_last());
                        assert(reversed.deep_view().reverse() =~= all.skip(done + 1)) by {
                            assert(all.skip(done + 1) =~= all.skip(done).drop_first());
                            assert(before.reverse().drop_first() =~= before.drop_last().reverse());
                        }
                        assert(all.take(done + 1).drop_last() =~= all.take(done));
                        done = done + 1;
                    }
                    entries.insert(LocalName::external(name), typ);
                },
            }
        }
        assert(all.take(done) =~= all);
        Type::Either(Span::Nowhere, entries)
    }
}

/// Types that are put under names are sorted by name, each name once, and under a name stands the
/// last type that was put there; a name under which none was put is not there.
pub proof fn branches_by_name(branches: Seq<(Seq<char>, model::Type)>, string: Seq<char>)
    ensures
        sorted(branches_of(branches)),
        found(branches_of(branches), string) is None <==> forall|k: int|
            0 <= k < branches.len() ==> (#[trigger] branches[k]).0 != string,
        forall|k: int|
            #![trigger branches[k]]
            0 <= k < branches.len() && branches[k].0 == string && (forall|l: int|
                k < l < branches.len() ==> (#[trigger] branches[l]).0 != string) ==> found(
                branches_of(branches),
                string,
            ) == Some(branches[k].1),
    decreases branches.len(),
{
    if branches.len() > 0 {
        let rest = branches.drop_last();
        let last = branches.last();
        let name = model::LocalName { span: model::Span::Nowhere, string: last.0 };
        branches_by_name(rest, string);
        inserted_sorted(branches_of(rest), name, last.1);
        inserted_found(branches_of(rest), name, last.1, string);
        assert(forall|k: int| 0 <= k < rest.len() ==> #[trigger] rest[k] == branches[k]);
        assert(branches[branches.len() - 1] == last);
        assert forall|k: int|
            #![trigger branches[k]]
            0 <= k < branches.len() && branches[k].0 == string && (forall|l: int|
                k < l < branches.len() ==> (#[trigger] branches[l]).0 != string) implies found(
            branches_of(branches),
            string,
        ) == Some(branches[k].1) by {
            if k < rest.len() {
                assert(rest[k] == branches[k]);
                assert forall|l: int| k < l < rest.len() implies (#[trigger] rest[l]).0
                    != string by {
                    assert(rest[l] == branches[l]);
                }
            }
        }
        if found(branches_of(branches), string) is None {
            assert forall|k: int| 0 <= k < branches.len() implies (#[trigger] branches[k]).0
                != string by {
                if k < rest.len() {
                    assert(rest[k] == branches[k]);
                }
            }
        }
        if forall|k: int| 0 <= k < branches.len() ==> (#[trigger] branches[k]).0 != string {
            assert forall|k: int| 0 <= k < rest.len() implies (#[trigger] rest[k]).0
                != string by {
                assert(rest[k] == branches[k]);
            }
        }
    }
}

} // verus!
