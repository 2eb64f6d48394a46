//! What a parse comes to, and how outcomes combine.
use super::error::{with_context, ErrorModel, MyError, StrContext};
use vstd::prelude::*;

verus! {

/// What a parse of a sequence of tokens comes to. `Done` says where the parse ended and
/// what it found. `Failed` says where the parse failed and what was wrong; a failure that
/// is `cut` rules out other alternatives.
pub enum Outcome<T> {
    Done(int, T),
    Failed { cut: bool, at: int, error: ErrorModel },
}

impl<T> Outcome<T> {
    /// One parse after another.
    pub open spec fn and_then<U>(self, next: spec_fn(int, T) -> Outcome<U>) -> Outcome<U> {
        match self {
            Outcome::Done(at, value) => next(at, value),
            Outcome::Failed { cut, at, error } => Outcome::Failed { cut, at, error },
        }
    }

    /// A parse whose value is converted.
    pub open spec fn map<U>(self, f: spec_fn(T) -> U) -> Outcome<U> {
        match self {
            Outcome::Done(at, value) => Outcome::Done(at, f(value)),
            Outcome::Failed { cut, at, error } => Outcome::Failed { cut, at, error },
        }
    }

    /// A parse whose failure rules out other alternatives.
    pub open spec fn cut(self) -> Outcome<T> {
        match self {
            Outcome::Done(at, value) => Outcome::Done(at, value),
            Outcome::Failed { at, error, .. } => Outcome::Failed { cut: true, at, error },
        }
    }

    /// A parse of `count` tokens whose failure gets a context.
    pub open spec fn context(self, count: nat, context: StrContext) -> Outcome<T> {
        match self {
            Outcome::Done(at, value) => Outcome::Done(at, value),
            Outcome::Failed { cut, at, error } => Outcome::Failed {
                cut,
                at,
                error: with_context(error, count - at, context),
            },
        }
    }

    /// A parse, and another one from where it started if it fails. If both fail, that is
    /// where the second one did.
    pub open spec fn or(self, other: Outcome<T>) -> Outcome<T> {
        match (self, other) {
            (
                Outcome::Failed { cut: false, error: first, .. },
                Outcome::Failed { cut: false, at, error: second },
            ) => Outcome::Failed { cut: false, at, error: first + second },
            (Outcome::Failed { cut: false, .. }, _) => other,
            _ => self,
        }
    }

    /// A parse from `start` that may as well find nothing.
    pub open spec fn opt(self, start: int) -> Outcome<Option<T>> {
        match self {
            Outcome::Done(at, value) => Outcome::Done(at, Some(value)),
            Outcome::Failed { cut: false, .. } => Outcome::Done(start, None),
            Outcome::Failed { cut, at, error } => Outcome::Failed { cut, at, error },
        }
    }
}

/// Where a parse failed and what was wrong.
pub struct Failure {
    pub cut: bool,
    pub at: usize,
    pub error: MyError,
}

/// The end of a parse and what it found, or its failure.
pub type Parsed<T> = Result<(usize, T), Failure>;

/// The outcome that a result stands for.
pub open spec fn outcome<T: DeepView>(r: Parsed<T>) -> Outcome<T::V> {
    match r {
        Ok((at, value)) => Outcome::Done(at as int, value.deep_view()),
        Err(f) => Outcome::Failed { cut: f.cut, at: f.at as int, error: f.error.model() },
    }
}

/// Whether the places in a result of a parse of `count` tokens from `start` make sense.
pub open spec fn in_range<T>(r: Parsed<T>, start: int, count: nat) -> bool {
    match r {
        Ok((at, _)) => start <= at <= count,
        Err(f) => start <= f.at <= count,
    }
}

/// Whether a result takes at least one token.
pub open spec fn advances<T>(r: Parsed<T>, start: int) -> bool {
    match r {
        Ok((at, _)) => start < at,
        Err(_) => true,
    }
}

/// A parse of more items, after the items `xs`.
pub open spec fn prepend<T>(xs: Seq<T>, o: Outcome<Seq<T>>) -> Outcome<Seq<T>> {
    o.map(|ys: Seq<T>| xs + ys)
}

/// Nothing before the items changes nothing.
pub proof fn join_nothing<T>(o: Outcome<Seq<T>>)
    ensures
        prepend(Seq::empty(), o) == o,
{
    if let Outcome::Done(_, ys) = o {
        assert(Seq::<T>::empty() + ys =~= ys);
    }
}

/// An item can be counted among the items before or among those after.
pub proof fn join_one<T>(xs: Seq<T>, x: T, o: Outcome<Seq<T>>)
    ensures
        prepend(xs, prepend(seq![x], o)) == prepend(xs.push(x), o),
{
    if let Outcome::Done(_, ys) = o {
        assert(xs + (seq![x] + ys) =~= xs.push(x) + ys);
    }
}

/// Whether a result is a failure that leaves room for other alternatives.
pub fn retry<T>(r: &Parsed<T>) -> (b: bool)
    ensures
        b == (r matches Err(f) && !f.cut),
{
    match r {
        Ok(_) => false,
        Err(f) => !f.cut,
    }
}

/// The result of two alternatives, where the first one failed and left room for the second.
pub fn or<T: DeepView>(first: Parsed<T>, second: Parsed<T>) -> (r: Parsed<T>)
    requires
        first matches Err(f) && !f.cut,
    ensures
        outcome(r) == outcome(first).or(outcome(second)),
        second is Ok ==> r == second,
        second matches Err(f) ==> (r matches Err(g) && g.at == f.at && g.cut == f.cut),
{
    match (first, second) {
        (Err(first), Err(second)) => if second.cut {
            Err(second)
        } else {
            Err(Failure { cut: false, at: second.at, error: first.error.or(second.error) })
        },
        (_, second) => second,
    }
}

/// A parse from `start` that may as well find nothing.
pub fn opt<T: DeepView>(start: usize, r: Parsed<T>) -> (s: Parsed<Option<T>>)
    ensures
        outcome(s) == outcome(r).opt(start as int),
        r matches Ok((at, x)) ==> s == Ok::<(usize, Option<T>), Failure>((at, Some(x))),
        r matches Err(f) ==> (if f.cut {
            s == Err::<(usize, Option<T>), Failure>(f)
        } else {
            s == Ok::<(usize, Option<T>), Failure>((start, None))
        }),
{
    match r {
        Ok((at, x)) => Ok((at, Some(x))),
        Err(f) => if f.cut {
            Err(f)
        } else {
            Ok((start, None))
        },
    }
}

/// A parse whose failure rules out other alternatives.
pub fn cut<T: DeepView>(r: Parsed<T>) -> (s: Parsed<T>)
    ensures
        outcome(s) == outcome(r).cut(),
        s is Ok <==> r is Ok,
        r is Ok ==> s == r,
        r is Err ==> s->Err_0.at == r->Err_0.at,
{
    match r {
        Ok(x) => Ok(x),
        Err(f) => Err(Failure { cut: true, at: f.at, error: f.error }),
    }
}

} // verus!
