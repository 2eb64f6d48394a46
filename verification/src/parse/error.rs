//! What a failed parse reports.
use vstd::prelude::*;

verus! {

/// Something that was expected.
#[derive(Debug, Clone, Copy, PartialEq, Eq)]
pub enum StrContextValue {
    CharLiteral(char),
    StringLiteral(&'static str),
    Description(&'static str),
}

/// What was being parsed, or what was expected.
#[derive(Debug, Clone, Copy, PartialEq, Eq)]
pub enum StrContext {
    Label(&'static str),
    Expected(StrContextValue),
}

/// The contexts of one failure, the innermost first.
#[derive(Debug, PartialEq, Eq)]
pub struct ContextError {
    pub context: Vec<StrContext>,
}

/// The failures of the alternatives that were tried, each with the number of tokens that
/// were left where it failed.
#[derive(Debug, PartialEq, Eq)]
pub struct MyError {
    pub context: Vec<(usize, ContextError)>,
}

/// What a [`MyError`] says.
pub type ErrorModel = Seq<(int, Seq<StrContext>)>;

/// A failure with nothing known but where it was, `left` tokens before the end.
pub open spec fn failure_at(left: int) -> ErrorModel {
    seq![(left, Seq::<StrContext>::empty())]
}

/// `error`, met where `left` tokens were left, with a context added. The context joins the
/// last failure if that was met at the same place, and replaces it otherwise.
pub open spec fn with_context(error: ErrorModel, left: int, context: StrContext) -> ErrorModel {
    if error.len() == 0 {
        seq![(left, seq![context])]
    } else if error.last().0 != left {
        error.drop_last().push((left, seq![context]))
    } else {
        error.drop_last().push((left, error.last().1.push(context)))
    }
}

impl MyError {
    /// What the error says.
    pub open spec fn model(self) -> ErrorModel {
        Seq::new(
            self.context@.len(),
            |i: int| (self.context@[i].0 as int, self.context@[i].1.context@),
        )
    }

    /// A failure with nothing known but where it was, `left` tokens before the end.
    pub fn from_input(left: usize) -> (r: MyError)
        ensures
            r.model() == failure_at(left as int),
    {
        let mut context: Vec<(usize, ContextError)> = Vec::new();
        context.push((left, ContextError { context: Vec::new() }));
        let r = MyError { context };
        assert(r.model() =~= failure_at(left as int));
        r
    }

    /// The failures of two alternatives.
    pub fn or(self, other: MyError) -> (r: MyError)
        ensures
            r.model() == self.model() + other.model(),
    {
        let mut context = self.context;
        let mut rest = other.context;
        context.append(&mut rest);
        let r = MyError { context };
        assert(r.model() =~= self.model() + other.model());
        r
    }

    /// The error, met where `left` tokens were left, with a context added. The context joins
    /// the last failure if that was met at the same place, and replaces it otherwise.
    pub fn add_context(self, left: usize, context: StrContext) -> (r: MyError)
        ensures
            r.model() == with_context(self.model(), left as int, context),
    {
        let mut all = self.context;
        let mut contexts: Vec<StrContext> = match all.pop() {
            None => Vec::new(),
            Some((at, last)) => if at == left {
                last.context
            } else {
                Vec::new()
            },
        };
        contexts.push(context);
        all.push((left, ContextError { context: contexts }));
        let r = MyError { context: all };
        assert(r.model() =~= with_context(self.model(), left as int, context));
        r
    }
}

} // verus!
