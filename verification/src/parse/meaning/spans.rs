//! The stretches of the source that things cover.
use crate::model::{
    Apply, ApplyBranch, Command, CommandBranch, Construct, ConstructBranch, Expression, Pattern,
    Process, Span, Type,
};
use vstd::prelude::*;

verus! {

/// Two stretches together start where the first one starts and end where the second one ends, in
/// the file of the first one; a stretch that is nowhere adds nothing. It does not matter which of
/// three are taken together first.
pub proof fn join_covers(a: Span, b: Span, c: Span)
    ensures
        a.join(b).join(c) == a.join(b.join(c)),
        Span::Nowhere.join(a) == a,
        a.join(Span::Nowhere) == a,
        a is At && b is At ==> {
            &&& a.join(b) is At
            &&& a.join(b)->start == a->start
            &&& a.join(b)->end == b->end
            &&& a.join(b)->file == a->file
        },
{
}

/// Where a stretch ends is an empty stretch, in the same file; where one ends that is nowhere is
/// nowhere.
pub proof fn end_is_empty(a: Span)
    ensures
        a is Nowhere <==> a.only_end() is Nowhere,
        a is At ==> {
            &&& a.only_end()->start == a->end
            &&& a.only_end()->end == a->end
            &&& a.only_end()->file == a->file
        },
        a.only_end().len() == 0,
        a.is_ordered() <==> (a is At ==> a->start.offset <= a->end.offset),
        a.only_end().is_ordered(),
        a is At ==> a.join(a.only_end()) == a,
{
}

/// A stretch is as long as there are bytes from its start to its end, and none of its parts is
/// longer than the whole if they are in order.
pub proof fn length_adds_up(a: Span, b: Span)
    requires
        a is At,
        b is At,
        a->end == b->start,
    ensures
        a.len() == a->end.offset - a->start.offset,
        a.join(b).len() == a.len() + b.len(),
        a.is_ordered() && b.is_ordered() ==> a.join(b).is_ordered(),
{
}

/// The stretch that a type covers is the one that it is said to cover.
pub proof fn type_span(x: Type)
    ensures
        match x {
            Type::Primitive(span, ..) => x.span() == span,
            Type::Var(span, ..) => x.span() == span,
            Type::Name(span, ..) => x.span() == span,
            Type::Box(span, ..) => x.span() == span,
            Type::Dual(span, ..) => x.span() == span,
            Type::Pair(span, ..) => x.span() == span,
            Type::Function(span, ..) => x.span() == span,
            Type::Either(span, ..) => x.span() == span,
            Type::Choice(span, ..) => x.span() == span,
            Type::Break(span) => x.span() == span,
            Type::Continue(span) => x.span() == span,
            Type::Recursive { span, .. } => x.span() == span,
            Type::Iterative { span, .. } => x.span() == span,
            Type::Self_(span, ..) => x.span() == span,
            Type::Exists(span, ..) => x.span() == span,
            Type::Forall(span, ..) => x.span() == span,
        },
{
}

/// The stretch that a pattern covers is the one that it is said to cover.
pub proof fn pattern_span(x: Pattern)
    ensures
        match x {
            Pattern::Name(span, ..) => x.span() == span,
            Pattern::Receive(span, ..) => x.span() == span,
            Pattern::Continue(span) => x.span() == span,
            Pattern::ReceiveType(span, ..) => x.span() == span,
            Pattern::Try(span, ..) => x.span() == span,
            Pattern::Default(span, ..) => x.span() == span,
        },
{
}

/// The stretch that an expression covers is the one that it is said to cover, or that its parts
/// cover.
pub proof fn expression_span(x: Expression)
    ensures
        match x {
            Expression::Primitive(span, ..) => x.span() == span,
            Expression::List(span, ..) => x.span() == span,
            Expression::Global(span, ..) => x.span() == span,
            Expression::Variable(span, ..) => x.span() == span,
            Expression::Grouped(span, ..) => x.span() == span,
            Expression::Let { span, .. } => x.span() == span,
            Expression::Catch { span, .. } => x.span() == span,
            Expression::Throw(span, ..) => x.span() == span,
            Expression::Do { span, .. } => x.span() == span,
            Expression::Box(span, ..) => x.span() == span,
            Expression::Chan { span, .. } => x.span() == span,
            Expression::Construction(inner) => x.span() == inner.span(),
            Expression::Application(span, ..) => x.span() == span,
        },
{
}

/// The stretch that a construction covers is the one that it is said to cover, or that its parts
/// cover.
pub proof fn construct_span(x: Construct)
    ensures
        match x {
            Construct::Then(inner) => x.span() == inner.span(),
            Construct::Send(span, ..) => x.span() == span,
            Construct::Receive(span, ..) => x.span() == span,
            Construct::Signal(span, ..) => x.span() == span,
            Construct::Case(span, ..) => x.span() == span,
            Construct::Break(span) => x.span() == span,
            Construct::Begin { span, .. } => x.span() == span,
            Construct::Loop(span, ..) => x.span() == span,
            Construct::SendType(span, ..) => x.span() == span,
            Construct::ReceiveType(span, ..) => x.span() == span,
        },
{
}

/// The stretch that a branch of a construction covers is the one that it is said to cover.
pub proof fn construct_branch_span(x: ConstructBranch)
    ensures
        match x {
            ConstructBranch::Then(span, ..) => x.span() == span,
            ConstructBranch::Receive(span, ..) => x.span() == span,
            ConstructBranch::ReceiveType(span, ..) => x.span() == span,
        },
{
}

/// The stretch that an application covers is the one that it is said to cover.
pub proof fn apply_span(x: Apply)
    ensures
        match x {
            Apply::Noop(span) => x.span() == span,
            Apply::Send(span, ..) => x.span() == span,
            Apply::Signal(span, ..) => x.span() == span,
            Apply::Case(span, ..) => x.span() == span,
            Apply::Begin { span, .. } => x.span() == span,
            Apply::Loop(span, ..) => x.span() == span,
            Apply::SendType(span, ..) => x.span() == span,
            Apply::Try(span, ..) => x.span() == span,
            Apply::Default(span, ..) => x.span() == span,
            Apply::Pipe(span, ..) => x.span() == span,
        },
{
}

/// The stretch that a branch of an application covers is the one that it is said to cover.
pub proof fn apply_branch_span(x: ApplyBranch)
    ensures
        match x {
            ApplyBranch::Then(span, ..) => x.span() == span,
            ApplyBranch::Receive(span, ..) => x.span() == span,
            ApplyBranch::Continue(span, ..) => x.span() == span,
            ApplyBranch::ReceiveType(span, ..) => x.span() == span,
            ApplyBranch::Try(span, ..) => x.span() == span,
            ApplyBranch::Default(span, ..) => x.span() == span,
        },
{
}

/// The stretch that a process covers is the one that it is said to cover, or that its parts cover.
pub proof fn process_span(x: Process)
    ensures
        match x {
            Process::Let { span, .. } => x.span() == span,
            Process::Catch { span, .. } => x.span() == span,
            Process::Throw(span, ..) => x.span() == span,
            Process::Telltypes(span, ..) => x.span() == span,
            Process::GlobalCommand(name, command) => x.span() == name.span.join(command.span()),
            Process::Command(name, command) => x.span() == name.span.join(command.span()),
            Process::Noop(span) => x.span() == span,
        },
{
}

/// The stretch that a command covers is the one that it is said to cover, or that its parts cover.
pub proof fn command_span(x: Command)
    ensures
        match x {
            Command::Then(inner) => x.span() == inner.span(),
            Command::Link(span, ..) => x.span() == span,
            Command::Send(span, ..) => x.span() == span,
            Command::Receive(span, ..) => x.span() == span,
            Command::Signal(span, ..) => x.span() == span,
            Command::Case(span, ..) => x.span() == span,
            Command::Break(span) => x.span() == span,
            Command::Continue(span, ..) => x.span() == span,
            Command::Begin { span, .. } => x.span() == span,
            Command::Loop(span, ..) => x.span() == span,
            Command::SendType(span, ..) => x.span() == span,
            Command::ReceiveType(span, ..) => x.span() == span,
            Command::Try(span, ..) => x.span() == span,
            Command::Default(span, ..) => x.span() == span,
            Command::Pipe(span, ..) => x.span() == span,
        },
{
}

/// The stretch that a branch of a command covers is the one that it is said to cover.
pub proof fn command_branch_span(x: CommandBranch)
    ensures
        match x {
            CommandBranch::Then(span, ..) => x.span() == span,
            CommandBranch::BindThen(span, ..) => x.span() == span,
            CommandBranch::Continue(span, ..) => x.span() == span,
            CommandBranch::Receive(span, ..) => x.span() == span,
            CommandBranch::ReceiveType(span, ..) => x.span() == span,
            CommandBranch::Try(span, ..) => x.span() == span,
            CommandBranch::Default(span, ..) => x.span() == span,
        },
{
}

} // verus!
