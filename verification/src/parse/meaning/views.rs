//! What the parts of the language say is what their parts say, in their places.
use crate::arc_text::arc_chars;
use crate::big_int::{int_value, nat_value};
use crate::builtin::action::{Action, Said};
use crate::byte_string::bytes_contents;
use crate::language::{
    Apply, ApplyBranch, Command, CommandBranch, Construct, ConstructBranch, Expression, GlobalName,
    LocalName, Pattern, Primitive, Process,
};
use crate::location::Span;
use crate::model;
use crate::program::{Declaration, Definition, Module, TypeDef};
use crate::sub_text::substr_chars;
use crate::token::Token;
use crate::types::Type;
use vstd::prelude::*;

verus! {

/// A type says what its parts say, each in its place.
pub proof fn type_says(x: Type)
    ensures
        match x {
            Type::Primitive(span, a) => x.model() == (model::Type::Primitive(span@, a)),
            Type::Var(span, a) => x.model() == (model::Type::Var(span@, a@)),
            Type::Name(span, a, b) => (
            x.model() matches model::Type::Name(s, n, args) && s == span@ && n == a@
                && args.len() == b@.len() && forall|i: int|
                0 <= i < b@.len() ==> #[trigger] args[i] == b@[i].model()),
            Type::Box(span, a) => x.model() == (model::Type::Box(span@, Box::new(a.model()))),
            Type::Dual(span, a) => x.model() == (model::Type::Dual(span@, Box::new(a.model()))),
            Type::Pair(span, a, b) => x.model() == (model::Type::Pair(
                span@,
                Box::new(a.model()),
                Box::new(b.model()),
            )),
            Type::Function(span, a, b) => x.model() == (model::Type::Function(
                span@,
                Box::new(a.model()),
                Box::new(b.model()),
            )),
            Type::Either(span, a) => (x.model() matches model::Type::Either(s, rows) && s == span@
                && rows.len() == a.entries@.len() && forall|i: int|
                0 <= i < rows.len() ==> #[trigger] rows[i] == (
            a.entries@[i].0@,
            a.entries@[i].1.model())),
            Type::Choice(span, a) => (x.model() matches model::Type::Choice(s, rows) && s == span@
                && rows.len() == a.entries@.len() && forall|i: int|
                0 <= i < rows.len() ==> #[trigger] rows[i] == (
            a.entries@[i].0@,
            a.entries@[i].1.model())),
            Type::Break(span) => x.model() == (model::Type::Break(span@)),
            Type::Continue(span) => x.model() == (model::Type::Continue(span@)),
            Type::Recursive { span, asc, label, body } => x.model() == (model::Type::Recursive {
                span: span@,
                asc: asc.deep_view(),
                label: label.deep_view(),
                body: Box::new(body.model()),
            }),
            Type::Iterative { span, asc, label, body } => x.model() == (model::Type::Iterative {
                span: span@,
                asc: asc.deep_view(),
                label: label.deep_view(),
                body: Box::new(body.model()),
            }),
            Type::Self_(span, a) => x.model() == (model::Type::Self_(span@, a.deep_view())),
            Type::Exists(span, a, b) => x.model() == (
            model::Type::Exists(span@, a@, Box::new(b.model()))),
            Type::Forall(span, a, b) => x.model() == (
            model::Type::Forall(span@, a@, Box::new(b.model()))),
        },
{
}

/// A pattern says what its parts say, each in its place.
pub proof fn pattern_says(x: Pattern)
    ensures
        match x {
            Pattern::Name(span, a, b) => x.model() == (model::Pattern::Name(
                span@,
                a@,
                match b {
                    Some(x) => Some(x.model()),
                    None => None,
                },
            )),
            Pattern::Receive(span, a, b) => x.model() == (model::Pattern::Receive(
                span@,
                Box::new(a.model()),
                Box::new(b.model()),
            )),
            Pattern::Continue(span) => x.model() == (model::Pattern::Continue(span@)),
            Pattern::ReceiveType(span, a, b) => x.model() == (model::Pattern::ReceiveType(
                span@,
                a@,
                Box::new(b.model()),
            )),
            Pattern::Try(span, a, b) => x.model() == (model::Pattern::Try(
                span@,
                a.deep_view(),
                Box::new(b.model()),
            )),
            Pattern::Default(span, a, b) => x.model() == (model::Pattern::Default(
                span@,
                Box::new(a.model()),
                Box::new(b.model()),
            )),
        },
{
}

/// An expression says what its parts say, each in its place.
pub proof fn expression_says(x: Expression)
    ensures
        match x {
            Expression::Primitive(span, a) => x.model() == (
            model::Expression::Primitive(span@, a@)),
            Expression::List(span, a) => (
            x.model() matches model::Expression::List(s, items) && s == span@
                && items.len() == a@.len() && forall|i: int|
                0 <= i < a@.len() ==> #[trigger] items[i] == a@[i].model()),
            Expression::Global(span, a) => x.model() == (model::Expression::Global(span@, a@)),
            Expression::Variable(span, a) => x.model() == (model::Expression::Variable(span@, a@)),
            Expression::Grouped(span, a) => x.model() == (
            model::Expression::Grouped(span@, Box::new(a.model()))),
            Expression::Let { span, pattern, expression, then } => x.model() == (
            model::Expression::Let {
                span: span@,
                pattern: pattern.model(),
                expression: Box::new(expression.model()),
                then: Box::new(then.model()),
            }),
            Expression::Catch { span, label, pattern, block, then } => x.model() == (
            model::Expression::Catch {
                span: span@,
                label: label.deep_view(),
                pattern: pattern.model(),
                block: Box::new(block.model()),
                then: Box::new(then.model()),
            }),
            Expression::Throw(span, a, b) => x.model() == (model::Expression::Throw(
                span@,
                a.deep_view(),
                Box::new(b.model()),
            )),
            Expression::Do { span, process, then } => x.model() == (model::Expression::Do {
                span: span@,
                process: Box::new(process.model()),
                then: Box::new(then.model()),
            }),
            Expression::Box(span, a) => x.model() == (
            model::Expression::Box(span@, Box::new(a.model()))),
            Expression::Chan { span, pattern, process } => x.model() == (model::Expression::Chan {
                span: span@,
                pattern: pattern.model(),
                process: Box::new(process.model()),
            }),
            Expression::Construction(a) => x.model() == (
            model::Expression::Construction(a.model())),
            Expression::Application(span, a, b) => x.model() == (model::Expression::Application(
                span@,
                Box::new(a.model()),
                b.model(),
            )),
        },
{
}

/// A construction says what its parts say, each in its place.
pub proof fn construct_says(x: Construct)
    ensures
        match x {
            Construct::Then(a) => x.model() == (model::Construct::Then(Box::new(a.model()))),
            Construct::Send(span, a, b) => x.model() == (model::Construct::Send(
                span@,
                Box::new(a.model()),
                Box::new(b.model()),
            )),
            Construct::Receive(span, a, b) => x.model() == (model::Construct::Receive(
                span@,
                a.model(),
                Box::new(b.model()),
            )),
            Construct::Signal(span, a, b) => x.model() == (model::Construct::Signal(
                span@,
                a@,
                Box::new(b.model()),
            )),
            Construct::Case(span, a) => (
            x.model() matches model::Construct::Case(s, rows) && s == span@
                && rows.len() == a.0.entries@.len() && forall|i: int|
                0 <= i < rows.len() ==> #[trigger] rows[i] == (
            a.0.entries@[i].0@,
            a.0.entries@[i].1.model())),
            Construct::Break(span) => x.model() == (model::Construct::Break(span@)),
            Construct::Begin { span, unfounded, label, then } => x.model() == (
            model::Construct::Begin {
                span: span@,
                unfounded,
                label: label.deep_view(),
                then: Box::new(then.model()),
            }),
            Construct::Loop(span, a) => x.model() == (model::Construct::Loop(span@, a.deep_view())),
            Construct::SendType(span, a, b) => x.model() == (model::Construct::SendType(
                span@,
                a.model(),
                Box::new(b.model()),
            )),
            Construct::ReceiveType(span, a, b) => x.model() == (model::Construct::ReceiveType(
                span@,
                a@,
                Box::new(b.model()),
            )),
        },
{
}

/// A branch of a construction says what its parts say, each in its place.
pub proof fn construct_branch_says(x: ConstructBranch)
    ensures
        match x {
            ConstructBranch::Then(span, a) => x.model() == (
            model::ConstructBranch::Then(span@, a.model())),
            ConstructBranch::Receive(span, a, b) => x.model() == (model::ConstructBranch::Receive(
                span@,
                a.model(),
                Box::new(b.model()),
            )),
            ConstructBranch::ReceiveType(span, a, b) => x.model() == (
            model::ConstructBranch::ReceiveType(
                span@,
                a@,
                Box::new(b.model()),
            )),
        },
{
}

/// An application says what its parts say, each in its place.
pub proof fn apply_says(x: Apply)
    ensures
        match x {
            Apply::Noop(span) => x.model() == (model::Apply::Noop(span@)),
            Apply::Send(span, a, b) => x.model() == (model::Apply::Send(
                span@,
                Box::new(a.model()),
                Box::new(b.model()),
            )),
            Apply::Signal(span, a, b) => x.model() == (
            model::Apply::Signal(span@, a@, Box::new(b.model()))),
            Apply::Case(span, a) => (x.model() matches model::Apply::Case(s, rows) && s == span@
                && rows.len() == a.0.entries@.len() && forall|i: int|
                0 <= i < rows.len() ==> #[trigger] rows[i] == (
            a.0.entries@[i].0@,
            a.0.entries@[i].1.model())),
            Apply::Begin { span, unfounded, label, then } => x.model() == (model::Apply::Begin {
                span: span@,
                unfounded,
                label: label.deep_view(),
                then: Box::new(then.model()),
            }),
            Apply::Loop(span, a) => x.model() == (model::Apply::Loop(span@, a.deep_view())),
            Apply::SendType(span, a, b) => x.model() == (model::Apply::SendType(
                span@,
                a.model(),
                Box::new(b.model()),
            )),
            Apply::Try(span, a, b) => x.model() == (
            model::Apply::Try(span@, a.deep_view(), Box::new(b.model()))),
            Apply::Default(span, a, b) => x.model() == (model::Apply::Default(
                span@,
                Box::new(a.model()),
                Box::new(b.model()),
            )),
            Apply::Pipe(span, a, b) => x.model() == (model::Apply::Pipe(
                span@,
                Box::new(a.model()),
                Box::new(b.model()),
            )),
        },
{
}

/// A branch of an application says what its parts say, each in its place.
pub proof fn apply_branch_says(x: ApplyBranch)
    ensures
        match x {
            ApplyBranch::Then(span, a, b) => x.model() == (
            model::ApplyBranch::Then(span@, a@, b.model())),
            ApplyBranch::Receive(span, a, b) => x.model() == (model::ApplyBranch::Receive(
                span@,
                a.model(),
                Box::new(b.model()),
            )),
            ApplyBranch::Continue(span, a) => x.model() == (
            model::ApplyBranch::Continue(span@, a.model())),
            ApplyBranch::ReceiveType(span, a, b) => x.model() == (model::ApplyBranch::ReceiveType(
                span@,
                a@,
                Box::new(b.model()),
            )),
            ApplyBranch::Try(span, a, b) => x.model() == (model::ApplyBranch::Try(
                span@,
                a.deep_view(),
                Box::new(b.model()),
            )),
            ApplyBranch::Default(span, a, b) => x.model() == (model::ApplyBranch::Default(
                span@,
                Box::new(a.model()),
                Box::new(b.model()),
            )),
        },
{
}

/// A process says what its parts say, each in its place.
pub proof fn process_says(x: Process)
    ensures
        match x {
            Process::Let { span, pattern, value, then } => x.model() == (model::Process::Let {
                span: span@,
                pattern: pattern.model(),
                value: Box::new(value.model()),
                then: Box::new(then.model()),
            }),
            Process::Catch { span, label, pattern, block, then } => x.model() == (
            model::Process::Catch {
                span: span@,
                label: label.deep_view(),
                pattern: pattern.model(),
                block: Box::new(block.model()),
                then: Box::new(then.model()),
            }),
            Process::Throw(span, a, b) => x.model() == (model::Process::Throw(
                span@,
                a.deep_view(),
                Box::new(b.model()),
            )),
            Process::Telltypes(span, a) => x.model() == (
            model::Process::Telltypes(span@, Box::new(a.model()))),
            Process::GlobalCommand(name, command) => x.model() == (model::Process::GlobalCommand(
                name@,
                command.model(),
            )),
            Process::Command(name, command) => x.model() == (
            model::Process::Command(name@, command.model())),
            Process::Noop(span) => x.model() == (model::Process::Noop(span@)),
        },
{
}

/// A command says what its parts say, each in its place.
pub proof fn command_says(x: Command)
    ensures
        match x {
            Command::Then(a) => x.model() == (model::Command::Then(Box::new(a.model()))),
            Command::Link(span, a) => x.model() == (
            model::Command::Link(span@, Box::new(a.model()))),
            Command::Send(span, a, b) => x.model() == (model::Command::Send(
                span@,
                a.model(),
                Box::new(b.model()),
            )),
            Command::Receive(span, a, b) => x.model() == (model::Command::Receive(
                span@,
                a.model(),
                Box::new(b.model()),
            )),
            Command::Signal(span, a, b) => x.model() == (
            model::Command::Signal(span@, a@, Box::new(b.model()))),
            Command::Case(span, a, b) => (
            x.model() matches model::Command::Case(s, rows, rest) && s == span@ && rest == match b {
                Some(q) => Some(Box::new(q.model())),
                None => None,
            }
                && rows.len() == a.0.entries@.len() && forall|i: int|
                0 <= i < rows.len() ==> #[trigger] rows[i] == (
            a.0.entries@[i].0@,
            a.0.entries@[i].1.model())),
            Command::Break(span) => x.model() == (model::Command::Break(span@)),
            Command::Continue(span, a) => x.model() == (
            model::Command::Continue(span@, Box::new(a.model()))),
            Command::Begin { span, unfounded, label, then } => x.model() == (model::Command::Begin {
                span: span@,
                unfounded,
                label: label.deep_view(),
                then: Box::new(then.model()),
            }),
            Command::Loop(span, a) => x.model() == (model::Command::Loop(span@, a.deep_view())),
            Command::SendType(span, a, b) => x.model() == (model::Command::SendType(
                span@,
                a.model(),
                Box::new(b.model()),
            )),
            Command::ReceiveType(span, a, b) => x.model() == (model::Command::ReceiveType(
                span@,
                a@,
                Box::new(b.model()),
            )),
            Command::Try(span, a, b) => x.model() == (model::Command::Try(
                span@,
                a.deep_view(),
                Box::new(b.model()),
            )),
            Command::Default(span, a, b) => x.model() == (model::Command::Default(
                span@,
                Box::new(a.model()),
                Box::new(b.model()),
            )),
            Command::Pipe(span, a, b) => x.model() == (model::Command::Pipe(
                span@,
                Box::new(a.model()),
                Box::new(b.model()),
            )),
        },
{
}

/// A branch of a command says what its parts say, each in its place.
pub proof fn command_branch_says(x: CommandBranch)
    ensures
        match x {
            CommandBranch::Then(span, a) => x.model() == (
            model::CommandBranch::Then(span@, a.model())),
            CommandBranch::BindThen(span, a, b) => x.model() == (model::CommandBranch::BindThen(
                span@,
                a@,
                b.model(),
            )),
            CommandBranch::Continue(span, a) => x.model() == (
            model::CommandBranch::Continue(span@, a.model())),
            CommandBranch::Receive(span, a, b) => x.model() == (model::CommandBranch::Receive(
                span@,
                a.model(),
                Box::new(b.model()),
            )),
            CommandBranch::ReceiveType(span, a, b) => x.model() == (
            model::CommandBranch::ReceiveType(
                span@,
                a@,
                Box::new(b.model()),
            )),
            CommandBranch::Try(span, a, b) => x.model() == (model::CommandBranch::Try(
                span@,
                a.deep_view(),
                Box::new(b.model()),
            )),
            CommandBranch::Default(span, a, b) => x.model() == (model::CommandBranch::Default(
                span@,
                Box::new(a.model()),
                Box::new(b.model()),
            )),
        },
{
}

/// Names, tokens, literals and stretches say what their fields say.
pub proof fn fields_say(
    local: LocalName,
    global: GlobalName,
    token: Token,
    primitive: Primitive,
    span: Span,
)
    ensures
        local@.span == local.span@,
        local@.string == arc_chars(local.string),
        global@.span == global.span@,
        global@.primary == global.primary@,
        match global.module {
            Some(module) => global@.module == Some(module@),
            None => global@.module is None,
        },
        token@.kind == token.kind,
        token@.raw == token.raw@,
        token@.span == token.span@,
        match primitive {
            Primitive::Int(n) => primitive@ == model::Primitive::Int(int_value(n)),
            Primitive::String(s) => primitive@ == model::Primitive::String(s.string@),
            Primitive::Bytes(b) => primitive@ == model::Primitive::Bytes(bytes_contents(b)),
        },
        match span {
            Span::Nowhere => span@ is Nowhere,
            Span::At { start, end, file } => (span@ matches model::Span::At {
                start: s,
                end: e,
                file: f,
            } && s == start && e == end && f == arc_chars(file.0)),
        },
{
}

/// Items say what their fields say, and a module what its items say, in order.
pub proof fn items_say(
    type_def: TypeDef,
    declaration: Declaration,
    definition: Definition<Expression>,
    module: Module<Expression>,
    i: int,
)
    ensures
        type_def.deep_view().span == type_def.span@,
        type_def.deep_view().name == type_def.name@,
        type_def.deep_view().typ == type_def.typ.model(),
        type_def.deep_view().params.len() == type_def.params@.len(),
        0 <= i < type_def.params@.len() ==> type_def.deep_view().params[i] == type_def.params@[i]@,
        declaration.deep_view().span == declaration.span@,
        declaration.deep_view().name == declaration.name@,
        declaration.deep_view().typ == declaration.typ.model(),
        definition.deep_view().span == definition.span@,
        definition.deep_view().name == definition.name@,
        definition.deep_view().expression == definition.expression.model(),
        module.deep_view().type_defs.len() == module.type_defs@.len(),
        0 <= i < module.type_defs@.len() ==> module.deep_view().type_defs[i]
            == module.type_defs@[i].deep_view(),
        module.deep_view().declarations.len() == module.declarations@.len(),
        0 <= i < module.declarations@.len() ==> module.deep_view().declarations[i]
            == module.declarations@[i].deep_view(),
        module.deep_view().definitions.len() == module.definitions@.len(),
        0 <= i < module.definitions@.len() ==> module.deep_view().definitions[i]
            == module.definitions@[i].deep_view(),
{
}

/// What is said over a channel is what the action says, with its texts and numbers as mathematical
/// values.
pub proof fn action_says(x: Action)
    ensures
        match x {
            Action::Signal(name) => x.deep_view() == Said::Signal(name@),
            Action::SendChar(c) => x.deep_view() == Said::SendChar(c),
            Action::SendString(s) => x.deep_view() == Said::SendString(substr_chars(s)),
            Action::SendInt(n) => x.deep_view() == Said::SendInt(int_value(n)),
            Action::ProvideString(s) => x.deep_view() == Said::ProvideString(substr_chars(s)),
            Action::ProvideInt(n) => x.deep_view() == Said::ProvideInt(int_value(n)),
            Action::ProvideNat(n) => x.deep_view() == Said::ProvideNat(nat_value(n)),
            Action::Break => x.deep_view() == Said::Break,
        },
{
}

} // verus!
