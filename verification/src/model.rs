//! The mathematical values that the syntax trees stand for. Each type here mirrors the
//! executable type of the same name, with texts, numbers and lists as mathematical values.
use crate::location::Point;
use crate::token::TokenKind;
use crate::types::PrimitiveType;
use vstd::prelude::*;

verus! {

/// What a [`crate::location::Span`] says.
pub enum Span {
    Nowhere,
    At { start: Point, end: Point, file: Seq<char> },
}

impl Span {
    /// From where `self` starts to where `other` ends.
    pub open spec fn join(self, other: Span) -> Span {
        match (self, other) {
            (Span::Nowhere, _) => other,
            (_, Span::Nowhere) => self,
            (Span::At { start, file, .. }, Span::At { end, .. }) => Span::At {
                start,
                end,
                file,
            },
        }
    }

    /// Whether the stretch does not end before it starts.
    pub open spec fn is_ordered(self) -> bool {
        match self {
            Span::Nowhere => true,
            Span::At { start, end, .. } => start.offset <= end.offset,
        }
    }

    /// How many bytes the stretch covers.
    pub open spec fn len(self) -> int {
        match self {
            Span::Nowhere => 0,
            Span::At { start, end, .. } => end.offset - start.offset,
        }
    }

    /// The empty stretch where `self` ends.
    pub open spec fn only_end(self) -> Span {
        match self {
            Span::Nowhere => Span::Nowhere,
            Span::At { end, file, .. } => Span::At { start: end, end, file },
        }
    }
}

/// What a [`crate::token::Token`] says.
pub struct Token {
    pub kind: TokenKind,
    pub raw: Seq<char>,
    pub span: Span,
}

/// What a [`crate::language::LocalName`] says.
pub struct LocalName {
    pub span: Span,
    pub string: Seq<char>,
}

/// What a [`crate::language::GlobalName`] says.
pub struct GlobalName {
    pub span: Span,
    pub module: Option<Seq<char>>,
    pub primary: Seq<char>,
}

/// What a [`crate::language::Primitive`] says.
pub enum Primitive {
    Int(int),
    String(Seq<char>),
    Bytes(Seq<u8>),
}

/// What a [`crate::types::Type`] says.
pub enum Type {
    Primitive(Span, PrimitiveType),
    Var(Span, LocalName),
    Name(Span, GlobalName, Seq<Type>),
    Box(Span, Box<Type>),
    Dual(Span, Box<Type>),
    Pair(Span, Box<Type>, Box<Type>),
    Function(Span, Box<Type>, Box<Type>),
    Either(Span, Seq<(LocalName, Type)>),
    Choice(Span, Seq<(LocalName, Type)>),
    Break(Span),
    Continue(Span),
    Recursive {
        span: Span,
        asc: Seq<Option<LocalName>>,
        label: Option<LocalName>,
        body: Box<Type>,
    },
    Iterative {
        span: Span,
        asc: Seq<Option<LocalName>>,
        label: Option<LocalName>,
        body: Box<Type>,
    },
    Self_(Span, Option<LocalName>),
    Exists(Span, LocalName, Box<Type>),
    Forall(Span, LocalName, Box<Type>),
}

impl Type {
    /// The stretch of the source that the value covers.
    pub open spec fn span(self) -> Span
        decreases self,
    {
        match self {
            Type::Primitive(span, ..) => span,
            Type::Var(span, ..) => span,
            Type::Name(span, ..) => span,
            Type::Box(span, ..) => span,
            Type::Dual(span, ..) => span,
            Type::Pair(span, ..) => span,
            Type::Function(span, ..) => span,
            Type::Either(span, ..) => span,
            Type::Choice(span, ..) => span,
            Type::Break(span) => span,
            Type::Continue(span) => span,
            Type::Recursive { span, .. } => span,
            Type::Iterative { span, .. } => span,
            Type::Self_(span, ..) => span,
            Type::Exists(span, ..) => span,
            Type::Forall(span, ..) => span,
        }
    }
}

impl LocalName {
    /// The name without its place.
    pub open spec fn placeless(self) -> LocalName {
        LocalName { span: Span::Nowhere, ..self }
    }
}

impl GlobalName {
    /// The name without its place.
    pub open spec fn placeless(self) -> GlobalName {
        GlobalName { span: Span::Nowhere, ..self }
    }
}

/// A name without its place, if there is one.
pub open spec fn placeless_name(name: Option<LocalName>) -> Option<LocalName> {
    match name {
        Some(name) => Some(name.placeless()),
        None => None,
    }
}

impl Type {
    /// The type without the places of its parts.
    pub open spec fn placeless(self) -> Type
        decreases self,
    {
        match self {
            Type::Primitive(_, primitive) => Type::Primitive(Span::Nowhere, primitive),
            Type::Var(_, name) => Type::Var(Span::Nowhere, name.placeless()),
            Type::Name(_, name, args) => Type::Name(
                Span::Nowhere,
                name.placeless(),
                Seq::new(
                    args.len(),
                    |i: int| if 0 <= i < args.len() { args[i].placeless() } else { arbitrary() },
                ),
            ),
            Type::Box(_, a) => Type::Box(Span::Nowhere, Box::new(a.placeless())),
            Type::Dual(_, a) => Type::Dual(Span::Nowhere, Box::new(a.placeless())),
            Type::Pair(_, a, b) => Type::Pair(
                Span::Nowhere,
                Box::new(a.placeless()),
                Box::new(b.placeless()),
            ),
            Type::Function(_, a, b) => Type::Function(
                Span::Nowhere,
                Box::new(a.placeless()),
                Box::new(b.placeless()),
            ),
            Type::Either(_, branches) => Type::Either(
                Span::Nowhere,
                Seq::new(
                    branches.len(),
                    |i: int|
                        if 0 <= i < branches.len() {
                            (branches[i].0.placeless(), branches[i].1.placeless())
                        } else {
                            arbitrary()
                        },
                ),
            ),
            Type::Choice(_, branches) => Type::Choice(
                Span::Nowhere,
                Seq::new(
                    branches.len(),
                    |i: int|
                        if 0 <= i < branches.len() {
                            (branches[i].0.placeless(), branches[i].1.placeless())
                        } else {
                            arbitrary()
                        },
                ),
            ),
            Type::Break(_) => Type::Break(Span::Nowhere),
            Type::Continue(_) => Type::Continue(Span::Nowhere),
            Type::Recursive { asc, label, body, .. } => Type::Recursive {
                span: Span::Nowhere,
                asc: asc.map_values(|name: Option<LocalName>| placeless_name(name)),
                label: placeless_name(label),
                body: Box::new(body.placeless()),
            },
            Type::Iterative { asc, label, body, .. } => Type::Iterative {
                span: Span::Nowhere,
                asc: asc.map_values(|name: Option<LocalName>| placeless_name(name)),
                label: placeless_name(label),
                body: Box::new(body.placeless()),
            },
            Type::Self_(_, label) => Type::Self_(Span::Nowhere, placeless_name(label)),
            Type::Exists(_, name, a) => Type::Exists(
                Span::Nowhere,
                name.placeless(),
                Box::new(a.placeless()),
            ),
            Type::Forall(_, name, a) => Type::Forall(
                Span::Nowhere,
                name.placeless(),
                Box::new(a.placeless()),
            ),
        }
    }
}

/// What a [`crate::language::Pattern`] says.
pub enum Pattern {
    Name(Span, LocalName, Option<Type>),
    Receive(Span, Box<Pattern>, Box<Pattern>),
    Continue(Span),
    ReceiveType(Span, LocalName, Box<Pattern>),
    Try(Span, Option<LocalName>, Box<Pattern>),
    Default(Span, Box<Expression>, Box<Pattern>),
}

impl Pattern {
    /// The stretch of the source that the value covers.
    pub open spec fn span(self) -> Span
        decreases self,
    {
        match self {
            Pattern::Name(span, ..) => span,
            Pattern::Receive(span, ..) => span,
            Pattern::Continue(span) => span,
            Pattern::ReceiveType(span, ..) => span,
            Pattern::Try(span, ..) => span,
            Pattern::Default(span, ..) => span,
        }
    }
}

/// What a [`crate::language::Expression`] says.
pub enum Expression {
    Primitive(Span, Primitive),
    List(Span, Seq<Expression>),
    Global(Span, GlobalName),
    Variable(Span, LocalName),
    Grouped(Span, Box<Expression>),
    Let { span: Span, pattern: Pattern, expression: Box<Expression>, then: Box<Expression> },
    Catch {
        span: Span,
        label: Option<LocalName>,
        pattern: Pattern,
        block: Box<Expression>,
        then: Box<Expression>,
    },
    Throw(Span, Option<LocalName>, Box<Expression>),
    Do { span: Span, process: Box<Process>, then: Box<Expression> },
    Box(Span, Box<Expression>),
    Chan { span: Span, pattern: Pattern, process: Box<Process> },
    Construction(Construct),
    Application(Span, Box<Expression>, Apply),
}

impl Expression {
    /// The stretch of the source that the value covers.
    pub open spec fn span(self) -> Span
        decreases self,
    {
        match self {
            Expression::Primitive(span, ..) => span,
            Expression::List(span, ..) => span,
            Expression::Global(span, ..) => span,
            Expression::Variable(span, ..) => span,
            Expression::Grouped(span, ..) => span,
            Expression::Let { span, .. } => span,
            Expression::Catch { span, .. } => span,
            Expression::Throw(span, ..) => span,
            Expression::Do { span, .. } => span,
            Expression::Box(span, ..) => span,
            Expression::Chan { span, .. } => span,
            Expression::Construction(inner) => inner.span(),
            Expression::Application(span, ..) => span,
        }
    }
}

/// What a [`crate::language::Construct`] says.
pub enum Construct {
    Then(Box<Expression>),
    Send(Span, Box<Expression>, Box<Construct>),
    Receive(Span, Pattern, Box<Construct>),
    Signal(Span, LocalName, Box<Construct>),
    Case(Span, Seq<(LocalName, ConstructBranch)>),
    Break(Span),
    Begin { span: Span, unfounded: bool, label: Option<LocalName>, then: Box<Construct> },
    Loop(Span, Option<LocalName>),
    SendType(Span, Type, Box<Construct>),
    ReceiveType(Span, LocalName, Box<Construct>),
}

impl Construct {
    /// The stretch of the source that the value covers.
    pub open spec fn span(self) -> Span
        decreases self,
    {
        match self {
            Construct::Then(inner) => inner.span(),
            Construct::Send(span, ..) => span,
            Construct::Receive(span, ..) => span,
            Construct::Signal(span, ..) => span,
            Construct::Case(span, ..) => span,
            Construct::Break(span) => span,
            Construct::Begin { span, .. } => span,
            Construct::Loop(span, ..) => span,
            Construct::SendType(span, ..) => span,
            Construct::ReceiveType(span, ..) => span,
        }
    }
}

/// What a [`crate::language::ConstructBranch`] says.
pub enum ConstructBranch {
    Then(Span, Expression),
    Receive(Span, Pattern, Box<ConstructBranch>),
    ReceiveType(Span, LocalName, Box<ConstructBranch>),
}

impl ConstructBranch {
    /// The stretch of the source that the value covers.
    pub open spec fn span(self) -> Span
        decreases self,
    {
        match self {
            ConstructBranch::Then(span, ..) => span,
            ConstructBranch::Receive(span, ..) => span,
            ConstructBranch::ReceiveType(span, ..) => span,
        }
    }
}

/// What a [`crate::language::Apply`] says.
pub enum Apply {
    Noop(Span),
    Send(Span, Box<Expression>, Box<Apply>),
    Signal(Span, LocalName, Box<Apply>),
    Case(Span, Seq<(LocalName, ApplyBranch)>),
    Begin { span: Span, unfounded: bool, label: Option<LocalName>, then: Box<Apply> },
    Loop(Span, Option<LocalName>),
    SendType(Span, Type, Box<Apply>),
    Try(Span, Option<LocalName>, Box<Apply>),
    Default(Span, Box<Expression>, Box<Apply>),
    Pipe(Span, Box<Expression>, Box<Apply>),
}

impl Apply {
    /// The stretch of the source that the value covers.
    pub open spec fn span(self) -> Span
        decreases self,
    {
        match self {
            Apply::Noop(span) => span,
            Apply::Send(span, ..) => span,
            Apply::Signal(span, ..) => span,
            Apply::Case(span, ..) => span,
            Apply::Begin { span, .. } => span,
            Apply::Loop(span, ..) => span,
            Apply::SendType(span, ..) => span,
            Apply::Try(span, ..) => span,
            Apply::Default(span, ..) => span,
            Apply::Pipe(span, ..) => span,
        }
    }
}

/// What a [`crate::language::ApplyBranch`] says.
pub enum ApplyBranch {
    Then(Span, LocalName, Expression),
    Receive(Span, Pattern, Box<ApplyBranch>),
    Continue(Span, Expression),
    ReceiveType(Span, LocalName, Box<ApplyBranch>),
    Try(Span, Option<LocalName>, Box<ApplyBranch>),
    Default(Span, Box<Expression>, Box<ApplyBranch>),
}

impl ApplyBranch {
    /// The stretch of the source that the value covers.
    pub open spec fn span(self) -> Span
        decreases self,
    {
        match self {
            ApplyBranch::Then(span, ..) => span,
            ApplyBranch::Receive(span, ..) => span,
            ApplyBranch::Continue(span, ..) => span,
            ApplyBranch::ReceiveType(span, ..) => span,
            ApplyBranch::Try(span, ..) => span,
            ApplyBranch::Default(span, ..) => span,
        }
    }
}

/// What a [`crate::language::Process`] says.
pub enum Process {
    Let { span: Span, pattern: Pattern, value: Box<Expression>, then: Box<Process> },
    Catch {
        span: Span,
        label: Option<LocalName>,
        pattern: Pattern,
        block: Box<Process>,
        then: Box<Process>,
    },
    Throw(Span, Option<LocalName>, Box<Expression>),
    Telltypes(Span, Box<Process>),
    GlobalCommand(GlobalName, Command),
    Command(LocalName, Command),
    Noop(Span),
}

impl Process {
    /// The stretch of the source that the value covers.
    pub open spec fn span(self) -> Span
        decreases self,
    {
        match self {
            Process::Let { span, .. } => span,
            Process::Catch { span, .. } => span,
            Process::Throw(span, ..) => span,
            Process::Telltypes(span, ..) => span,
            Process::GlobalCommand(name, command) => name.span.join(command.span()),
            Process::Command(name, command) => name.span.join(command.span()),
            Process::Noop(span) => span,
        }
    }
}

/// What a [`crate::language::Command`] says.
pub enum Command {
    Then(Box<Process>),
    Link(Span, Box<Expression>),
    Send(Span, Expression, Box<Command>),
    Receive(Span, Pattern, Box<Command>),
    Signal(Span, LocalName, Box<Command>),
    Case(Span, Seq<(LocalName, CommandBranch)>, Option<Box<Process>>),
    Break(Span),
    Continue(Span, Box<Process>),
    Begin { span: Span, unfounded: bool, label: Option<LocalName>, then: Box<Command> },
    Loop(Span, Option<LocalName>),
    SendType(Span, Type, Box<Command>),
    ReceiveType(Span, LocalName, Box<Command>),
    Try(Span, Option<LocalName>, Box<Command>),
    Default(Span, Box<Expression>, Box<Command>),
    Pipe(Span, Box<Expression>, Box<Command>),
}

impl Command {
    /// The stretch of the source that the value covers.
    pub open spec fn span(self) -> Span
        decreases self,
    {
        match self {
            Command::Then(inner) => inner.span(),
            Command::Link(span, ..) => span,
            Command::Send(span, ..) => span,
            Command::Receive(span, ..) => span,
            Command::Signal(span, ..) => span,
            Command::Case(span, ..) => span,
            Command::Break(span) => span,
            Command::Continue(span, ..) => span,
            Command::Begin { span, .. } => span,
            Command::Loop(span, ..) => span,
            Command::SendType(span, ..) => span,
            Command::ReceiveType(span, ..) => span,
            Command::Try(span, ..) => span,
            Command::Default(span, ..) => span,
            Command::Pipe(span, ..) => span,
        }
    }
}

/// What a [`crate::language::CommandBranch`] says.
pub enum CommandBranch {
    Then(Span, Process),
    BindThen(Span, LocalName, Process),
    Continue(Span, Process),
    Receive(Span, Pattern, Box<CommandBranch>),
    ReceiveType(Span, LocalName, Box<CommandBranch>),
    Try(Span, Option<LocalName>, Box<CommandBranch>),
    Default(Span, Box<Expression>, Box<CommandBranch>),
}

impl CommandBranch {
    /// The stretch of the source that the value covers.
    pub open spec fn span(self) -> Span
        decreases self,
    {
        match self {
            CommandBranch::Then(span, ..) => span,
            CommandBranch::BindThen(span, ..) => span,
            CommandBranch::Continue(span, ..) => span,
            CommandBranch::Receive(span, ..) => span,
            CommandBranch::ReceiveType(span, ..) => span,
            CommandBranch::Try(span, ..) => span,
            CommandBranch::Default(span, ..) => span,
        }
    }
}

/// What a [`crate::program::TypeDef`] says.
pub struct TypeDef {
    pub span: Span,
    pub name: GlobalName,
    pub params: Seq<LocalName>,
    pub typ: Type,
}

/// What a [`crate::program::Declaration`] says.
pub struct Declaration {
    pub span: Span,
    pub name: GlobalName,
    pub typ: Type,
}

/// What a [`crate::program::Definition`] says.
pub struct Definition<E> {
    pub span: Span,
    pub name: GlobalName,
    pub expression: E,
}

/// What a [`crate::program::Module`] says.
pub struct Module<E> {
    pub type_defs: Seq<TypeDef>,
    pub declarations: Seq<Declaration>,
    pub definitions: Seq<Definition<E>>,
}

} // verus!
