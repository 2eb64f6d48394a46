//! Expressions, processes and what they are made of.
use crate::arc_text::{arc_chars, arc_from};
use crate::big_int::int_value;
use crate::branches::Branches;
use crate::byte_string::bytes_contents;
use crate::location::Span;
use crate::model;
use crate::types::Type;
use arcstr::ArcStr;
use bytes::Bytes;
use num_bigint::BigInt;
use vstd::prelude::*;

verus! {

/// The name of a variable, a label, a signal or a type variable.
#[derive(Debug, PartialEq)]
pub struct LocalName {
    pub span: Span,
    pub string: ArcStr,
}

/// The name of a definition or a type, with the module it is in if one is given.
#[derive(Debug, PartialEq)]
pub struct GlobalName {
    pub span: Span,
    pub module: Option<String>,
    pub primary: String,
}

impl View for LocalName {
    type V = model::LocalName;

    open spec fn view(&self) -> model::LocalName {
        model::LocalName { span: self.span@, string: arc_chars(self.string) }
    }
}

impl DeepView for LocalName {
    type V = model::LocalName;

    open spec fn deep_view(&self) -> model::LocalName {
        self@
    }
}

impl Clone for LocalName {
    fn clone(&self) -> (r: LocalName)
        ensures
            r@ == self@,
    {
        LocalName { span: self.span.clone(), string: self.string.clone() }
    }
}

impl LocalName {
    /// A name that stands nowhere in a source.
    pub fn external(string: &str) -> (r: LocalName)
        ensures
            r@ == (model::LocalName { span: model::Span::Nowhere, string: string@ }),
    {
        LocalName { span: Span::Nowhere, string: arc_from(string) }
    }
}

impl GlobalName {
    /// A name that stands nowhere in a source.
    pub fn external(module: Option<&str>, primary: &str) -> (r: GlobalName)
        ensures
            r@ == (model::GlobalName {
                span: model::Span::Nowhere,
                module: match module {
                    Some(module) => Some(module@),
                    None => None,
                },
                primary: primary@,
            }),
    {
        let module = match module {
            Some(module) => Some(module.to_owned()),
            None => None,
        };
        GlobalName { span: Span::Nowhere, module, primary: primary.to_owned() }
    }
}

impl View for GlobalName {
    type V = model::GlobalName;

    open spec fn view(&self) -> model::GlobalName {
        model::GlobalName {
            span: self.span@,
            module: self.module.deep_view(),
            primary: self.primary@,
        }
    }
}

impl DeepView for GlobalName {
    type V = model::GlobalName;

    open spec fn deep_view(&self) -> model::GlobalName {
        self@
    }
}

impl Clone for GlobalName {
    fn clone(&self) -> (r: GlobalName)
        ensures
            r@ == self@,
    {
        let module = match &self.module {
            Some(module) => Some(module.clone()),
            None => None,
        };
        GlobalName { span: self.span.clone(), module, primary: self.primary.clone() }
    }
}

/// A string of the language.
#[derive(Debug, PartialEq)]
pub struct ParString {
    pub string: String,
}

/// A literal value.
#[derive(Debug, PartialEq)]
pub enum Primitive {
    Int(BigInt),
    String(ParString),
    Bytes(Bytes),
}

impl View for Primitive {
    type V = model::Primitive;

    open spec fn view(&self) -> model::Primitive {
        match self {
            Primitive::Int(n) => model::Primitive::Int(int_value(*n)),
            Primitive::String(s) => model::Primitive::String(s.string@),
            Primitive::Bytes(b) => model::Primitive::Bytes(bytes_contents(*b)),
        }
    }
}

/// A pattern that takes a received value apart.
#[derive(Debug, PartialEq)]
pub enum Pattern {
    /// `x: a`
    Name(Span, LocalName, Option<Type>),
    /// `(p) q`
    Receive(Span, Box<Pattern>, Box<Pattern>),
    /// `!`
    Continue(Span),
    /// `(type a) p`
    ReceiveType(Span, LocalName, Box<Pattern>),
    /// `try@l p`
    Try(Span, Option<LocalName>, Box<Pattern>),
    /// `default(e) p`
    Default(Span, Box<Expression>, Box<Pattern>),
}

impl Pattern {
    /// What the value says, with its texts, numbers and lists as mathematical values.
    pub open spec fn model(self) -> model::Pattern
        decreases self,
    {
        match self {
            Pattern::Name(span, a, b) => model::Pattern::Name(
                span@,
                a@,
                match b {
                    Some(x) => Some(x.model()),
                    None => None,
                },
            ),
            Pattern::Receive(span, a, b) => model::Pattern::Receive(
                span@,
                Box::new(a.model()),
                Box::new(b.model()),
            ),
            Pattern::Continue(span) => model::Pattern::Continue(span@),
            Pattern::ReceiveType(span, a, b) => model::Pattern::ReceiveType(
                span@,
                a@,
                Box::new(b.model()),
            ),
            Pattern::Try(span, a, b) => model::Pattern::Try(
                span@,
                a.deep_view(),
                Box::new(b.model()),
            ),
            Pattern::Default(span, a, b) => model::Pattern::Default(
                span@,
                Box::new(a.model()),
                Box::new(b.model()),
            ),
        }
    }
}

impl DeepView for Pattern {
    type V = model::Pattern;

    open spec fn deep_view(&self) -> model::Pattern {
        self.model()
    }
}

impl Pattern {
    /// The stretch of the source that the value covers.
    pub fn span(&self) -> (r: Span)
        ensures
            r@ == self.model().span(),
        decreases self,
    {
        match self {
            Pattern::Name(span, ..) => span.clone(),
            Pattern::Receive(span, ..) => span.clone(),
            Pattern::Continue(span) => span.clone(),
            Pattern::ReceiveType(span, ..) => span.clone(),
            Pattern::Try(span, ..) => span.clone(),
            Pattern::Default(span, ..) => span.clone(),
        }
    }
}

/// An expression.
#[derive(Debug, PartialEq)]
pub enum Expression {
    /// A literal.
    Primitive(Span, Primitive),
    /// `*(e, f)`
    List(Span, Vec<Expression>),
    /// `Name`
    Global(Span, GlobalName),
    /// `x`
    Variable(Span, LocalName),
    /// `{ e }`
    Grouped(Span, Box<Expression>),
    /// `let p = e in f`
    Let { span: Span, pattern: Pattern, expression: Box<Expression>, then: Box<Expression> },
    /// `catch@l p => e in f`
    Catch {
        span: Span,
        label: Option<LocalName>,
        pattern: Pattern,
        block: Box<Expression>,
        then: Box<Expression>,
    },
    /// `throw@l e`
    Throw(Span, Option<LocalName>, Box<Expression>),
    /// `do { process } in e`
    Do { span: Span, process: Box<Process>, then: Box<Expression> },
    /// `box e`
    Box(Span, Box<Expression>),
    /// `chan p { process }`
    Chan { span: Span, pattern: Pattern, process: Box<Process> },
    /// A value made step by step.
    Construction(Construct),
    /// A value taken apart step by step.
    Application(Span, Box<Expression>, Apply),
}

impl Expression {
    /// What the value says, with its texts, numbers and lists as mathematical values.
    pub open spec fn model(self) -> model::Expression
        decreases self,
    {
        match self {
            Expression::Primitive(span, a) => model::Expression::Primitive(span@, a@),
            Expression::List(span, a) => model::Expression::List(
                span@,
                Seq::new(
                    a@.len(),
                    |i: int| if 0 <= i < a@.len() { a@[i].model() } else { arbitrary() },
                ),
            ),
            Expression::Global(span, a) => model::Expression::Global(span@, a@),
            Expression::Variable(span, a) => model::Expression::Variable(span@, a@),
            Expression::Grouped(span, a) => model::Expression::Grouped(span@, Box::new(a.model())),
            Expression::Let { span, pattern, expression, then } => model::Expression::Let {
                span: span@,
                pattern: pattern.model(),
                expression: Box::new(expression.model()),
                then: Box::new(then.model()),
            },
            Expression::Catch { span, label, pattern, block, then } => model::Expression::Catch {
                span: span@,
                label: label.deep_view(),
                pattern: pattern.model(),
                block: Box::new(block.model()),
                then: Box::new(then.model()),
            },
            Expression::Throw(span, a, b) => model::Expression::Throw(
                span@,
                a.deep_view(),
                Box::new(b.model()),
            ),
            Expression::Do { span, process, then } => model::Expression::Do {
                span: span@,
                process: Box::new(process.model()),
                then: Box::new(then.model()),
            },
            Expression::Box(span, a) => model::Expression::Box(span@, Box::new(a.model())),
            Expression::Chan { span, pattern, process } => model::Expression::Chan {
                span: span@,
                pattern: pattern.model(),
                process: Box::new(process.model()),
            },
            Expression::Construction(a) => model::Expression::Construction(a.model()),
            Expression::Application(span, a, b) => model::Expression::Application(
                span@,
                Box::new(a.model()),
                b.model(),
            ),
        }
    }
}

impl DeepView for Expression {
    type V = model::Expression;

    open spec fn deep_view(&self) -> model::Expression {
        self.model()
    }
}

impl Expression {
    /// The stretch of the source that the value covers.
    pub fn span(&self) -> (r: Span)
        ensures
            r@ == self.model().span(),
        decreases self,
    {
        match self {
            Expression::Primitive(span, ..) => span.clone(),
            Expression::List(span, ..) => span.clone(),
            Expression::Global(span, ..) => span.clone(),
            Expression::Variable(span, ..) => span.clone(),
            Expression::Grouped(span, ..) => span.clone(),
            Expression::Let { span, .. } => span.clone(),
            Expression::Catch { span, .. } => span.clone(),
            Expression::Throw(span, ..) => span.clone(),
            Expression::Do { span, .. } => span.clone(),
            Expression::Box(span, ..) => span.clone(),
            Expression::Chan { span, .. } => span.clone(),
            Expression::Construction(inner) => inner.span(),
            Expression::Application(span, ..) => span.clone(),
        }
    }
}

/// The branches of a case, each under its signal.
#[derive(Debug, PartialEq)]
pub struct ConstructBranches(pub Branches<ConstructBranch>);

/// A step of the construction of a value.
#[derive(Debug, PartialEq)]
pub enum Construct {
    /// `e`
    Then(Box<Expression>),
    /// `(e) c`
    Send(Span, Box<Expression>, Box<Construct>),
    /// `[p] c`
    Receive(Span, Pattern, Box<Construct>),
    /// `.x c`
    Signal(Span, LocalName, Box<Construct>),
    /// `case { .x => e, .y => f }`
    Case(Span, ConstructBranches),
    /// `!`
    Break(Span),
    /// `begin@l c` or `unfounded@l c`
    Begin { span: Span, unfounded: bool, label: Option<LocalName>, then: Box<Construct> },
    /// `loop@l`
    Loop(Span, Option<LocalName>),
    /// `(type a) c`
    SendType(Span, Type, Box<Construct>),
    /// `[type a] c`
    ReceiveType(Span, LocalName, Box<Construct>),
}

impl Construct {
    /// What the value says, with its texts, numbers and lists as mathematical values.
    pub open spec fn model(self) -> model::Construct
        decreases self,
    {
        match self {
            Construct::Then(a) => model::Construct::Then(Box::new(a.model())),
            Construct::Send(span, a, b) => model::Construct::Send(
                span@,
                Box::new(a.model()),
                Box::new(b.model()),
            ),
            Construct::Receive(span, a, b) => model::Construct::Receive(
                span@,
                a.model(),
                Box::new(b.model()),
            ),
            Construct::Signal(span, a, b) => model::Construct::Signal(
                span@,
                a@,
                Box::new(b.model()),
            ),
            Construct::Case(span, a) => model::Construct::Case(
                span@,
                Seq::new(
                    a.0.entries@.len(),
                    |i: int|
                        if 0 <= i < a.0.entries@.len() {
                            (a.0.entries@[i].0@, a.0.entries@[i].1.model())
                        } else {
                            arbitrary()
                        },
                ),
            ),
            Construct::Break(span) => model::Construct::Break(span@),
            Construct::Begin { span, unfounded, label, then } => model::Construct::Begin {
                span: span@,
                unfounded,
                label: label.deep_view(),
                then: Box::new(then.model()),
            },
            Construct::Loop(span, a) => model::Construct::Loop(span@, a.deep_view()),
            Construct::SendType(span, a, b) => model::Construct::SendType(
                span@,
                a.model(),
                Box::new(b.model()),
            ),
            Construct::ReceiveType(span, a, b) => model::Construct::ReceiveType(
                span@,
                a@,
                Box::new(b.model()),
            ),
        }
    }
}

impl DeepView for Construct {
    type V = model::Construct;

    open spec fn deep_view(&self) -> model::Construct {
        self.model()
    }
}

impl Construct {
    /// The stretch of the source that the value covers.
    pub fn span(&self) -> (r: Span)
        ensures
            r@ == self.model().span(),
        decreases self,
    {
        match self {
            Construct::Then(inner) => inner.span(),
            Construct::Send(span, ..) => span.clone(),
            Construct::Receive(span, ..) => span.clone(),
            Construct::Signal(span, ..) => span.clone(),
            Construct::Case(span, ..) => span.clone(),
            Construct::Break(span) => span.clone(),
            Construct::Begin { span, .. } => span.clone(),
            Construct::Loop(span, ..) => span.clone(),
            Construct::SendType(span, ..) => span.clone(),
            Construct::ReceiveType(span, ..) => span.clone(),
        }
    }
}

/// A branch of a `case` construction.
#[derive(Debug, PartialEq)]
pub enum ConstructBranch {
    /// `=> e`
    Then(Span, Expression),
    /// `(p) branch`
    Receive(Span, Pattern, Box<ConstructBranch>),
    /// `(type a) branch`
    ReceiveType(Span, LocalName, Box<ConstructBranch>),
}

impl ConstructBranch {
    /// What the value says, with its texts, numbers and lists as mathematical values.
    pub open spec fn model(self) -> model::ConstructBranch
        decreases self,
    {
        match self {
            ConstructBranch::Then(span, a) => model::ConstructBranch::Then(span@, a.model()),
            ConstructBranch::Receive(span, a, b) => model::ConstructBranch::Receive(
                span@,
                a.model(),
                Box::new(b.model()),
            ),
            ConstructBranch::ReceiveType(span, a, b) => model::ConstructBranch::ReceiveType(
                span@,
                a@,
                Box::new(b.model()),
            ),
        }
    }
}

impl DeepView for ConstructBranch {
    type V = model::ConstructBranch;

    open spec fn deep_view(&self) -> model::ConstructBranch {
        self.model()
    }
}

impl ConstructBranch {
    /// The stretch of the source that the value covers.
    pub fn span(&self) -> (r: Span)
        ensures
            r@ == self.model().span(),
        decreases self,
    {
        match self {
            ConstructBranch::Then(span, ..) => span.clone(),
            ConstructBranch::Receive(span, ..) => span.clone(),
            ConstructBranch::ReceiveType(span, ..) => span.clone(),
        }
    }
}

/// The branches of a case, each under its signal.
#[derive(Debug, PartialEq)]
pub struct ApplyBranches(pub Branches<ApplyBranch>);

/// A step of taking a value apart.
#[derive(Debug, PartialEq)]
pub enum Apply {
    /// Nothing more.
    Noop(Span),
    /// `(e) a`
    Send(Span, Box<Expression>, Box<Apply>),
    /// `.x a`
    Signal(Span, LocalName, Box<Apply>),
    /// `.case { .x y => e }`
    Case(Span, ApplyBranches),
    /// `.begin@l a` or `.unfounded@l a`
    Begin { span: Span, unfounded: bool, label: Option<LocalName>, then: Box<Apply> },
    /// `.loop@l`
    Loop(Span, Option<LocalName>),
    /// `(type a) a`
    SendType(Span, Type, Box<Apply>),
    /// `.try@l a`
    Try(Span, Option<LocalName>, Box<Apply>),
    /// `.default(e) a`
    Default(Span, Box<Expression>, Box<Apply>),
    /// `->f a`
    Pipe(Span, Box<Expression>, Box<Apply>),
}

impl Apply {
    /// What the value says, with its texts, numbers and lists as mathematical values.
    pub open spec fn model(self) -> model::Apply
        decreases self,
    {
        match self {
            Apply::Noop(span) => model::Apply::Noop(span@),
            Apply::Send(span, a, b) => model::Apply::Send(
                span@,
                Box::new(a.model()),
                Box::new(b.model()),
            ),
            Apply::Signal(span, a, b) => model::Apply::Signal(span@, a@, Box::new(b.model())),
            Apply::Case(span, a) => model::Apply::Case(
                span@,
                Seq::new(
                    a.0.entries@.len(),
                    |i: int|
                        if 0 <= i < a.0.entries@.len() {
                            (a.0.entries@[i].0@, a.0.entries@[i].1.model())
                        } else {
                            arbitrary()
                        },
                ),
            ),
            Apply::Begin { span, unfounded, label, then } => model::Apply::Begin {
                span: span@,
                unfounded,
                label: label.deep_view(),
                then: Box::new(then.model()),
            },
            Apply::Loop(span, a) => model::Apply::Loop(span@, a.deep_view()),
            Apply::SendType(span, a, b) => model::Apply::SendType(
                span@,
                a.model(),
                Box::new(b.model()),
            ),
            Apply::Try(span, a, b) => model::Apply::Try(span@, a.deep_view(), Box::new(b.model())),
            Apply::Default(span, a, b) => model::Apply::Default(
                span@,
                Box::new(a.model()),
                Box::new(b.model()),
            ),
            Apply::Pipe(span, a, b) => model::Apply::Pipe(
                span@,
                Box::new(a.model()),
                Box::new(b.model()),
            ),
        }
    }
}

impl DeepView for Apply {
    type V = model::Apply;

    open spec fn deep_view(&self) -> model::Apply {
        self.model()
    }
}

impl Apply {
    /// The stretch of the source that the value covers.
    pub fn span(&self) -> (r: Span)
        ensures
            r@ == self.model().span(),
        decreases self,
    {
        match self {
            Apply::Noop(span) => span.clone(),
            Apply::Send(span, ..) => span.clone(),
            Apply::Signal(span, ..) => span.clone(),
            Apply::Case(span, ..) => span.clone(),
            Apply::Begin { span, .. } => span.clone(),
            Apply::Loop(span, ..) => span.clone(),
            Apply::SendType(span, ..) => span.clone(),
            Apply::Try(span, ..) => span.clone(),
            Apply::Default(span, ..) => span.clone(),
            Apply::Pipe(span, ..) => span.clone(),
        }
    }
}

/// A branch of a `.case` application.
#[derive(Debug, PartialEq)]
pub enum ApplyBranch {
    /// `x => e`
    Then(Span, LocalName, Expression),
    /// `(p) branch`
    Receive(Span, Pattern, Box<ApplyBranch>),
    /// `! => e`
    Continue(Span, Expression),
    /// `(type a) branch`
    ReceiveType(Span, LocalName, Box<ApplyBranch>),
    /// `try@l branch`
    Try(Span, Option<LocalName>, Box<ApplyBranch>),
    /// `default(e) branch`
    Default(Span, Box<Expression>, Box<ApplyBranch>),
}

impl ApplyBranch {
    /// What the value says, with its texts, numbers and lists as mathematical values.
    pub open spec fn model(self) -> model::ApplyBranch
        decreases self,
    {
        match self {
            ApplyBranch::Then(span, a, b) => model::ApplyBranch::Then(span@, a@, b.model()),
            ApplyBranch::Receive(span, a, b) => model::ApplyBranch::Receive(
                span@,
                a.model(),
                Box::new(b.model()),
            ),
            ApplyBranch::Continue(span, a) => model::ApplyBranch::Continue(span@, a.model()),
            ApplyBranch::ReceiveType(span, a, b) => model::ApplyBranch::ReceiveType(
                span@,
                a@,
                Box::new(b.model()),
            ),
            ApplyBranch::Try(span, a, b) => model::ApplyBranch::Try(
                span@,
                a.deep_view(),
                Box::new(b.model()),
            ),
            ApplyBranch::Default(span, a, b) => model::ApplyBranch::Default(
                span@,
                Box::new(a.model()),
                Box::new(b.model()),
            ),
        }
    }
}

impl DeepView for ApplyBranch {
    type V = model::ApplyBranch;

    open spec fn deep_view(&self) -> model::ApplyBranch {
        self.model()
    }
}

impl ApplyBranch {
    /// The stretch of the source that the value covers.
    pub fn span(&self) -> (r: Span)
        ensures
            r@ == self.model().span(),
        decreases self,
    {
        match self {
            ApplyBranch::Then(span, ..) => span.clone(),
            ApplyBranch::Receive(span, ..) => span.clone(),
            ApplyBranch::Continue(span, ..) => span.clone(),
            ApplyBranch::ReceiveType(span, ..) => span.clone(),
            ApplyBranch::Try(span, ..) => span.clone(),
            ApplyBranch::Default(span, ..) => span.clone(),
        }
    }
}

/// A process.
#[derive(Debug, PartialEq)]
pub enum Process {
    /// `let p = e process`
    Let { span: Span, pattern: Pattern, value: Box<Expression>, then: Box<Process> },
    /// `catch@l p => { process } process`
    Catch {
        span: Span,
        label: Option<LocalName>,
        pattern: Pattern,
        block: Box<Process>,
        then: Box<Process>,
    },
    /// `throw@l e`
    Throw(Span, Option<LocalName>, Box<Expression>),
    /// `telltypes process`
    Telltypes(Span, Box<Process>),
    /// `Name command`
    GlobalCommand(GlobalName, Command),
    /// `x command`
    Command(LocalName, Command),
    /// Nothing more.
    Noop(Span),
}

impl Process {
    /// What the value says, with its texts, numbers and lists as mathematical values.
    pub open spec fn model(self) -> model::Process
        decreases self,
    {
        match self {
            Process::Let { span, pattern, value, then } => model::Process::Let {
                span: span@,
                pattern: pattern.model(),
                value: Box::new(value.model()),
                then: Box::new(then.model()),
            },
            Process::Catch { span, label, pattern, block, then } => model::Process::Catch {
                span: span@,
                label: label.deep_view(),
                pattern: pattern.model(),
                block: Box::new(block.model()),
                then: Box::new(then.model()),
            },
            Process::Throw(span, a, b) => model::Process::Throw(
                span@,
                a.deep_view(),
                Box::new(b.model()),
            ),
            Process::Telltypes(span, a) => model::Process::Telltypes(span@, Box::new(a.model())),
            Process::GlobalCommand(name, command) => model::Process::GlobalCommand(
                name@,
                command.model(),
            ),
            Process::Command(name, command) => model::Process::Command(name@, command.model()),
            Process::Noop(span) => model::Process::Noop(span@),
        }
    }
}

impl DeepView for Process {
    type V = model::Process;

    open spec fn deep_view(&self) -> model::Process {
        self.model()
    }
}

impl Process {
    /// The stretch of the source that the value covers.
    pub fn span(&self) -> (r: Span)
        ensures
            r@ == self.model().span(),
        decreases self,
    {
        match self {
            Process::Let { span, .. } => span.clone(),
            Process::Catch { span, .. } => span.clone(),
            Process::Throw(span, ..) => span.clone(),
            Process::Telltypes(span, ..) => span.clone(),
            Process::GlobalCommand(name, command) => name.span.join(command.span()),
            Process::Command(name, command) => name.span.join(command.span()),
            Process::Noop(span) => span.clone(),
        }
    }
}

/// The branches of a case, each under its signal.
#[derive(Debug, PartialEq)]
pub struct CommandBranches(pub Branches<CommandBranch>);

/// A command to a channel.
#[derive(Debug, PartialEq)]
pub enum Command {
    /// `; process`
    Then(Box<Process>),
    /// `<> e`
    Link(Span, Box<Expression>),
    /// `(e) command`
    Send(Span, Expression, Box<Command>),
    /// `[p] command`
    Receive(Span, Pattern, Box<Command>),
    /// `.x command`
    Signal(Span, LocalName, Box<Command>),
    /// `.case { .x => { process } } process`
    Case(Span, CommandBranches, Option<Box<Process>>),
    /// `!`
    Break(Span),
    /// `? process`
    Continue(Span, Box<Process>),
    /// `.begin@l command` or `.unfounded@l command`
    Begin { span: Span, unfounded: bool, label: Option<LocalName>, then: Box<Command> },
    /// `.loop@l`
    Loop(Span, Option<LocalName>),
    /// `(type a) command`
    SendType(Span, Type, Box<Command>),
    /// `[type a] command`
    ReceiveType(Span, LocalName, Box<Command>),
    /// `.try@l command`
    Try(Span, Option<LocalName>, Box<Command>),
    /// `.default(e) command`
    Default(Span, Box<Expression>, Box<Command>),
    /// `->f command`
    Pipe(Span, Box<Expression>, Box<Command>),
}

impl Command {
    /// What the value says, with its texts, numbers and lists as mathematical values.
    pub open spec fn model(self) -> model::Command
        decreases self,
    {
        match self {
            Command::Then(a) => model::Command::Then(Box::new(a.model())),
            Command::Link(span, a) => model::Command::Link(span@, Box::new(a.model())),
            Command::Send(span, a, b) => model::Command::Send(
                span@,
                a.model(),
                Box::new(b.model()),
            ),
            Command::Receive(span, a, b) => model::Command::Receive(
                span@,
                a.model(),
                Box::new(b.model()),
            ),
            Command::Signal(span, a, b) => model::Command::Signal(span@, a@, Box::new(b.model())),
            Command::Case(span, a, b) => model::Command::Case(
                span@,
                Seq::new(
                    a.0.entries@.len(),
                    |i: int|
                        if 0 <= i < a.0.entries@.len() {
                            (a.0.entries@[i].0@, a.0.entries@[i].1.model())
                        } else {
                            arbitrary()
                        },
                ),
                match b {
                    Some(x) => Some(Box::new(x.model())),
                    None => None,
                },
            ),
            Command::Break(span) => model::Command::Break(span@),
            Command::Continue(span, a) => model::Command::Continue(span@, Box::new(a.model())),
            Command::Begin { span, unfounded, label, then } => model::Command::Begin {
                span: span@,
                unfounded,
                label: label.deep_view(),
                then: Box::new(then.model()),
            },
            Command::Loop(span, a) => model::Command::Loop(span@, a.deep_view()),
            Command::SendType(span, a, b) => model::Command::SendType(
                span@,
                a.model(),
                Box::new(b.model()),
            ),
            Command::ReceiveType(span, a, b) => model::Command::ReceiveType(
                span@,
                a@,
                Box::new(b.model()),
            ),
            Command::Try(span, a, b) => model::Command::Try(
                span@,
                a.deep_view(),
                Box::new(b.model()),
            ),
            Command::Default(span, a, b) => model::Command::Default(
                span@,
                Box::new(a.model()),
                Box::new(b.model()),
            ),
            Command::Pipe(span, a, b) => model::Command::Pipe(
                span@,
                Box::new(a.model()),
                Box::new(b.model()),
            ),
        }
    }
}

impl DeepView for Command {
    type V = model::Command;

    open spec fn deep_view(&self) -> model::Command {
        self.model()
    }
}

impl Command {
    /// The stretch of the source that the value covers.
    pub fn span(&self) -> (r: Span)
        ensures
            r@ == self.model().span(),
        decreases self,
    {
        match self {
            Command::Then(inner) => inner.span(),
            Command::Link(span, ..) => span.clone(),
            Command::Send(span, ..) => span.clone(),
            Command::Receive(span, ..) => span.clone(),
            Command::Signal(span, ..) => span.clone(),
            Command::Case(span, ..) => span.clone(),
            Command::Break(span) => span.clone(),
            Command::Continue(span, ..) => span.clone(),
            Command::Begin { span, .. } => span.clone(),
            Command::Loop(span, ..) => span.clone(),
            Command::SendType(span, ..) => span.clone(),
            Command::ReceiveType(span, ..) => span.clone(),
            Command::Try(span, ..) => span.clone(),
            Command::Default(span, ..) => span.clone(),
            Command::Pipe(span, ..) => span.clone(),
        }
    }
}

/// A branch of a `.case` command.
#[derive(Debug, PartialEq)]
pub enum CommandBranch {
    /// `=> { process }`
    Then(Span, Process),
    /// `x => { process }`
    BindThen(Span, LocalName, Process),
    /// `! => { process }`
    Continue(Span, Process),
    /// `(p) branch`
    Receive(Span, Pattern, Box<CommandBranch>),
    /// `(type a) branch`
    ReceiveType(Span, LocalName, Box<CommandBranch>),
    /// `try@l branch`
    Try(Span, Option<LocalName>, Box<CommandBranch>),
    /// `default(e) branch`
    Default(Span, Box<Expression>, Box<CommandBranch>),
}

impl CommandBranch {
    /// What the value says, with its texts, numbers and lists as mathematical values.
    pub open spec fn model(self) -> model::CommandBranch
        decreases self,
    {
        match self {
            CommandBranch::Then(span, a) => model::CommandBranch::Then(span@, a.model()),
            CommandBranch::BindThen(span, a, b) => model::CommandBranch::BindThen(
                span@,
                a@,
                b.model(),
            ),
            CommandBranch::Continue(span, a) => model::CommandBranch::Continue(span@, a.model()),
            CommandBranch::Receive(span, a, b) => model::CommandBranch::Receive(
                span@,
                a.model(),
                Box::new(b.model()),
            ),
            CommandBranch::ReceiveType(span, a, b) => model::CommandBranch::ReceiveType(
                span@,
                a@,
                Box::new(b.model()),
            ),
            CommandBranch::Try(span, a, b) => model::CommandBranch::Try(
                span@,
                a.deep_view(),
                Box::new(b.model()),
            ),
            CommandBranch::Default(span, a, b) => model::CommandBranch::Default(
                span@,
                Box::new(a.model()),
                Box::new(b.model()),
            ),
        }
    }
}

impl DeepView for CommandBranch {
    type V = model::CommandBranch;

    open spec fn deep_view(&self) -> model::CommandBranch {
        self.model()
    }
}

impl CommandBranch {
    /// The stretch of the source that the value covers.
    pub fn span(&self) -> (r: Span)
        ensures
            r@ == self.model().span(),
        decreases self,
    {
        match self {
            CommandBranch::Then(span, ..) => span.clone(),
            CommandBranch::BindThen(span, ..) => span.clone(),
            CommandBranch::Continue(span, ..) => span.clone(),
            CommandBranch::Receive(span, ..) => span.clone(),
            CommandBranch::ReceiveType(span, ..) => span.clone(),
            CommandBranch::Try(span, ..) => span.clone(),
            CommandBranch::Default(span, ..) => span.clone(),
        }
    }
}

impl Process {
    /// The process that does nothing.
    pub fn noop(span: Span) -> (r: Process)
        ensures
            r.model() == model::Process::Noop(span@),
    {
        Process::Noop(span)
    }
}

impl Apply {
    /// The application that does nothing.
    pub fn noop(span: Span) -> (r: Apply)
        ensures
            r.model() == model::Apply::Noop(span@),
    {
        Apply::Noop(span)
    }
}

pub broadcast proof fn list_model(span: Span, items: Vec<Expression>)
    ensures
        #[trigger] Expression::List(span, items).model() == model::Expression::List(
            span@,
            items.deep_view(),
        ),
{
    if let model::Expression::List(_, xs) = Expression::List(span, items).model() {
        assert(xs =~= items.deep_view());
    }
}

pub broadcast proof fn construct_case_model(span: Span, branches: ConstructBranches)
    ensures
        #[trigger] Construct::Case(span, branches).model() == model::Construct::Case(
            span@,
            branches.0.deep_view(),
        ),
{
    if let model::Construct::Case(_, xs) = Construct::Case(span, branches).model() {
        assert(xs =~= branches.0.deep_view());
    }
}

pub broadcast proof fn apply_case_model(span: Span, branches: ApplyBranches)
    ensures
        #[trigger] Apply::Case(span, branches).model() == model::Apply::Case(
            span@,
            branches.0.deep_view(),
        ),
{
    if let model::Apply::Case(_, xs) = Apply::Case(span, branches).model() {
        assert(xs =~= branches.0.deep_view());
    }
}

pub broadcast proof fn command_case_model(
    span: Span,
    branches: CommandBranches,
    rest: Option<Box<Process>>,
)
    ensures
        #[trigger] Command::Case(span, branches, rest).model() == model::Command::Case(
            span@,
            branches.0.deep_view(),
            match rest {
                Some(process) => Some(Box::new(process.model())),
                None => None,
            },
        ),
{
    if let model::Command::Case(_, xs, _) = Command::Case(span, branches, rest).model() {
        assert(xs =~= branches.0.deep_view());
    }
}

/// What the values with lists in them say, in terms of the lists.
pub broadcast group group_language_models {
    list_model,
    construct_case_model,
    apply_case_model,
    command_case_model,
}

} // verus!
