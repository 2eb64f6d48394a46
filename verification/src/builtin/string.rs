//! The built-in strings: a builder, a reader and quoting.
use super::action::{one, three, two, Action, Said};
use super::pattern::Pattern;
use super::search::{find_match, find_match_end, is_best_match, is_match};
use crate::model;
use crate::program::{external_name, Definition, External, ExternalModel, Module, TypeDef};
use crate::sub_text::{
    byte_len, byte_len_grows, byte_len_push, char_len, chars_before, chars_before_end,
    chars_before_take, is_boundary, substr_chars, substr_from, substr_len, substr_range,
    substr_str,
};
use crate::text::text_same;
use crate::types::{PrimitiveType, Type};
use arcstr::Substr;
use vstd::prelude::*;

verus! {

/// The built-in definitions of the module of strings.
#[derive(Debug, Clone, Copy, PartialEq, Eq)]
pub enum StringExternal {
    Builder,
    Reader,
    Quote,
}

/// The type of strings.
pub open spec fn string_type() -> model::Type {
    model::Type::Primitive(model::Span::Nowhere, PrimitiveType::String)
}

/// A type with a name of the module of strings.
pub open spec fn named_type(name: Seq<char>, args: Seq<model::Type>) -> model::Type {
    model::Type::Name(model::Span::Nowhere, external_name(name), args)
}

/// A type of functions.
pub open spec fn function_type(arg: model::Type, result: model::Type) -> model::Type {
    model::Type::Function(model::Span::Nowhere, Box::new(arg), Box::new(result))
}

/// A built-in definition of the module of strings.
pub open spec fn string_definition(
    name: Seq<char>,
    typ: model::Type,
    body: StringExternal,
) -> model::Definition<ExternalModel<StringExternal>> {
    model::Definition {
        span: model::Span::Nowhere,
        name: external_name(name),
        expression: ExternalModel { typ, body },
    }
}

/// What the module of strings is made of: the type `String`, and the definitions
/// `Builder : Builder`, `Reader : [String] Reader<either {}>` and `Quote : [String] String`.
pub open spec fn string_module() -> model::Module<ExternalModel<StringExternal>> {
    model::Module {
        type_defs: seq![
            model::TypeDef {
                span: model::Span::Nowhere,
                name: external_name("String"@),
                params: Seq::empty(),
                typ: string_type(),
            },
        ],
        declarations: Seq::empty(),
        definitions: seq![
            string_definition(
                "Builder"@,
                named_type("Builder"@, Seq::empty()),
                StringExternal::Builder,
            ),
            string_definition(
                "Reader"@,
                function_type(
                    string_type(),
                    named_type(
                        "Reader"@,
                        seq![model::Type::Either(model::Span::Nowhere, Seq::empty())],
                    ),
                ),
                StringExternal::Reader,
            ),
            string_definition(
                "Quote"@,
                function_type(string_type(), string_type()),
                StringExternal::Quote,
            ),
        ],
    }
}

/// The module of strings.
pub fn external_module() -> (r: Module<External<StringExternal>>)
    ensures
        r.deep_view() == string_module(),
{
    let no_args: Vec<Type> = Vec::new();
    assert(no_args.deep_view() =~= Seq::<model::Type>::empty());
    let builder = Definition::external(
        "Builder",
        Type::name(None, "Builder", no_args),
        StringExternal::Builder,
    );
    let no_branches: Vec<(&str, Type)> = Vec::new();
    assert(no_branches.deep_view() =~= Seq::<(Seq<char>, model::Type)>::empty());
    let mut args: Vec<Type> = Vec::new();
    args.push(Type::either(no_branches));
    assert(args.deep_view() =~= seq![model::Type::Either(model::Span::Nowhere, Seq::empty())]);
    let reader = Definition::external(
        "Reader",
        Type::function(Type::string(), Type::name(None, "Reader", args)),
        StringExternal::Reader,
    );
    let quote = Definition::external(
        "Quote",
        Type::function(Type::string(), Type::string()),
        StringExternal::Quote,
    );
    let ghost definitions = seq![builder.deep_view(), reader.deep_view(), quote.deep_view()];
    assert(definitions =~= string_module().definitions);
    let mut r: Module<External<StringExternal>> = Module::new();
    assert(r.definitions.deep_view().len() == r.definitions@.len());
    r.type_defs.push(TypeDef::external("String", Type::string()));
    r.definitions.push(builder);
    r.definitions.push(reader);
    r.definitions.push(quote);
    assert(r.type_defs.deep_view() =~= string_module().type_defs);
    assert(r.declarations.deep_view() =~= string_module().declarations);
    assert(r.definitions.deep_view() =~= definitions);
    r
}

/// The signals of a string builder.
#[derive(Debug, Clone, Copy, PartialEq, Eq)]
pub enum BuilderSignal {
    Add,
    Build,
}

/// The signal of a string builder with the name `name`.
pub open spec fn named_builder_signal(name: Seq<char>) -> Option<BuilderSignal> {
    if name == "add"@ {
        Some(BuilderSignal::Add)
    } else if name == "build"@ {
        Some(BuilderSignal::Build)
    } else {
        None
    }
}

/// The signal of a string builder with the name `name`, if there is one.
pub fn builder_signal(name: &str) -> (r: Option<BuilderSignal>)
    ensures
        r == named_builder_signal(name@),
{
    if text_same(name, "add") {
        Some(BuilderSignal::Add)
    } else if text_same(name, "build") {
        Some(BuilderSignal::Build)
    } else {
        None
    }
}

/// What a string builder is told to do.
#[derive(Debug)]
pub enum BuilderCommand {
    /// Add a string at the end.
    Add(Substr),
    /// Give the string that was built.
    Build,
}

/// Does what a string builder is told to do that has built `buf`: what it has built then, or
/// the action with which it is done.
pub fn string_builder(buf: String, command: BuilderCommand) -> (r: Result<String, Action>)
    requires
        command is Build ==> byte_len(buf@) <= u32::MAX,
    ensures
        match (command, r) {
            (BuilderCommand::Add(s), Ok(next)) => next@ == buf@ + substr_chars(s),
            (BuilderCommand::Build, Err(action)) => action.deep_view() == Said::ProvideString(buf@),
            _ => false,
        },
{
    match command {
        BuilderCommand::Add(s) => {
            let mut next = buf;
            next.append(substr_str(&s));
            Ok(next)
        },
        BuilderCommand::Build => Err(Action::ProvideString(substr_from(buf))),
    }
}

/// What a string builder has built that was told to add `parts`, one after the other.
pub open spec fn built(parts: Seq<Seq<char>>) -> Seq<char>
    decreases parts.len(),
{
    if parts.len() == 0 {
        Seq::empty()
    } else {
        built(parts.drop_last()) + parts.last()
    }
}

/// What a string builder is told to add is at the end of what it has built then.
pub proof fn built_step(parts: Seq<Seq<char>>, part: Seq<char>)
    ensures
        built(parts.push(part)) == built(parts) + part,
{
    assert(parts.push(part).drop_last() =~= parts);
}

/// What a string builder is told to add later comes after what it has built before.
pub proof fn built_in_order(first: Seq<Seq<char>>, second: Seq<Seq<char>>)
    ensures
        built(first + second) == built(first) + built(second),
    decreases second.len(),
{
    if second.len() == 0 {
        assert(first + second =~= first);
        assert(built(first) + built(second) =~= built(first));
    } else {
        let all = first + second;
        assert(all.drop_last() =~= first + second.drop_last());
        built_in_order(first, second.drop_last());
        assert(built(all) =~= built(first) + built(second));
    }
}

/// How a character is written in quotes, if it is an ASCII character that is printable or has
/// an escape of its own.
pub open spec fn quoted_char(c: char) -> Option<Seq<char>> {
    if c == '"' || c == '\\' {
        Some(seq!['\\', c])
    } else if c == '\n' {
        Some(seq!['\\', 'n'])
    } else if c == '\r' {
        Some(seq!['\\', 'r'])
    } else if c == '\t' {
        Some(seq!['\\', 't'])
    } else if c == '\0' {
        Some(seq!['\\', '0'])
    } else if ' ' <= c && c <= '~' {
        Some(seq![c])
    } else {
        None
    }
}

/// How the characters of a text are written in quotes, if all of them are such characters.
pub open spec fn quoted_chars(text: Seq<char>) -> Option<Seq<char>>
    decreases text.len(),
{
    if text.len() == 0 {
        Some(Seq::empty())
    } else {
        match (quoted_chars(text.drop_last()), quoted_char(text.last())) {
            (Some(before), Some(last)) => Some(before + last),
            _ => None,
        }
    }
}

/// The text that the `Debug` of `str` makes of a text with other characters.
pub uninterp spec fn oddly_quoted(text: Seq<char>) -> Seq<char>;

/// A text in quotes, with escapes.
pub open spec fn quoted(text: Seq<char>) -> Seq<char> {
    match quoted_chars(text) {
        Some(inside) => seq!['"'] + inside + seq!['"'],
        None => oddly_quoted(text),
    }
}

/// The `Debug` of `Substr`, which is that of its text: the text in quotes, with escapes. How
/// other characters than those of ASCII that are printable or have an escape of their own are
/// written is not said.
#[verifier::external_body]
fn quoted_text(s: &Substr) -> (r: String)
    ensures
        quoted_chars(substr_chars(*s)) matches Some(inside) ==> r@ == seq!['"'] + inside
            + seq!['"'],
        quoted_chars(substr_chars(*s)) is None ==> r@ == oddly_quoted(substr_chars(*s)),
{
    format!("{:?}", s)
}

/// Quotes a string.
pub fn string_quote(s: Substr) -> (r: Action)
    requires
        byte_len(quoted(substr_chars(s))) <= u32::MAX,
    ensures
        r.deep_view() == Said::ProvideString(quoted(substr_chars(s))),
{
    Action::ProvideString(substr_from(quoted_text(&s)))
}

/// Quotes a string, if the length of the quoted string in bytes fits in 32 bits.
pub fn try_string_quote(s: Substr) -> (r: Option<Action>)
    ensures
        r is Some <==> byte_len(quoted(substr_chars(s))) <= u32::MAX,
        r matches Some(action) ==> action.deep_view() == Said::ProvideString(
            quoted(substr_chars(s)),
        ),
{
    let text = quoted_text(&s);
    if text.as_str().as_bytes().len() <= u32::MAX as usize {
        Some(string_quote(s))
    } else {
        None
    }
}

/// The signals of a string reader.
#[derive(Debug, Clone, Copy, PartialEq, Eq)]
pub enum ReaderSignal {
    Close,
    Char,
    Match,
    MatchEnd,
    Remainder,
}

/// The signal of a string reader with the name `name`.
pub open spec fn named_reader_signal(name: Seq<char>) -> Option<ReaderSignal> {
    if name == "close"@ {
        Some(ReaderSignal::Close)
    } else if name == "char"@ {
        Some(ReaderSignal::Char)
    } else if name == "match"@ {
        Some(ReaderSignal::Match)
    } else if name == "matchEnd"@ {
        Some(ReaderSignal::MatchEnd)
    } else if name == "remainder"@ {
        Some(ReaderSignal::Remainder)
    } else {
        None
    }
}

/// The signal of a string reader with the name `name`, if there is one.
pub fn reader_signal(name: &str) -> (r: Option<ReaderSignal>)
    ensures
        r == named_reader_signal(name@),
{
    if text_same(name, "close") {
        Some(ReaderSignal::Close)
    } else if text_same(name, "char") {
        Some(ReaderSignal::Char)
    } else if text_same(name, "match") {
        Some(ReaderSignal::Match)
    } else if text_same(name, "matchEnd") {
        Some(ReaderSignal::MatchEnd)
    } else if text_same(name, "remainder") {
        Some(ReaderSignal::Remainder)
    } else {
        None
    }
}

/// What a string reader is told to do.
#[derive(Debug)]
pub enum ReaderCommand {
    /// Be done.
    Close,
    /// Read a character.
    Char,
    /// Read a prefix and a suffix that match the patterns.
    Match(Box<Pattern>, Box<Pattern>),
    /// Read the rest as a prefix and a suffix that match the patterns.
    MatchEnd(Box<Pattern>, Box<Pattern>),
    /// Give the rest.
    Remainder,
}

/// What a string reader says where there is nothing left to read.
pub open spec fn at_end() -> Seq<Said> {
    seq![Said::Signal("end"@), Said::Signal("ok"@), Said::Break]
}

/// What a string reader says that has found a prefix and a suffix.
pub open spec fn has_match(prefix: Seq<char>, suffix: Seq<char>) -> Seq<Said> {
    seq![Said::Signal("match"@), Said::SendString(prefix), Said::SendString(suffix)]
}

/// Whether a string reader with the text `t` left to read that is told `command` says `said`,
/// and has `next` left to read then, unless it is done.
pub open spec fn reader_says(
    t: Seq<char>,
    command: ReaderCommand,
    said: Seq<Said>,
    next: Option<Seq<char>>,
) -> bool {
    match command {
        ReaderCommand::Close => said == seq![Said::Break] && next is None,
        ReaderCommand::Char => if t.len() == 0 {
            said == at_end() && next is None
        } else {
            said == seq![Said::Signal("char"@), Said::SendChar(t[0])] && next == Some(
                t.drop_first(),
            )
        },
        ReaderCommand::Match(prefix, suffix) => if t.len() == 0 {
            said == at_end() && next is None
        } else {
            ||| exists|i: int, j: int| #[trigger]
                is_best_match(*prefix, *suffix, t, t.len() as int, i, j) && said == has_match(
                    t.take(i),
                    t.subrange(i, j),
                ) && next == Some(t.skip(j))
            ||| {
                &&& forall|i: int, j: int| j > 0 ==> !#[trigger] is_match(*prefix, *suffix, t, i, j)
                &&& said == seq![Said::Signal("fail"@)]
                &&& next == Some(t)
            }
        },
        ReaderCommand::MatchEnd(prefix, suffix) => if t.len() == 0 {
            said == at_end() && next is None
        } else {
            ||| exists|i: int| #[trigger]
                is_shortest_prefix(*prefix, *suffix, t, i) && said == has_match(
                    t.take(i),
                    t.skip(i),
                ).push(Said::Break) && next is None
            ||| {
                &&& forall|i: int| !#[trigger] is_match(*prefix, *suffix, t, i, t.len() as int)
                &&& said == seq![Said::Signal("fail"@)]
                &&& next == Some(t)
            }
        },
        ReaderCommand::Remainder => said == seq![Said::Signal("ok"@), Said::ProvideString(t)]
            && next is None,
    }
}

/// Whether the first `i` characters of a text are the shortest prefix after which the rest is
/// a suffix.
pub open spec fn is_shortest_prefix(
    prefix: Pattern,
    suffix: Pattern,
    t: Seq<char>,
    i: int,
) -> bool {
    &&& is_match(prefix, suffix, t, i, t.len() as int)
    &&& forall|k: int| #[trigger] is_match(prefix, suffix, t, k, t.len() as int) ==> i <= k
}

/// Does what a string reader is told to do that has `remainder` left to read: what it says,
/// and what it has left to read then, unless it is done.
pub fn string_reader(remainder: Substr, command: ReaderCommand) -> (r: (
    Vec<Action>,
    Option<Substr>,
))
    ensures
        reader_says(
            substr_chars(remainder),
            command,
            r.0.deep_view(),
            match r.1 {
                Some(s) => Some(substr_chars(s)),
                None => None,
            },
        ),
{
    let ghost t = substr_chars(remainder);
    let size = substr_len(&remainder);
    proof {
        assert(t.take(0) =~= Seq::empty());
        assert(t.take(t.len() as int) =~= t);
        chars_before_take(t, 0);
        chars_before_end(t);
        if t.len() > 0 {
            byte_len_grows(t, 0, t.len() as int);
        }
    }
    match command {
        ReaderCommand::Close => (one(Action::Break), None),
        ReaderCommand::Char => {
            let text = substr_str(&remainder);
            if text.is_empty() {
                return (said_at_end(), None);
            }
            let ch = text.get_char(0);
            let len = char_len(ch);
            proof {
                assert(t.take(1) =~= t.take(0).push(ch));
                byte_len_push(t.take(0), ch);
                chars_before_take(t, 1);
                if 1 < t.len() {
                    byte_len_grows(t, 1, t.len() as int);
                }
                assert(t.subrange(1, t.len() as int) =~= t.drop_first());
            }
            let next = substr_range(&remainder, len, size);
            (two(Action::Signal("char"), Action::SendChar(ch)), Some(next))
        },
        ReaderCommand::Match(prefix, suffix) => {
            if size == 0 {
                return (said_at_end(), None);
            }
            let ghost p1 = *prefix;
            let ghost p2 = *suffix;
            match find_match(&remainder, prefix, suffix) {
                Some((i, j)) => {
                    let ghost (a, b) = choose|a: int, b: int| #[trigger]
                        is_best_match(p1, p2, t, t.len() as int, a, b) && i == byte_len(t.take(a))
                            && j == byte_len(t.take(b));
                    proof {
                        found_places(t, a, b);
                    }
                    let first = substr_range(&remainder, 0, i);
                    let second = substr_range(&remainder, i, j);
                    let next = substr_range(&remainder, j, size);
                    proof {
                        assert(substr_chars(first) =~= t.take(a));
                        assert(substr_chars(next) =~= t.skip(b));
                    }
                    let said = three(
                        Action::Signal("match"),
                        Action::SendString(first),
                        Action::SendString(second),
                    );
                    assert(said.deep_view() == has_match(t.take(a), t.subrange(a, b)));
                    (said, Some(next))
                },
                None => (one(Action::Signal("fail")), Some(remainder)),
            }
        },
        ReaderCommand::MatchEnd(prefix, suffix) => {
            if size == 0 {
                return (said_at_end(), None);
            }
            let ghost p1 = *prefix;
            let ghost p2 = *suffix;
            match find_match_end(&remainder, prefix, suffix) {
                Some(i) => {
                    let ghost a = choose|a: int| #[trigger]
                        is_match(p1, p2, t, a, t.len() as int) && i == byte_len(t.take(a))
                            && forall|k: int| #[trigger]
                            is_match(p1, p2, t, k, t.len() as int) ==> a <= k;
                    proof {
                        found_places(t, a, t.len() as int);
                        assert(is_shortest_prefix(p1, p2, t, a));
                    }
                    let first = substr_range(&remainder, 0, i);
                    let second = substr_range(&remainder, i, size);
                    proof {
                        assert(substr_chars(first) =~= t.take(a));
                        assert(substr_chars(second) =~= t.skip(a));
                    }
                    let mut said = three(
                        Action::Signal("match"),
                        Action::SendString(first),
                        Action::SendString(second),
                    );
                    let ghost before = said.deep_view();
                    said.push(Action::Break);
                    assert(said.deep_view() =~= before.push(Said::Break));
                    (said, None)
                },
                None => (one(Action::Signal("fail")), Some(remainder)),
            }
        },
        ReaderCommand::Remainder => (
            two(Action::Signal("ok"), Action::ProvideString(remainder)),
            None,
        ),
    }
}

/// The text of one step of what is said.
pub open spec fn step_text(step: Said) -> Seq<char> {
    match step {
        Said::SendChar(c) => seq![c],
        Said::SendString(s) => s,
        Said::ProvideString(s) => s,
        _ => Seq::empty(),
    }
}

/// The text of what is said.
pub open spec fn said_text(said: Seq<Said>) -> Seq<char>
    decreases said.len(),
{
    if said.len() == 0 {
        Seq::empty()
    } else {
        said_text(said.drop_last()) + step_text(said.last())
    }
}

/// The text of what is said in up to four steps.
proof fn said_text_of(said: Seq<Said>)
    requires
        said.len() <= 4,
    ensures
        said.len() == 1 ==> said_text(said) == step_text(said[0]),
        said.len() == 2 ==> said_text(said) == step_text(said[0]) + step_text(said[1]),
        said.len() == 3 ==> said_text(said) == step_text(said[0]) + step_text(said[1]) + step_text(
            said[2],
        ),
        said.len() == 4 ==> said_text(said) == step_text(said[0]) + step_text(said[1]) + step_text(
            said[2],
        ) + step_text(said[3]),
    decreases said.len(),
{
    if said.len() > 0 {
        said_text_of(said.drop_last());
        if said.len() == 1 {
            assert(said_text(said.drop_last()) =~= Seq::empty());
            assert(said_text(said) =~= step_text(said[0]));
        }
    }
}

/// The text of a character that is sent after a signal.
proof fn char_text(said: Seq<Said>, name: Seq<char>, c: char)
    requires
        said == seq![Said::Signal(name), Said::SendChar(c)],
    ensures
        said_text(said) == seq![c],
{
    said_text_of(said);
    assert(said_text(said) =~= seq![c]);
}

/// A string reader that is not closed loses nothing: what it says and what it has left to read
/// are together what it had left to read before.
pub proof fn reader_loses_nothing(
    t: Seq<char>,
    command: ReaderCommand,
    said: Seq<Said>,
    next: Option<Seq<char>>,
)
    requires
        !(command is Close),
        reader_says(t, command, said, next),
    ensures
        t == said_text(said) + match next {
            Some(rest) => rest,
            None => Seq::empty(),
        },
{
    let rest = match next {
        Some(rest) => rest,
        None => Seq::empty(),
    };
    if said.len() <= 4 {
        said_text_of(said);
    }
    match command {
        ReaderCommand::Match(prefix, suffix) => {
            if t.len() > 0 && said != seq![Said::Signal("fail"@)] {
                let (i, j) = choose|i: int, j: int| #[trigger]
                    is_best_match(*prefix, *suffix, t, t.len() as int, i, j) && said == has_match(
                        t.take(i),
                        t.subrange(i, j),
                    ) && next == Some(t.skip(j));
                assert(t =~= t.take(i) + t.subrange(i, j) + t.skip(j));
            }
        },
        ReaderCommand::MatchEnd(prefix, suffix) => {
            if t.len() > 0 && said != seq![Said::Signal("fail"@)] {
                let i = choose|i: int| #[trigger]
                    is_shortest_prefix(*prefix, *suffix, t, i) && said == has_match(
                        t.take(i),
                        t.skip(i),
                    ).push(Said::Break) && next is None;
                assert(t =~= t.take(i) + t.skip(i));
            }
        },
        ReaderCommand::Char => {
            if t.len() > 0 {
                char_text(said, "char"@, t[0]);
                assert(t =~= seq![t[0]] + t.drop_first());
            }
        },
        _ => {},
    }
    assert(t =~= said_text(said) + rest);
}

/// Whether a string reader with the text `t` left to read that is told `commands`, one after
/// the other, says `said` to each, and has `left` left to read in the end, unless it is done.
pub open spec fn reader_runs(
    t: Seq<char>,
    commands: Seq<ReaderCommand>,
    said: Seq<Seq<Said>>,
    left: Option<Seq<char>>,
) -> bool
    decreases commands.len(),
{
    if commands.len() == 0 {
        said.len() == 0 && left == Some(t)
    } else {
        &&& said.len() == commands.len()
        &&& exists|next: Option<Seq<char>>| #[trigger]
            reader_says(t, commands[0], said[0], next) && match next {
                Some(rest) => reader_runs(rest, commands.skip(1), said.skip(1), left),
                None => commands.len() == 1 && left is None,
            }
    }
}

/// The text of what is said to some commands.
pub open spec fn run_text(said: Seq<Seq<Said>>) -> Seq<char>
    decreases said.len(),
{
    if said.len() == 0 {
        Seq::empty()
    } else {
        said_text(said[0]) + run_text(said.skip(1))
    }
}

/// A string reader that is never closed loses nothing, whatever it is told: all that it says
/// and what it has left to read in the end are together what it had to read in the beginning.
pub proof fn run_loses_nothing(
    t: Seq<char>,
    commands: Seq<ReaderCommand>,
    said: Seq<Seq<Said>>,
    left: Option<Seq<char>>,
)
    requires
        forall|i: int| 0 <= i < commands.len() ==> !(#[trigger] commands[i] is Close),
        reader_runs(t, commands, said, left),
    ensures
        t == run_text(said) + match left {
            Some(rest) => rest,
            None => Seq::empty(),
        },
    decreases commands.len(),
{
    let end = match left {
        Some(rest) => rest,
        None => Seq::empty(),
    };
    if commands.len() > 0 {
        let next = choose|next: Option<Seq<char>>| #[trigger]
            reader_says(t, commands[0], said[0], next) && match next {
                Some(rest) => reader_runs(rest, commands.skip(1), said.skip(1), left),
                None => commands.len() == 1 && left is None,
            };
        reader_loses_nothing(t, commands[0], said[0], next);
        match next {
            Some(rest) => {
                run_loses_nothing(rest, commands.skip(1), said.skip(1), left);
            },
            None => {
                assert(run_text(said.skip(1)) =~= Seq::empty());
            },
        }
    }
    assert(t =~= run_text(said) + end);
}

/// A string reader that goes on and has not failed has less left to read than before.
pub proof fn reader_makes_progress(
    t: Seq<char>,
    command: ReaderCommand,
    said: Seq<Said>,
    next: Option<Seq<char>>,
)
    requires
        reader_says(t, command, said, next),
        next is Some,
        said != seq![Said::Signal("fail"@)],
    ensures
        next->0.len() < t.len(),
{
}

/// What a string reader says where there is nothing left to read.
fn said_at_end() -> (r: Vec<Action>)
    ensures
        r.deep_view() == at_end(),
{
    three(Action::Signal("end"), Action::Signal("ok"), Action::Break)
}

/// The bytes where two places in a text are can be told apart and found again.
proof fn found_places(t: Seq<char>, a: int, b: int)
    requires
        0 <= a <= b <= t.len(),
    ensures
        is_boundary(t, byte_len(t.take(a)) as int),
        is_boundary(t, byte_len(t.take(b)) as int),
        chars_before(t, byte_len(t.take(a)) as int) == a,
        chars_before(t, byte_len(t.take(b)) as int) == b,
        byte_len(t.take(a)) <= byte_len(t.take(b)) <= byte_len(t),
{
    chars_before_take(t, a);
    chars_before_take(t, b);
    if a < b {
        byte_len_grows(t, a, b);
    }
    assert(t.take(t.len() as int) =~= t);
    if b < t.len() {
        byte_len_grows(t, b, t.len() as int);
    }
}

} // verus!
