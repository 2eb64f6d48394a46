use arcstr::Substr;
use num_bigint::BigInt;
use par_lang::builtin::action::Action;
use par_lang::builtin::machine::Machine;
use par_lang::builtin::pattern::{CharClass, Pattern};
use par_lang::builtin::readback::{pattern_signal, PatternParts, PatternSignal};
use par_lang::builtin::search::{find_match, find_match_end};
use par_lang::builtin::state::State;
use par_lang::builtin::string::{
    builder_signal, external_module, reader_signal, string_builder, string_quote, string_reader,
    try_string_quote, BuilderCommand, BuilderSignal, ReaderCommand, ReaderSignal, StringExternal,
};
use par_lang::types::{PrimitiveType, Type};

fn text(s: &str) -> Box<Pattern> {
    Box::new(Pattern::Str(Substr::from(s)))
}

fn digits() -> CharClass {
    CharClass { ranges: vec![('0', '9')] }
}

fn one() -> Box<Pattern> {
    Box::new(Pattern::One(digits()))
}

fn repeat(p: Box<Pattern>) -> Box<Pattern> {
    Box::new(Pattern::Repeat(p))
}

fn repeat1(p: Box<Pattern>) -> Box<Pattern> {
    Box::new(Pattern::Repeat1(p))
}

fn concat(p: Box<Pattern>, q: Box<Pattern>) -> Box<Pattern> {
    Box::new(Pattern::Concat(p, q))
}

fn all() -> Box<Pattern> {
    Box::new(Pattern::All)
}

fn verdict(p: Box<Pattern>, s: &str) -> Option<bool> {
    let mut m = Machine::start(p);
    for (pos, ch) in s.char_indices() {
        m.advance(pos, ch.len_utf8(), ch);
    }
    m.accepts()
}

#[test]
fn simple_patterns() {
    assert_eq!(verdict(Box::new(Pattern::Nil), ""), None);
    assert_eq!(verdict(all(), "abc"), Some(true));
    assert_eq!(verdict(Box::new(Pattern::Empty), ""), Some(true));
    assert_eq!(verdict(Box::new(Pattern::Empty), "a"), None);
    let length = || Box::new(Pattern::Length(BigInt::from(2)));
    assert_eq!(verdict(length(), "a"), Some(false));
    assert_eq!(verdict(length(), "ab"), Some(true));
    assert_eq!(verdict(length(), "abc"), None);
    assert_eq!(verdict(text("h\u{e9}"), "h"), Some(false));
    assert_eq!(verdict(text("h\u{e9}"), "h\u{e9}"), Some(true));
    assert_eq!(verdict(text("h\u{e9}"), "he"), None);
    assert_eq!(verdict(one(), ""), Some(false));
    assert_eq!(verdict(one(), "7"), Some(true));
    assert_eq!(verdict(one(), "x"), None);
    assert_eq!(verdict(Box::new(Pattern::Non(digits())), "x"), Some(true));
    assert_eq!(verdict(Box::new(Pattern::Non(digits())), "7"), None);
}

#[test]
fn patterns_of_patterns() {
    let and = || Box::new(Pattern::And(repeat(one()), Box::new(Pattern::Length(BigInt::from(2)))));
    assert_eq!(verdict(and(), "12"), Some(true));
    assert_eq!(verdict(and(), "1"), Some(false));
    assert_eq!(verdict(and(), "1x"), None);
    let or = || Box::new(Pattern::Or(text("ab"), text("ac")));
    assert_eq!(verdict(or(), "a"), Some(false));
    assert_eq!(verdict(or(), "ac"), Some(true));
    assert_eq!(verdict(or(), "x"), None);
    assert_eq!(verdict(concat(repeat(one()), text("1x")), "111x"), Some(true));
    assert_eq!(verdict(concat(repeat(one()), text("1x")), "111"), Some(false));
    assert_eq!(verdict(concat(repeat(one()), text("1x")), "11y"), None);
}

#[test]
fn repeated_patterns() {
    assert_eq!(verdict(repeat(text("ab")), ""), Some(true));
    assert_eq!(verdict(repeat(text("ab")), "abab"), Some(true));
    assert_eq!(verdict(repeat(text("ab")), "aba"), Some(false));
    assert_eq!(verdict(repeat(text("ab")), "abb"), None);
    assert_eq!(verdict(repeat1(text("ab")), ""), Some(false));
    assert_eq!(verdict(repeat1(text("ab")), "abab"), Some(true));
    assert_eq!(verdict(repeat1(repeat(text("a"))), ""), Some(true));
    assert_eq!(verdict(repeat(concat(repeat(text("a")), text("b"))), "aabbab"), Some(true));
}

#[test]
fn splits_of_a_machine() {
    let mut m = Machine::start(concat(repeat(text("a")), repeat(text("a"))));
    assert_eq!(m.leftmost_accepting_split(), Some(0));
    assert_eq!(m.leftmost_feasible_split(0), Some(0));
    m.advance(0, 1, 'a');
    assert_eq!(m.leftmost_accepting_split(), Some(0));
    let mut m = Machine::start(concat(text("ab"), text("c")));
    m.advance(0, 1, 'a');
    assert_eq!(m.leftmost_accepting_split(), None);
    assert_eq!(m.leftmost_feasible_split(1), Some(1));
    m.advance(1, 1, 'b');
    m.advance(2, 1, 'c');
    assert_eq!(m.leftmost_accepting_split(), Some(2));
    m.advance(3, 1, 'd');
    assert_eq!(m.leftmost_feasible_split(4), None);
    let m = Machine::start(text("a"));
    assert_eq!(m.leftmost_accepting_split(), None);
    assert_eq!(m.leftmost_feasible_split(0), None);
}

#[test]
fn machines_for_parts_do_not_pile_up() {
    let mut m = Machine::start(concat(all(), text("aab")));
    for pos in 0..1000 {
        m.advance(pos, 1, 'a');
        match &m.inner.state {
            State::Concat(_, parts) => assert!(parts.len() <= 3),
            state => panic!("{:?}", state),
        }
    }
    assert_eq!(m.leftmost_feasible_split(1000), Some(998));
    let mut m = Machine::start(repeat(repeat(text("a"))));
    for pos in 0..1000 {
        m.advance(pos, 1, 'a');
    }
    match &m.inner.state {
        State::Heap(parts) => assert_eq!(parts.len(), 1),
        state => panic!("{:?}", state),
    }
}

#[test]
fn shortest_prefix_and_longest_suffix() {
    let s = Substr::from("x\u{e9}12, 345");
    assert_eq!(find_match(&s, all(), repeat1(one())), Some((3, 5)));
    assert_eq!(find_match(&s, all(), text("345")), Some((7, 10)));
    assert_eq!(find_match(&s, all(), text("y")), None);
    assert_eq!(find_match(&s, Box::new(Pattern::Empty), text("x")), Some((0, 1)));
    assert_eq!(find_match(&s, Box::new(Pattern::Empty), one()), None);
    assert_eq!(find_match(&s, all(), Box::new(Pattern::Empty)), Some((1, 1)));
    assert_eq!(find_match(&s, all(), all()), Some((0, 10)));
}

#[test]
fn shortest_prefix_before_the_end() {
    let s = Substr::from("ab12");
    assert_eq!(find_match_end(&s, all(), repeat(one())), Some(2));
    assert_eq!(find_match_end(&s, all(), all()), Some(0));
    assert_eq!(find_match_end(&s, text("ab"), text("1")), None);
    assert_eq!(find_match_end(&s, text("x"), all()), None);
}

fn read(s: &str, command: ReaderCommand) -> (String, Option<String>) {
    let (said, next) = string_reader(Substr::from(s), command);
    let said: Vec<String> = said
        .into_iter()
        .map(|action| match action {
            Action::Signal(name) => format!(".{}", name),
            Action::SendChar(c) => format!("({:?})", c),
            Action::SendString(s) => format!("({:?})", s),
            Action::ProvideString(s) => format!("<> {:?}", s),
            Action::Break => "!".to_owned(),
            action => panic!("{:?}", action),
        })
        .collect();
    (said.join(" "), next.map(|s| s.to_string()))
}

fn said(words: &str, next: Option<&str>) -> (String, Option<String>) {
    (words.to_owned(), next.map(|s| s.to_owned()))
}

#[test]
fn reader_reads_characters() {
    assert_eq!(read("\u{e9}b", ReaderCommand::Char), said(".char ('\u{e9}')", Some("b")));
    assert_eq!(read("", ReaderCommand::Char), said(".end .ok !", None));
    assert_eq!(read("ab", ReaderCommand::Close), said("!", None));
    assert_eq!(read("ab", ReaderCommand::Remainder), said(".ok <> \"ab\"", None));
}

#[test]
fn reader_reads_matches() {
    let numbers = || ReaderCommand::Match(all(), repeat1(one()));
    assert_eq!(read("ab12c", numbers()), said(".match (\"ab\") (\"12\")", Some("c")));
    assert_eq!(read("abc", numbers()), said(".fail", Some("abc")));
    assert_eq!(read("", numbers()), said(".end .ok !", None));
    let rest = || ReaderCommand::MatchEnd(all(), repeat1(one()));
    assert_eq!(read("ab12", rest()), said(".match (\"ab\") (\"12\") !", None));
    assert_eq!(read("ab12c", rest()), said(".fail", Some("ab12c")));
    assert_eq!(read("", rest()), said(".end .ok !", None));
}

#[test]
fn reader_loses_nothing_on_the_way() {
    let commands = vec![
        ReaderCommand::Char,
        ReaderCommand::Match(all(), repeat1(one())),
        ReaderCommand::Match(text("x"), all()),
        ReaderCommand::MatchEnd(repeat(text("a")), text("b")),
    ];
    let mut rest = Some(Substr::from("\u{e9}ab12c3aab"));
    let mut read = String::new();
    for command in commands {
        let (said, next) = string_reader(rest.unwrap(), command);
        for action in said {
            match action {
                Action::SendChar(c) => read.push(c),
                Action::SendString(s) => read.push_str(&s),
                Action::Signal(_) | Action::Break => {}
                action => panic!("{:?}", action),
            }
        }
        rest = next;
    }
    assert_eq!(read, "\u{e9}ab12");
    assert_eq!(rest.unwrap(), "c3aab");
}

#[test]
fn builder_adds_up() {
    let buf = string_builder(String::new(), BuilderCommand::Add(Substr::from("ab"))).unwrap();
    let buf = string_builder(buf, BuilderCommand::Add(Substr::from("c"))).unwrap();
    assert_eq!(buf, "abc");
    match string_builder(buf, BuilderCommand::Build) {
        Err(Action::ProvideString(s)) => assert_eq!(s, "abc"),
        r => panic!("{:?}", r),
    }
}

#[test]
fn quotes() {
    match string_quote(Substr::from("\"\\\n\r\t\0 ~'")) {
        Action::ProvideString(s) => assert_eq!(s, "\"\\\"\\\\\\n\\r\\t\\0 ~'\""),
        action => panic!("{:?}", action),
    }
    match string_quote(Substr::from("\u{e9}\u{7f}")) {
        Action::ProvideString(s) => assert_eq!(s, "\"\u{e9}\\u{7f}\""),
        action => panic!("{:?}", action),
    }
    match string_quote(Substr::from("a\"b\n")) {
        Action::ProvideString(s) => assert_eq!(s, "\"a\\\"b\\n\""),
        action => panic!("{:?}", action),
    }
    match try_string_quote(Substr::from("plain 'text'")) {
        Some(Action::ProvideString(s)) => assert_eq!(s, "\"plain 'text'\""),
        action => panic!("{:?}", action),
    }
}

#[test]
fn names_of_signals() {
    assert_eq!(builder_signal("add"), Some(BuilderSignal::Add));
    assert_eq!(builder_signal("build"), Some(BuilderSignal::Build));
    assert_eq!(builder_signal("Build"), None);
    assert_eq!(reader_signal("close"), Some(ReaderSignal::Close));
    assert_eq!(reader_signal("char"), Some(ReaderSignal::Char));
    assert_eq!(reader_signal("match"), Some(ReaderSignal::Match));
    assert_eq!(reader_signal("matchEnd"), Some(ReaderSignal::MatchEnd));
    assert_eq!(reader_signal("remainder"), Some(ReaderSignal::Remainder));
    assert_eq!(reader_signal(""), None);
    assert_eq!(pattern_signal("repeat1"), Some(PatternSignal::Repeat1));
    assert_eq!(pattern_signal("all"), None);
}

#[test]
fn patterns_read_back() {
    let parts = || vec![text("a"), text("b")];
    let and = Pattern::readback(PatternParts::And(parts()));
    assert_eq!(format!("{:?}", and), "And(Str(\"a\"), And(Str(\"b\"), All))");
    let row = Pattern::readback(PatternParts::Concat(parts()));
    assert_eq!(format!("{:?}", row), "Concat(Str(\"a\"), Concat(Str(\"b\"), Empty))");
    assert_eq!(verdict(row, "ab"), Some(true));
    let or = Pattern::readback(PatternParts::Or(parts()));
    assert_eq!(format!("{:?}", or), "Or(Str(\"a\"), Or(Str(\"b\"), Nil))");
    assert_eq!(verdict(or, "b"), Some(true));
    assert!(matches!(*Pattern::readback(PatternParts::Empty), Pattern::Empty));
    let n = BigInt::from(3);
    assert!(matches!(*Pattern::readback(PatternParts::Length(n)), Pattern::Length(_)));
    assert!(matches!(*Pattern::readback(PatternParts::Non(digits())), Pattern::Non(_)));
    assert!(matches!(*Pattern::readback(PatternParts::One(digits())), Pattern::One(_)));
    assert!(matches!(*Pattern::readback(PatternParts::Repeat(one())), Pattern::Repeat(_)));
    assert!(matches!(*Pattern::readback(PatternParts::Repeat1(one())), Pattern::Repeat1(_)));
    let s = Substr::from("a");
    assert!(matches!(*Pattern::readback(PatternParts::Str(s)), Pattern::Str(_)));
}

#[test]
fn module_of_strings() {
    let module = external_module();
    assert_eq!(module.type_defs.len(), 1);
    assert_eq!(module.type_defs[0].name.primary, "String");
    assert!(matches!(module.type_defs[0].typ, Type::Primitive(_, PrimitiveType::String)));
    assert!(module.declarations.is_empty());
    let names: Vec<&str> =
        module.definitions.iter().map(|d| d.name.primary.as_str()).collect();
    assert_eq!(names, vec!["Builder", "Reader", "Quote"]);
    assert_eq!(module.definitions[1].expression.body, StringExternal::Reader);
    match &module.definitions[1].expression.typ {
        Type::Function(_, arg, result) => {
            assert_eq!(**arg, Type::string());
            match &**result {
                Type::Name(_, name, args) => {
                    assert_eq!(name.primary, "Reader");
                    assert_eq!(*args, vec![Type::either(vec![])]);
                }
                t => panic!("{:?}", t),
            }
        }
        t => panic!("{:?}", t),
    }
}
