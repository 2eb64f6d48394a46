use arcstr::ArcStr;
use par_lang::language::{Apply, Command, Construct, Expression, Pattern, Primitive, Process};
use par_lang::location::{FileName, Point, Span};
use par_lang::parse::{
    check_spans, check_tokens, parse_bytes, parse_module, try_parse_bytes, try_parse_module,
    SourceSpan,
};
use par_lang::program::Module;
use par_lang::token::{Token, TokenKind};
use par_lang::types::Type;

fn keyword(word: &str) -> Option<TokenKind> {
    Some(match word {
        "begin" => TokenKind::Begin,
        "box" => TokenKind::Box,
        "case" => TokenKind::Case,
        "catch" => TokenKind::Catch,
        "chan" => TokenKind::Chan,
        "choice" => TokenKind::Choice,
        "dec" => TokenKind::Dec,
        "def" => TokenKind::Def,
        "default" => TokenKind::Default,
        "do" => TokenKind::Do,
        "dual" => TokenKind::Dual,
        "either" => TokenKind::Either,
        "in" => TokenKind::In,
        "iterative" => TokenKind::Iterative,
        "let" => TokenKind::Let,
        "loop" => TokenKind::Loop,
        "recursive" => TokenKind::Recursive,
        "self" => TokenKind::Self_,
        "telltypes" => TokenKind::Telltypes,
        "throw" => TokenKind::Throw,
        "try" => TokenKind::Try,
        "type" => TokenKind::Type,
        "unfounded" => TokenKind::Unfounded,
        _ => return None,
    })
}

fn span(start: usize, end: usize) -> Span {
    let point = |offset: usize| Point { offset: offset as u32, row: 0, column: offset as u32 };
    Span::At { start: point(start), end: point(end), file: FileName(ArcStr::from("Test.par")) }
}

/// The tokens of a text of ASCII characters.
fn lex(text: &str) -> Vec<Token<'_>> {
    let bytes = text.as_bytes();
    let mut tokens = Vec::new();
    let mut i = 0;
    while i < bytes.len() {
        let rest = &text[i..];
        let c = bytes[i] as char;
        if c.is_whitespace() {
            i += 1;
            continue;
        }
        let start = i;
        if c == '"' {
            let mut j = i + 1;
            while bytes[j] != b'"' {
                j += if bytes[j] == b'\\' { 2 } else { 1 };
            }
            tokens.push(Token {
                kind: TokenKind::String,
                raw: &text[i + 1..j],
                span: span(start, j + 1),
            });
            i = j + 1;
            continue;
        }
        if c.is_alphabetic() || c == '_' {
            let len = rest
                .bytes()
                .take_while(|b| b.is_ascii_alphanumeric() || *b == b'_')
                .count();
            let word = &rest[..len];
            let kind = if c.is_uppercase() {
                TokenKind::UppercaseIdentifier
            } else {
                keyword(word).unwrap_or(TokenKind::LowercaseIdentifier)
            };
            i += len;
            tokens.push(Token { kind, raw: word, span: span(start, i) });
            continue;
        }
        let negative = c == '-' && bytes.get(i + 1).map_or(false, |b| b.is_ascii_digit());
        if c.is_ascii_digit() || negative {
            let len = 1
                + rest[1..]
                    .bytes()
                    .take_while(|b| b.is_ascii_digit() || *b == b'_')
                    .count();
            i += len;
            tokens.push(Token { kind: TokenKind::Integer, raw: &rest[..len], span: span(start, i) });
            continue;
        }
        let (kind, len) = if rest.starts_with("<>") {
            (TokenKind::Link, 2)
        } else if rest.starts_with("=>") {
            (TokenKind::FatArrow, 2)
        } else if rest.starts_with("->") {
            (TokenKind::ThinArrow, 2)
        } else {
            let kind = match c {
                '(' => TokenKind::LParen,
                ')' => TokenKind::RParen,
                '{' => TokenKind::LCurly,
                '}' => TokenKind::RCurly,
                '[' => TokenKind::LBrack,
                ']' => TokenKind::RBrack,
                '<' => TokenKind::Lt,
                '>' => TokenKind::Gt,
                '!' => TokenKind::Bang,
                '?' => TokenKind::Quest,
                '*' => TokenKind::Star,
                ':' => TokenKind::Colon,
                ';' => TokenKind::Semicolon,
                ',' => TokenKind::Comma,
                '.' => TokenKind::Dot,
                '=' => TokenKind::Eq,
                '@' => TokenKind::At,
                _ => TokenKind::Invalid,
            };
            (kind, 1)
        };
        i += len;
        tokens.push(Token { kind, raw: &rest[..len], span: span(start, i) });
    }
    tokens
}

fn parse(text: &str) -> Module<Expression> {
    match parse_module(text, &lex(text)) {
        Ok(module) => module,
        Err(e) => panic!("{} at {:?}: {}", e.message(), e.source_span, e.help),
    }
}

fn expression(text: &str) -> Expression {
    let text = format!("def A = {}", text);
    parse(&text).definitions.remove(0).expression
}

fn typ(text: &str) -> Type {
    let text = format!("dec A : {}", text);
    parse(&text).declarations.remove(0).typ
}

fn process(text: &str) -> Process {
    match expression(&format!("chan x {{ {} }}", text)) {
        Expression::Chan { process, .. } => *process,
        e => panic!("{:?}", e),
    }
}

#[test]
fn test_parse_examples() {
    let input = "begin the errors";
    assert!(parse_module(input, &lex(input)).is_err());
}

#[test]
fn nothing_is_an_empty_module() {
    let module = parse("");
    assert!(module.type_defs.is_empty());
    assert!(module.declarations.is_empty());
    assert!(module.definitions.is_empty());
}

#[test]
fn error_at_the_start() {
    let input = "begin the errors";
    let e = parse_module(input, &lex(input)).unwrap_err();
    assert_eq!(e.help, "expected `type`, `dec`, `def`, end of file\n");
    assert_eq!(e.source_span, SourceSpan { offset: 0, length: 5 });
    assert_eq!(e.span(), span(0, 5));
    assert_eq!(e.message(), "Syntax error");
}

#[test]
fn error_of_one_byte_is_pointed_at_as_empty() {
    let input = "def A = )";
    let e = parse_module(input, &lex(input)).unwrap_err();
    assert_eq!(e.source_span, SourceSpan { offset: 8, length: 0 });
    assert_eq!(e.span(), span(8, 9));
}

#[test]
fn error_in_a_group_blames_the_token_in_it() {
    let input = "def A = { )";
    let e = parse_module(input, &lex(input)).unwrap_err();
    assert_eq!(e.source_span, SourceSpan { offset: 10, length: 0 });
    let input = "def A = { one two }";
    let e = parse_module(input, &lex(input)).unwrap_err();
    assert_eq!(e.source_span, SourceSpan { offset: 14, length: 3 });
    assert!(e.help.ends_with("\ninvalid expression\nexpected `}`\n"));
}

#[test]
fn error_at_the_end_blames_the_last_token() {
    let input = "dec Name";
    let e = parse_module(input, &lex(input)).unwrap_err();
    assert_eq!(e.source_span, SourceSpan { offset: 4, length: 4 });
    assert_eq!(e.help, "invalid declaration\nexpected `:`\n");
}

#[test]
fn error_without_a_place_points_at_everything() {
    let tokens = vec![Token { kind: TokenKind::Bang, raw: "!", span: Span::Nowhere }];
    let e = parse_module("! and more", &tokens).unwrap_err();
    assert_eq!(e.source_span, SourceSpan { offset: 0, length: 10 });
    assert_eq!(e.span(), Span::Nowhere);
}

#[test]
fn error_lists_the_alternatives() {
    let input = "dec A : =";
    let e = parse_module(input, &lex(input)).unwrap_err();
    let lines: Vec<&str> = e.help.lines().collect();
    assert_eq!(lines[0], "expected `_`, lower-case alphabetic");
    assert_eq!(lines[1], "expected upper-case alphabetic");
    assert_eq!(lines[2], "expected `box`");
    assert_eq!(lines[11], "expected (type");
    assert_eq!(lines[12], "expected `(`");
    assert_eq!(lines[13], "expected [type");
    assert_eq!(lines[14], "invalid type");
    assert_eq!(lines[15], "expected `[`");
}

#[test]
fn type_definition() {
    let module = parse("type Tree<a, b,> = either { .leaf!, .node(a) self@l }");
    let def = &module.type_defs[0];
    assert_eq!(def.name.primary, "Tree");
    assert_eq!(def.name.module, None);
    assert_eq!(def.params.len(), 2);
    assert_eq!(def.params[0].string.as_str(), "a");
    assert_eq!(def.params[1].string.as_str(), "b");
    assert_eq!(def.span, span(0, 53));
    assert!(matches!(def.typ, Type::Either(..)));
}

#[test]
fn annotated_definition_is_declared() {
    let module = parse("def One : Int = 1 def Two = 2 dec Three : !");
    assert_eq!(module.definitions.len(), 2);
    assert_eq!(module.declarations.len(), 2);
    assert_eq!(module.declarations[0].name.primary, "One");
    assert_eq!(module.declarations[0].span, module.definitions[0].span);
    assert_eq!(module.definitions[0].span, span(0, 17));
    assert_eq!(module.declarations[1].name.primary, "Three");
    assert_eq!(module.definitions[1].name.primary, "Two");
}

#[test]
fn modules_one_after_the_other() {
    let first = "type A = ! def B : A = ! dec C : [a] b def F = f";
    let second = "type D = self@l def E = { x }";
    let (a, b) = (parse(first), parse(second));
    let both = format!("{} {}", first, second);
    let joined = parse(&both);
    let names = |m: &Module<Expression>| {
        let types: Vec<String> = m.type_defs.iter().map(|d| d.name.primary.clone()).collect();
        let decs: Vec<String> = m.declarations.iter().map(|d| d.name.primary.clone()).collect();
        let defs: Vec<String> = m.definitions.iter().map(|d| d.name.primary.clone()).collect();
        (types, decs, defs)
    };
    let (mut all, more) = (names(&a), names(&b));
    all.0.extend(more.0);
    all.1.extend(more.1);
    all.2.extend(more.2);
    assert_eq!(names(&joined), all);
}

#[test]
fn types_sent_at_once_or_in_turn() {
    let parts = |t: Type| match t {
        Type::Pair(outer, a, rest) => match (*a, *rest) {
            (Type::Var(_, a), Type::Pair(inner, b, rest)) => match (*b, *rest) {
                (Type::Var(_, b), Type::Break(_)) => {
                    (outer, inner, a.string.to_string(), b.string.to_string())
                }
                t => panic!("{:?}", t),
            },
            t => panic!("{:?}", t),
        },
        t => panic!("{:?}", t),
    };
    let (outer, inner, a, b) = parts(typ("(a, b) !"));
    assert_eq!((outer, inner), (span(8, 16), span(8, 16)));
    assert_eq!((a.as_str(), b.as_str()), ("a", "b"));
    let (outer, inner, a, b) = parts(typ("(a) (b) !"));
    assert_eq!((outer, inner), (span(8, 17), span(12, 17)));
    assert_eq!((a.as_str(), b.as_str()), ("a", "b"));
}

#[test]
fn names_of_modules() {
    match typ("List.Item<a>") {
        Type::Name(s, name, args) => {
            assert_eq!(name.module.as_deref(), Some("List"));
            assert_eq!(name.primary, "Item");
            assert_eq!(args.len(), 1);
            assert_eq!(s, span(8, 20));
        }
        t => panic!("{:?}", t),
    }
}

#[test]
fn branches_are_sorted_and_the_last_one_counts() {
    match typ("either { .b !, .a ?, .b a }") {
        Type::Either(_, branches) => {
            let names: Vec<&str> = branches.entries.iter().map(|e| e.0.string.as_str()).collect();
            assert_eq!(names, vec!["a", "b"]);
            assert!(matches!(branches.entries[0].1, Type::Continue(_)));
            assert!(matches!(branches.entries[1].1, Type::Var(..)));
            assert_eq!(branches.entries[1].0.span, span(18, 19));
        }
        t => panic!("{:?}", t),
    }
}

#[test]
fn pairs_and_functions_nest_to_the_right() {
    match typ("(a, b) c") {
        Type::Pair(s, first, rest) => {
            assert_eq!(s, span(8, 16));
            assert!(matches!(*first, Type::Var(..)));
            match *rest {
                Type::Pair(s, _, last) => {
                    assert_eq!(s, span(8, 16));
                    assert!(matches!(*last, Type::Var(..)));
                }
                t => panic!("{:?}", t),
            }
        }
        t => panic!("{:?}", t),
    }
    assert!(matches!(typ("[a] b"), Type::Function(..)));
    assert!(matches!(typ("(type a) b"), Type::Exists(..)));
    assert!(matches!(typ("[type a] b"), Type::Forall(..)));
}

#[test]
fn all_kinds_of_types() {
    assert!(matches!(typ("box a"), Type::Box(..)));
    assert!(matches!(typ("dual a"), Type::Dual(..)));
    assert!(matches!(typ("!"), Type::Break(_)));
    assert!(matches!(typ("?"), Type::Continue(_)));
    assert!(matches!(typ("recursive@l a"), Type::Recursive { .. }));
    assert!(matches!(typ("iterative a"), Type::Iterative { .. }));
    match typ("choice { .x => a, .y(a, b) => b, .z(type t) => t }") {
        Type::Choice(_, branches) => {
            assert!(matches!(branches.entries[0].1, Type::Var(..)));
            assert!(matches!(branches.entries[1].1, Type::Function(..)));
            assert!(matches!(branches.entries[2].1, Type::Forall(..)));
        }
        t => panic!("{:?}", t),
    }
    match typ("self@l") {
        Type::Self_(s, Some(label)) => {
            assert_eq!(s, span(8, 14));
            assert_eq!(label.string.as_str(), "l");
        }
        t => panic!("{:?}", t),
    }
}

#[test]
fn integers_with_underscores() {
    match expression("1_000_000") {
        Expression::Primitive(_, Primitive::Int(n)) => assert_eq!(n.to_string(), "1000000"),
        e => panic!("{:?}", e),
    }
    match expression("-12") {
        Expression::Primitive(_, Primitive::Int(n)) => assert_eq!(n.to_string(), "-12"),
        e => panic!("{:?}", e),
    }
}

#[test]
fn strings_with_escapes() {
    match expression(r#""a\n\"b\u{e9}""#) {
        Expression::Primitive(s, Primitive::String(text)) => {
            assert_eq!(text.string, "a\n\"b\u{e9}");
            assert_eq!(s, span(8, 22));
        }
        e => panic!("{:?}", e),
    }
}

#[test]
fn strings_with_all_kinds_of_escapes() {
    match expression(r#""\b\f\n\r\t\v\'\"\\\/\101\x41\u0041""#) {
        Expression::Primitive(_, Primitive::String(text)) => {
            assert_eq!(text.string, "\u{8}\u{c}\n\r\t\u{b}'\"\\/AAA");
        }
        e => panic!("{:?}", e),
    }
    match expression("\"plain\"") {
        Expression::Primitive(_, Primitive::String(text)) => assert_eq!(text.string, "plain"),
        e => panic!("{:?}", e),
    }
}

#[test]
fn bytes_modulo_256() {
    match expression("<<0 1 255 256 257 -1 -256 -257 123456789012345678901234567890>>") {
        Expression::Primitive(_, Primitive::Bytes(bytes)) => {
            assert_eq!(bytes.to_vec(), vec![0, 1, 255, 0, 1, 255, 0, 255, 210]);
        }
        e => panic!("{:?}", e),
    }
    match expression("<<>>") {
        Expression::Primitive(_, Primitive::Bytes(bytes)) => assert!(bytes.is_empty()),
        e => panic!("{:?}", e),
    }
}

#[test]
fn bytes_alone() {
    assert_eq!(parse_bytes(&lex("1 2 300")), Some(vec![1, 2, 44]));
    assert_eq!(parse_bytes(&lex("")), Some(vec![]));
    assert_eq!(parse_bytes(&lex("1 x")), None);
    assert_eq!(try_parse_bytes(&lex("-2")), Some(Some(vec![254])));
}

#[test]
fn tokens_that_denote_nothing() {
    let bad_number = vec![Token { kind: TokenKind::Integer, raw: "x", span: span(0, 1) }];
    assert!(!check_tokens(&bad_number));
    assert!(try_parse_module("x", &bad_number).is_none());
    assert!(try_parse_bytes(&bad_number).is_none());
    let bad_string = vec![Token { kind: TokenKind::String, raw: "\\", span: span(0, 3) }];
    assert!(!check_tokens(&bad_string));
    let bad_span = vec![Token { kind: TokenKind::Bang, raw: "!", span: span(1, 0) }];
    assert!(check_tokens(&bad_span));
    assert!(!check_spans(&bad_span));
    assert!(try_parse_module("!", &bad_span).is_none());
    let text = "def A = 1";
    assert!(try_parse_module(text, &lex(text)).unwrap().is_ok());
}

#[test]
fn lists() {
    match expression("*(1, 2, 3,)") {
        Expression::List(s, items) => {
            assert_eq!(items.len(), 3);
            assert_eq!(s, span(8, 19));
        }
        e => panic!("{:?}", e),
    }
    match expression("*()") {
        Expression::List(_, items) => assert!(items.is_empty()),
        e => panic!("{:?}", e),
    }
}

#[test]
fn all_kinds_of_expressions() {
    assert!(matches!(expression("let x = 1 in x"), Expression::Let { .. }));
    assert!(matches!(expression("catch@l e => 1 in 2"), Expression::Catch { .. }));
    assert!(matches!(expression("throw@l 1"), Expression::Throw(..)));
    assert!(matches!(expression("do { x! } in 2"), Expression::Do { .. }));
    assert!(matches!(expression("box 1"), Expression::Box(..)));
    assert!(matches!(expression("chan x { x! }"), Expression::Chan { .. }));
    assert!(matches!(expression("Name"), Expression::Global(..)));
    assert!(matches!(expression("name"), Expression::Variable(..)));
    assert!(matches!(expression("{ 1 }"), Expression::Grouped(..)));
}

#[test]
fn all_kinds_of_constructions() {
    let construct = |text: &str| match expression(text) {
        Expression::Construction(c) => c,
        e => panic!("{:?}", e),
    };
    assert!(matches!(construct("!"), Construct::Break(_)));
    assert!(matches!(construct("(1, 2) !"), Construct::Send(..)));
    assert!(matches!(construct("[x, y] x"), Construct::Receive(..)));
    assert!(matches!(construct("(type a) !"), Construct::SendType(..)));
    assert!(matches!(construct("[type a] !"), Construct::ReceiveType(..)));
    assert!(matches!(construct(".some 1"), Construct::Signal(..)));
    assert!(matches!(construct("begin@l !"), Construct::Begin { unfounded: false, .. }));
    assert!(matches!(construct("unfounded !"), Construct::Begin { unfounded: true, .. }));
    assert!(matches!(construct("loop@l"), Construct::Loop(..)));
    assert!(matches!(
        construct("case { .a => 1, .b(x) => 2, .c(type t) => 3 }"),
        Construct::Case(..)
    ));
}

#[test]
fn all_kinds_of_applications() {
    let apply = |text: &str| match expression(text) {
        Expression::Application(_, _, a) => a,
        e => panic!("{:?}", e),
    };
    assert!(matches!(apply("f(1, 2)"), Apply::Send(..)));
    assert!(matches!(apply("f(type a)"), Apply::SendType(..)));
    assert!(matches!(apply("f.x"), Apply::Signal(..)));
    assert!(matches!(apply("f.begin@l.x"), Apply::Begin { unfounded: false, .. }));
    assert!(matches!(apply("f.unfounded"), Apply::Begin { unfounded: true, .. }));
    assert!(matches!(apply("f.loop"), Apply::Loop(..)));
    assert!(matches!(apply("f.try@l"), Apply::Try(..)));
    assert!(matches!(apply("f.default(1)"), Apply::Default(..)));
    assert!(matches!(apply("f->G"), Apply::Pipe(..)));
    assert!(matches!(
        apply(
            "f.case { .a x => 1, .b(y) z => 2, .c(type t) z => 3, .d! => 4, \
             .e try z => 5, .f default(1) z => 6 }"
        ),
        Apply::Case(..)
    ));
}

#[test]
fn application_ends_where_its_operand_ends() {
    match expression("f(1)") {
        Expression::Application(s, _, Apply::Send(_, _, rest)) => {
            assert_eq!(s, span(8, 12));
            assert_eq!(*rest, Apply::Noop(span(12, 12)));
        }
        e => panic!("{:?}", e),
    }
}

#[test]
fn all_kinds_of_processes() {
    assert!(matches!(process("let y = 1 x!"), Process::Let { .. }));
    assert!(matches!(process("catch e => { x! } x!"), Process::Catch { .. }));
    assert!(matches!(process("throw@l 1"), Process::Throw(..)));
    assert!(matches!(process("telltypes x!"), Process::Telltypes(..)));
    assert!(matches!(process("Name!"), Process::GlobalCommand(..)));
    assert!(matches!(process("x!"), Process::Command(..)));
    assert!(matches!(process(""), Process::Noop(_)));
}

#[test]
fn all_kinds_of_commands() {
    let command = |text: &str| match process(&format!("x{}", text)) {
        Process::Command(_, c) => c,
        p => panic!("{:?}", p),
    };
    assert!(matches!(command(" <> 1"), Command::Link(..)));
    assert!(matches!(command("(1, 2)!"), Command::Send(..)));
    assert!(matches!(command("[y]!"), Command::Receive(..)));
    assert!(matches!(command("(type a)!"), Command::SendType(..)));
    assert!(matches!(command("[type a]!"), Command::ReceiveType(..)));
    assert!(matches!(command(".y!"), Command::Signal(..)));
    assert!(matches!(command("!"), Command::Break(_)));
    assert!(matches!(command("? y!"), Command::Continue(..)));
    assert!(matches!(command(".begin!"), Command::Begin { unfounded: false, .. }));
    assert!(matches!(command(".unfounded@l!"), Command::Begin { unfounded: true, .. }));
    assert!(matches!(command(".loop@l"), Command::Loop(..)));
    assert!(matches!(command(".try@l!"), Command::Try(..)));
    assert!(matches!(command(".default(1)!"), Command::Default(..)));
    assert!(matches!(command("->G!"), Command::Pipe(..)));
    assert!(matches!(command("; y!"), Command::Then(_)));
    assert!(matches!(command(""), Command::Then(_)));
    match command(
        ".case { .a => { x! }, .b y => {}, .c! => {}, .d(y) => {}, .e(type t) => {}, \
         .f try => {}, .g default(1) => {} } let z = 1",
    ) {
        Command::Case(_, branches, rest) => {
            assert_eq!(branches.0.entries.len(), 7);
            assert!(matches!(rest.as_deref(), Some(Process::Let { .. })));
        }
        c => panic!("{:?}", c),
    }
}

#[test]
fn all_kinds_of_patterns() {
    let pattern = |text: &str| match expression(&format!("let {} = 1 in 2", text)) {
        Expression::Let { pattern, .. } => pattern,
        e => panic!("{:?}", e),
    };
    assert!(matches!(pattern("x"), Pattern::Name(_, _, None)));
    assert!(matches!(pattern("x: Int"), Pattern::Name(_, _, Some(_))));
    assert!(matches!(pattern("(x, y) z"), Pattern::Receive(..)));
    assert!(matches!(pattern("!"), Pattern::Continue(_)));
    assert!(matches!(pattern("(type a) x"), Pattern::ReceiveType(..)));
    assert!(matches!(pattern("try@l x"), Pattern::Try(..)));
    assert!(matches!(pattern("default(1) x"), Pattern::Default(..)));
}
