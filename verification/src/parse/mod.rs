//! The parser: from the tokens of a source text to a module.
pub mod error;
pub mod frame;
pub mod grammar;
pub mod laws;
pub mod meaning;
pub mod outcome;
pub mod parser;
pub mod places;
pub mod report;

use crate::big_int::int_parse_bytes;
use crate::escape::unescape;
use crate::language::Expression;
use crate::location::Span;
use crate::model;
use crate::program::Module;
use crate::sub_text::byte_len;
use crate::token::{Token, TokenKind};
use error::{ErrorModel, MyError};
use grammar::expressions::literal_bytes_inner;
use grammar::items::program;
use grammar::{token_is_valid, tokens_are_valid};
use laws::empty_program;
use outcome::Outcome;
use parser::expressions::strip_underscores;
use parser::Parser;
use report::{context_error_text, context_text};
use vstd::prelude::*;

verus! {

/// A stretch of a source text: where it starts and how long it is, in bytes.
#[derive(Debug, Clone, Copy, PartialEq, Eq)]
pub struct SourceSpan {
    pub offset: usize,
    pub length: usize,
}

/// Where a source text is wrong and what was expected there.
#[derive(Debug, PartialEq)]
pub struct SyntaxError {
    pub source_span: SourceSpan,
    pub help: String,
    pub span: Span,
}

impl SyntaxError {
    /// What the error is called.
    pub fn message(&self) -> (r: String)
        ensures
            r@ == "Syntax error"@,
    {
        "Syntax error".to_owned()
    }

    /// The stretch of the source that is wrong.
    pub fn span(&self) -> (r: Span)
        ensures
            r@ == self.span@,
    {
        self.span.clone()
    }
}

/// Whether no token ends before it starts.
pub open spec fn spans_are_ordered(ts: Seq<model::Token>) -> bool {
    forall|i: int| 0 <= i < ts.len() ==> (#[trigger] ts[i]).span.is_ordered()
}

/// The token to blame for a failure at the place `at`: the one there, or the last one.
pub open spec fn blamed(ts: Seq<model::Token>, at: int) -> model::Token {
    if at < ts.len() {
        ts[at]
    } else {
        ts.last()
    }
}

/// Whether `token` is one of the tokens `ts`.
pub open spec fn is_token_of(ts: Seq<model::Token>, token: model::Token) -> bool {
    exists|i: int| 0 <= i < ts.len() && #[trigger] ts[i] == token
}

/// The stretch of a text of `size` bytes to point at. A stretch of one byte is pointed at
/// as an empty one, which is easier to see.
pub open spec fn pointed_at(span: model::Span, size: nat) -> (int, int) {
    match span {
        model::Span::Nowhere => (0, size as int),
        model::Span::At { start, .. } => (
            start.offset as int,
            if span.len() == 1 {
                0
            } else {
                span.len()
            },
        ),
    }
}

/// A stretch that is pointed at is never one byte long, unless the text is as a whole.
pub proof fn not_pointed_at_one_byte(span: model::Span, size: nat)
    ensures
        pointed_at(span, size).1 == 1 ==> span is Nowhere && size == 1,
{
}

/// The failures put into words, each on lines of its own.
pub open spec fn help_text(error: ErrorModel) -> Seq<char>
    decreases error.len(),
{
    if error.len() == 0 {
        Seq::empty()
    } else {
        help_text(error.drop_last()) + context_text(error.last().1) + seq!['\n']
    }
}

impl SyntaxError {
    /// Whether this reports the failure `error` at the place `at` of the tokens `ts` of a
    /// text of `size` bytes.
    pub open spec fn reports(
        self,
        ts: Seq<model::Token>,
        size: nat,
        at: int,
        error: ErrorModel,
    ) -> bool {
        let pointed = pointed_at(blamed(ts, at).span, size);
        &&& self.span@ == blamed(ts, at).span
        &&& self.source_span.offset == pointed.0
        &&& self.source_span.length == pointed.1
        &&& self.help@ == help_text(error)
    }
}

/// The failures put into words, each on lines of its own.
fn help(error: &MyError) -> (r: String)
    ensures
        r@ == help_text(error.model()),
{
    let mut r = String::new();
    let ghost all = error.model();
    assert(all.take(0) =~= Seq::empty());
    let mut i: usize = 0;
    while i < error.context.len()
        invariant
            i <= error.context@.len(),
            all == error.model(),
            r@ == help_text(all.take(i as int)),
        decreases error.context@.len() - i,
    {
        proof {
            let next = all.take(i + 1);
            assert(next.drop_last() =~= all.take(i as int));
            assert(next.last() == all[i as int]);
            reveal_strlit("\n");
            assert("\n"@ =~= seq!['\n']);
        }
        let text = context_error_text(&error.context[i].1.context);
        r.append(text.as_str());
        r.append("\n");
        i = i + 1;
    }
    assert(all.take(all.len() as int) =~= all);
    r
}

/// Parses a module from the tokens of the text `input`.
pub fn parse_module(input: &str, tokens: &Vec<Token>) -> (r: Result<
    Module<Expression>,
    SyntaxError,
>)
    requires
        tokens_are_valid(tokens.deep_view()),
        spans_are_ordered(tokens.deep_view()),
    ensures
        match (program(tokens.deep_view()), r) {
            (Outcome::Done(_, module), Ok(m)) => m.deep_view() == module,
            (Outcome::Failed { at, error, .. }, Err(e)) => {
                &&& e.reports(tokens.deep_view(), byte_len(input@), at, error)
                &&& is_token_of(tokens.deep_view(), blamed(tokens.deep_view(), at))
            },
            _ => false,
        },
{
    let parser = Parser { tokens };
    let ghost ts = tokens.deep_view();
    let e = match parser.program() {
        Ok(module) => return Ok(module),
        Err(e) => e,
    };
    proof {
        if ts.len() == 0 {
            assert(ts =~= Seq::empty());
            empty_program();
        }
    }
    let token = if e.offset < tokens.len() {
        &tokens[e.offset]
    } else {
        &tokens[tokens.len() - 1]
    };
    assert(token@ == blamed(ts, e.offset as int));
    let source_span = match &token.span {
        Span::Nowhere => SourceSpan { offset: 0, length: input.as_bytes().len() },
        Span::At { start, .. } => SourceSpan {
            offset: start.offset as usize,
            length: if token.span.len() == 1 {
                0
            } else {
                token.span.len() as usize
            },
        },
    };
    Err(SyntaxError { source_span, help: help(&e.error), span: token.span.clone() })
}

/// The bytes that tokens denote: a number each, and nothing else.
pub open spec fn bytes_of(ts: Seq<model::Token>) -> Option<Seq<u8>> {
    match literal_bytes_inner(ts, 0) {
        Outcome::Done(end, bytes) => if end == ts.len() {
            Some(bytes)
        } else {
            None
        },
        Outcome::Failed { .. } => None,
    }
}

/// Parses bytes, written as numbers, from tokens.
pub fn parse_bytes(tokens: &Vec<Token>) -> (r: Option<Vec<u8>>)
    requires
        tokens_are_valid(tokens.deep_view()),
    ensures
        match r {
            Some(bytes) => bytes_of(tokens.deep_view()) == Some(bytes@),
            None => bytes_of(tokens.deep_view()) is None,
        },
{
    let parser = Parser { tokens };
    match parser.literal_bytes_inner(0) {
        Ok((end, bytes)) => if end == tokens.len() {
            assert(bytes.deep_view() =~= bytes@);
            Some(bytes)
        } else {
            None
        },
        Err(_) => None,
    }
}

/// Whether the tokens of literals denote values.
pub fn check_tokens(tokens: &Vec<Token>) -> (r: bool)
    ensures
        r == tokens_are_valid(tokens.deep_view()),
{
    let ghost ts = tokens.deep_view();
    let mut i: usize = 0;
    while i < tokens.len()
        invariant
            i <= tokens@.len(),
            ts == tokens.deep_view(),
            forall|j: int| 0 <= j < i ==> #[trigger] token_is_valid(ts[j]),
        decreases tokens@.len() - i,
    {
        let token = &tokens[i];
        assert(ts[i as int] == token@);
        let valid = match token.kind {
            TokenKind::Integer => int_parse_bytes(
                strip_underscores(token.raw).as_str(),
            ).is_some(),
            TokenKind::String => unescape(token.raw).is_ok(),
            _ => true,
        };
        if !valid {
            assert(!token_is_valid(ts[i as int]));
            return false;
        }
        i = i + 1;
    }
    true
}

/// Whether no token ends before it starts.
pub fn check_spans(tokens: &Vec<Token>) -> (r: bool)
    ensures
        r == spans_are_ordered(tokens.deep_view()),
{
    let ghost ts = tokens.deep_view();
    let mut i: usize = 0;
    while i < tokens.len()
        invariant
            i <= tokens@.len(),
            ts == tokens.deep_view(),
            forall|j: int| 0 <= j < i ==> (#[trigger] ts[j]).span.is_ordered(),
        decreases tokens@.len() - i,
    {
        assert(ts[i as int] == tokens[i as int]@);
        let ordered = match &tokens[i].span {
            Span::Nowhere => true,
            Span::At { start, end, .. } => start.offset <= end.offset,
        };
        if !ordered {
            return false;
        }
        i = i + 1;
    }
    true
}

/// Parses a module from the tokens of the text `input`, if the tokens of its literals denote
/// values and none ends before it starts.
pub fn try_parse_module(input: &str, tokens: &Vec<Token>) -> (r: Option<
    Result<Module<Expression>, SyntaxError>,
>)
    ensures
        r is Some <==> tokens_are_valid(tokens.deep_view()) && spans_are_ordered(
            tokens.deep_view(),
        ),
        r matches Some(r) ==> match (program(tokens.deep_view()), r) {
            (Outcome::Done(_, module), Ok(m)) => m.deep_view() == module,
            (Outcome::Failed { at, error, .. }, Err(e)) => {
                &&& e.reports(tokens.deep_view(), byte_len(input@), at, error)
                &&& is_token_of(tokens.deep_view(), blamed(tokens.deep_view(), at))
            },
            _ => false,
        },
{
    if check_tokens(tokens) && check_spans(tokens) {
        Some(parse_module(input, tokens))
    } else {
        None
    }
}

/// Parses bytes, written as numbers, from tokens, if the tokens of literals denote values.
pub fn try_parse_bytes(tokens: &Vec<Token>) -> (r: Option<Option<Vec<u8>>>)
    ensures
        r is Some <==> tokens_are_valid(tokens.deep_view()),
        r matches Some(Some(bytes)) ==> bytes_of(tokens.deep_view()) == Some(bytes@),
        r matches Some(None) ==> bytes_of(tokens.deep_view()) is None,
{
    if check_tokens(tokens) {
        Some(parse_bytes(tokens))
    } else {
        None
    }
}

} // verus!
