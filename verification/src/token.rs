//! The tokens that source text is made of.
use crate::location::Span;
use crate::model;
use vstd::prelude::*;

verus! {

/// The kinds of tokens.
#[derive(Debug, Clone, Copy, PartialEq, Eq, Structural)]
pub enum TokenKind {
    LParen,
    RParen,
    LCurly,
    RCurly,
    LBrack,
    RBrack,
    Lt,
    Gt,
    Bang,
    Quest,
    Star,
    Link,
    Colon,
    Semicolon,
    Comma,
    Dot,
    Eq,
    FatArrow,
    ThinArrow,
    At,
    Integer,
    String,
    LowercaseIdentifier,
    UppercaseIdentifier,
    Begin,
    Box,
    Case,
    Catch,
    Chan,
    Choice,
    Dec,
    Def,
    Default,
    Do,
    Dual,
    Either,
    In,
    Iterative,
    Let,
    Loop,
    Recursive,
    Self_,
    Telltypes,
    Throw,
    Try,
    Type,
    Unfounded,
    Invalid,
}

impl TokenKind {
    /// The text of the tokens of this kind, or what they are called.
    pub open spec fn expected_text(&self) -> &'static str {
        match self {
            TokenKind::LParen => "(",
            TokenKind::RParen => ")",
            TokenKind::LCurly => "{",
            TokenKind::RCurly => "}",
            TokenKind::LBrack => "[",
            TokenKind::RBrack => "]",
            TokenKind::Lt => "<",
            TokenKind::Gt => ">",
            TokenKind::Bang => "!",
            TokenKind::Quest => "?",
            TokenKind::Star => "*",
            TokenKind::Link => "<>",
            TokenKind::Colon => ":",
            TokenKind::Semicolon => ";",
            TokenKind::Comma => ",",
            TokenKind::Dot => ".",
            TokenKind::Eq => "=",
            TokenKind::FatArrow => "=>",
            TokenKind::ThinArrow => "->",
            TokenKind::At => "@",
            TokenKind::Integer => "integer",
            TokenKind::String => "string",
            TokenKind::LowercaseIdentifier => "lower-case identifier",
            TokenKind::UppercaseIdentifier => "upper-case identifier",
            TokenKind::Begin => "begin",
            TokenKind::Box => "box",
            TokenKind::Case => "case",
            TokenKind::Catch => "catch",
            TokenKind::Chan => "chan",
            TokenKind::Choice => "choice",
            TokenKind::Dec => "dec",
            TokenKind::Def => "def",
            TokenKind::Default => "default",
            TokenKind::Do => "do",
            TokenKind::Dual => "dual",
            TokenKind::Either => "either",
            TokenKind::In => "in",
            TokenKind::Iterative => "iterative",
            TokenKind::Let => "let",
            TokenKind::Loop => "loop",
            TokenKind::Recursive => "recursive",
            TokenKind::Self_ => "self",
            TokenKind::Telltypes => "telltypes",
            TokenKind::Throw => "throw",
            TokenKind::Try => "try",
            TokenKind::Type => "type",
            TokenKind::Unfounded => "unfounded",
            TokenKind::Invalid => "invalid",
        }
    }

    /// The text of the tokens of this kind, or what they are called.
    #[verifier::when_used_as_spec(expected_text)]
    pub fn expected(&self) -> (r: &'static str)
        ensures
            r == self.expected_text(),
    {
        match self {
            TokenKind::LParen => "(",
            TokenKind::RParen => ")",
            TokenKind::LCurly => "{",
            TokenKind::RCurly => "}",
            TokenKind::LBrack => "[",
            TokenKind::RBrack => "]",
            TokenKind::Lt => "<",
            TokenKind::Gt => ">",
            TokenKind::Bang => "!",
            TokenKind::Quest => "?",
            TokenKind::Star => "*",
            TokenKind::Link => "<>",
            TokenKind::Colon => ":",
            TokenKind::Semicolon => ";",
            TokenKind::Comma => ",",
            TokenKind::Dot => ".",
            TokenKind::Eq => "=",
            TokenKind::FatArrow => "=>",
            TokenKind::ThinArrow => "->",
            TokenKind::At => "@",
            TokenKind::Integer => "integer",
            TokenKind::String => "string",
            TokenKind::LowercaseIdentifier => "lower-case identifier",
            TokenKind::UppercaseIdentifier => "upper-case identifier",
            TokenKind::Begin => "begin",
            TokenKind::Box => "box",
            TokenKind::Case => "case",
            TokenKind::Catch => "catch",
            TokenKind::Chan => "chan",
            TokenKind::Choice => "choice",
            TokenKind::Dec => "dec",
            TokenKind::Def => "def",
            TokenKind::Default => "default",
            TokenKind::Do => "do",
            TokenKind::Dual => "dual",
            TokenKind::Either => "either",
            TokenKind::In => "in",
            TokenKind::Iterative => "iterative",
            TokenKind::Let => "let",
            TokenKind::Loop => "loop",
            TokenKind::Recursive => "recursive",
            TokenKind::Self_ => "self",
            TokenKind::Telltypes => "telltypes",
            TokenKind::Throw => "throw",
            TokenKind::Try => "try",
            TokenKind::Type => "type",
            TokenKind::Unfounded => "unfounded",
            TokenKind::Invalid => "invalid",
        }
    }
}

/// A token: its kind, its text (for a string, what stands between the quotes) and its place.
#[derive(Debug, PartialEq)]
pub struct Token<'i> {
    pub kind: TokenKind,
    pub raw: &'i str,
    pub span: Span,
}

impl<'i> View for Token<'i> {
    type V = model::Token;

    open spec fn view(&self) -> model::Token {
        model::Token { kind: self.kind, raw: self.raw@, span: self.span@ }
    }
}

impl<'i> DeepView for Token<'i> {
    type V = model::Token;

    open spec fn deep_view(&self) -> model::Token {
        self@
    }
}

} // verus!
