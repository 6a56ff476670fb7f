//! The tokens handed from the lexer to the parser.

use vstd::prelude::*;

use crate::location::Location;

verus! {

/// A lexical token.  Identifier and string payloads are byte strings; a
/// float literal carries the IEEE-754 binary64 bit pattern of its value.
#[derive(Clone, PartialEq, Eq, Debug)]
pub enum Token {
    Indent,
    Dedent,
    KeywordAnd,
    KeywordBreak,
    KeywordClass,
    KeywordContinue,
    KeywordDef,
    KeywordElse,
    KeywordFor,
    KeywordFrom,
    KeywordIf,
    KeywordIn,
    KeywordImport,
    KeywordOr,
    KeywordPass,
    KeywordReturn,
    KeywordWhile,
    Identifier { value: Vec<u8> },
    Number { value: i32 },
    Float { bits: u64 },
    Str { value: Vec<u8> },
    Colon,
    OpeningParenthesis,
    ClosingParenthesis,
    OpeningBrace,
    ClosingBrace,
    OpeningBracket,
    ClosingBracket,
    Comma,
    Plus,
    Minus,
    Asterix,
    Slash,
    Less,
    Greater,
    LessEqual,
    GreaterEqual,
    EqualEqual,
    NotEqual,
    Equal,
    Arrow,
    NewLine,
}

/// A token together with the source range it was read from.
#[derive(Clone, PartialEq, Eq, Debug)]
pub struct SpannedToken {
    pub start: Location,
    pub token: Token,
    pub end: Location,
}

} // verus!
