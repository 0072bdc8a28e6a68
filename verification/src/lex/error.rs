//! What the lexer reports in place of a token.

use crate::lex::position::Position;
use vstd::prelude::*;

verus! {

/// The ways in which a text can fail to hold a token.
#[derive(Clone, Copy, Debug, PartialEq, Eq, Structural)]
pub enum LexErrorKind {
    /// A quoted string runs into the end of its line or of the input.
    UnterminatedString,
    /// A long string or long comment is not closed at its own level.
    UnterminatedLongBracket,
    /// A backslash in a quoted string begins no known escape.
    InvalidEscapeSequence,
    /// A numeric literal lacks digits where it needs them.
    InvalidNumberLiteral,
    /// A character with which no token begins.
    UnexpectedCharacter,
}

/// A lexical error: its kind, where the offending text begins and that text.
#[derive(Debug, PartialEq, Clone)]
pub struct LexError {
    pub kind: LexErrorKind,
    pub position: Position,
    pub text: String,
}

impl LexError {
    /// A short description of the kind of error, for a message to the user.
    pub fn describe(&self) -> (out: &'static str)
        ensures
            out@ == describe_kind(self.kind),
    {
        match self.kind {
            LexErrorKind::UnterminatedString => "unterminated string",
            LexErrorKind::UnterminatedLongBracket => "unterminated long bracket",
            LexErrorKind::InvalidEscapeSequence => "invalid escape sequence",
            LexErrorKind::InvalidNumberLiteral => "invalid number literal",
            LexErrorKind::UnexpectedCharacter => "unexpected character",
        }
    }
}

pub open spec fn describe_kind(kind: LexErrorKind) -> Seq<char> {
    match kind {
        LexErrorKind::UnterminatedString => "unterminated string"@,
        LexErrorKind::UnterminatedLongBracket => "unterminated long bracket"@,
        LexErrorKind::InvalidEscapeSequence => "invalid escape sequence"@,
        LexErrorKind::InvalidNumberLiteral => "invalid number literal"@,
        LexErrorKind::UnexpectedCharacter => "unexpected character"@,
    }
}

} // verus!
