//! The scanner: one token for each call.

use crate::lex::brackets::long_open_level;
use crate::chars::{is_digit, is_name_start};
use crate::lex::cursor::SourceCursor;
use crate::lex::error::{LexError, LexErrorKind};
use crate::lex::grammar::lex_at;
use crate::lex::names::scan_name;
use crate::lex::numbers::scan_number;
use crate::lex::operators::scan_operator;
use crate::lex::outcome::{fault, result_matches};
use crate::lex::position::Position;
use crate::lex::strings::{scan_long_string, scan_quoted};
use crate::lex::token::Token;
use crate::lex::trivia::skip_trivia;
use vstd::prelude::*;

verus! {

/// Reads the tokens of one source text, one for each call of `scan`. It owns
/// the cursor over that text.
pub struct Tokenizer {
    cursor: SourceCursor,
    /// Where the token or error that `scan` returned last begins.
    start: Position,
    start_index: Ghost<int>,
}

impl Tokenizer {
    /// The whole text.
    pub closed spec fn source(&self) -> Seq<char> {
        self.cursor.source()
    }

    /// The index from which the next token is looked for.
    pub closed spec fn index(&self) -> int {
        self.cursor.index()
    }

    /// The index at which the token or error that `scan` returned last
    /// begins; 0 before the first call.
    pub closed spec fn last_start(&self) -> int {
        self.start_index@
    }

    pub closed spec fn wf(&self) -> bool {
        &&& self.cursor.wf()
        &&& self.start.is_at(self.cursor.source(), self.start_index@)
    }

    /// What well-formedness means to a caller.
    pub proof fn lemma_wf(&self)
        requires
            self.wf(),
        ensures
            0 <= self.index() <= self.source().len() < usize::MAX,
    {
        self.cursor.lemma_wf();
    }

    /// A tokenizer at the start of `input`, which has to be shorter than the
    /// largest `usize`.
    pub fn new(input: &str) -> (tokenizer: Tokenizer)
        requires
            input.len() < usize::MAX,
        ensures
            tokenizer.wf(),
            tokenizer.source() == input@,
            tokenizer.index() == 0,
            tokenizer.last_start() == 0,
    {
        let cursor = SourceCursor::new(input);
        let start: Position = cursor.position();
        Tokenizer { cursor, start, start_index: Ghost(0) }
    }

    /// Where the scan stands: the position of the first character that no
    /// token has taken yet.
    pub fn position(&self) -> (p: Position)
        requires
            self.wf(),
        ensures
            p.is_at(self.source(), self.index()),
    {
        self.cursor.position()
    }

    /// Where the token or error that `scan` returned last begins.
    pub fn token_position(&self) -> (p: Position)
        requires
            self.wf(),
        ensures
            p.is_at(self.source(), self.last_start()),
    {
        self.start
    }

    /// Skips blanks and comments and reads one token. At the end of the input
    /// the token is `EndOfInput`, on every call. An error leaves the scan
    /// behind the offending text, so that the next call goes on from there.
    pub fn scan(&mut self) -> (out: Result<Token, LexError>)
        requires
            old(self).wf(),
        ensures
            final(self).wf(),
            final(self).source() == old(self).source(),
            result_matches(out, old(self).source(), lex_at(old(self).source(), old(self).index())),
            final(self).index() == lex_at(old(self).source(), old(self).index()).end,
            final(self).last_start() == lex_at(old(self).source(), old(self).index()).start,
    {
        let ghost s = self.cursor.source();
        let ghost lexed = lex_at(s, self.cursor.index());
        match skip_trivia(&mut self.cursor) {
            Err(error) => {
                self.start = error.position;
                self.start_index = Ghost(lexed.start);
                return Err(error);
            },
            Ok(()) => {},
        }
        proof {
            self.cursor.lemma_wf();
        }
        let start: usize = self.cursor.consumed();
        let position: Position = self.cursor.position();
        let out: Result<Token, LexError> = match self.cursor.peek() {
            None => Ok(Token::EndOfInput),
            Some(c) => {
                if is_name_start(c) {
                    Ok(scan_name(&mut self.cursor))
                } else if is_digit(c) || (c == '.' && match self.cursor.peek_at(1) {
                    Some(d) => is_digit(d),
                    None => false,
                }) {
                    scan_number(&mut self.cursor)
                } else if c == '"' || c == '\'' {
                    scan_quoted(&mut self.cursor)
                } else {
                    match long_open_level(&self.cursor) {
                        Some(level) => scan_long_string(&mut self.cursor, level),
                        None => match scan_operator(&mut self.cursor) {
                            Some(token) => Ok(token),
                            None => {
                                self.cursor.advance();
                                Err(
                                    fault(
                                        &self.cursor,
                                        LexErrorKind::UnexpectedCharacter,
                                        start,
                                        position,
                                    ),
                                )
                            },
                        },
                    }
                }
            },
        };
        let at: Position = match &out {
            Ok(_) => position,
            Err(error) => error.position,
        };
        self.start = at;
        self.start_index = Ghost(lexed.start);
        out
    }
}

} // verus!
