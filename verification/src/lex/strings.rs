//! String literals: quoted, with escapes, and long, without.

use crate::chars::{
    digit_value, digits_value, is_digit, is_hex_digit, lemma_run_end, lemma_run_end_skip,
    lemma_run_end_unique, CharClass,
};
use crate::lex::brackets::{lemma_find_close, scan_long_close};
use crate::lex::cursor::SourceCursor;
use crate::lex::error::{LexError, LexErrorKind};
use crate::lex::grammar::{
    char_of_code, decimal_escape_end, escape_at, long_open, long_string_at, quoted_at, quoted_from,
    Escape,
};
use crate::lex::numbers::lemma_digits_step;
use crate::lex::outcome::{fault, result_matches};
use crate::lex::position::Position;
use crate::lex::token::Token;
use vstd::prelude::*;

verus! {

/// What the scanner made of a backslash and what follows it.
#[derive(Clone, Copy, Debug, PartialEq, Eq)]
pub enum EscapeOutcome {
    /// The escape stands for this character.
    Char(char),
    /// No escape is spelled so.
    Invalid,
    /// The input ends with the backslash.
    Cut,
}

/// The character with the given code.
pub fn char_from_code(code: u8) -> (c: char)
    ensures
        c == char_of_code(code as int),
{
    code as char
}

/// Consumes the digits of a decimal escape, at most three, and returns the
/// number they write.
pub fn scan_decimal_escape(cursor: &mut SourceCursor) -> (code: u16)
    requires
        old(cursor).wf(),
    ensures
        final(cursor).wf(),
        final(cursor).source() == old(cursor).source(),
        final(cursor).index() == decimal_escape_end(old(cursor).source(), old(cursor).index()),
        old(cursor).index() <= final(cursor).index() <= old(cursor).index() + 3,
        code == digits_value(
            old(cursor).source().subrange(old(cursor).index(), final(cursor).index()),
            10,
        ),
{
    let ghost s = cursor.source();
    let ghost first = cursor.index();
    proof {
        cursor.lemma_wf();
        assert(s.subrange(first, first) =~= Seq::<char>::empty());
    }
    let mut code: u16 = 0;
    let mut n: usize = 0;
    let mut more: bool = true;
    while more && n < 3
        invariant
            cursor.wf(),
            cursor.source() == s,
            s == old(cursor).source(),
            first == old(cursor).index(),
            cursor.index() == first + n,
            0 <= first,
            first + n <= s.len(),
            n <= 3,
            n == 0 ==> code == 0,
            n == 1 ==> code <= 9,
            n == 2 ==> code <= 99,
            n == 3 ==> code <= 999,
            code == digits_value(s.subrange(first, first + n), 10),
            forall|j: int| first <= j < first + n ==> CharClass::Digit.spec_contains(#[trigger] s[j]),
            !more ==> (first + n < s.len() ==> !CharClass::Digit.spec_contains(s[first + n])),
        decreases 3 - n + if more { 1int } else { 0int },
    {
        match cursor.peek() {
            Some(d) => {
                if is_digit(d) {
                    proof {
                        lemma_digits_step(s, first, first + n, 10);
                    }
                    code = code * 10 + digit_value(d) as u16;
                    cursor.advance();
                    n = n + 1;
                } else {
                    more = false;
                }
            },
            None => {
                more = false;
            },
        }
    }
    proof {
        if more {
            lemma_run_end_skip(s, first, first + 3, CharClass::Digit);
            lemma_run_end(s, first + 3, CharClass::Digit);
        } else {
            lemma_run_end_unique(s, first, CharClass::Digit, first + n);
        }
    }
    code
}

/// Consumes the escape that begins at the cursor, where a backslash stands.
/// An escape that is not known ends after the character that follows the
/// backslash, or after the digits of a code above 255.
pub fn scan_escape(cursor: &mut SourceCursor) -> (out: EscapeOutcome)
    requires
        old(cursor).wf(),
        old(cursor).index() < old(cursor).source().len(),
    ensures
        final(cursor).wf(),
        final(cursor).source() == old(cursor).source(),
        old(cursor).index() < final(cursor).index(),
        match out {
            EscapeOutcome::Char(ch) => escape_at(old(cursor).source(), old(cursor).index()) == (
            Escape::Char { ch, end: final(cursor).index() }),
            EscapeOutcome::Invalid => escape_at(old(cursor).source(), old(cursor).index()) == (
            Escape::Invalid { end: final(cursor).index() }),
            EscapeOutcome::Cut => escape_at(old(cursor).source(), old(cursor).index())
                == Escape::Cut && final(cursor).index() == old(cursor).source().len(),
        },
{
    proof {
        cursor.lemma_wf();
    }
    cursor.advance();
    match cursor.peek() {
        None => EscapeOutcome::Cut,
        Some(c) => {
            if c == 'n' {
                cursor.advance();
                EscapeOutcome::Char('\n')
            } else if c == 't' {
                cursor.advance();
                EscapeOutcome::Char('\t')
            } else if c == '\\' || c == '"' || c == '\'' || c == '\n' {
                cursor.advance();
                EscapeOutcome::Char(c)
            } else if c == 'x' {
                match (cursor.peek_at(1), cursor.peek_at(2)) {
                    (Some(high), Some(low)) => {
                        if is_hex_digit(high) && is_hex_digit(low) {
                            let code: u8 = 16 * digit_value(high) + digit_value(low);
                            cursor.advance_by(3);
                            EscapeOutcome::Char(char_from_code(code))
                        } else {
                            cursor.advance();
                            EscapeOutcome::Invalid
                        }
                    },
                    _ => {
                        cursor.advance();
                        EscapeOutcome::Invalid
                    },
                }
            } else if is_digit(c) {
                let code: u16 = scan_decimal_escape(cursor);
                if code <= 255 {
                    EscapeOutcome::Char(char_from_code(code as u8))
                } else {
                    EscapeOutcome::Invalid
                }
            } else {
                cursor.advance();
                EscapeOutcome::Invalid
            }
        },
    }
}

/// A quoted string that is closed begins at its opening quote, and so does
/// one that is not; only an escape is reported at its own place. Lexing
/// goes on after the place at which it began.
pub proof fn lemma_quoted_bounds(s: Seq<char>, open: int, quote: char, k: int, text: Seq<char>)
    requires
        0 <= open < k <= s.len(),
    ensures
        ({
            let lexed = quoted_from(s, open, quote, k, text);
            &&& open <= lexed.start < lexed.end <= s.len()
            &&& lexed.item is Ok ==> lexed.start == open
        }),
    decreases s.len() - k,
{
    if k < s.len() && s[k] != quote && s[k] != '\n' {
        if s[k] == '\\' {
            lemma_escape_bounds(s, k);
            match escape_at(s, k) {
                Escape::Char { ch, end } => {
                    lemma_quoted_bounds(s, open, quote, end, text.push(ch));
                },
                _ => {},
            }
        } else {
            lemma_quoted_bounds(s, open, quote, k + 1, text.push(s[k]));
        }
    }
}

/// An escape ends after its backslash and within the text.
pub proof fn lemma_escape_bounds(s: Seq<char>, k: int)
    requires
        0 <= k < s.len(),
    ensures
        match escape_at(s, k) {
            Escape::Char { ch, end } => k + 2 <= end <= s.len(),
            Escape::Invalid { end } => k + 2 <= end <= s.len(),
            Escape::Cut => k + 1 == s.len(),
        },
{
    lemma_run_end(s, k + 1, CharClass::Digit);
}

/// Consumes the quoted string that begins at the cursor, where its opening
/// quote stands.
pub fn scan_quoted(cursor: &mut SourceCursor) -> (out: Result<Token, LexError>)
    requires
        old(cursor).wf(),
        old(cursor).index() < old(cursor).source().len(),
    ensures
        final(cursor).wf(),
        final(cursor).source() == old(cursor).source(),
        result_matches(out, old(cursor).source(), quoted_at(old(cursor).source(), old(cursor).index())),
        final(cursor).index() == quoted_at(old(cursor).source(), old(cursor).index()).end,
        out is Ok ==> quoted_at(old(cursor).source(), old(cursor).index()).start == old(
            cursor,
        ).index(),
{
    let ghost s = cursor.source();
    proof {
        cursor.lemma_wf();
    }
    let open: usize = cursor.consumed();
    let position: Position = cursor.position();
    let quote: char = cursor.get(open);
    proof {
        lemma_quoted_bounds(s, open as int, quote, open + 1, Seq::empty());
    }
    cursor.advance();
    let mut text = String::new();
    loop
        invariant
            cursor.wf(),
            cursor.source() == s,
            s == old(cursor).source(),
            open == old(cursor).index(),
            open < cursor.index() <= s.len() < usize::MAX,
            quote == s[open as int],
            position.is_at(s, open as int),
            quoted_at(s, open as int) == quoted_from(
                s,
                open as int,
                quote,
                cursor.index(),
                text@,
            ),
        decreases s.len() - cursor.index(),
    {
        match cursor.peek() {
            None => {
                return Err(fault(cursor, LexErrorKind::UnterminatedString, open, position));
            },
            Some(c) => {
                if c == quote {
                    cursor.advance();
                    return Ok(Token::String(text));
                } else if c == '\n' {
                    return Err(fault(cursor, LexErrorKind::UnterminatedString, open, position));
                } else if c == '\\' {
                    let at: usize = cursor.consumed();
                    let at_position: Position = cursor.position();
                    match scan_escape(cursor) {
                        EscapeOutcome::Char(ch) => {
                            text.push(ch);
                        },
                        EscapeOutcome::Invalid => {
                            return Err(
                                fault(
                                    cursor,
                                    LexErrorKind::InvalidEscapeSequence,
                                    at,
                                    at_position,
                                ),
                            );
                        },
                        EscapeOutcome::Cut => {
                            return Err(
                                fault(cursor, LexErrorKind::UnterminatedString, open, position),
                            );
                        },
                    }
                    proof {
                        cursor.lemma_wf();
                    }
                } else {
                    cursor.advance();
                    text.push(c);
                }
            },
        }
    }
}

/// Consumes the long string that begins at the cursor, where its opening
/// bracket of `level` stands. Nothing in it is an escape; a newline right
/// after the opening bracket is left out.
pub fn scan_long_string(cursor: &mut SourceCursor, level: usize) -> (out: Result<Token, LexError>)
    requires
        old(cursor).wf(),
        long_open(old(cursor).source(), old(cursor).index()) == Some(level as int),
        old(cursor).index() + level + 2 <= old(cursor).source().len(),
    ensures
        final(cursor).wf(),
        final(cursor).source() == old(cursor).source(),
        result_matches(
            out,
            old(cursor).source(),
            long_string_at(old(cursor).source(), old(cursor).index(), level as int),
        ),
        final(cursor).index() == long_string_at(
            old(cursor).source(),
            old(cursor).index(),
            level as int,
        ).end,
{
    let ghost s = cursor.source();
    proof {
        cursor.lemma_wf();
    }
    let start: usize = cursor.consumed();
    let position: Position = cursor.position();
    cursor.advance_by(level + 2);
    if cursor.peek() == Some('\n') {
        cursor.advance();
    }
    let from: usize = cursor.consumed();
    proof {
        lemma_find_close(s, from as int, level as int);
    }
    match scan_long_close(cursor, level) {
        Some(close) => Ok(Token::String(cursor.text(from, close))),
        None => Err(fault(cursor, LexErrorKind::UnterminatedLongBracket, start, position)),
    }
}

} // verus!
