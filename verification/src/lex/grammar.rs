//! The lexical grammar, as functions on a sequence of characters.
//!
//! Every function here takes the whole text and an index into it. `lex_at`
//! says which token or error begins at an index, once blanks and comments
//! are skipped, and where the next one is to be looked for.

use crate::chars::{
    digits_value, run_end, spec_digit_value, spec_is_digit, spec_is_hex_digit,
    spec_is_name_start, spec_is_space, CharClass,
};
use crate::lex::cursor::char_at;
use crate::lex::error::LexErrorKind;
use crate::lex::token::{keyword_of, operator_of, TokenView};
use vstd::prelude::*;

verus! {

/// What lexing at one index gives: a token or the kind of an error, the
/// index at which the token or the offending text begins, and the index at
/// which lexing goes on.
pub struct Lexed {
    pub item: Result<TokenView, LexErrorKind>,
    pub start: int,
    pub end: int,
}

// ----------------------------------------------------------------------
// Long brackets
// ----------------------------------------------------------------------
/// The level of the long bracket that opens at `i`: a `[`, any number of
/// `=`, and a second `[`. The level is the number of `=`.
pub open spec fn long_open(s: Seq<char>, i: int) -> Option<int> {
    let e = run_end(s, i + 1, CharClass::Equals);
    if 0 <= i && char_at(s, i) == Some('[') && char_at(s, e) == Some('[') {
        Some(e - (i + 1))
    } else {
        None
    }
}

/// Whether a closing long bracket of `level` stands at `k`: a `]`, exactly
/// `level` times `=`, and a second `]`.
pub open spec fn closes_at(s: Seq<char>, k: int, level: int) -> bool {
    &&& char_at(s, k) == Some(']')
    &&& run_end(s, k + 1, CharClass::Equals) == k + 1 + level
    &&& char_at(s, k + 1 + level) == Some(']')
}

/// The first index from `k` on at which a closing long bracket of `level`
/// stands.
pub open spec fn find_close(s: Seq<char>, k: int, level: int) -> Option<int>
    decreases s.len() - k,
{
    if k < 0 || k >= s.len() {
        None
    } else if closes_at(s, k, level) {
        Some(k)
    } else {
        find_close(s, k + 1, level)
    }
}

/// Where the contents of a long string begin whose bracket of `level` opens
/// at `i`: after the bracket and after a newline that follows it at once.
pub open spec fn long_text_start(s: Seq<char>, i: int, level: int) -> int {
    let after = i + level + 2;
    if char_at(s, after) == Some('\n') {
        after + 1
    } else {
        after
    }
}

/// The long string whose bracket of `level` opens at `i`.
pub open spec fn long_string_at(s: Seq<char>, i: int, level: int) -> Lexed {
    let from = long_text_start(s, i, level);
    match find_close(s, from, level) {
        Some(k) => Lexed {
            item: Ok(TokenView::String(s.subrange(from, k))),
            start: i,
            end: k + level + 2,
        },
        None => Lexed {
            item: Err(LexErrorKind::UnterminatedLongBracket),
            start: i,
            end: s.len() as int,
        },
    }
}

// ----------------------------------------------------------------------
// Blanks and comments
// ----------------------------------------------------------------------
/// Whether a comment opens at `i`.
pub open spec fn comment_opens(s: Seq<char>, i: int) -> bool {
    char_at(s, i) == Some('-') && char_at(s, i + 1) == Some('-')
}

/// Where the comment that opens at `i` ends; `None` for a long comment that
/// is never closed. A line comment ends before the newline.
pub open spec fn comment_end(s: Seq<char>, i: int) -> Option<int> {
    match long_open(s, i + 2) {
        Some(level) => match find_close(s, i + 4 + level, level) {
            Some(k) => Some(k + level + 2),
            None => None,
        },
        None => Some(run_end(s, i + 2, CharClass::NotNewline)),
    }
}

/// The first index from `i` on that is neither blank nor inside a comment;
/// or, as the error, the index at which a long comment opens that is never
/// closed. (A comment always ends after the index at which it opens; the
/// definition asks for it only to show that it comes to an end.)
pub open spec fn trivia_end(s: Seq<char>, i: int) -> Result<int, int>
    decreases s.len() - i,
{
    if 0 <= i < s.len() && spec_is_space(s[i]) {
        trivia_end(s, i + 1)
    } else if 0 <= i && comment_opens(s, i) {
        match comment_end(s, i) {
            Some(e) => if i < e <= s.len() {
                trivia_end(s, e)
            } else {
                Ok(i)
            },
            None => Err(i),
        }
    } else {
        Ok(i)
    }
}

// ----------------------------------------------------------------------
// Names and keywords
// ----------------------------------------------------------------------
/// The name or keyword that begins at `i`, where a letter or an underscore
/// stands.
pub open spec fn name_at(s: Seq<char>, i: int) -> Lexed {
    let end = run_end(s, i + 1, CharClass::NamePart);
    let text = s.subrange(i, end);
    Lexed {
        item: Ok(
            match keyword_of(text) {
                Some(keyword) => keyword,
                None => TokenView::Name(text),
            },
        ),
        start: i,
        end,
    }
}

// ----------------------------------------------------------------------
// Numbers
// ----------------------------------------------------------------------
/// Whether a numeric literal begins at `i`: with a digit, or with a point
/// that a digit follows.
pub open spec fn number_starts(s: Seq<char>, i: int) -> bool {
    match char_at(s, i) {
        Some(c) => spec_is_digit(c) || (c == '.' && match char_at(s, i + 1) {
            Some(d) => spec_is_digit(d),
            None => false,
        }),
        None => false,
    }
}

/// Whether `0x` or `0X` stands at `i`.
pub open spec fn hex_prefix_at(s: Seq<char>, i: int) -> bool {
    char_at(s, i) == Some('0') && (char_at(s, i + 1) == Some('x') || char_at(s, i + 1) == Some(
        'X',
    ))
}

/// Whether `c` introduces the exponent of a literal in the given radix.
pub open spec fn is_exponent_mark(c: char, radix: int) -> bool {
    if radix == 16 {
        c == 'p' || c == 'P'
    } else {
        c == 'e' || c == 'E'
    }
}

/// Where the digits of an exponent begin whose mark stands at `mark`: after
/// the mark and an optional sign.
pub open spec fn exponent_digits_start(s: Seq<char>, mark: int) -> int {
    if char_at(s, mark + 1) == Some('+') || char_at(s, mark + 1) == Some('-') {
        mark + 2
    } else {
        mark + 1
    }
}

/// The parts of a numeric literal.
pub struct NumberShape {
    /// 10 or 16.
    pub radix: int,
    /// Where the digits of the integer part begin and end.
    pub digits_from: int,
    pub digits_to: int,
    /// Whether a point follows the integer part.
    pub has_fraction: bool,
    /// Where the fraction ends (`digits_to` without one).
    pub fraction_to: int,
    /// Whether the integer part or the fraction holds a digit.
    pub has_digits: bool,
    /// Whether an exponent mark follows.
    pub has_exponent: bool,
    /// Where the digits of the exponent begin and end.
    pub exponent_from: int,
    pub exponent_to: int,
}

pub open spec fn digit_class(radix: int) -> CharClass {
    if radix == 16 {
        CharClass::HexDigit
    } else {
        CharClass::Digit
    }
}

/// The parts of the numeric literal that begins at `i`.
pub open spec fn number_shape(s: Seq<char>, i: int) -> NumberShape {
    let radix = if hex_prefix_at(s, i) {
        16int
    } else {
        10int
    };
    let digits_from = if radix == 16 {
        i + 2
    } else {
        i
    };
    let digits_to = run_end(s, digits_from, digit_class(radix));
    let has_fraction = char_at(s, digits_to) == Some('.');
    let fraction_to = if has_fraction {
        run_end(s, digits_to + 1, digit_class(radix))
    } else {
        digits_to
    };
    let has_digits = digits_to > digits_from || fraction_to > digits_to + 1;
    let has_exponent = has_digits && match char_at(s, fraction_to) {
        Some(c) => is_exponent_mark(c, radix),
        None => false,
    };
    let exponent_from = exponent_digits_start(s, fraction_to);
    let exponent_to = run_end(s, exponent_from, CharClass::Digit);
    NumberShape {
        radix,
        digits_from,
        digits_to,
        has_fraction,
        fraction_to,
        has_digits,
        has_exponent,
        exponent_from,
        exponent_to,
    }
}

impl NumberShape {
    /// Where the literal ends. A malformed one ends where the missing digits
    /// were looked for.
    pub open spec fn end(self) -> int {
        if self.has_exponent {
            self.exponent_to
        } else {
            self.fraction_to
        }
    }

    /// A literal is well formed if it has a digit before its exponent and,
    /// with an exponent, a digit in it.
    pub open spec fn well_formed(self) -> bool {
        self.has_digits && (self.has_exponent ==> self.exponent_to > self.exponent_from)
    }

    /// A literal without fraction and exponent writes an integer.
    pub open spec fn integral(self) -> bool {
        !self.has_fraction && !self.has_exponent
    }
}

/// The numeric literal that begins at `i`. An integer that does not fit 64
/// signed bits is a float, as is every literal with a fraction or an
/// exponent; a float keeps its text.
pub open spec fn number_at(s: Seq<char>, i: int) -> Lexed {
    let shape = number_shape(s, i);
    let end = shape.end();
    let value = digits_value(s.subrange(shape.digits_from, shape.digits_to), shape.radix);
    Lexed {
        item: if !shape.well_formed() {
            Err(LexErrorKind::InvalidNumberLiteral)
        } else if shape.integral() && value <= i64::MAX {
            Ok(TokenView::Integer(value))
        } else {
            Ok(TokenView::Float(s.subrange(i, end)))
        },
        start: i,
        end,
    }
}

// ----------------------------------------------------------------------
// Quoted strings
// ----------------------------------------------------------------------
/// The character with the given code, for codes up to 255.
pub open spec fn char_of_code(code: int) -> char {
    (code as u8) as char
}

/// What a backslash stands for together with what follows it.
pub enum Escape {
    /// The escape is complete: it stands for `ch` and ends at `end`.
    Char { ch: char, end: int },
    /// No escape is spelled so; the offending text ends at `end`.
    Invalid { end: int },
    /// The input ends with the backslash.
    Cut,
}

/// Where the digits of a decimal escape end whose first digit stands at
/// `from`: after at most three digits.
pub open spec fn decimal_escape_end(s: Seq<char>, from: int) -> int {
    let e = run_end(s, from, CharClass::Digit);
    if e > from + 3 {
        from + 3
    } else {
        e
    }
}

/// The escape whose backslash stands at `k`.
pub open spec fn escape_at(s: Seq<char>, k: int) -> Escape {
    match char_at(s, k + 1) {
        None => Escape::Cut,
        Some(c) => if c == 'n' {
            Escape::Char { ch: '\n', end: k + 2 }
        } else if c == 't' {
            Escape::Char { ch: '\t', end: k + 2 }
        } else if c == '\\' || c == '"' || c == '\'' || c == '\n' {
            Escape::Char { ch: c, end: k + 2 }
        } else if c == 'x' {
            match (char_at(s, k + 2), char_at(s, k + 3)) {
                (Some(high), Some(low)) => if spec_is_hex_digit(high) && spec_is_hex_digit(low) {
                    Escape::Char {
                        ch: char_of_code(16 * spec_digit_value(high) + spec_digit_value(low)),
                        end: k + 4,
                    }
                } else {
                    Escape::Invalid { end: k + 2 }
                },
                _ => Escape::Invalid { end: k + 2 },
            }
        } else if spec_is_digit(c) {
            let end = decimal_escape_end(s, k + 1);
            let code = digits_value(s.subrange(k + 1, end), 10);
            if code <= 255 {
                Escape::Char { ch: char_of_code(code), end }
            } else {
                Escape::Invalid { end }
            }
        } else {
            Escape::Invalid { end: k + 2 }
        },
    }
}

/// The rest of a quoted string: `open` is the index of the opening quote
/// `quote`, `k` the index reached and `text` the contents read so far. An
/// unknown escape is reported at its backslash; a string that is not closed,
/// at its opening quote. (An escape always ends after its backslash; the
/// definition asks for it only to show that it comes to an end.)
pub open spec fn quoted_from(s: Seq<char>, open: int, quote: char, k: int, text: Seq<char>) -> Lexed
    decreases s.len() - k,
{
    if k < 0 || k >= s.len() {
        Lexed { item: Err(LexErrorKind::UnterminatedString), start: open, end: s.len() as int }
    } else if s[k] == quote {
        Lexed { item: Ok(TokenView::String(text)), start: open, end: k + 1 }
    } else if s[k] == '\n' {
        Lexed { item: Err(LexErrorKind::UnterminatedString), start: open, end: k }
    } else if s[k] == '\\' {
        match escape_at(s, k) {
            Escape::Char { ch, end } => if k < end <= s.len() {
                quoted_from(s, open, quote, end, text.push(ch))
            } else {
                Lexed { item: Err(LexErrorKind::InvalidEscapeSequence), start: k, end: k + 1 }
            },
            Escape::Invalid { end } => Lexed {
                item: Err(LexErrorKind::InvalidEscapeSequence),
                start: k,
                end,
            },
            Escape::Cut => Lexed {
                item: Err(LexErrorKind::UnterminatedString),
                start: open,
                end: s.len() as int,
            },
        }
    } else {
        quoted_from(s, open, quote, k + 1, text.push(s[k]))
    }
}

/// The quoted string whose opening quote stands at `i`.
pub open spec fn quoted_at(s: Seq<char>, i: int) -> Lexed {
    quoted_from(s, i, s[i], i + 1, Seq::empty())
}

// ----------------------------------------------------------------------
// Operators and punctuation
// ----------------------------------------------------------------------
/// Whether `s` holds `n` characters from `i` on that spell an operator.
pub open spec fn operator_spelled(s: Seq<char>, i: int, n: int) -> bool {
    0 <= i && 1 <= n && i + n <= s.len() && operator_of(s.subrange(i, i + n)) is Some
}

/// The length of the longest operator that is spelled at `i`: 0 if there is
/// none. No operator is longer than three characters.
pub open spec fn operator_len(s: Seq<char>, i: int) -> int {
    if operator_spelled(s, i, 3) {
        3
    } else if operator_spelled(s, i, 2) {
        2
    } else if operator_spelled(s, i, 1) {
        1
    } else {
        0
    }
}

// ----------------------------------------------------------------------
// One token
// ----------------------------------------------------------------------
/// The token or error that begins at `j`, where neither a blank nor a
/// comment stands.
pub open spec fn token_at(s: Seq<char>, j: int) -> Lexed {
    match char_at(s, j) {
        None => Lexed { item: Ok(TokenView::EndOfInput), start: j, end: j },
        Some(c) => if spec_is_name_start(c) {
            name_at(s, j)
        } else if number_starts(s, j) {
            number_at(s, j)
        } else if c == '"' || c == '\'' {
            quoted_at(s, j)
        } else if long_open(s, j) is Some {
            long_string_at(s, j, long_open(s, j).unwrap())
        } else if operator_len(s, j) > 0 {
            Lexed {
                item: Ok(operator_of(s.subrange(j, j + operator_len(s, j))).unwrap()),
                start: j,
                end: j + operator_len(s, j),
            }
        } else {
            Lexed { item: Err(LexErrorKind::UnexpectedCharacter), start: j, end: j + 1 }
        },
    }
}

/// What lexing at `i` gives: blanks and comments are skipped, then one token
/// is read. At the end of the input that token is `EndOfInput`.
pub open spec fn lex_at(s: Seq<char>, i: int) -> Lexed {
    match trivia_end(s, i) {
        Ok(j) => token_at(s, j),
        Err(j) => Lexed {
            item: Err(LexErrorKind::UnterminatedLongBracket),
            start: j,
            end: s.len() as int,
        },
    }
}

} // verus!
