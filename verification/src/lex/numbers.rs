//! Numeric literals.

use crate::chars::{digit_value, digits_value, lemma_run_end, spec_digit_value, CharClass};
use crate::lex::cursor::SourceCursor;
use crate::lex::error::{LexError, LexErrorKind};
use crate::lex::grammar::{number_at, number_starts};
use crate::lex::outcome::{fault, result_matches};
use crate::lex::position::Position;
use crate::lex::token::Token;
use vstd::prelude::*;

verus! {

/// One more digit multiplies the value by the radix and adds the digit.
pub proof fn lemma_digits_step(s: Seq<char>, a: int, b: int, radix: int)
    requires
        0 <= a <= b < s.len(),
    ensures
        digits_value(s.subrange(a, b + 1), radix) == digits_value(s.subrange(a, b), radix) * radix
            + spec_digit_value(s[b]),
{
    let longer = s.subrange(a, b + 1);
    assert(longer.drop_last() =~= s.subrange(a, b));
    assert(longer.last() == s[b]);
}

/// The value of a sequence of digits is not negative.
pub proof fn lemma_digits_nonnegative(digits: Seq<char>, radix: int)
    requires
        radix >= 1,
    ensures
        digits_value(digits, radix) >= 0,
    decreases digits.len(),
{
    if digits.len() > 0 {
        lemma_digits_nonnegative(digits.drop_last(), radix);
        assert(digits_value(digits.drop_last(), radix) * radix >= 0) by (nonlinear_arith)
            requires
                digits_value(digits.drop_last(), radix) >= 0,
                radix >= 1,
        ;
    }
}

/// Further digits do not make the value smaller.
pub proof fn lemma_digits_grow(s: Seq<char>, a: int, k: int, b: int, radix: int)
    requires
        0 <= a <= k <= b <= s.len(),
        radix >= 1,
    ensures
        0 <= digits_value(s.subrange(a, k), radix) <= digits_value(s.subrange(a, b), radix),
    decreases b - k,
{
    lemma_digits_nonnegative(s.subrange(a, k), radix);
    if k < b {
        lemma_digits_grow(s, a, k, b - 1, radix);
        lemma_digits_step(s, a, b - 1, radix);
        let v = digits_value(s.subrange(a, b - 1), radix);
        assert(v * radix >= v) by (nonlinear_arith)
            requires
                v >= 0,
                radix >= 1,
        ;
    }
}

/// The number that the digits from index `from` to index `to` write in the
/// given radix, if it fits 64 signed bits.
pub fn integer_value(cursor: &SourceCursor, from: usize, to: usize, radix: u8) -> (value: Option<
    i64,
>)
    requires
        cursor.wf(),
        from <= to <= cursor.source().len(),
        radix == 10 || radix == 16,
    ensures
        match value {
            Some(v) => digits_value(cursor.source().subrange(from as int, to as int), radix as int)
                == v,
            None => digits_value(cursor.source().subrange(from as int, to as int), radix as int)
                > i64::MAX,
        },
{
    let ghost s = cursor.source();
    let mut total: u64 = 0;
    let mut k: usize = from;
    assert(s.subrange(from as int, from as int) =~= Seq::<char>::empty());
    while k < to
        invariant
            cursor.wf(),
            s == cursor.source(),
            from <= k <= to <= s.len(),
            radix == 10 || radix == 16,
            total <= i64::MAX,
            total == digits_value(s.subrange(from as int, k as int), radix as int),
        decreases to - k,
    {
        let digit: u8 = digit_value(cursor.get(k));
        let next: u128 = total as u128 * radix as u128 + digit as u128;
        proof {
            lemma_digits_step(s, from as int, k as int, radix as int);
            lemma_digits_grow(s, from as int, k + 1, to as int, radix as int);
            assert(total * radix <= i64::MAX * 16) by (nonlinear_arith)
                requires
                    0 <= total <= i64::MAX,
                    0 <= radix <= 16,
            ;
        }
        if next > i64::MAX as u128 {
            return None;
        }
        total = next as u64;
        k = k + 1;
    }
    Some(total as i64)
}

/// Consumes the numeric literal that begins at the cursor.
pub fn scan_number(cursor: &mut SourceCursor) -> (out: Result<Token, LexError>)
    requires
        old(cursor).wf(),
        number_starts(old(cursor).source(), old(cursor).index()),
    ensures
        final(cursor).wf(),
        final(cursor).source() == old(cursor).source(),
        result_matches(out, old(cursor).source(), number_at(old(cursor).source(), old(cursor).index())),
        final(cursor).index() == number_at(old(cursor).source(), old(cursor).index()).end,
{
    let ghost s = cursor.source();
    proof {
        cursor.lemma_wf();
    }
    let start: usize = cursor.consumed();
    let position: Position = cursor.position();
    let hex: bool = cursor.peek() == Some('0') && (cursor.peek_at(1) == Some('x') || cursor.peek_at(
        1,
    ) == Some('X'));
    let radix: u8 = if hex {
        16
    } else {
        10
    };
    let class: CharClass = if hex {
        CharClass::HexDigit
    } else {
        CharClass::Digit
    };
    if hex {
        cursor.advance_by(2);
    }
    let digits_from: usize = cursor.consumed();
    cursor.skip_while(class);
    let digits_to: usize = cursor.consumed();
    proof {
        lemma_run_end(s, digits_from as int, class);
    }
    let has_fraction: bool = cursor.peek() == Some('.');
    if has_fraction {
        cursor.advance();
        cursor.skip_while(class);
        proof {
            lemma_run_end(s, digits_to + 1, class);
        }
    }
    let fraction_to: usize = cursor.consumed();
    let has_digits: bool = digits_to > digits_from || fraction_to > digits_to + 1;
    if !has_digits {
        return Err(fault(cursor, LexErrorKind::InvalidNumberLiteral, start, position));
    }
    let has_exponent: bool = match cursor.peek() {
        Some(c) => if hex {
            c == 'p' || c == 'P'
        } else {
            c == 'e' || c == 'E'
        },
        None => false,
    };
    if has_exponent {
        cursor.advance();
        if cursor.peek() == Some('+') || cursor.peek() == Some('-') {
            cursor.advance();
        }
        let exponent_from: usize = cursor.consumed();
        cursor.skip_while(CharClass::Digit);
        proof {
            lemma_run_end(s, exponent_from as int, CharClass::Digit);
        }
        if cursor.consumed() == exponent_from {
            return Err(fault(cursor, LexErrorKind::InvalidNumberLiteral, start, position));
        }
    }
    let end: usize = cursor.consumed();
    if !has_fraction && !has_exponent {
        match integer_value(cursor, digits_from, digits_to, radix) {
            Some(value) => {
                return Ok(Token::Integer(value));
            },
            None => {},
        }
    }
    Ok(Token::Float(cursor.text(start, end)))
}

} // verus!
