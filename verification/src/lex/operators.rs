//! Operators and punctuation.

use crate::lex::cursor::SourceCursor;
use crate::lex::grammar::operator_len;
use crate::lex::token::{operator_of, Token};
use vstd::prelude::*;

verus! {

/// Consumes the longest operator or punctuation mark that is spelled at the
/// cursor. Where none is spelled nothing is consumed.
pub fn scan_operator(cursor: &mut SourceCursor) -> (found: Option<Token>)
    requires
        old(cursor).wf(),
    ensures
        final(cursor).wf(),
        final(cursor).source() == old(cursor).source(),
        final(cursor).index() == old(cursor).index() + operator_len(
            old(cursor).source(),
            old(cursor).index(),
        ),
        match found {
            Some(token) => operator_len(old(cursor).source(), old(cursor).index()) > 0
                && operator_of(
                old(cursor).source().subrange(
                    old(cursor).index(),
                    old(cursor).index() + operator_len(old(cursor).source(), old(cursor).index()),
                ),
            ) == Some(token@),
            None => operator_len(old(cursor).source(), old(cursor).index()) == 0,
        },
{
    let ghost s = cursor.source();
    let ghost i = cursor.index();
    proof {
        cursor.lemma_wf();
        if i + 1 <= s.len() {
            assert(s.subrange(i, i + 1)[0] == s[i]);
        }
        if i + 2 <= s.len() {
            assert(s.subrange(i, i + 2)[0] == s[i]);
            assert(s.subrange(i, i + 2)[1] == s[i + 1]);
        }
        if i + 3 <= s.len() {
            assert(s.subrange(i, i + 3)[0] == s[i]);
            assert(s.subrange(i, i + 3)[1] == s[i + 1]);
            assert(s.subrange(i, i + 3)[2] == s[i + 2]);
        }
    }
    let first: char = match cursor.peek() {
        Some(c) => c,
        None => {
            return None;
        },
    };
    let second: Option<char> = cursor.peek_at(1);
    let (token, length): (Token, usize) = if first == '.' {
        if second == Some('.') {
            if cursor.peek_at(2) == Some('.') {
                (Token::Dots, 3)
            } else {
                (Token::Concat, 2)
            }
        } else {
            (Token::Dot, 1)
        }
    } else if first == '/' {
        if second == Some('/') {
            (Token::Idiv, 2)
        } else {
            (Token::Div, 1)
        }
    } else if first == '<' {
        if second == Some('<') {
            (Token::ShiftL, 2)
        } else if second == Some('=') {
            (Token::LesEq, 2)
        } else {
            (Token::Less, 1)
        }
    } else if first == '>' {
        if second == Some('>') {
            (Token::ShiftR, 2)
        } else if second == Some('=') {
            (Token::GreEq, 2)
        } else {
            (Token::Greater, 1)
        }
    } else if first == '=' {
        if second == Some('=') {
            (Token::Equal, 2)
        } else {
            (Token::Assign, 1)
        }
    } else if first == '~' {
        if second == Some('=') {
            (Token::NotEq, 2)
        } else {
            (Token::BitXor, 1)
        }
    } else if first == ':' {
        if second == Some(':') {
            (Token::DoubColon, 2)
        } else {
            (Token::Colon, 1)
        }
    } else if first == '+' {
        (Token::Add, 1)
    } else if first == '-' {
        (Token::Sub, 1)
    } else if first == '*' {
        (Token::Mul, 1)
    } else if first == '%' {
        (Token::Mod, 1)
    } else if first == '^' {
        (Token::Pow, 1)
    } else if first == '#' {
        (Token::Len, 1)
    } else if first == '&' {
        (Token::BitAnd, 1)
    } else if first == '|' {
        (Token::BitOr, 1)
    } else if first == '(' {
        (Token::ParL, 1)
    } else if first == ')' {
        (Token::ParR, 1)
    } else if first == '{' {
        (Token::CurlyL, 1)
    } else if first == '}' {
        (Token::CurlyR, 1)
    } else if first == '[' {
        (Token::SqurL, 1)
    } else if first == ']' {
        (Token::SqurR, 1)
    } else if first == ';' {
        (Token::SemiColon, 1)
    } else if first == ',' {
        (Token::Comma, 1)
    } else {
        return None;
    };
    cursor.advance_by(length);
    Some(token)
}

} // verus!
