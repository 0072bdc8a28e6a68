//! What holds of the grammar as a whole.

use crate::chars::{
    digits_value, lemma_run_end, lemma_run_end_unique, run_end, spec_is_digit, spec_is_letter,
    spec_is_name_part, spec_is_name_start, spec_is_space, CharClass,
};
use crate::lex::brackets::lemma_find_close;
use crate::lex::error::LexErrorKind;
use crate::lex::grammar::{
    comment_end, comment_opens, escape_at, lex_at, long_open, long_text_start, number_at,
    number_shape, number_starts, operator_len, operator_spelled, quoted_from, token_at,
    trivia_end, Escape, Lexed,
};
use crate::lex::position::{column_at, lemma_position_monotonic, line_at, offset_at};
use crate::lex::strings::{lemma_escape_bounds, lemma_quoted_bounds};
use crate::lex::token::{
    keyword_of, keyword_spelling, operator_of, operator_spelling, TokenView,
};
use vstd::prelude::*;

verus! {

/// A comment ends after its two dashes and within the text.
pub proof fn lemma_comment_end_bounds(s: Seq<char>, i: int)
    requires
        0 <= i,
        comment_opens(s, i),
    ensures
        comment_end(s, i) matches Some(e) ==> i + 2 <= e <= s.len(),
{
    lemma_run_end(s, i + 2, CharClass::NotNewline);
    match long_open(s, i + 2) {
        Some(level) => {
            lemma_run_end(s, i + 3, CharClass::Equals);
            lemma_find_close(s, i + 4 + level, level);
        },
        None => {},
    }
}

/// Skipping blanks and comments ends at or after the index at which it
/// began, at a character that is neither blank nor the start of a comment.
pub proof fn lemma_trivia_end(s: Seq<char>, i: int)
    requires
        0 <= i <= s.len(),
    ensures
        match trivia_end(s, i) {
            Ok(j) => i <= j <= s.len() && (j < s.len() ==> !spec_is_space(s[j]))
                && !comment_opens(s, j),
            Err(j) => i <= j < s.len() && comment_opens(s, j) && comment_end(s, j) is None,
        },
    decreases s.len() - i,
{
    if i < s.len() && spec_is_space(s[i]) {
        lemma_trivia_end(s, i + 1);
    } else if comment_opens(s, i) {
        lemma_comment_end_bounds(s, i);
        match comment_end(s, i) {
            Some(e) => {
                lemma_trivia_end(s, e);
            },
            None => {},
        }
    }
}

/// What is read once blanks and comments are skipped begins where it is
/// looked for and ends within the text. Everything but the end of the input
/// takes at least one character, and the end of the input is found at the
/// end of the text only.
pub proof fn lemma_token_bounds(s: Seq<char>, j: int)
    requires
        0 <= j <= s.len(),
    ensures
        ({
            let lexed = token_at(s, j);
            &&& j <= lexed.start <= lexed.end <= s.len()
            &&& lexed.item is Ok ==> lexed.start == j
            &&& lexed.item == Ok::<TokenView, LexErrorKind>(TokenView::EndOfInput) <==> j == s.len()
            &&& j < s.len() ==> lexed.start < lexed.end
            &&& lexed.item == Err::<TokenView, LexErrorKind>(LexErrorKind::UnexpectedCharacter)
                ==> lexed.start == j && lexed.end == j + 1
        }),
{
    if j < s.len() {
        let c = s[j];
        if spec_is_name_start(c) {
            lemma_run_end(s, j + 1, CharClass::NamePart);
            lemma_keyword_is_no_end(s.subrange(j, run_end(s, j + 1, CharClass::NamePart)));
        } else if number_starts(s, j) {
            lemma_number_bounds(s, j);
        } else if c == '"' || c == '\'' {
            lemma_quoted_bounds(s, j, c, j + 1, Seq::empty());
            lemma_quoted_kinds(s, j, c, j + 1, Seq::empty());
        } else if long_open(s, j) is Some {
            let level = long_open(s, j).unwrap();
            lemma_run_end(s, j + 1, CharClass::Equals);
            let from = long_text_start(s, j, level);
            lemma_find_close(s, from, level);
        } else if operator_len(s, j) > 0 {
            lemma_operator_is_no_end(s.subrange(j, j + operator_len(s, j)));
        }
    }
}

/// No keyword is the end of the input.
pub proof fn lemma_keyword_is_no_end(text: Seq<char>)
    ensures
        keyword_of(text) != Some(TokenView::EndOfInput),
{
}

/// No operator is the end of the input, and every operator has one, two or
/// three characters.
pub proof fn lemma_operator_is_no_end(text: Seq<char>)
    ensures
        operator_of(text) != Some(TokenView::EndOfInput),
        operator_of(text) is Some ==> 1 <= text.len() <= 3,
{
}

/// A numeric literal takes at least one character and ends within the text.
pub proof fn lemma_number_bounds(s: Seq<char>, i: int)
    requires
        0 <= i < s.len(),
        number_starts(s, i),
    ensures
        i < number_at(s, i).end <= s.len(),
        number_at(s, i).start == i,
        number_at(s, i).item is Err ==> number_at(s, i).item == Err::<TokenView, LexErrorKind>(
            LexErrorKind::InvalidNumberLiteral,
        ),
        number_at(s, i).item != Ok::<TokenView, LexErrorKind>(TokenView::EndOfInput),
{
    let shape = number_shape(s, i);
    lemma_run_end(s, shape.digits_from, CharClass::Digit);
    lemma_run_end(s, shape.digits_from, CharClass::HexDigit);
    if shape.has_fraction {
        lemma_run_end(s, shape.digits_to + 1, CharClass::Digit);
        lemma_run_end(s, shape.digits_to + 1, CharClass::HexDigit);
    }
    if shape.has_exponent {
        lemma_run_end(s, shape.exponent_from, CharClass::Digit);
    }
}

/// A quoted string is a string, or fails as unterminated or for an escape.
pub proof fn lemma_quoted_kinds(s: Seq<char>, open: int, quote: char, k: int, text: Seq<char>)
    requires
        0 <= open < k <= s.len(),
    ensures
        match quoted_from(s, open, quote, k, text).item {
            Ok(token) => token is String,
            Err(kind) => kind == LexErrorKind::UnterminatedString || kind
                == LexErrorKind::InvalidEscapeSequence,
        },
    decreases s.len() - k,
{
    if k < s.len() && s[k] != quote && s[k] != '\n' {
        if s[k] == '\\' {
            lemma_escape_bounds(s, k);
            match escape_at(s, k) {
                Escape::Char { ch, end } => {
                    lemma_quoted_kinds(s, open, quote, end, text.push(ch));
                },
                _ => {},
            }
        } else {
            lemma_quoted_kinds(s, open, quote, k + 1, text.push(s[k]));
        }
    }
}

/// Lexing moves forward: what is found begins at or after the index at which
/// it was looked for and ends within the text, and everything but the end of
/// the input takes at least one character.
pub proof fn lemma_lex_bounds(s: Seq<char>, i: int)
    requires
        0 <= i <= s.len(),
    ensures
        i <= lex_at(s, i).start <= lex_at(s, i).end <= s.len(),
        lex_at(s, i).item != Ok::<TokenView, LexErrorKind>(TokenView::EndOfInput) ==> lex_at(s, i).start
            < lex_at(s, i).end,
{
    lemma_trivia_end(s, i);
    match trivia_end(s, i) {
        Ok(j) => {
            lemma_token_bounds(s, j);
        },
        Err(j) => {},
    }
}

/// The positions of successive tokens never go back: the next token begins
/// at or after the place at which this one began.
pub proof fn lemma_positions_never_go_back(s: Seq<char>, i: int)
    requires
        0 <= i <= s.len(),
    ensures
        ({
            let here = lex_at(s, i);
            let next = lex_at(s, here.end);
            &&& here.start <= next.start
            &&& line_at(s, here.start) <= line_at(s, next.start)
            &&& offset_at(s, here.start) <= offset_at(s, next.start)
            &&& line_at(s, here.start) == line_at(s, next.start) ==> column_at(s, here.start)
                <= column_at(s, next.start)
        }),
{
    lemma_lex_bounds(s, i);
    lemma_lex_bounds(s, lex_at(s, i).end);
    lemma_position_monotonic(s, lex_at(s, i).start, lex_at(s, lex_at(s, i).end).start);
}

/// The end of the input is final: once it has been found, it is found again
/// from where lexing goes on, and no text is left.
pub proof fn lemma_end_of_input_is_final(s: Seq<char>, i: int)
    requires
        0 <= i <= s.len(),
        lex_at(s, i).item == Ok::<TokenView, LexErrorKind>(TokenView::EndOfInput),
    ensures
        lex_at(s, i).end == s.len(),
        lex_at(s, lex_at(s, i).end) == lex_at(s, i),
{
    lemma_trivia_end(s, i);
    match trivia_end(s, i) {
        Ok(j) => {
            lemma_token_bounds(s, j);
        },
        Err(j) => {},
    }
}

/// A text of blanks alone holds no token: lexing it from any index finds the
/// end of the input.
pub proof fn lemma_blank_text_is_empty(s: Seq<char>, i: int)
    requires
        0 <= i <= s.len(),
        forall|k: int| 0 <= k < s.len() ==> spec_is_space(#[trigger] s[k]),
    ensures
        lex_at(s, i) == (Lexed {
            item: Ok(TokenView::EndOfInput),
            start: s.len() as int,
            end: s.len() as int,
        }),
    decreases s.len() - i,
{
    if i < s.len() {
        lemma_blank_text_is_empty(s, i + 1);
    }
}

/// A text in which blanks and comments reach from `i` to the end holds no
/// token from `i` on: lexing finds the end of the input, and finds it again.
pub proof fn lemma_trivia_alone_is_empty(s: Seq<char>, i: int)
    requires
        0 <= i <= s.len(),
        trivia_end(s, i) == Ok::<int, int>(s.len() as int),
    ensures
        lex_at(s, i) == (Lexed {
            item: Ok(TokenView::EndOfInput),
            start: s.len() as int,
            end: s.len() as int,
        }),
        lex_at(s, lex_at(s, i).end) == lex_at(s, i),
{
    lemma_end_of_input_is_final(s, i);
}

/// A line comment that reaches to the end of the text, after blanks, leaves
/// nothing to lex.
pub proof fn lemma_line_comment_is_trivia(s: Seq<char>, i: int)
    requires
        0 <= i,
        comment_opens(s, i),
        long_open(s, i + 2) is None,
        forall|k: int| i + 2 <= k < s.len() ==> #[trigger] s[k] != '\n',
    ensures
        trivia_end(s, i) == Ok::<int, int>(s.len() as int),
{
    lemma_run_end_unique(s, i + 2, CharClass::NotNewline, s.len() as int);
    assert(trivia_end(s, s.len() as int) == Ok::<int, int>(s.len() as int));
}

/// A text that is shaped like a name, alone, is one token: the keyword that
/// it spells, or else a name with exactly that text.
pub proof fn lemma_name_alone(text: Seq<char>)
    requires
        text.len() > 0,
        spec_is_name_start(text[0]),
        forall|k: int| 1 <= k < text.len() ==> spec_is_name_part(#[trigger] text[k]),
    ensures
        lex_at(text, 0) == (Lexed {
            item: Ok(
                match keyword_of(text) {
                    Some(keyword) => keyword,
                    None => TokenView::Name(text),
                },
            ),
            start: 0,
            end: text.len() as int,
        }),
        lex_at(text, text.len() as int).item == Ok::<TokenView, LexErrorKind>(TokenView::EndOfInput),
{
    lemma_run_end_unique(text, 1, CharClass::NamePart, text.len() as int);
    assert(text.subrange(0, text.len() as int) =~= text);
    assert(!comment_opens(text, 0));
}

/// Every keyword is the keyword that its spelling spells, and its spelling
/// is made of letters.
pub proof fn lemma_keyword_spelling(keyword: TokenView)
    requires
        keyword_spelling(keyword) is Some,
    ensures
        keyword_of(keyword_spelling(keyword).unwrap()) == Some(keyword),
        keyword_spelling(keyword).unwrap().len() > 0,
        forall|k: int|
            0 <= k < keyword_spelling(keyword).unwrap().len() ==> spec_is_letter(
                #[trigger] keyword_spelling(keyword).unwrap()[k],
            ),
{
    let text = keyword_spelling(keyword).unwrap();
    match keyword {
        TokenView::And => {
            assert(text.len() == 3);
        },
        TokenView::Break => {
            assert(text.len() == 5);
        },
        TokenView::Do => {
            assert(text.len() == 2);
        },
        TokenView::Else => {
            assert(text.len() == 4);
        },
        TokenView::Elseif => {
            assert(text.len() == 6);
        },
        TokenView::End => {
            assert(text.len() == 3);
        },
        TokenView::False => {
            assert(text.len() == 5);
        },
        TokenView::For => {
            assert(text.len() == 3);
        },
        TokenView::Function => {
            assert(text.len() == 8);
        },
        TokenView::Goto => {
            assert(text.len() == 4);
        },
        TokenView::If => {
            assert(text.len() == 2);
        },
        TokenView::In => {
            assert(text.len() == 2);
        },
        TokenView::Local => {
            assert(text.len() == 5);
        },
        TokenView::Nil => {
            assert(text.len() == 3);
        },
        TokenView::Not => {
            assert(text.len() == 3);
        },
        TokenView::Or => {
            assert(text.len() == 2);
        },
        TokenView::Repeat => {
            assert(text.len() == 6);
        },
        TokenView::Return => {
            assert(text.len() == 6);
        },
        TokenView::Then => {
            assert(text.len() == 4);
        },
        TokenView::True => {
            assert(text.len() == 4);
        },
        TokenView::Until => {
            assert(text.len() == 5);
        },
        TokenView::While => {
            assert(text.len() == 5);
        },
        _ => {},
    }
}

/// Every keyword, alone, is lexed as that keyword, never as a name.
pub proof fn lemma_keyword_alone(keyword: TokenView)
    requires
        keyword_spelling(keyword) is Some,
    ensures
        lex_at(keyword_spelling(keyword).unwrap(), 0) == (Lexed {
            item: Ok(keyword),
            start: 0,
            end: keyword_spelling(keyword).unwrap().len() as int,
        }),
        !(keyword is Name),
{
    lemma_keyword_spelling(keyword);
    lemma_name_alone(keyword_spelling(keyword).unwrap());
}

/// Digits alone are one token: the integer that they write, if it fits 64
/// signed bits, and else a float with exactly that text. They are never an
/// error.
pub proof fn lemma_digits_alone(text: Seq<char>)
    requires
        text.len() > 0,
        forall|k: int| 0 <= k < text.len() ==> spec_is_digit(#[trigger] text[k]),
    ensures
        lex_at(text, 0) == (Lexed {
            item: Ok(
                if digits_value(text, 10) <= i64::MAX {
                    TokenView::Integer(digits_value(text, 10))
                } else {
                    TokenView::Float(text)
                },
            ),
            start: 0,
            end: text.len() as int,
        }),
{
    lemma_run_end_unique(text, 0, CharClass::Digit, text.len() as int);
    lemma_run_end_unique(text, text.len() as int, CharClass::Digit, text.len() as int);
    assert(text.subrange(0, text.len() as int) =~= text);
    assert(!comment_opens(text, 0));
}

/// Every operator is the operator that its spelling spells.
pub proof fn lemma_operator_spelling(operator: TokenView)
    requires
        operator_spelling(operator) is Some,
    ensures
        operator_of(operator_spelling(operator).unwrap()) == Some(operator),
        1 <= operator_spelling(operator).unwrap().len() <= 3,
{
    let text = operator_spelling(operator).unwrap();
    match operator {
        TokenView::Add => {
            assert(text.len() == 1 && text[0] == '+');
        },
        TokenView::Sub => {
            assert(text.len() == 1 && text[0] == '-');
        },
        TokenView::Mul => {
            assert(text.len() == 1 && text[0] == '*');
        },
        TokenView::Div => {
            assert(text.len() == 1 && text[0] == '/');
        },
        TokenView::Mod => {
            assert(text.len() == 1 && text[0] == '%');
        },
        TokenView::Pow => {
            assert(text.len() == 1 && text[0] == '^');
        },
        TokenView::Len => {
            assert(text.len() == 1 && text[0] == '#');
        },
        TokenView::BitAnd => {
            assert(text.len() == 1 && text[0] == '&');
        },
        TokenView::BitXor => {
            assert(text.len() == 1 && text[0] == '~');
        },
        TokenView::BitOr => {
            assert(text.len() == 1 && text[0] == '|');
        },
        TokenView::ShiftL => {
            assert(text.len() == 2 && text[0] == '<' && text[1] == '<');
        },
        TokenView::ShiftR => {
            assert(text.len() == 2 && text[0] == '>' && text[1] == '>');
        },
        TokenView::Idiv => {
            assert(text.len() == 2 && text[0] == '/' && text[1] == '/');
        },
        TokenView::Equal => {
            assert(text.len() == 2 && text[0] == '=' && text[1] == '=');
        },
        TokenView::NotEq => {
            assert(text.len() == 2 && text[0] == '~' && text[1] == '=');
        },
        TokenView::LesEq => {
            assert(text.len() == 2 && text[0] == '<' && text[1] == '=');
        },
        TokenView::GreEq => {
            assert(text.len() == 2 && text[0] == '>' && text[1] == '=');
        },
        TokenView::Less => {
            assert(text.len() == 1 && text[0] == '<');
        },
        TokenView::Greater => {
            assert(text.len() == 1 && text[0] == '>');
        },
        TokenView::Assign => {
            assert(text.len() == 1 && text[0] == '=');
        },
        TokenView::ParL => {
            assert(text.len() == 1 && text[0] == '(');
        },
        TokenView::ParR => {
            assert(text.len() == 1 && text[0] == ')');
        },
        TokenView::CurlyL => {
            assert(text.len() == 1 && text[0] == '{');
        },
        TokenView::CurlyR => {
            assert(text.len() == 1 && text[0] == '}');
        },
        TokenView::SqurL => {
            assert(text.len() == 1 && text[0] == '[');
        },
        TokenView::SqurR => {
            assert(text.len() == 1 && text[0] == ']');
        },
        TokenView::DoubColon => {
            assert(text.len() == 2 && text[0] == ':' && text[1] == ':');
        },
        TokenView::SemiColon => {
            assert(text.len() == 1 && text[0] == ';');
        },
        TokenView::Colon => {
            assert(text.len() == 1 && text[0] == ':');
        },
        TokenView::Comma => {
            assert(text.len() == 1 && text[0] == ',');
        },
        TokenView::Dot => {
            assert(text.len() == 1 && text[0] == '.');
        },
        TokenView::Concat => {
            assert(text.len() == 2 && text[0] == '.' && text[1] == '.');
        },
        TokenView::Dots => {
            assert(text.len() == 3 && text[0] == '.' && text[1] == '.' && text[2] == '.');
        },
        _ => {},
    }
}

/// Every operator and punctuation mark, alone, is lexed as itself.
pub proof fn lemma_operator_alone(operator: TokenView)
    requires
        operator_spelling(operator) is Some,
    ensures
        lex_at(operator_spelling(operator).unwrap(), 0) == (Lexed {
            item: Ok(operator),
            start: 0,
            end: operator_spelling(operator).unwrap().len() as int,
        }),
{
    let text = operator_spelling(operator).unwrap();
    lemma_operator_spelling(operator);
    assert(text.subrange(0, text.len() as int) =~= text);
    assert(!comment_opens(text, 0));
    assert(!number_starts(text, 0));
    assert(long_open(text, 0) is None) by {
        lemma_run_end(text, 1, CharClass::Equals);
    }
    if text.len() < 3 {
        assert(!operator_spelled(text, 0, 3));
    }
    if text.len() < 2 {
        assert(!operator_spelled(text, 0, 2));
    }
    assert(operator_spelled(text, 0, text.len() as int));
}

/// The operator that is read is the longest that is spelled there.
pub proof fn lemma_operator_is_longest(s: Seq<char>, j: int, n: int)
    requires
        operator_spelled(s, j, n),
    ensures
        n <= operator_len(s, j),
        operator_spelled(s, j, operator_len(s, j)),
{
    lemma_operator_is_no_end(s.subrange(j, j + n));
}

/// A character with which no token begins is reported alone, and lexing
/// goes on right after it.
pub proof fn lemma_unexpected_character(s: Seq<char>, i: int)
    requires
        0 <= i <= s.len(),
        lex_at(s, i).item == Err::<TokenView, LexErrorKind>(LexErrorKind::UnexpectedCharacter),
    ensures
        trivia_end(s, i) == Ok::<int, int>(lex_at(s, i).start),
        lex_at(s, i).start < s.len(),
        lex_at(s, i).end == lex_at(s, i).start + 1,
{
    lemma_trivia_end(s, i);
    match trivia_end(s, i) {
        Ok(j) => {
            lemma_token_bounds(s, j);
        },
        Err(j) => {},
    }
}

} // verus!
