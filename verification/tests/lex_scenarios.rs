use corekit::lex::error::{LexError, LexErrorKind};
use corekit::lex::position::Position;
use corekit::lex::stream::{tokenize, Lex};
use corekit::lex::token::Token;

fn all_tokens(input: &str) -> Vec<Result<Token, LexError>> {
    let mut lex = Lex::new(input);
    let mut out = Vec::new();
    loop {
        let item = lex.next();
        let done = item == Ok(Token::EndOfInput);
        out.push(item);
        if done || out.len() > 1000 {
            return out;
        }
    }
}

fn single(input: &str) -> Result<Token, LexError> {
    let mut lex = Lex::new(input);
    lex.next()
}

fn name(text: &str) -> Result<Token, LexError> {
    Ok(Token::Name(text.to_string()))
}

#[test]
fn local_assignment_end_to_end() {
    assert_eq!(
        all_tokens("local x = 10"),
        vec![Ok(Token::Local), name("x"), Ok(Token::Assign), Ok(Token::Integer(10)), Ok(Token::EndOfInput)]
    );
}

#[test]
fn comment_then_return_end_to_end() {
    assert_eq!(all_tokens("-- comment\nreturn"), vec![Ok(Token::Return), Ok(Token::EndOfInput)]);
}

#[test]
fn concat_between_names_end_to_end() {
    assert_eq!(
        all_tokens("a..b"),
        vec![name("a"), Ok(Token::Concat), name("b"), Ok(Token::EndOfInput)]
    );
}

#[test]
fn numeric_literals() {
    assert_eq!(single("123"), Ok(Token::Integer(123)));
    assert_eq!(single("0x1F"), Ok(Token::Integer(31)));
    assert_eq!(single("123.0"), Ok(Token::Float("123.0".to_string())));
    assert_eq!(single("1e10"), Ok(Token::Float("1e10".to_string())));
    match single("123.0") {
        Ok(Token::Float(text)) => assert_eq!(text.parse::<f64>().unwrap(), 123.0),
        other => panic!("{:?}", other),
    }
    match single("1e10") {
        Ok(Token::Float(text)) => assert_eq!(text.parse::<f64>().unwrap(), 1e10),
        other => panic!("{:?}", other),
    }
}

#[test]
fn integer_beyond_64_bits_is_a_float() {
    assert_eq!(single("9223372036854775807"), Ok(Token::Integer(i64::MAX)));
    assert_eq!(
        single("9223372036854775808"),
        Ok(Token::Float("9223372036854775808".to_string()))
    );
    assert_eq!(
        single("123456789012345678901234567890"),
        Ok(Token::Float("123456789012345678901234567890".to_string()))
    );
    assert_eq!(single("0x7fffffffffffffff"), Ok(Token::Integer(i64::MAX)));
    assert_eq!(
        single("0xffffffffffffffff"),
        Ok(Token::Float("0xffffffffffffffff".to_string()))
    );
}

#[test]
fn escape_gives_a_newline() {
    assert_eq!(single("\"a\\nb\""), Ok(Token::String("a\nb".to_string())));
}

#[test]
fn long_bracket_levels_must_match() {
    assert_eq!(single("[==[abc]==]"), Ok(Token::String("abc".to_string())));
    let err = single("[==[abc]=]").unwrap_err();
    assert_eq!(err.kind, LexErrorKind::UnterminatedLongBracket);
    assert_eq!(err.position, Position { line: 1, column: 1, offset: 0 });
    assert_eq!(err.text, "[==[abc]=]");
}

#[test]
fn operators_match_greedily() {
    assert_eq!(all_tokens(".."), vec![Ok(Token::Concat), Ok(Token::EndOfInput)]);
    assert_eq!(all_tokens("..."), vec![Ok(Token::Dots), Ok(Token::EndOfInput)]);
    assert_eq!(all_tokens("<="), vec![Ok(Token::LesEq), Ok(Token::EndOfInput)]);
}

#[test]
fn unexpected_character_is_recoverable() {
    let mut lex = Lex::new("  @x");
    let err = lex.next().unwrap_err();
    assert_eq!(err.kind, LexErrorKind::UnexpectedCharacter);
    assert_eq!(err.text, "@");
    assert_eq!(err.position, Position { line: 1, column: 3, offset: 2 });
    assert_eq!(lex.next(), name("x"));
    assert_eq!(lex.next(), Ok(Token::EndOfInput));
    let err = single("@").unwrap_err();
    assert_eq!(err.kind, LexErrorKind::UnexpectedCharacter);
    assert_eq!(err.position, Position { line: 1, column: 1, offset: 0 });
}

#[test]
fn end_of_input_is_sticky() {
    let mut lex = Lex::new("  \t\r\n -- only trivia\n--[[ long\ncomment ]] ");
    assert_eq!(lex.next(), Ok(Token::EndOfInput));
    assert_eq!(lex.next(), Ok(Token::EndOfInput));
    assert_eq!(lex.next(), Ok(Token::EndOfInput));
    assert_eq!(lex.peek(), Ok(&Token::EndOfInput));
    assert_eq!(lex.next(), Ok(Token::EndOfInput));
}

#[test]
fn tokenize_gives_the_whole_sequence() {
    assert_eq!(
        tokenize("local x = 10"),
        vec![Ok(Token::Local), name("x"), Ok(Token::Assign), Ok(Token::Integer(10)), Ok(Token::EndOfInput)]
    );
    assert_eq!(tokenize("-- comment\nreturn"), vec![Ok(Token::Return), Ok(Token::EndOfInput)]);
    assert_eq!(tokenize("a..b"), all_tokens("a..b"));
    assert_eq!(tokenize(""), vec![Ok(Token::EndOfInput)]);
    let mixed = tokenize("x @ 'open\n y");
    assert_eq!(mixed.len(), 5);
    assert_eq!(mixed[1].as_ref().unwrap_err().kind, LexErrorKind::UnexpectedCharacter);
    assert_eq!(mixed[2].as_ref().unwrap_err().kind, LexErrorKind::UnterminatedString);
    assert_eq!(mixed[3], name("y"));
    assert_eq!(mixed[4], Ok(Token::EndOfInput));
    assert_eq!(mixed, all_tokens("x @ 'open\n y"));
}
