use corekit::lex::cursor::SourceCursor;
use corekit::lex::error::{LexError, LexErrorKind};
use corekit::lex::position::Position;
use corekit::lex::stream::Lex;
use corekit::lex::token::Token;
use corekit::lex::tokenizer::Tokenizer;

fn lex_all(input: &str) -> Vec<Result<Token, LexError>> {
    let mut lex = Lex::new(input);
    let mut out = Vec::new();
    loop {
        let item = lex.next();
        let done = item == Ok(Token::EndOfInput);
        out.push(item);
        if done || out.len() > 1000 {
            return out;
        }
    }
}

fn tokens(input: &str) -> Vec<Token> {
    lex_all(input).into_iter().map(|r| r.unwrap()).collect()
}

fn first_error(input: &str) -> LexError {
    Lex::new(input).next().unwrap_err()
}

fn at(line: usize, column: usize, offset: usize) -> Position {
    Position { line, column, offset }
}

fn s(text: &str) -> Token {
    Token::String(text.to_string())
}

fn n(text: &str) -> Token {
    Token::Name(text.to_string())
}

fn f(text: &str) -> Token {
    Token::Float(text.to_string())
}

#[test]
fn every_keyword_alone() {
    let all = [
        ("and", Token::And),
        ("break", Token::Break),
        ("do", Token::Do),
        ("else", Token::Else),
        ("elseif", Token::Elseif),
        ("end", Token::End),
        ("false", Token::False),
        ("for", Token::For),
        ("function", Token::Function),
        ("goto", Token::Goto),
        ("if", Token::If),
        ("in", Token::In),
        ("local", Token::Local),
        ("nil", Token::Nil),
        ("not", Token::Not),
        ("or", Token::Or),
        ("repeat", Token::Repeat),
        ("return", Token::Return),
        ("then", Token::Then),
        ("true", Token::True),
        ("until", Token::Until),
        ("while", Token::While),
    ];
    for (text, token) in all {
        assert_eq!(tokens(text), vec![token, Token::EndOfInput], "{}", text);
    }
}

#[test]
fn names_that_are_no_keywords() {
    for text in ["And", "END", "ands", "an", "_", "_end", "end_", "x1", "function2", "elsei", "caf\u{e9}", "a\u{4e2d}\u{0663}"] {
        assert_eq!(tokens(text), vec![n(text), Token::EndOfInput], "{}", text);
    }
    assert_eq!(tokens("a-b"), vec![n("a"), Token::Sub, n("b"), Token::EndOfInput]);
    assert_eq!(tokens("if x"), vec![Token::If, n("x"), Token::EndOfInput]);
}

#[test]
fn every_operator_alone() {
    let all = [
        ("+", Token::Add),
        ("-", Token::Sub),
        ("*", Token::Mul),
        ("/", Token::Div),
        ("%", Token::Mod),
        ("^", Token::Pow),
        ("#", Token::Len),
        ("&", Token::BitAnd),
        ("~", Token::BitXor),
        ("|", Token::BitOr),
        ("<<", Token::ShiftL),
        (">>", Token::ShiftR),
        ("//", Token::Idiv),
        ("==", Token::Equal),
        ("~=", Token::NotEq),
        ("<=", Token::LesEq),
        (">=", Token::GreEq),
        ("<", Token::Less),
        (">", Token::Greater),
        ("=", Token::Assign),
        ("(", Token::ParL),
        (")", Token::ParR),
        ("{", Token::CurlyL),
        ("}", Token::CurlyR),
        ("[", Token::SqurL),
        ("]", Token::SqurR),
        ("::", Token::DoubColon),
        (";", Token::SemiColon),
        (":", Token::Colon),
        (",", Token::Comma),
        (".", Token::Dot),
        ("..", Token::Concat),
        ("...", Token::Dots),
    ];
    for (text, token) in all {
        assert_eq!(tokens(text), vec![token, Token::EndOfInput], "{}", text);
    }
}

#[test]
fn operators_take_the_longest_match() {
    assert_eq!(tokens("...."), vec![Token::Dots, Token::Dot, Token::EndOfInput]);
    assert_eq!(tokens("....."), vec![Token::Dots, Token::Concat, Token::EndOfInput]);
    assert_eq!(tokens("<<="), vec![Token::ShiftL, Token::Assign, Token::EndOfInput]);
    assert_eq!(tokens("==="), vec![Token::Equal, Token::Assign, Token::EndOfInput]);
    assert_eq!(tokens("~=="), vec![Token::NotEq, Token::Assign, Token::EndOfInput]);
    assert_eq!(tokens("///"), vec![Token::Idiv, Token::Div, Token::EndOfInput]);
    assert_eq!(tokens(":::"), vec![Token::DoubColon, Token::Colon, Token::EndOfInput]);
    assert_eq!(tokens(">>>="), vec![Token::ShiftR, Token::GreEq, Token::EndOfInput]);
    assert_eq!(tokens("< ="), vec![Token::Less, Token::Assign, Token::EndOfInput]);
    assert_eq!(tokens("[=x"), vec![Token::SqurL, Token::Assign, n("x"), Token::EndOfInput]);
    assert_eq!(tokens("a.b"), vec![n("a"), Token::Dot, n("b"), Token::EndOfInput]);
    assert_eq!(tokens("- -"), vec![Token::Sub, Token::Sub, Token::EndOfInput]);
}

#[test]
fn decimal_numbers() {
    assert_eq!(tokens("0"), vec![Token::Integer(0), Token::EndOfInput]);
    assert_eq!(tokens("007"), vec![Token::Integer(7), Token::EndOfInput]);
    assert_eq!(tokens("3.14"), vec![f("3.14"), Token::EndOfInput]);
    assert_eq!(tokens("3."), vec![f("3."), Token::EndOfInput]);
    assert_eq!(tokens(".5"), vec![f(".5"), Token::EndOfInput]);
    assert_eq!(tokens("1e5 1E+5 1e-5 1.5e3 .5e1"), vec![f("1e5"), f("1E+5"), f("1e-5"), f("1.5e3"), f(".5e1"), Token::EndOfInput]);
    assert_eq!(tokens("12ab"), vec![Token::Integer(12), n("ab"), Token::EndOfInput]);
    assert_eq!(tokens("1+2"), vec![Token::Integer(1), Token::Add, Token::Integer(2), Token::EndOfInput]);
    assert_eq!(tokens("-1"), vec![Token::Sub, Token::Integer(1), Token::EndOfInput]);
    match &tokens("1.5e3")[0] {
        Token::Float(text) => assert_eq!(text.parse::<f64>().unwrap(), 1500.0),
        other => panic!("{:?}", other),
    }
}

#[test]
fn hexadecimal_numbers() {
    assert_eq!(tokens("0x0"), vec![Token::Integer(0), Token::EndOfInput]);
    assert_eq!(tokens("0Xff"), vec![Token::Integer(255), Token::EndOfInput]);
    assert_eq!(tokens("0xAbCdEf"), vec![Token::Integer(0xabcdef), Token::EndOfInput]);
    assert_eq!(tokens("0x1p4"), vec![f("0x1p4"), Token::EndOfInput]);
    assert_eq!(tokens("0x.8"), vec![f("0x.8"), Token::EndOfInput]);
    assert_eq!(tokens("0xA.8P-1"), vec![f("0xA.8P-1"), Token::EndOfInput]);
    assert_eq!(tokens("0x1e5"), vec![Token::Integer(0x1e5), Token::EndOfInput]);
    assert_eq!(tokens("0x1g"), vec![Token::Integer(1), n("g"), Token::EndOfInput]);
}

#[test]
fn malformed_numbers() {
    for (text, offending) in [
        ("1e", "1e"),
        ("1e+", "1e+"),
        ("1E-x", "1E-"),
        ("2.5e", "2.5e"),
        ("0x", "0x"),
        ("0x.", "0x."),
        ("0xg", "0x"),
        ("0x1p", "0x1p"),
        ("0x1.8p+", "0x1.8p+"),
    ] {
        let err = first_error(text);
        assert_eq!(err.kind, LexErrorKind::InvalidNumberLiteral, "{}", text);
        assert_eq!(err.text, offending, "{}", text);
        assert_eq!(err.position, at(1, 1, 0), "{}", text);
    }
    assert_eq!(
        lex_all("1e;2"),
        vec![
            Err(LexError { kind: LexErrorKind::InvalidNumberLiteral, position: at(1, 1, 0), text: "1e".to_string() }),
            Ok(Token::SemiColon),
            Ok(Token::Integer(2)),
            Ok(Token::EndOfInput),
        ]
    );
}

#[test]
fn quoted_strings_and_escapes() {
    assert_eq!(tokens("\"\""), vec![s(""), Token::EndOfInput]);
    assert_eq!(tokens("''"), vec![s(""), Token::EndOfInput]);
    assert_eq!(tokens("'it\"s'"), vec![s("it\"s"), Token::EndOfInput]);
    assert_eq!(tokens("\"it's\""), vec![s("it's"), Token::EndOfInput]);
    assert_eq!(tokens(r#""a\tb\\c\"d\'e""#), vec![s("a\tb\\c\"d'e"), Token::EndOfInput]);
    assert_eq!(tokens(r#""\x41\x7a\xe9\xFF""#), vec![s("Az\u{e9}\u{ff}"), Token::EndOfInput]);
    assert_eq!(tokens(r#""\65\066\0\2555\10""#), vec![s("AB\0\u{ff}5\n"), Token::EndOfInput]);
    assert_eq!(tokens("\"a\\\nb\" x"), vec![s("a\nb"), n("x"), Token::EndOfInput]);
    assert_eq!(tokens("\"h\u{e9}llo \u{1F600}\""), vec![s("h\u{e9}llo \u{1F600}"), Token::EndOfInput]);
    assert_eq!(tokens("\"a\"\"b\""), vec![s("a"), s("b"), Token::EndOfInput]);
}

#[test]
fn line_continuation_advances_the_line() {
    let mut lex = Lex::new("\"a\\\nb\" x");
    assert_eq!(lex.next(), Ok(s("a\nb")));
    assert_eq!(lex.position(), at(1, 1, 0));
    assert_eq!(lex.next(), Ok(n("x")));
    assert_eq!(lex.position(), at(2, 4, 7));
}

#[test]
fn unterminated_strings() {
    let err = first_error("\"abc");
    assert_eq!(err, LexError { kind: LexErrorKind::UnterminatedString, position: at(1, 1, 0), text: "\"abc".to_string() });
    let err = first_error("  'abc\nx'");
    assert_eq!(err, LexError { kind: LexErrorKind::UnterminatedString, position: at(1, 3, 2), text: "'abc".to_string() });
    let err = first_error("\"abc\\");
    assert_eq!(err, LexError { kind: LexErrorKind::UnterminatedString, position: at(1, 1, 0), text: "\"abc\\".to_string() });
    let err = first_error("\"abc'");
    assert_eq!(err.kind, LexErrorKind::UnterminatedString);
    let all = lex_all("'abc\nx");
    assert_eq!(all.len(), 3);
    assert_eq!(all[1], Ok(n("x")));
}

#[test]
fn invalid_escapes() {
    for (text, offending, column) in [
        (r#""\q""#, "\\q", 2),
        (r#""ab\z""#, "\\z", 4),
        (r#""\x4g""#, "\\x", 2),
        (r#""\xg1""#, "\\x", 2),
        (r#""\x4"#, "\\x", 2),
        (r#""\256""#, "\\256", 2),
        (r#""\999""#, "\\999", 2),
        ("\"\\\r\"", "\\\r", 2),
    ] {
        let err = first_error(text);
        assert_eq!(err.kind, LexErrorKind::InvalidEscapeSequence, "{}", text);
        assert_eq!(err.text, offending, "{}", text);
        assert_eq!(err.position, at(1, column, column - 1), "{}", text);
    }
    let all = lex_all(r#""\q" y"#);
    assert_eq!(all[0].as_ref().unwrap_err().kind, LexErrorKind::InvalidEscapeSequence);
    assert_eq!(all[1].as_ref().unwrap_err().kind, LexErrorKind::UnterminatedString);
}

#[test]
fn long_strings() {
    assert_eq!(tokens("[[abc]]"), vec![s("abc"), Token::EndOfInput]);
    assert_eq!(tokens("[[]]"), vec![s(""), Token::EndOfInput]);
    assert_eq!(tokens("[=[a]]b]=]"), vec![s("a]]b"), Token::EndOfInput]);
    assert_eq!(tokens("[==[a]=]b]==]c"), vec![s("a]=]b"), n("c"), Token::EndOfInput]);
    assert_eq!(tokens("[[\nabc]]"), vec![s("abc"), Token::EndOfInput]);
    assert_eq!(tokens("[[\n\nabc\n]]"), vec![s("\nabc\n"), Token::EndOfInput]);
    assert_eq!(tokens("[[a\\nb]]"), vec![s("a\\nb"), Token::EndOfInput]);
    assert_eq!(tokens("[[a]=]]"), vec![s("a]="), Token::EndOfInput]);
    assert_eq!(tokens("[=[a]==]=]"), vec![s("a]=="), Token::EndOfInput]);
    assert_eq!(tokens("[=[]]=]"), vec![s("]"), Token::EndOfInput]);
    assert_eq!(tokens("x[[1]]"), vec![n("x"), s("1"), Token::EndOfInput]);
}

#[test]
fn unterminated_long_brackets() {
    for text in ["[[abc", "[[abc]", "[=[abc]]", "[==[abc]=]", "[[", "[=[]", "--[[ c", "--[==[ c ]] ]=]"] {
        let err = first_error(text);
        assert_eq!(err.kind, LexErrorKind::UnterminatedLongBracket, "{}", text);
        assert_eq!(err.text, text, "{}", text);
        assert_eq!(err.position, at(1, 1, 0), "{}", text);
        let all = lex_all(text);
        assert_eq!(all.len(), 2, "{}", text);
        assert_eq!(all[1], Ok(Token::EndOfInput), "{}", text);
    }
    let all = lex_all("x \n  --[[ open");
    assert_eq!(all[0], Ok(n("x")));
    assert_eq!(
        all[1],
        Err(LexError {
            kind: LexErrorKind::UnterminatedLongBracket,
            position: at(2, 3, 5),
            text: "--[[ open".to_string(),
        })
    );
    assert_eq!(all[2], Ok(Token::EndOfInput));
}

#[test]
fn comments_are_skipped() {
    assert_eq!(tokens("--"), vec![Token::EndOfInput]);
    assert_eq!(tokens("-- x\n-- y\nz"), vec![n("z"), Token::EndOfInput]);
    assert_eq!(tokens("a -- b\nc"), vec![n("a"), n("c"), Token::EndOfInput]);
    assert_eq!(tokens("a --[[ b\n c ]] d"), vec![n("a"), n("d"), Token::EndOfInput]);
    assert_eq!(tokens("--[==[ ]] ]=] ]==]x"), vec![n("x"), Token::EndOfInput]);
    assert_eq!(tokens("--[ not long ]]\nx"), vec![n("x"), Token::EndOfInput]);
    assert_eq!(tokens("--[= not long\nx"), vec![n("x"), Token::EndOfInput]);
    assert_eq!(tokens("---[[ line\nx"), vec![n("x"), Token::EndOfInput]);
    assert_eq!(tokens("--[[]]"), vec![Token::EndOfInput]);
    assert_eq!(tokens(" \t\r\n"), vec![Token::EndOfInput]);
    assert_eq!(tokens(""), vec![Token::EndOfInput]);
}

#[test]
fn positions_of_tokens() {
    let mut lex = Lex::new("a\n  b\u{e9}\u{4e2d} \u{1F600}");
    assert_eq!(lex.position(), at(1, 1, 0));
    assert_eq!(lex.next(), Ok(n("a")));
    assert_eq!(lex.position(), at(1, 1, 0));
    assert_eq!(lex.next(), Ok(n("b\u{e9}\u{4e2d}")));
    assert_eq!(lex.position(), at(2, 3, 4));
    let err = lex.next().unwrap_err();
    assert_eq!(err.kind, LexErrorKind::UnexpectedCharacter);
    assert_eq!(err.text, "\u{1F600}");
    assert_eq!(err.position, at(2, 7, 11));
    assert_eq!(lex.position(), at(2, 7, 11));
    assert_eq!(lex.next(), Ok(Token::EndOfInput));
    assert_eq!(lex.position(), at(2, 8, 15));
    assert_eq!(lex.next(), Ok(Token::EndOfInput));
    assert_eq!(lex.position(), at(2, 8, 15));
}

#[test]
fn peek_shows_and_next_takes() {
    let mut lex = Lex::new("a @ 1");
    assert_eq!(lex.peek(), Ok(&n("a")));
    assert_eq!(lex.peek(), Ok(&n("a")));
    assert_eq!(lex.position(), at(1, 1, 0));
    assert_eq!(lex.next(), Ok(n("a")));
    let err = LexError { kind: LexErrorKind::UnexpectedCharacter, position: at(1, 3, 2), text: "@".to_string() };
    assert_eq!(lex.peek(), Err(&err));
    assert_eq!(lex.position(), at(1, 1, 0));
    assert_eq!(lex.next(), Err(err));
    assert_eq!(lex.position(), at(1, 3, 2));
    assert_eq!(lex.next(), Ok(Token::Integer(1)));
    assert_eq!(lex.position(), at(1, 5, 4));
    assert_eq!(lex.peek(), Ok(&Token::EndOfInput));
    assert_eq!(lex.next(), Ok(Token::EndOfInput));
    assert_eq!(lex.peek(), Ok(&Token::EndOfInput));
    assert_eq!(lex.next(), Ok(Token::EndOfInput));
}

#[test]
fn the_tokenizer_alone() {
    let mut t = Tokenizer::new("x  = [[\n]]");
    assert_eq!(t.position(), at(1, 1, 0));
    assert_eq!(t.token_position(), at(1, 1, 0));
    assert_eq!(t.scan(), Ok(n("x")));
    assert_eq!(t.position(), at(1, 2, 1));
    assert_eq!(t.scan(), Ok(Token::Assign));
    assert_eq!(t.token_position(), at(1, 4, 3));
    assert_eq!(t.scan(), Ok(s("")));
    assert_eq!(t.token_position(), at(1, 6, 5));
    assert_eq!(t.position(), at(2, 3, 10));
    assert_eq!(t.scan(), Ok(Token::EndOfInput));
    assert_eq!(t.scan(), Ok(Token::EndOfInput));
    assert_eq!(t.token_position(), at(2, 3, 10));
}

#[test]
fn the_cursor() {
    let mut c = SourceCursor::new("a\u{e9}\nb");
    assert_eq!(c.len(), 4);
    assert_eq!(c.peek(), Some('a'));
    assert_eq!(c.peek_at(1), Some('\u{e9}'));
    assert_eq!(c.peek_at(4), None);
    assert_eq!(c.peek_at(usize::MAX), None);
    assert_eq!(c.position(), at(1, 1, 0));
    c.pushback();
    assert_eq!(c.position(), at(1, 1, 0));
    assert_eq!(c.advance(), Some('a'));
    assert_eq!(c.advance(), Some('\u{e9}'));
    assert_eq!(c.position(), at(1, 3, 3));
    assert_eq!(c.advance(), Some('\n'));
    assert_eq!(c.position(), at(2, 1, 4));
    c.pushback();
    assert_eq!(c.position(), at(1, 3, 3));
    assert_eq!(c.peek(), Some('\n'));
    c.pushback();
    assert_eq!(c.position(), at(1, 3, 3));
    assert_eq!(c.consumed(), 2);
    c.advance_by(2);
    assert_eq!(c.position(), at(2, 2, 5));
    assert!(c.is_at_end());
    assert_eq!(c.peek(), None);
    assert_eq!(c.advance(), None);
    assert_eq!(c.advance(), None);
    assert_eq!(c.position(), at(2, 2, 5));
    c.pushback();
    assert_eq!(c.position(), at(2, 2, 5));
    assert_eq!(c.text(1, 3), "\u{e9}\n");
    assert_eq!(c.get(3), 'b');
}

#[test]
fn error_descriptions() {
    assert_eq!(first_error("@").describe(), "unexpected character");
    assert_eq!(first_error("'").describe(), "unterminated string");
    assert_eq!(first_error("[[").describe(), "unterminated long bracket");
    assert_eq!(first_error("'\\q'").describe(), "invalid escape sequence");
    assert_eq!(first_error("1e").describe(), "invalid number literal");
}

#[test]
fn a_small_program() {
    let text = "local function fact(n)\n  if n <= 1 then return 1 end\n  return n * fact(n - 1) -- recurse\nend\nprint(fact(0x10), \"done\\n\")";
    assert_eq!(
        tokens(text),
        vec![
            Token::Local, Token::Function, n("fact"), Token::ParL, n("n"), Token::ParR,
            Token::If, n("n"), Token::LesEq, Token::Integer(1), Token::Then, Token::Return,
            Token::Integer(1), Token::End,
            Token::Return, n("n"), Token::Mul, n("fact"), Token::ParL, n("n"), Token::Sub,
            Token::Integer(1), Token::ParR,
            Token::End,
            n("print"), Token::ParL, n("fact"), Token::ParL, Token::Integer(16), Token::ParR,
            Token::Comma, s("done\n"), Token::ParR,
            Token::EndOfInput,
        ]
    );
}
