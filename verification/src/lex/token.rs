//! Tokens, and the spellings of keywords and operators.

use vstd::prelude::*;

verus! {

/// One lexical unit. A token owns its text: nothing in it points back into
/// the source it was read from.
#[derive(Debug, PartialEq, Clone)]
pub enum Token {
    // keywords
    And,
    Break,
    Do,
    Else,
    Elseif,
    End,
    False,
    For,
    Function,
    Goto,
    If,
    In,
    Local,
    Nil,
    Not,
    Or,
    Repeat,
    Return,
    Then,
    True,
    Until,
    While,
    // operators and punctuation, in the order
    // + - * / % ^ # & ~ | << >> // == ~= <= >= < > = ( ) { } [ ] :: ; : , . .. ...
    Add,
    Sub,
    Mul,
    Div,
    Mod,
    Pow,
    Len,
    BitAnd,
    BitXor,
    BitOr,
    ShiftL,
    ShiftR,
    Idiv,
    Equal,
    NotEq,
    LesEq,
    GreEq,
    Less,
    Greater,
    Assign,
    ParL,
    ParR,
    CurlyL,
    CurlyR,
    SqurL,
    SqurR,
    DoubColon,
    SemiColon,
    Colon,
    Comma,
    Dot,
    Concat,
    Dots,
    /// An integer literal that fits 64 signed bits.
    Integer(i64),
    /// Any other numeric literal, as it is written in the source. Turning the
    /// text into a binary floating-point number is left to the caller.
    Float(String),
    /// The contents of a string literal, escapes resolved.
    String(String),
    /// A name of a variable, a function and the like.
    Name(String),
    /// The end of the input.
    EndOfInput,
}

/// A token as a mathematical value: texts are sequences of characters and an
/// integer is unbounded.
pub enum TokenView {
    And,
    Break,
    Do,
    Else,
    Elseif,
    End,
    False,
    For,
    Function,
    Goto,
    If,
    In,
    Local,
    Nil,
    Not,
    Or,
    Repeat,
    Return,
    Then,
    True,
    Until,
    While,
    Add,
    Sub,
    Mul,
    Div,
    Mod,
    Pow,
    Len,
    BitAnd,
    BitXor,
    BitOr,
    ShiftL,
    ShiftR,
    Idiv,
    Equal,
    NotEq,
    LesEq,
    GreEq,
    Less,
    Greater,
    Assign,
    ParL,
    ParR,
    CurlyL,
    CurlyR,
    SqurL,
    SqurR,
    DoubColon,
    SemiColon,
    Colon,
    Comma,
    Dot,
    Concat,
    Dots,
    Integer(int),
    Float(Seq<char>),
    String(Seq<char>),
    Name(Seq<char>),
    EndOfInput,
}

impl View for Token {
    type V = TokenView;

    open spec fn view(&self) -> TokenView {
        match self {
            Token::And => TokenView::And,
            Token::Break => TokenView::Break,
            Token::Do => TokenView::Do,
            Token::Else => TokenView::Else,
            Token::Elseif => TokenView::Elseif,
            Token::End => TokenView::End,
            Token::False => TokenView::False,
            Token::For => TokenView::For,
            Token::Function => TokenView::Function,
            Token::Goto => TokenView::Goto,
            Token::If => TokenView::If,
            Token::In => TokenView::In,
            Token::Local => TokenView::Local,
            Token::Nil => TokenView::Nil,
            Token::Not => TokenView::Not,
            Token::Or => TokenView::Or,
            Token::Repeat => TokenView::Repeat,
            Token::Return => TokenView::Return,
            Token::Then => TokenView::Then,
            Token::True => TokenView::True,
            Token::Until => TokenView::Until,
            Token::While => TokenView::While,
            Token::Add => TokenView::Add,
            Token::Sub => TokenView::Sub,
            Token::Mul => TokenView::Mul,
            Token::Div => TokenView::Div,
            Token::Mod => TokenView::Mod,
            Token::Pow => TokenView::Pow,
            Token::Len => TokenView::Len,
            Token::BitAnd => TokenView::BitAnd,
            Token::BitXor => TokenView::BitXor,
            Token::BitOr => TokenView::BitOr,
            Token::ShiftL => TokenView::ShiftL,
            Token::ShiftR => TokenView::ShiftR,
            Token::Idiv => TokenView::Idiv,
            Token::Equal => TokenView::Equal,
            Token::NotEq => TokenView::NotEq,
            Token::LesEq => TokenView::LesEq,
            Token::GreEq => TokenView::GreEq,
            Token::Less => TokenView::Less,
            Token::Greater => TokenView::Greater,
            Token::Assign => TokenView::Assign,
            Token::ParL => TokenView::ParL,
            Token::ParR => TokenView::ParR,
            Token::CurlyL => TokenView::CurlyL,
            Token::CurlyR => TokenView::CurlyR,
            Token::SqurL => TokenView::SqurL,
            Token::SqurR => TokenView::SqurR,
            Token::DoubColon => TokenView::DoubColon,
            Token::SemiColon => TokenView::SemiColon,
            Token::Colon => TokenView::Colon,
            Token::Comma => TokenView::Comma,
            Token::Dot => TokenView::Dot,
            Token::Concat => TokenView::Concat,
            Token::Dots => TokenView::Dots,
            Token::Integer(value) => TokenView::Integer(*value as int),
            Token::Float(text) => TokenView::Float(text@),
            Token::String(text) => TokenView::String(text@),
            Token::Name(text) => TokenView::Name(text@),
            Token::EndOfInput => TokenView::EndOfInput,
        }
    }
}

/// The keyword that `text` spells, if it spells one. The match is on the
/// whole text and distinguishes upper from lower case.
pub open spec fn keyword_of(text: Seq<char>) -> Option<TokenView> {
    if text =~= seq!['a', 'n', 'd'] {
        Some(TokenView::And)
    }     else if text =~= seq!['b', 'r', 'e', 'a', 'k'] {
        Some(TokenView::Break)
    }     else if text =~= seq!['d', 'o'] {
        Some(TokenView::Do)
    }     else if text =~= seq!['e', 'l', 's', 'e'] {
        Some(TokenView::Else)
    }     else if text =~= seq!['e', 'l', 's', 'e', 'i', 'f'] {
        Some(TokenView::Elseif)
    }     else if text =~= seq!['e', 'n', 'd'] {
        Some(TokenView::End)
    }     else if text =~= seq!['f', 'a', 'l', 's', 'e'] {
        Some(TokenView::False)
    }     else if text =~= seq!['f', 'o', 'r'] {
        Some(TokenView::For)
    }     else if text =~= seq!['f', 'u', 'n', 'c', 't', 'i', 'o', 'n'] {
        Some(TokenView::Function)
    }     else if text =~= seq!['g', 'o', 't', 'o'] {
        Some(TokenView::Goto)
    }     else if text =~= seq!['i', 'f'] {
        Some(TokenView::If)
    }     else if text =~= seq!['i', 'n'] {
        Some(TokenView::In)
    }     else if text =~= seq!['l', 'o', 'c', 'a', 'l'] {
        Some(TokenView::Local)
    }     else if text =~= seq!['n', 'i', 'l'] {
        Some(TokenView::Nil)
    }     else if text =~= seq!['n', 'o', 't'] {
        Some(TokenView::Not)
    }     else if text =~= seq!['o', 'r'] {
        Some(TokenView::Or)
    }     else if text =~= seq!['r', 'e', 'p', 'e', 'a', 't'] {
        Some(TokenView::Repeat)
    }     else if text =~= seq!['r', 'e', 't', 'u', 'r', 'n'] {
        Some(TokenView::Return)
    }     else if text =~= seq!['t', 'h', 'e', 'n'] {
        Some(TokenView::Then)
    }     else if text =~= seq!['t', 'r', 'u', 'e'] {
        Some(TokenView::True)
    }     else if text =~= seq!['u', 'n', 't', 'i', 'l'] {
        Some(TokenView::Until)
    }     else if text =~= seq!['w', 'h', 'i', 'l', 'e'] {
        Some(TokenView::While)
    } else {
        None
    }
}

/// The spelling of a keyword; `None` for every other token.
pub open spec fn keyword_spelling(token: TokenView) -> Option<Seq<char>> {
    match token {
        TokenView::And => Some(seq!['a', 'n', 'd']),
        TokenView::Break => Some(seq!['b', 'r', 'e', 'a', 'k']),
        TokenView::Do => Some(seq!['d', 'o']),
        TokenView::Else => Some(seq!['e', 'l', 's', 'e']),
        TokenView::Elseif => Some(seq!['e', 'l', 's', 'e', 'i', 'f']),
        TokenView::End => Some(seq!['e', 'n', 'd']),
        TokenView::False => Some(seq!['f', 'a', 'l', 's', 'e']),
        TokenView::For => Some(seq!['f', 'o', 'r']),
        TokenView::Function => Some(seq!['f', 'u', 'n', 'c', 't', 'i', 'o', 'n']),
        TokenView::Goto => Some(seq!['g', 'o', 't', 'o']),
        TokenView::If => Some(seq!['i', 'f']),
        TokenView::In => Some(seq!['i', 'n']),
        TokenView::Local => Some(seq!['l', 'o', 'c', 'a', 'l']),
        TokenView::Nil => Some(seq!['n', 'i', 'l']),
        TokenView::Not => Some(seq!['n', 'o', 't']),
        TokenView::Or => Some(seq!['o', 'r']),
        TokenView::Repeat => Some(seq!['r', 'e', 'p', 'e', 'a', 't']),
        TokenView::Return => Some(seq!['r', 'e', 't', 'u', 'r', 'n']),
        TokenView::Then => Some(seq!['t', 'h', 'e', 'n']),
        TokenView::True => Some(seq!['t', 'r', 'u', 'e']),
        TokenView::Until => Some(seq!['u', 'n', 't', 'i', 'l']),
        TokenView::While => Some(seq!['w', 'h', 'i', 'l', 'e']),
        _ => None,
    }
}

/// The operator or punctuation mark that `text` spells, if it spells one.
pub open spec fn operator_of(text: Seq<char>) -> Option<TokenView> {
    if text =~= seq!['+'] {
        Some(TokenView::Add)
    }     else if text =~= seq!['-'] {
        Some(TokenView::Sub)
    }     else if text =~= seq!['*'] {
        Some(TokenView::Mul)
    }     else if text =~= seq!['/'] {
        Some(TokenView::Div)
    }     else if text =~= seq!['%'] {
        Some(TokenView::Mod)
    }     else if text =~= seq!['^'] {
        Some(TokenView::Pow)
    }     else if text =~= seq!['#'] {
        Some(TokenView::Len)
    }     else if text =~= seq!['&'] {
        Some(TokenView::BitAnd)
    }     else if text =~= seq!['~'] {
        Some(TokenView::BitXor)
    }     else if text =~= seq!['|'] {
        Some(TokenView::BitOr)
    }     else if text =~= seq!['<', '<'] {
        Some(TokenView::ShiftL)
    }     else if text =~= seq!['>', '>'] {
        Some(TokenView::ShiftR)
    }     else if text =~= seq!['/', '/'] {
        Some(TokenView::Idiv)
    }     else if text =~= seq!['=', '='] {
        Some(TokenView::Equal)
    }     else if text =~= seq!['~', '='] {
        Some(TokenView::NotEq)
    }     else if text =~= seq!['<', '='] {
        Some(TokenView::LesEq)
    }     else if text =~= seq!['>', '='] {
        Some(TokenView::GreEq)
    }     else if text =~= seq!['<'] {
        Some(TokenView::Less)
    }     else if text =~= seq!['>'] {
        Some(TokenView::Greater)
    }     else if text =~= seq!['='] {
        Some(TokenView::Assign)
    }     else if text =~= seq!['('] {
        Some(TokenView::ParL)
    }     else if text =~= seq![')'] {
        Some(TokenView::ParR)
    }     else if text =~= seq!['{'] {
        Some(TokenView::CurlyL)
    }     else if text =~= seq!['}'] {
        Some(TokenView::CurlyR)
    }     else if text =~= seq!['['] {
        Some(TokenView::SqurL)
    }     else if text =~= seq![']'] {
        Some(TokenView::SqurR)
    }     else if text =~= seq![':', ':'] {
        Some(TokenView::DoubColon)
    }     else if text =~= seq![';'] {
        Some(TokenView::SemiColon)
    }     else if text =~= seq![':'] {
        Some(TokenView::Colon)
    }     else if text =~= seq![','] {
        Some(TokenView::Comma)
    }     else if text =~= seq!['.'] {
        Some(TokenView::Dot)
    }     else if text =~= seq!['.', '.'] {
        Some(TokenView::Concat)
    }     else if text =~= seq!['.', '.', '.'] {
        Some(TokenView::Dots)
    } else {
        None
    }
}

/// The spelling of an operator or punctuation mark; `None` for every other
/// token.
pub open spec fn operator_spelling(token: TokenView) -> Option<Seq<char>> {
    match token {
        TokenView::Add => Some(seq!['+']),
        TokenView::Sub => Some(seq!['-']),
        TokenView::Mul => Some(seq!['*']),
        TokenView::Div => Some(seq!['/']),
        TokenView::Mod => Some(seq!['%']),
        TokenView::Pow => Some(seq!['^']),
        TokenView::Len => Some(seq!['#']),
        TokenView::BitAnd => Some(seq!['&']),
        TokenView::BitXor => Some(seq!['~']),
        TokenView::BitOr => Some(seq!['|']),
        TokenView::ShiftL => Some(seq!['<', '<']),
        TokenView::ShiftR => Some(seq!['>', '>']),
        TokenView::Idiv => Some(seq!['/', '/']),
        TokenView::Equal => Some(seq!['=', '=']),
        TokenView::NotEq => Some(seq!['~', '=']),
        TokenView::LesEq => Some(seq!['<', '=']),
        TokenView::GreEq => Some(seq!['>', '=']),
        TokenView::Less => Some(seq!['<']),
        TokenView::Greater => Some(seq!['>']),
        TokenView::Assign => Some(seq!['=']),
        TokenView::ParL => Some(seq!['(']),
        TokenView::ParR => Some(seq![')']),
        TokenView::CurlyL => Some(seq!['{']),
        TokenView::CurlyR => Some(seq!['}']),
        TokenView::SqurL => Some(seq!['[']),
        TokenView::SqurR => Some(seq![']']),
        TokenView::DoubColon => Some(seq![':', ':']),
        TokenView::SemiColon => Some(seq![';']),
        TokenView::Colon => Some(seq![':']),
        TokenView::Comma => Some(seq![',']),
        TokenView::Dot => Some(seq!['.']),
        TokenView::Concat => Some(seq!['.', '.']),
        TokenView::Dots => Some(seq!['.', '.', '.']),
        _ => None,
    }
}

} // verus!
