//! Verified cores of a few small programs: a lexer for a Lua-like language,
//! HTTP message parsing and formatting, a quota tracker and the rules of a
//! side-scrolling game.

pub mod chars;
pub mod flappy;
pub mod game_states;
pub mod http;
pub mod lex;
pub mod quota;
