//! The token stream that a parser pulls from.

use crate::lex::error::{LexError, LexErrorKind};
use crate::lex::grammar::{lex_at, Lexed};
use crate::lex::laws::lemma_lex_bounds;
use crate::lex::outcome::result_matches;
use crate::lex::position::Position;
use crate::lex::token::{Token, TokenView};
use crate::lex::tokenizer::Tokenizer;
use vstd::pervasive::unreached;
use vstd::prelude::*;

verus! {

/// Whether the borrowed `out` is what the grammar found in `s`.
pub open spec fn borrowed_matches(
    out: Result<&Token, &LexError>,
    s: Seq<char>,
    lexed: Lexed,
) -> bool {
    match out {
        Ok(token) => result_matches(Ok(*token), s, lexed),
        Err(error) => result_matches(Err(*error), s, lexed),
    }
}

/// A stream of tokens over one source text, with one token of lookahead.
/// `peek` shows the next token and `next` takes it. Errors are values: after
/// one, the stream goes on behind the offending text.
pub struct Lex {
    tokenizer: Tokenizer,
    /// The token that `peek` has read and `next` has not taken yet.
    ahead: Option<Result<Token, LexError>>,
    /// Where that token begins, and from which index it was lexed.
    ahead_start: Position,
    ahead_from: Ghost<int>,
    /// Where the token that `next` returned last begins.
    last: Position,
    last_index: Ghost<int>,
}

impl Lex {
    /// The whole text.
    pub closed spec fn source(&self) -> Seq<char> {
        self.tokenizer.source()
    }

    /// The index from which the token that `next` returns next is lexed.
    pub closed spec fn index(&self) -> int {
        if self.ahead is Some {
            self.ahead_from@
        } else {
            self.tokenizer.index()
        }
    }

    /// The index at which the token or error that `next` returned last
    /// begins; 0 before the first call.
    pub closed spec fn last_start(&self) -> int {
        self.last_index@
    }

    pub closed spec fn wf(&self) -> bool {
        &&& self.tokenizer.wf()
        &&& self.last.is_at(self.tokenizer.source(), self.last_index@)
        &&& self.ahead matches Some(out) ==> {
            let lexed = lex_at(self.tokenizer.source(), self.ahead_from@);
            &&& result_matches(out, self.tokenizer.source(), lexed)
            &&& 0 <= self.ahead_from@ <= self.tokenizer.source().len()
            &&& self.tokenizer.index() == lexed.end
            &&& self.ahead_start.is_at(self.tokenizer.source(), lexed.start)
        }
    }

    /// What well-formedness means to a caller.
    pub proof fn lemma_wf(&self)
        requires
            self.wf(),
        ensures
            0 <= self.index() <= self.source().len() < usize::MAX,
    {
        self.tokenizer.lemma_wf();
    }

    /// A stream at the start of `input`, which has to be shorter than the
    /// largest `usize`.
    pub fn new(input: &str) -> (lex: Lex)
        requires
            input.len() < usize::MAX,
        ensures
            lex.wf(),
            lex.source() == input@,
            lex.index() == 0,
            lex.last_start() == 0,
    {
        let tokenizer = Tokenizer::new(input);
        let start: Position = tokenizer.position();
        Lex {
            tokenizer,
            ahead: None,
            ahead_start: start,
            ahead_from: Ghost(0),
            last: start,
            last_index: Ghost(0),
        }
    }

    /// Takes the next token. At the end of the input that is `EndOfInput`,
    /// on every call.
    pub fn next(&mut self) -> (out: Result<Token, LexError>)
        requires
            old(self).wf(),
        ensures
            final(self).wf(),
            final(self).source() == old(self).source(),
            result_matches(out, old(self).source(), lex_at(old(self).source(), old(self).index())),
            final(self).index() == lex_at(old(self).source(), old(self).index()).end,
            final(self).last_start() == lex_at(old(self).source(), old(self).index()).start,
    {
        let ghost lexed = lex_at(self.source(), self.index());
        match self.ahead.take() {
            Some(out) => {
                self.last = self.ahead_start;
                self.last_index = Ghost(lexed.start);
                out
            },
            None => {
                let out = self.tokenizer.scan();
                self.last = self.tokenizer.token_position();
                self.last_index = Ghost(lexed.start);
                out
            },
        }
    }

    /// Shows the next token and leaves it in the stream.
    pub fn peek(&mut self) -> (out: Result<&Token, &LexError>)
        requires
            old(self).wf(),
        ensures
            final(self).wf(),
            final(self).source() == old(self).source(),
            final(self).index() == old(self).index(),
            final(self).last_start() == old(self).last_start(),
            borrowed_matches(
                out,
                old(self).source(),
                lex_at(old(self).source(), old(self).index()),
            ),
    {
        if self.ahead.is_none() {
            proof {
                self.tokenizer.lemma_wf();
            }
            self.ahead_from = Ghost(self.tokenizer.index());
            let out = self.tokenizer.scan();
            self.ahead_start = self.tokenizer.token_position();
            self.ahead = Some(out);
        }
        match &self.ahead {
            Some(Ok(token)) => Ok(token),
            Some(Err(error)) => Err(error),
            None => unreached(),
        }
    }

    /// The position of the token or error that `next` returned last; the
    /// start of the text before the first call.
    pub fn position(&self) -> (p: Position)
        requires
            self.wf(),
        ensures
            p.is_at(self.source(), self.last_start()),
    {
        self.last
    }
}

/// Everything that lexing `s` from `i` on finds, one after the other, up to
/// and with the end of the input. (What is found always ends after `i`,
/// unless it is the end of the input; the definition asks for it only to
/// show that it comes to an end.)
#[verifier::opaque]
pub open spec fn lex_all(s: Seq<char>, i: int) -> Seq<Lexed>
    decreases s.len() - i,
{
    let lexed = lex_at(s, i);
    if lexed.item == Ok::<TokenView, LexErrorKind>(TokenView::EndOfInput) || !(i < lexed.end
        <= s.len()) {
        seq![lexed]
    } else {
        seq![lexed] + lex_all(s, lexed.end)
    }
}

/// `lex_all` is what is found first, followed, unless that is the end of the
/// input, by all that is found from where lexing goes on.
pub proof fn lemma_lex_all(s: Seq<char>, i: int)
    requires
        0 <= i <= s.len(),
    ensures
        lex_all(s, i) == if lex_at(s, i).item == Ok::<TokenView, LexErrorKind>(
            TokenView::EndOfInput,
        ) {
            seq![lex_at(s, i)]
        } else {
            seq![lex_at(s, i)] + lex_all(s, lex_at(s, i).end)
        },
        i <= lex_at(s, i).end <= s.len(),
        lex_at(s, i).item != Ok::<TokenView, LexErrorKind>(TokenView::EndOfInput) ==> i < lex_at(
            s,
            i,
        ).end,
{
    reveal(lex_all);
    lemma_lex_bounds(s, i);
}

/// Whether `token` is the end of the input.
pub fn is_end_of_input(token: &Token) -> (b: bool)
    ensures
        b == (token@ == TokenView::EndOfInput),
{
    match token {
        Token::EndOfInput => true,
        _ => false,
    }
}

/// All tokens and errors of `input`, in their order; the last is the end of
/// the input.
pub fn tokenize(input: &str) -> (out: Vec<Result<Token, LexError>>)
    requires
        input.len() < usize::MAX,
    ensures
        out@.len() == lex_all(input@, 0).len(),
        forall|k: int|
            0 <= k < out@.len() ==> result_matches(#[trigger] out@[k], input@, lex_all(input@, 0)[k]),
{
    let ghost s = input@;
    let mut lex = Lex::new(input);
    let mut out: Vec<Result<Token, LexError>> = Vec::new();
    let ghost mut found: Seq<Lexed> = Seq::empty();
    loop
        invariant_except_break
            lex_all(s, 0) == found + lex_all(s, lex.index()),
        invariant
            lex.wf(),
            lex.source() == s,
            found.len() == out@.len(),
            forall|k: int| 0 <= k < out@.len() ==> result_matches(#[trigger] out@[k], s, found[k]),
        ensures
            found.len() == out@.len(),
            lex_all(s, 0) == found,
            forall|k: int| 0 <= k < out@.len() ==> result_matches(#[trigger] out@[k], s, found[k]),
        decreases s.len() - lex.index(),
    {
        let ghost i = lex.index();
        let ghost lexed = lex_at(s, i);
        proof {
            lex.lemma_wf();
            lemma_lex_all(s, i);
        }
        let item = lex.next();
        let done: bool = match &item {
            Ok(token) => is_end_of_input(token),
            Err(_) => false,
        };
        out.push(item);
        proof {
            let before = found;
            found = found.push(lexed);
            if done {
                assert(before + seq![lexed] =~= found);
            } else {
                assert(before + (seq![lexed] + lex_all(s, lexed.end)) =~= found + lex_all(
                    s,
                    lexed.end,
                ));
            }
        }
        if done {
            break ;
        }
    }
    out
}

} // verus!
