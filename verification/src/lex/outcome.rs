//! How what the scanner returns relates to what the grammar describes.

use crate::lex::cursor::SourceCursor;
use crate::lex::error::{LexError, LexErrorKind};
use crate::lex::grammar::Lexed;
use crate::lex::position::Position;
use crate::lex::token::{Token, TokenView};
use vstd::prelude::*;

verus! {

/// Whether `error` reports `kind` for the text of `s` from `start` to `end`:
/// its position is that of `start`, and it carries that text.
pub open spec fn error_reports(
    error: LexError,
    kind: LexErrorKind,
    s: Seq<char>,
    start: int,
    end: int,
) -> bool {
    &&& error.kind == kind
    &&& error.position.is_at(s, start)
    &&& error.text@ == s.subrange(start, end)
}

/// Whether `out` is what the grammar found in `s`: the same token, or an
/// error of the same kind that reports the offending text and its place.
pub open spec fn result_matches(out: Result<Token, LexError>, s: Seq<char>, lexed: Lexed) -> bool {
    match out {
        Ok(token) => lexed.item == Ok::<TokenView, LexErrorKind>(token@),
        Err(error) => lexed.item == Err::<TokenView, LexErrorKind>(error.kind) && error_reports(
            error,
            error.kind,
            s,
            lexed.start,
            lexed.end,
        ),
    }
}

/// The error of `kind` for the text from index `start`, which is at
/// `position`, up to the cursor.
pub fn fault(cursor: &SourceCursor, kind: LexErrorKind, start: usize, position: Position) -> (error:
    LexError)
    requires
        cursor.wf(),
        start <= cursor.index(),
        position.is_at(cursor.source(), start as int),
    ensures
        error_reports(error, kind, cursor.source(), start as int, cursor.index()),
{
    proof {
        cursor.lemma_wf();
    }
    LexError { kind, position, text: cursor.text(start, cursor.consumed()) }
}

} // verus!
