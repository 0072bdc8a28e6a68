//! Skipping what stands between tokens: blanks and comments.

use crate::lex::brackets::{lemma_find_close, long_open_level, scan_long_close};
use crate::chars::{is_space, lemma_run_end, CharClass};
use crate::lex::cursor::SourceCursor;
use crate::lex::error::{LexError, LexErrorKind};
use crate::lex::outcome::{error_reports, fault};
use crate::lex::grammar::{comment_end, comment_opens, trivia_end};
use crate::lex::position::Position;
use vstd::prelude::*;

verus! {

/// Consumes the comment that opens at the cursor. An unclosed long comment
/// takes the rest of the input with it, and `false` comes back.
pub fn skip_comment(cursor: &mut SourceCursor) -> (closed: bool)
    requires
        old(cursor).wf(),
        comment_opens(old(cursor).source(), old(cursor).index()),
    ensures
        final(cursor).wf(),
        final(cursor).source() == old(cursor).source(),
        old(cursor).index() + 2 <= final(cursor).index(),
        match comment_end(old(cursor).source(), old(cursor).index()) {
            Some(e) => closed && final(cursor).index() == e,
            None => !closed && final(cursor).index() == old(cursor).source().len(),
        },
{
    let ghost s = cursor.source();
    let ghost i = cursor.index();
    proof {
        cursor.lemma_wf();
    }
    cursor.advance_by(2);
    match long_open_level(cursor) {
        Some(level) => {
            cursor.advance_by(level + 2);
            proof {
                lemma_find_close(s, i + 4 + level, level as int);
            }
            scan_long_close(cursor, level).is_some()
        },
        None => {
            cursor.skip_while(CharClass::NotNewline);
            proof {
                lemma_run_end(s, i + 2, CharClass::NotNewline);
            }
            true
        },
    }
}

/// Consumes blanks and comments up to the next character that belongs to
/// neither. An unclosed long comment is reported at the place at which it
/// opens, with the text from there to the end of the input.
pub fn skip_trivia(cursor: &mut SourceCursor) -> (out: Result<(), LexError>)
    requires
        old(cursor).wf(),
    ensures
        final(cursor).wf(),
        final(cursor).source() == old(cursor).source(),
        match trivia_end(old(cursor).source(), old(cursor).index()) {
            Ok(j) => out is Ok && final(cursor).index() == j,
            Err(j) => out is Err && error_reports(
                out->Err_0,
                LexErrorKind::UnterminatedLongBracket,
                old(cursor).source(),
                j,
                old(cursor).source().len() as int,
            ) && final(cursor).index() == old(cursor).source().len(),
        },
{
    let ghost s = cursor.source();
    let ghost from = cursor.index();
    proof {
        cursor.lemma_wf();
    }
    loop
        invariant
            cursor.wf(),
            cursor.source() == s,
            s == old(cursor).source(),
            from == old(cursor).index(),
            0 <= from <= cursor.index() <= s.len() < usize::MAX,
            trivia_end(s, from) == trivia_end(s, cursor.index()),
        decreases s.len() - cursor.index(),
    {
        match cursor.peek() {
            None => {
                return Ok(());
            },
            Some(c) => {
                if is_space(c) {
                    cursor.advance();
                } else if c == '-' && cursor.peek_at(1) == Some('-') {
                    let start: usize = cursor.consumed();
                    let position: Position = cursor.position();
                    if !skip_comment(cursor) {
                        return Err(
                            fault(cursor, LexErrorKind::UnterminatedLongBracket, start, position),
                        );
                    }
                    proof {
                        cursor.lemma_wf();
                    }
                } else {
                    return Ok(());
                }
            },
        }
    }
}

} // verus!
