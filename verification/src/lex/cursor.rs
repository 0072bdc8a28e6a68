//! A cursor over the characters of a source text.

use crate::chars::{chars_of, run_end, text_of, CharClass};
use crate::lex::position::{
    char_width, lemma_line_column_bounds, lemma_offset_end, lemma_offset_grows,
    lemma_offset_step, lemma_offset_zero, offset_at, Position,
};
use vstd::prelude::*;
use vstd::string::*;

verus! {

/// The character at index `i`, or `None` where the text has none: the end of
/// the input is a value apart from every character.
pub open spec fn char_at(s: Seq<char>, i: int) -> Option<char> {
    if 0 <= i < s.len() {
        Some(s[i])
    } else {
        None
    }
}

/// Owns the characters of one source text and walks through them, keeping
/// line, column and byte offset. The text is held as Unicode scalar values,
/// so no character is ever split.
pub struct SourceCursor {
    chars: Vec<char>,
    /// The length of the text in bytes, which bounds every offset.
    byte_len: usize,
    index: usize,
    here: Position,
    /// Where the cursor stood before the last character it consumed, as long
    /// as that step can still be undone.
    last: Option<Position>,
}

impl SourceCursor {
    /// The whole text.
    pub closed spec fn source(&self) -> Seq<char> {
        self.chars@
    }

    /// How many characters have been consumed.
    pub closed spec fn index(&self) -> int {
        self.index as int
    }

    /// Whether the last step can be undone.
    pub closed spec fn can_push_back(&self) -> bool {
        self.last is Some
    }

    pub closed spec fn wf(&self) -> bool {
        &&& self.index <= self.chars@.len()
        &&& self.byte_len == offset_at(self.chars@, self.chars@.len() as int)
        &&& self.byte_len < usize::MAX
        &&& self.here.is_at(self.chars@, self.index as int)
        &&& self.last matches Some(p) ==> self.index > 0 && p.is_at(
            self.chars@,
            self.index as int - 1,
        )
    }

    /// What well-formedness means to a caller.
    pub proof fn lemma_wf(&self)
        requires
            self.wf(),
        ensures
            0 <= self.index() <= self.source().len() < usize::MAX,
            self.can_push_back() ==> self.index() > 0,
    {
        lemma_offset_grows(self.chars@, 0, self.chars@.len() as int);
        lemma_offset_zero(self.chars@);
    }

    /// A cursor at the start of `input`. The text has to be shorter than the
    /// largest `usize`, so that a line number one past its length still fits.
    pub fn new(input: &str) -> (cursor: SourceCursor)
        requires
            input.len() < usize::MAX,
        ensures
            cursor.wf(),
            cursor.source() == input@,
            cursor.index() == 0,
            !cursor.can_push_back(),
    {
        let chars: Vec<char> = chars_of(input);
        let byte_len: usize = input.as_bytes().len();
        proof {
            lemma_offset_end(chars@);
            lemma_offset_zero(chars@);
        }
        SourceCursor { chars, byte_len, index: 0, here: Position::start(), last: None }
    }

    /// The number of characters of the text.
    pub fn len(&self) -> (n: usize)
        requires
            self.wf(),
        ensures
            n == self.source().len(),
    {
        self.chars.len()
    }

    /// The number of bytes of the text in UTF-8.
    pub fn byte_len(&self) -> (n: usize)
        requires
            self.wf(),
        ensures
            n == offset_at(self.source(), self.source().len() as int),
    {
        self.byte_len
    }

    /// The number of characters consumed so far.
    pub fn consumed(&self) -> (n: usize)
        requires
            self.wf(),
        ensures
            n == self.index(),
    {
        self.index
    }

    /// Whether every character has been consumed.
    pub fn is_at_end(&self) -> (b: bool)
        requires
            self.wf(),
        ensures
            b == (self.index() == self.source().len()),
    {
        self.index == self.chars.len()
    }

    /// The next character, which stays unconsumed.
    pub fn peek(&self) -> (c: Option<char>)
        requires
            self.wf(),
        ensures
            c == char_at(self.source(), self.index()),
    {
        if self.index < self.chars.len() {
            Some(self.chars[self.index])
        } else {
            None
        }
    }

    /// The character `ahead` places after the next one, which stays
    /// unconsumed as well.
    pub fn peek_at(&self, ahead: usize) -> (c: Option<char>)
        requires
            self.wf(),
        ensures
            c == char_at(self.source(), self.index() + ahead),
    {
        if ahead < self.chars.len() - self.index {
            Some(self.chars[self.index + ahead])
        } else {
            None
        }
    }

    /// The character at index `i`, consumed or not.
    pub fn get(&self, i: usize) -> (c: char)
        requires
            self.wf(),
            i < self.source().len(),
        ensures
            c == self.source()[i as int],
    {
        self.chars[i]
    }

    /// Where the cursor stands.
    pub fn position(&self) -> (p: Position)
        requires
            self.wf(),
        ensures
            p.is_at(self.source(), self.index()),
    {
        self.here
    }

    /// Consumes one character and returns it; at the end of the input
    /// nothing is consumed and `None` comes back, however often it is asked.
    pub fn advance(&mut self) -> (c: Option<char>)
        requires
            old(self).wf(),
        ensures
            final(self).wf(),
            final(self).source() == old(self).source(),
            c == char_at(old(self).source(), old(self).index()),
            final(self).index() == old(self).index() + if c is Some {
                1int
            } else {
                0int
            },
            final(self).can_push_back() == (c is Some),
    {
        if self.index < self.chars.len() {
            let c: char = self.chars[self.index];
            let width: usize = char_width(c);
            proof {
                let s = self.chars@;
                let i = self.index as int;
                lemma_offset_step(s, i);
                lemma_offset_grows(s, i + 1, s.len() as int);
                lemma_offset_grows(s, 0, s.len() as int);
                lemma_offset_zero(s);
                lemma_line_column_bounds(s, i);
                lemma_line_column_bounds(s, i + 1);
            }
            let before: Position = self.here;
            let after: Position = if c == '\n' {
                Position { line: before.line + 1, column: 1, offset: before.offset + width }
            } else {
                Position {
                    line: before.line,
                    column: before.column + 1,
                    offset: before.offset + width,
                }
            };
            self.last = Some(before);
            self.here = after;
            self.index = self.index + 1;
            Some(c)
        } else {
            self.last = None;
            None
        }
    }

    /// Takes back the last character consumed. One step can be undone; with
    /// none to undo the cursor stays as it is.
    pub fn pushback(&mut self)
        requires
            old(self).wf(),
        ensures
            final(self).wf(),
            final(self).source() == old(self).source(),
            !final(self).can_push_back(),
            final(self).index() == old(self).index() - if old(self).can_push_back() {
                1int
            } else {
                0int
            },
    {
        match self.last {
            Some(p) => {
                self.here = p;
                self.index = self.index - 1;
                self.last = None;
            },
            None => {},
        }
    }

    /// Consumes the maximal run of characters of `class` that begins here.
    pub fn skip_while(&mut self, class: CharClass)
        requires
            old(self).wf(),
        ensures
            final(self).wf(),
            final(self).source() == old(self).source(),
            final(self).index() == run_end(old(self).source(), old(self).index(), class),
    {
        loop
            invariant
                self.wf(),
                self.source() == old(self).source(),
                old(self).index() <= self.index(),
                run_end(old(self).source(), old(self).index(), class) == run_end(
                    self.source(),
                    self.index(),
                    class,
                ),
            ensures
                self.index() == run_end(old(self).source(), old(self).index(), class),
            decreases self.source().len() - self.index(),
        {
            match self.peek() {
                Some(c) => {
                    if class.contains(c) {
                        self.advance();
                    } else {
                        break ;
                    }
                },
                None => {
                    break ;
                },
            }
        }
    }

    /// Consumes `count` characters, which the text must still hold.
    pub fn advance_by(&mut self, count: usize)
        requires
            old(self).wf(),
            old(self).index() + count <= old(self).source().len(),
        ensures
            final(self).wf(),
            final(self).source() == old(self).source(),
            final(self).index() == old(self).index() + count,
    {
        let mut done: usize = 0;
        while done < count
            invariant
                self.wf(),
                self.source() == old(self).source(),
                done <= count,
                self.index() == old(self).index() + done,
                old(self).index() + count <= old(self).source().len(),
            decreases count - done,
        {
            self.advance();
            done = done + 1;
        }
    }

    /// A copy of the characters from index `from` up to index `to`.
    pub fn text(&self, from: usize, to: usize) -> (out: String)
        requires
            self.wf(),
            from <= to <= self.source().len(),
        ensures
            out@ == self.source().subrange(from as int, to as int),
    {
        text_of(&self.chars, from, to)
    }
}

} // verus!
