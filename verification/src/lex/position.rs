//! Positions in a source text: line, column and byte offset.

use vstd::prelude::*;
use vstd::utf8::*;

verus! {

/// A place in a source text. Lines and columns count from 1; a column counts
/// characters, the offset counts the bytes of the UTF-8 encoding.
#[derive(Clone, Copy, Debug, PartialEq, Eq, Structural)]
pub struct Position {
    pub line: usize,
    pub column: usize,
    pub offset: usize,
}

/// The number of bytes that encode `c` in UTF-8.
pub open spec fn utf8_width(c: char) -> int {
    if c as u32 <= 0x7F {
        1
    } else if c as u32 <= 0x7FF {
        2
    } else if c as u32 <= 0xFFFF {
        3
    } else {
        4
    }
}

/// The byte offset of index `i`: the length of the encoding of what precedes it.
pub open spec fn offset_at(s: Seq<char>, i: int) -> int {
    encode_utf8(s.take(i)).len() as int
}

/// The number of newlines before index `i`.
pub open spec fn newlines_before(s: Seq<char>, i: int) -> int
    decreases i,
{
    if i <= 0 || i > s.len() {
        0
    } else {
        newlines_before(s, i - 1) + if s[i - 1] == '\n' {
            1int
        } else {
            0int
        }
    }
}

/// The index at which the line that holds index `i` begins.
pub open spec fn line_start(s: Seq<char>, i: int) -> int
    decreases i,
{
    if i <= 0 || i > s.len() {
        0
    } else if s[i - 1] == '\n' {
        i
    } else {
        line_start(s, i - 1)
    }
}

pub open spec fn line_at(s: Seq<char>, i: int) -> int {
    1 + newlines_before(s, i)
}

pub open spec fn column_at(s: Seq<char>, i: int) -> int {
    i - line_start(s, i) + 1
}

impl Position {
    /// This position is that of index `i` in `s`.
    pub open spec fn is_at(self, s: Seq<char>, i: int) -> bool {
        &&& self.line == line_at(s, i)
        &&& self.column == column_at(s, i)
        &&& self.offset == offset_at(s, i)
    }

    /// The position of the first character of any text.
    pub fn start() -> (p: Position)
        ensures
            p.line == 1,
            p.column == 1,
            p.offset == 0,
    {
        Position { line: 1, column: 1, offset: 0 }
    }
}

pub fn char_width(c: char) -> (w: usize)
    ensures
        w == utf8_width(c),
{
    let code: u32 = c as u32;
    if code <= 0x7F {
        1
    } else if code <= 0x7FF {
        2
    } else if code <= 0xFFFF {
        3
    } else {
        4
    }
}

/// Encoding a text with one more character appends that character's bytes.
pub proof fn lemma_encode_push(s: Seq<char>, c: char)
    ensures
        encode_utf8(s.push(c)) == encode_utf8(s) + encode_scalar(c as u32),
    decreases s.len(),
{
    if s.len() == 0 {
        let t = s.push(c);
        assert(t.drop_first() =~= Seq::<char>::empty());
        assert(t[0] == c);
        assert(encode_utf8(t.drop_first()) =~= Seq::<u8>::empty());
        assert(encode_utf8(s) =~= Seq::<u8>::empty());
        assert(encode_utf8(t) == encode_scalar(t[0] as u32) + encode_utf8(t.drop_first()));
        assert(encode_utf8(t) =~= encode_utf8(s) + encode_scalar(c as u32));
    } else {
        lemma_encode_push(s.drop_first(), c);
        let t = s.push(c);
        assert(t.drop_first() =~= s.drop_first().push(c));
        assert(t[0] == s[0]);
        assert(encode_utf8(t) == encode_scalar(t[0] as u32) + encode_utf8(t.drop_first()));
        assert(encode_utf8(s) == encode_scalar(s[0] as u32) + encode_utf8(s.drop_first()));
        assert(encode_utf8(t) =~= encode_utf8(s) + encode_scalar(c as u32));
    }
}

/// `utf8_width` is the length of the character's encoding.
pub proof fn lemma_width_is_encoded_length(c: char)
    ensures
        encode_scalar(c as u32).len() == utf8_width(c),
{
    char_is_scalar(c);
}

/// One character further, the offset has grown by that character's width.
pub proof fn lemma_offset_step(s: Seq<char>, i: int)
    requires
        0 <= i < s.len(),
    ensures
        offset_at(s, i + 1) == offset_at(s, i) + utf8_width(s[i]),
{
    lemma_encode_push(s.take(i), s[i]);
    lemma_width_is_encoded_length(s[i]);
    assert(s.take(i + 1) =~= s.take(i).push(s[i]));
}

/// Offsets grow with the index, by at least one byte for each character.
pub proof fn lemma_offset_grows(s: Seq<char>, i: int, j: int)
    requires
        0 <= i <= j <= s.len(),
    ensures
        offset_at(s, i) + (j - i) <= offset_at(s, j),
    decreases j - i,
{
    if i < j {
        lemma_offset_grows(s, i, j - 1);
        lemma_offset_step(s, j - 1);
    }
}

pub proof fn lemma_offset_zero(s: Seq<char>)
    ensures
        offset_at(s, 0) == 0,
{
    assert(s.take(0) =~= Seq::<char>::empty());
}

/// The offset of the end of a text is the length of its encoding.
pub proof fn lemma_offset_end(s: Seq<char>)
    ensures
        offset_at(s, s.len() as int) == encode_utf8(s).len(),
{
    assert(s.take(s.len() as int) =~= s);
}

/// Lines and columns never exceed the index by more than one.
pub proof fn lemma_line_column_bounds(s: Seq<char>, i: int)
    requires
        0 <= i <= s.len(),
    ensures
        0 <= newlines_before(s, i) <= i,
        0 <= line_start(s, i) <= i,
        1 <= line_at(s, i) <= i + 1,
        1 <= column_at(s, i) <= i + 1,
    decreases i,
{
    if i > 0 {
        lemma_line_column_bounds(s, i - 1);
    }
}

/// Positions are ordered as the indices they stand for.
pub proof fn lemma_position_monotonic(s: Seq<char>, i: int, j: int)
    requires
        0 <= i <= j <= s.len(),
    ensures
        line_at(s, i) <= line_at(s, j),
        offset_at(s, i) <= offset_at(s, j),
        line_at(s, i) == line_at(s, j) ==> column_at(s, i) <= column_at(s, j),
    decreases j - i,
{
    lemma_offset_grows(s, i, j);
    if i < j {
        lemma_position_monotonic(s, i, j - 1);
        lemma_line_column_bounds(s, j - 1);
    }
}

} // verus!
