//! Scanning long brackets: `[[`, `[=[`, `[==[` and so on, with their closing
//! counterparts of the same level.

use crate::chars::{lemma_run_end, run_end, CharClass};
use crate::lex::cursor::SourceCursor;
use crate::lex::grammar::{closes_at, find_close, long_open};
use vstd::prelude::*;

verus! {

/// Where no `]` stands, no closing bracket begins: the search may skip such
/// a stretch.
pub proof fn lemma_find_close_skip(s: Seq<char>, a: int, b: int, level: int)
    requires
        0 <= a <= b <= s.len(),
        forall|j: int| a <= j < b ==> #[trigger] s[j] != ']',
    ensures
        find_close(s, a, level) == find_close(s, b, level),
    decreases b - a,
{
    if a < b {
        lemma_find_close_skip(s, a + 1, b, level);
    }
}

/// What `find_close` finds is a closing bracket, within the text and not
/// before the index at which the search began.
pub proof fn lemma_find_close(s: Seq<char>, k: int, level: int)
    requires
        0 <= k,
        0 <= level,
    ensures
        find_close(s, k, level) matches Some(c) ==> k <= c && c + level + 2 <= s.len()
            && closes_at(s, c, level),
        find_close(s, k, level) is None ==> forall|j: int|
            k <= j < s.len() ==> !closes_at(s, j, level),
    decreases s.len() - k,
{
    if k < s.len() {
        if closes_at(s, k, level) {
        } else {
            lemma_find_close(s, k + 1, level);
        }
    }
}

/// The level of the long bracket that opens at the cursor, if one opens
/// there. Nothing is consumed.
pub fn long_open_level(cursor: &SourceCursor) -> (level: Option<usize>)
    requires
        cursor.wf(),
    ensures
        match level {
            Some(n) => long_open(cursor.source(), cursor.index()) == Some(n as int)
                && cursor.index() + n + 2 <= cursor.source().len(),
            None => long_open(cursor.source(), cursor.index()) is None,
        },
{
    proof {
        cursor.lemma_wf();
    }
    if cursor.peek() != Some('[') {
        return None;
    }
    let ghost s = cursor.source();
    let ghost first = cursor.index() + 1;
    let mut n: usize = 0;
    loop
        invariant
            cursor.wf(),
            s == cursor.source(),
            first == cursor.index() + 1,
            1 <= first <= s.len() < usize::MAX,
            first + n <= s.len(),
            run_end(s, first, CharClass::Equals) == run_end(s, first + n, CharClass::Equals),
        ensures
            first + n <= s.len(),
            run_end(s, first, CharClass::Equals) == first + n,
        decreases s.len() - n,
    {
        match cursor.peek_at(n + 1) {
            Some(c) => {
                if c == '=' {
                    n = n + 1;
                } else {
                    break ;
                }
            },
            None => {
                break ;
            },
        }
    }
    if cursor.peek_at(n + 1) == Some('[') {
        Some(n)
    } else {
        None
    }
}

/// Consumes the text up to and with the first closing bracket of `level`,
/// and returns the index at which that bracket begins. Without one the whole
/// rest of the input is consumed.
pub fn scan_long_close(cursor: &mut SourceCursor, level: usize) -> (close: Option<usize>)
    requires
        old(cursor).wf(),
    ensures
        final(cursor).wf(),
        final(cursor).source() == old(cursor).source(),
        match close {
            Some(k) => find_close(old(cursor).source(), old(cursor).index(), level as int) == Some(
                k as int,
            ) && final(cursor).index() == k + level + 2,
            None => find_close(old(cursor).source(), old(cursor).index(), level as int) is None
                && final(cursor).index() == old(cursor).source().len(),
        },
{
    let ghost s = cursor.source();
    let ghost from = cursor.index();
    proof {
        cursor.lemma_wf();
    }
    loop
        invariant
            cursor.wf(),
            cursor.source() == s,
            s == old(cursor).source(),
            from == old(cursor).index(),
            0 <= from <= cursor.index() <= s.len() < usize::MAX,
            find_close(s, from, level as int) == find_close(s, cursor.index(), level as int),
        decreases s.len() - cursor.index(),
    {
        match cursor.peek() {
            None => {
                return None;
            },
            Some(c) => {
                let k: usize = cursor.consumed();
                cursor.advance();
                if c == ']' {
                    cursor.skip_while(CharClass::Equals);
                    let e: usize = cursor.consumed();
                    proof {
                        lemma_run_end(s, k + 1, CharClass::Equals);
                    }
                    if e - (k + 1) == level && cursor.peek() == Some(']') {
                        cursor.advance();
                        return Some(k);
                    }
                    proof {
                        assert(!closes_at(s, k as int, level as int));
                        lemma_find_close_skip(s, k + 1, e as int, level as int);
                    }
                }
            },
        }
    }
}

} // verus!
