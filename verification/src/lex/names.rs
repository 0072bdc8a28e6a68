//! Names and keywords.

use crate::chars::{lemma_run_end, CharClass};
use crate::lex::cursor::SourceCursor;
use crate::lex::error::LexErrorKind;
use crate::lex::grammar::name_at;
use crate::lex::token::{keyword_of, Token, TokenView};
use vstd::prelude::*;

verus! {

/// Whether the characters from index `from` to index `to` are those of `word`.
pub fn spells(cursor: &SourceCursor, from: usize, to: usize, word: &[char]) -> (b: bool)
    requires
        cursor.wf(),
        from <= to <= cursor.source().len(),
    ensures
        b == (cursor.source().subrange(from as int, to as int) == word@),
{
    if to - from != word.len() {
        return false;
    }
    let mut k: usize = 0;
    while k < word.len()
        invariant
            cursor.wf(),
            from <= to <= cursor.source().len(),
            to - from == word@.len(),
            k <= word@.len(),
            cursor.source().subrange(from as int, from + k) == word@.take(k as int),
        decreases word@.len() - k,
    {
        if cursor.get(from + k) != word[k] {
            assert(cursor.source().subrange(from as int, to as int)[k as int] != word@[k as int]);
            return false;
        }
        k = k + 1;
        assert(cursor.source().subrange(from as int, from + k) =~= word@.take(k as int));
    }
    assert(word@.take(k as int) =~= word@);
    true
}

/// The keyword that the characters from index `from` to index `to` spell,
/// if they spell one.
pub fn keyword_lookup(cursor: &SourceCursor, from: usize, to: usize) -> (found: Option<Token>)
    requires
        cursor.wf(),
        from <= to <= cursor.source().len(),
    ensures
        match found {
            Some(token) => keyword_of(cursor.source().subrange(from as int, to as int)) == Some(
                token@,
            ),
            None => keyword_of(cursor.source().subrange(from as int, to as int)) is None,
        },
{
    if spells(cursor, from, to, &['a', 'n', 'd']) {
        return Some(Token::And);
    }
    if spells(cursor, from, to, &['b', 'r', 'e', 'a', 'k']) {
        return Some(Token::Break);
    }
    if spells(cursor, from, to, &['d', 'o']) {
        return Some(Token::Do);
    }
    if spells(cursor, from, to, &['e', 'l', 's', 'e']) {
        return Some(Token::Else);
    }
    if spells(cursor, from, to, &['e', 'l', 's', 'e', 'i', 'f']) {
        return Some(Token::Elseif);
    }
    if spells(cursor, from, to, &['e', 'n', 'd']) {
        return Some(Token::End);
    }
    if spells(cursor, from, to, &['f', 'a', 'l', 's', 'e']) {
        return Some(Token::False);
    }
    if spells(cursor, from, to, &['f', 'o', 'r']) {
        return Some(Token::For);
    }
    if spells(cursor, from, to, &['f', 'u', 'n', 'c', 't', 'i', 'o', 'n']) {
        return Some(Token::Function);
    }
    if spells(cursor, from, to, &['g', 'o', 't', 'o']) {
        return Some(Token::Goto);
    }
    if spells(cursor, from, to, &['i', 'f']) {
        return Some(Token::If);
    }
    if spells(cursor, from, to, &['i', 'n']) {
        return Some(Token::In);
    }
    if spells(cursor, from, to, &['l', 'o', 'c', 'a', 'l']) {
        return Some(Token::Local);
    }
    if spells(cursor, from, to, &['n', 'i', 'l']) {
        return Some(Token::Nil);
    }
    if spells(cursor, from, to, &['n', 'o', 't']) {
        return Some(Token::Not);
    }
    if spells(cursor, from, to, &['o', 'r']) {
        return Some(Token::Or);
    }
    if spells(cursor, from, to, &['r', 'e', 'p', 'e', 'a', 't']) {
        return Some(Token::Repeat);
    }
    if spells(cursor, from, to, &['r', 'e', 't', 'u', 'r', 'n']) {
        return Some(Token::Return);
    }
    if spells(cursor, from, to, &['t', 'h', 'e', 'n']) {
        return Some(Token::Then);
    }
    if spells(cursor, from, to, &['t', 'r', 'u', 'e']) {
        return Some(Token::True);
    }
    if spells(cursor, from, to, &['u', 'n', 't', 'i', 'l']) {
        return Some(Token::Until);
    }
    if spells(cursor, from, to, &['w', 'h', 'i', 'l', 'e']) {
        return Some(Token::While);
    }
    None
}

/// Consumes the name or keyword that begins at the cursor.
pub fn scan_name(cursor: &mut SourceCursor) -> (token: Token)
    requires
        old(cursor).wf(),
        old(cursor).index() < old(cursor).source().len(),
    ensures
        final(cursor).wf(),
        final(cursor).source() == old(cursor).source(),
        name_at(old(cursor).source(), old(cursor).index()).item == Ok::<TokenView, LexErrorKind>(
            token@,
        ),
        final(cursor).index() == name_at(old(cursor).source(), old(cursor).index()).end,
{
    let from: usize = cursor.consumed();
    cursor.advance();
    cursor.skip_while(CharClass::NamePart);
    let to: usize = cursor.consumed();
    proof {
        lemma_run_end(cursor.source(), from + 1, CharClass::NamePart);
    }
    match keyword_lookup(cursor, from, to) {
        Some(keyword) => keyword,
        None => Token::Name(cursor.text(from, to)),
    }
}

} // verus!
