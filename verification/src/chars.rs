//! Characters and texts: character classes, maximal runs of one class, and
//! the few operations on strings that the rest of the library is built on.

use vstd::prelude::*;
use vstd::string::*;
use vstd::utf8::*;

verus! {

/// The answer of `char::is_alphanumeric` for a character: whether Unicode
/// classifies it as alphabetic or numeric. The tables behind it are those of
/// the standard library and are not restated here.
pub uninterp spec fn unicode_alphanumeric(c: char) -> bool;

/// `char::is_alphanumeric` is a function of the character alone; its result
/// is named, not defined.
pub assume_specification[ char::is_alphanumeric ](c: char) -> (b: bool)
    ensures
        b == unicode_alphanumeric(c),
;

/// The answer of `char::is_whitespace` for a character: whether it has the
/// Unicode property `White_Space`.
pub uninterp spec fn unicode_whitespace(c: char) -> bool;

/// `char::is_whitespace` is a function of the character alone; its result is
/// named, not defined.
pub assume_specification[ char::is_whitespace ](c: char) -> (b: bool)
    ensures
        b == unicode_whitespace(c),
;

/// Appending one character to a `String` appends it to the string's view.
pub assume_specification[ std::string::String::push ](s: &mut std::string::String, c: char)
    ensures
        final(s)@ == old(s)@.push(c),
;

pub open spec fn spec_is_space(c: char) -> bool {
    c == ' ' || c == '\t' || c == '\r' || c == '\n'
}

pub open spec fn spec_is_digit(c: char) -> bool {
    '0' <= c <= '9'
}

pub open spec fn spec_is_hex_digit(c: char) -> bool {
    ('0' <= c <= '9') || ('a' <= c <= 'f') || ('A' <= c <= 'F')
}

pub open spec fn spec_is_letter(c: char) -> bool {
    ('a' <= c <= 'z') || ('A' <= c <= 'Z')
}

/// A name begins with an ASCII letter or an underscore.
pub open spec fn spec_is_name_start(c: char) -> bool {
    spec_is_letter(c) || c == '_'
}

/// A name goes on with underscores and with whatever Unicode counts as a
/// letter or a digit.
pub open spec fn spec_is_name_part(c: char) -> bool {
    c == '_' || spec_is_letter(c) || spec_is_digit(c) || unicode_alphanumeric(c)
}

/// The value of a hexadecimal digit, which for `0` to `9` is its decimal value.
pub open spec fn spec_digit_value(c: char) -> int {
    if '0' <= c <= '9' {
        c as int - '0' as int
    } else if 'a' <= c <= 'f' {
        c as int - 'a' as int + 10
    } else if 'A' <= c <= 'F' {
        c as int - 'A' as int + 10
    } else {
        0
    }
}

#[verifier::when_used_as_spec(spec_is_space)]
pub fn is_space(c: char) -> (b: bool)
    ensures
        b == spec_is_space(c),
{
    c == ' ' || c == '\t' || c == '\r' || c == '\n'
}

#[verifier::when_used_as_spec(spec_is_digit)]
pub fn is_digit(c: char) -> (b: bool)
    ensures
        b == spec_is_digit(c),
{
    '0' <= c && c <= '9'
}

#[verifier::when_used_as_spec(spec_is_hex_digit)]
pub fn is_hex_digit(c: char) -> (b: bool)
    ensures
        b == spec_is_hex_digit(c),
{
    ('0' <= c && c <= '9') || ('a' <= c && c <= 'f') || ('A' <= c && c <= 'F')
}

#[verifier::when_used_as_spec(spec_is_letter)]
pub fn is_letter(c: char) -> (b: bool)
    ensures
        b == spec_is_letter(c),
{
    ('a' <= c && c <= 'z') || ('A' <= c && c <= 'Z')
}

#[verifier::when_used_as_spec(spec_is_name_start)]
pub fn is_name_start(c: char) -> (b: bool)
    ensures
        b == spec_is_name_start(c),
{
    is_letter(c) || c == '_'
}

#[verifier::when_used_as_spec(spec_is_name_part)]
pub fn is_name_part(c: char) -> (b: bool)
    ensures
        b == spec_is_name_part(c),
{
    c == '_' || is_letter(c) || is_digit(c) || c.is_alphanumeric()
}

pub fn digit_value(c: char) -> (v: u8)
    ensures
        v == spec_digit_value(c),
        v < 16,
        spec_is_digit(c) ==> v < 10,
{
    let code: u32 = c as u32;
    if '0' <= c && c <= '9' {
        (code - 48) as u8
    } else if 'a' <= c && c <= 'f' {
        (code - 97 + 10) as u8
    } else if 'A' <= c && c <= 'F' {
        (code - 65 + 10) as u8
    } else {
        0
    }
}

/// The classes of characters of which the scanner consumes maximal runs.
#[derive(Clone, Copy, Debug, PartialEq, Eq, Structural)]
pub enum CharClass {
    /// Blanks, tabs, carriage returns and newlines.
    Space,
    /// `0` to `9`.
    Digit,
    /// `0` to `9`, `a` to `f`, `A` to `F`.
    HexDigit,
    /// What a name goes on with.
    NamePart,
    /// Everything but a newline: the body of a line comment.
    NotNewline,
    /// The `=` signs between the brackets of a long bracket.
    Equals,
    /// What Unicode counts as white space.
    Whitespace,
    /// Everything else.
    NotWhitespace,
    /// Everything but a colon.
    NotColon,
}

impl CharClass {
    pub open spec fn spec_contains(self, c: char) -> bool {
        match self {
            CharClass::Space => spec_is_space(c),
            CharClass::Digit => spec_is_digit(c),
            CharClass::HexDigit => spec_is_hex_digit(c),
            CharClass::NamePart => spec_is_name_part(c),
            CharClass::NotNewline => c != '\n',
            CharClass::Equals => c == '=',
            CharClass::Whitespace => unicode_whitespace(c),
            CharClass::NotWhitespace => !unicode_whitespace(c),
            CharClass::NotColon => c != ':',
        }
    }

    #[verifier::when_used_as_spec(spec_contains)]
    pub fn contains(self, c: char) -> (b: bool)
        ensures
            b == self.spec_contains(c),
    {
        match self {
            CharClass::Space => is_space(c),
            CharClass::Digit => is_digit(c),
            CharClass::HexDigit => is_hex_digit(c),
            CharClass::NamePart => is_name_part(c),
            CharClass::NotNewline => c != '\n',
            CharClass::Equals => c == '=',
            CharClass::Whitespace => c.is_whitespace(),
            CharClass::NotWhitespace => !c.is_whitespace(),
            CharClass::NotColon => c != ':',
        }
    }
}

/// Where the maximal run of `class` that begins at `i` ends: the first index
/// from `i` on that holds no character of the class, or the length of `s`.
pub open spec fn run_end(s: Seq<char>, i: int, class: CharClass) -> int
    decreases s.len() - i,
{
    if 0 <= i < s.len() && class.spec_contains(s[i]) {
        run_end(s, i + 1, class)
    } else {
        i
    }
}

/// `run_end` is the one index that bounds a run: everything before it is in
/// the class, and what stands at it, if anything, is not.
pub proof fn lemma_run_end(s: Seq<char>, i: int, class: CharClass)
    requires
        0 <= i <= s.len(),
    ensures
        i <= run_end(s, i, class) <= s.len(),
        forall|k: int| i <= k < run_end(s, i, class) ==> class.spec_contains(#[trigger] s[k]),
        run_end(s, i, class) < s.len() ==> !class.spec_contains(s[run_end(s, i, class)]),
    decreases s.len() - i,
{
    if i < s.len() && class.spec_contains(s[i]) {
        lemma_run_end(s, i + 1, class);
    }
}

/// Any index that bounds a run in this way is `run_end`.
pub proof fn lemma_run_end_unique(s: Seq<char>, i: int, class: CharClass, e: int)
    requires
        0 <= i <= e <= s.len(),
        forall|k: int| i <= k < e ==> class.spec_contains(#[trigger] s[k]),
        e < s.len() ==> !class.spec_contains(s[e]),
    ensures
        run_end(s, i, class) == e,
    decreases e - i,
{
    if i < e {
        lemma_run_end_unique(s, i + 1, class, e);
    }
}

/// A run that begins inside a stretch of the class ends where the run from
/// the end of that stretch ends.
pub proof fn lemma_run_end_skip(s: Seq<char>, a: int, b: int, class: CharClass)
    requires
        0 <= a <= b <= s.len(),
        forall|k: int| a <= k < b ==> class.spec_contains(#[trigger] s[k]),
    ensures
        run_end(s, a, class) == run_end(s, b, class),
    decreases b - a,
{
    if a < b {
        lemma_run_end_skip(s, a + 1, b, class);
    }
}

/// The number that a sequence of digits writes in the given radix, the most
/// significant digit first.
pub open spec fn digits_value(digits: Seq<char>, radix: int) -> int
    decreases digits.len(),
{
    if digits.len() == 0 {
        0
    } else {
        digits_value(digits.drop_last(), radix) * radix + spec_digit_value(digits.last())
    }
}

/// The characters of a string, in a vector.
pub fn chars_of(text: &str) -> (chars: Vec<char>)
    ensures
        chars@ == text@,
{
    let mut chars: Vec<char> = Vec::new();
    for c in it: text.chars()
        invariant
            it.seq() == text@,
            chars@ == text@.take(it.index()),
    {
        chars.push(c);
        assert(chars@ =~= text@.take(it.index() + 1));
    }
    assert(chars@ =~= text@);
    chars
}

/// A string of the characters from index `from` up to index `to`.
pub fn text_of(chars: &Vec<char>, from: usize, to: usize) -> (out: String)
    requires
        from <= to <= chars@.len(),
    ensures
        out@ == chars@.subrange(from as int, to as int),
{
    let mut out = String::new();
    let mut k: usize = from;
    while k < to
        invariant
            from <= k <= to <= chars@.len(),
            out@ == chars@.subrange(from as int, k as int),
        decreases to - k,
    {
        out.push(chars[k]);
        k = k + 1;
        assert(out@ =~= chars@.subrange(from as int, k as int));
    }
    out
}

/// Where the maximal run of `class` that begins at index `from` ends.
pub fn scan_run(chars: &Vec<char>, from: usize, class: CharClass) -> (end: usize)
    requires
        from <= chars@.len(),
    ensures
        end == run_end(chars@, from as int, class),
        from <= end <= chars@.len(),
{
    let mut k: usize = from;
    while k < chars.len() && class.contains(chars[k])
        invariant
            from <= k <= chars@.len(),
            run_end(chars@, from as int, class) == run_end(chars@, k as int, class),
        decreases chars@.len() - k,
    {
        k = k + 1;
    }
    k
}

/// Whether two strings hold the same characters.
pub fn str_equals(a: &str, b: &str) -> (same: bool)
    ensures
        same == (a@ == b@),
{
    let x = a.as_bytes();
    let y = b.as_bytes();
    proof {
        encode_utf8_decode_utf8(a@);
        encode_utf8_decode_utf8(b@);
    }
    if x.len() != y.len() {
        return false;
    }
    let mut k: usize = 0;
    while k < x.len()
        invariant
            x@.len() == y@.len(),
            k <= x@.len(),
            forall|j: int| 0 <= j < k ==> x@[j] == y@[j],
            a@ == b@ ==> x@ == y@,
        decreases x@.len() - k,
    {
        if x[k] != y[k] {
            return false;
        }
        k = k + 1;
    }
    assert(x@ =~= y@);
    true
}

/// The decimal digit for a number below 10.
pub open spec fn digit_char(d: int) -> char {
    ((d + 48) as u8) as char
}

/// A number in decimal, without leading zeros.
pub open spec fn decimal_text(n: nat) -> Seq<char>
    decreases n,
{
    if n < 10 {
        seq![digit_char(n as int)]
    } else {
        decimal_text(n / 10).push(digit_char((n % 10) as int))
    }
}

/// Appends `n` in decimal.
pub fn push_decimal(out: &mut String, n: usize)
    ensures
        final(out)@ == old(out)@ + decimal_text(n as nat),
    decreases n,
{
    if n >= 10 {
        push_decimal(out, n / 10);
    }
    let digit: u8 = (n % 10) as u8;
    out.push((digit + 48) as char);
    assert(out@ =~= old(out)@ + decimal_text(n as nat));
}

} // verus!
