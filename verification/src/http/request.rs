//! Reading a request.

use crate::chars::{chars_of, run_end, scan_run, str_equals, text_of, CharClass};
use crate::http::headers::{with_field, Field, Headers};
use vstd::pervasive::unreached;
use vstd::prelude::*;
use vstd::std_specs::convert::FromSpecImpl;

verus! {

/// The method of a request.
#[derive(Clone, Copy, Debug, PartialEq, Eq, Structural)]
pub enum Method {
    Get,
    Post,
    Uninitialized,
}

/// The method that `text` names.
pub open spec fn method_of(text: Seq<char>) -> Method {
    if text == "GET"@ {
        Method::Get
    } else if text == "POST"@ {
        Method::Post
    } else {
        Method::Uninitialized
    }
}

impl From<&str> for Method {
    fn from(s: &str) -> (method: Method) {
        if str_equals(s, "GET") {
            Method::Get
        } else if str_equals(s, "POST") {
            Method::Post
        } else {
            Method::Uninitialized
        }
    }
}

impl FromSpecImpl<&str> for Method {
    open spec fn obeys_from_spec() -> bool {
        true
    }

    open spec fn from_spec(s: &str) -> Method {
        method_of(s@)
    }
}

/// The version of the protocol.
#[derive(Clone, Copy, Debug, PartialEq, Eq, Structural)]
pub enum Version {
    V1_0,
    V1_1,
    Uninitialized,
}

/// The version that `text` names.
pub open spec fn version_of(text: Seq<char>) -> Version {
    if text == "HTTP/1.0"@ {
        Version::V1_0
    } else if text == "HTTP/1.1"@ {
        Version::V1_1
    } else {
        Version::Uninitialized
    }
}

impl From<&str> for Version {
    fn from(s: &str) -> (version: Version) {
        if str_equals(s, "HTTP/1.0") {
            Version::V1_0
        } else if str_equals(s, "HTTP/1.1") {
            Version::V1_1
        } else {
            Version::Uninitialized
        }
    }
}

impl FromSpecImpl<&str> for Version {
    open spec fn obeys_from_spec() -> bool {
        true
    }

    open spec fn from_spec(s: &str) -> Version {
        version_of(s@)
    }
}

/// What a request asks for.
#[derive(Debug, PartialEq)]
pub enum Resource {
    Path(String),
}

impl Resource {
    /// The path.
    pub open spec fn path(&self) -> Seq<char> {
        match self {
            Resource::Path(text) => text@,
        }
    }
}

/// A request.
#[derive(Debug)]
pub struct HttpRequest {
    pub method: Method,
    pub version: Version,
    pub resource: Resource,
    pub headers: Headers,
    pub msg_body: String,
}

/// A request as a mathematical value.
pub struct RequestView {
    pub method: Method,
    pub version: Version,
    pub path: Seq<char>,
    pub fields: Seq<Field>,
    pub body: Seq<char>,
}

impl View for HttpRequest {
    type V = RequestView;

    open spec fn view(&self) -> RequestView {
        RequestView {
            method: self.method,
            version: self.version,
            path: self.resource.path(),
            fields: self.headers.fields(),
            body: self.msg_body@,
        }
    }
}

// ----------------------------------------------------------------------
// Words
// ----------------------------------------------------------------------
/// Where the word begins that is looked for from `i` on: after the white
/// space there.
pub open spec fn word_start(s: Seq<char>, i: int) -> int {
    run_end(s, i, CharClass::Whitespace)
}

/// Where the word ends that begins at `i`.
pub open spec fn word_end(s: Seq<char>, i: int) -> int {
    run_end(s, i, CharClass::NotWhitespace)
}

/// The first three words of a line, each as the index at which it begins
/// and the index at which it ends. A word that is missing is empty.
pub struct ThreeWords {
    pub first: (int, int),
    pub second: (int, int),
    pub third: (int, int),
}

pub open spec fn three_words(s: Seq<char>) -> ThreeWords {
    let a0 = word_start(s, 0);
    let b0 = word_end(s, a0);
    let a1 = word_start(s, b0);
    let b1 = word_end(s, a1);
    let a2 = word_start(s, b1);
    let b2 = word_end(s, a2);
    ThreeWords { first: (a0, b0), second: (a1, b1), third: (a2, b2) }
}

/// Whether a line holds three words at least.
pub open spec fn has_three_words(s: Seq<char>) -> bool {
    three_words(s).third.0 < s.len()
}

/// What a request line says: method, path and version are its first three
/// words.
pub open spec fn request_line(s: Seq<char>) -> (Method, Seq<char>, Version) {
    let w = three_words(s);
    (
        method_of(s.subrange(w.first.0, w.first.1)),
        s.subrange(w.second.0, w.second.1),
        version_of(s.subrange(w.third.0, w.third.1)),
    )
}

/// Reads method, path and version from the characters of a request line;
/// `None` for a line of less than three words.
pub fn read_request_line(line: &Vec<char>) -> (out: Option<(Method, Resource, Version)>)
    ensures
        match out {
            Some(parts) => has_three_words(line@) && (parts.0, parts.1.path(), parts.2)
                == request_line(line@),
            None => !has_three_words(line@),
        },
{
    let a0: usize = scan_run(line, 0, CharClass::Whitespace);
    let b0: usize = scan_run(line, a0, CharClass::NotWhitespace);
    let a1: usize = scan_run(line, b0, CharClass::Whitespace);
    let b1: usize = scan_run(line, a1, CharClass::NotWhitespace);
    let a2: usize = scan_run(line, b1, CharClass::Whitespace);
    let b2: usize = scan_run(line, a2, CharClass::NotWhitespace);
    if a2 >= line.len() {
        return None;
    }
    let method_text = text_of(line, a0, b0);
    let version_text = text_of(line, a2, b2);
    Some(
        (
            Method::from(method_text.as_str()),
            Resource::Path(text_of(line, a1, b1)),
            Version::from(version_text.as_str()),
        ),
    )
}

/// Whether a line holds three words at least.
pub fn has_request_words(s: &str) -> (b: bool)
    ensures
        b == has_three_words(s@),
{
    let line: Vec<char> = chars_of(s);
    let a0: usize = scan_run(&line, 0, CharClass::Whitespace);
    let b0: usize = scan_run(&line, a0, CharClass::NotWhitespace);
    let a1: usize = scan_run(&line, b0, CharClass::Whitespace);
    let b1: usize = scan_run(&line, a1, CharClass::NotWhitespace);
    scan_run(&line, b1, CharClass::Whitespace) < line.len()
}

/// Reads method, path and version from a request line, which has to hold
/// three words.
pub fn process_req_line(s: &str) -> (out: (Method, Resource, Version))
    requires
        has_three_words(s@),
    ensures
        (out.0, out.1.path(), out.2) == request_line(s@),
{
    let line: Vec<char> = chars_of(s);
    match read_request_line(&line) {
        Some(parts) => parts,
        None => unreached(),
    }
}

/// Reads method, path and version from a request line; `None` for a line of
/// less than three words.
pub fn parse_request_line(s: &str) -> (out: Option<(Method, Resource, Version)>)
    ensures
        match out {
            Some(parts) => has_three_words(s@) && (parts.0, parts.1.path(), parts.2)
                == request_line(s@),
            None => !has_three_words(s@),
        },
{
    if has_request_words(s) {
        Some(process_req_line(s))
    } else {
        None
    }
}

// ----------------------------------------------------------------------
// Header lines
// ----------------------------------------------------------------------
/// The index of the first colon from `i` on, or the length of the line.
pub open spec fn colon_from(s: Seq<char>, i: int) -> int {
    run_end(s, i, CharClass::NotColon)
}

/// What a header line says. The name is what stands before the first colon.
/// The contents are what stands between the first colon and the second, or
/// the end of the line; a line without a colon has a single colon for its
/// contents.
pub open spec fn header_line(s: Seq<char>) -> Field {
    let first = colon_from(s, 0);
    (
        s.subrange(0, first),
        if first < s.len() {
            s.subrange(first + 1, colon_from(s, first + 1))
        } else {
            seq![':']
        },
    )
}

/// Reads name and contents from the characters of a header line.
pub fn read_header_line(line: &Vec<char>) -> (out: (String, String))
    ensures
        (out.0@, out.1@) == header_line(line@),
{
    let first: usize = scan_run(line, 0, CharClass::NotColon);
    let key = text_of(line, 0, first);
    if first < line.len() {
        let second: usize = scan_run(line, first + 1, CharClass::NotColon);
        (key, text_of(line, first + 1, second))
    } else {
        let mut value = String::new();
        value.push(':');
        assert(value@ =~= seq![':']);
        (key, value)
    }
}

/// Reads name and contents from a header line.
pub fn process_headers_line(s: &str) -> (out: (String, String))
    ensures
        (out.0@, out.1@) == header_line(s@),
{
    let line: Vec<char> = chars_of(s);
    read_header_line(&line)
}

// ----------------------------------------------------------------------
// The whole request
// ----------------------------------------------------------------------
/// Whether `HTTP` stands at index `k`.
pub open spec fn http_at(s: Seq<char>, k: int) -> bool {
    &&& 0 <= k
    &&& k + 4 <= s.len()
    &&& s[k] == 'H'
    &&& s[k + 1] == 'T'
    &&& s[k + 2] == 'T'
    &&& s[k + 3] == 'P'
}

/// Whether `HTTP` stands anywhere in the line.
pub open spec fn mentions_http(s: Seq<char>) -> bool {
    exists|k: int| http_at(s, k)
}

/// Whether a colon stands anywhere in the line.
pub open spec fn has_colon(s: Seq<char>) -> bool {
    colon_from(s, 0) < s.len()
}

/// Where the line ends that begins at `i`: before its newline, and before a
/// carriage return that stands right before that newline.
pub open spec fn line_stop(s: Seq<char>, i: int) -> int {
    let e = run_end(s, i, CharClass::NotNewline);
    if i < e < s.len() && s[e - 1] == '\r' {
        e - 1
    } else {
        e
    }
}

/// Where the line begins that follows the one that begins at `i`.
pub open spec fn line_next(s: Seq<char>, i: int) -> int {
    let e = run_end(s, i, CharClass::NotNewline);
    if e < s.len() {
        e + 1
    } else {
        e
    }
}

/// A request of which nothing is known yet.
pub open spec fn blank_request() -> RequestView {
    RequestView {
        method: Method::Uninitialized,
        version: Version::Uninitialized,
        path: Seq::empty(),
        fields: Seq::empty(),
        body: Seq::empty(),
    }
}

/// The request after one more line has been read. A line that mentions
/// `HTTP` is the request line, and sets nothing if it has less than three
/// words. Any other line with a colon sets a header field. An empty line
/// is passed over, and any other line is the body.
pub open spec fn with_line(request: RequestView, line: Seq<char>) -> RequestView {
    if mentions_http(line) {
        if has_three_words(line) {
            RequestView {
                method: request_line(line).0,
                path: request_line(line).1,
                version: request_line(line).2,
                ..request
            }
        } else {
            request
        }
    } else if has_colon(line) {
        RequestView {
            fields: with_field(request.fields, header_line(line).0, header_line(line).1),
            ..request
        }
    } else if line.len() == 0 {
        request
    } else {
        RequestView { body: line, ..request }
    }
}

/// The request after the lines of `s` from index `i` on have been read, one
/// after the other. (The next line always begins after `i`; the definition
/// asks for it only to show that it comes to an end.)
pub open spec fn with_lines(request: RequestView, s: Seq<char>, i: int) -> RequestView
    decreases s.len() - i,
{
    if 0 <= i < s.len() {
        let next = line_next(s, i);
        if i < next <= s.len() {
            with_lines(with_line(request, s.subrange(i, line_stop(s, i))), s, next)
        } else {
            request
        }
    } else {
        request
    }
}

/// The request that the text `s` holds.
pub open spec fn request_of(s: Seq<char>) -> RequestView {
    with_lines(blank_request(), s, 0)
}

/// Whether `HTTP` stands anywhere in the line.
pub fn line_mentions_http(line: &Vec<char>) -> (found: bool)
    ensures
        found == mentions_http(line@),
{
    if line.len() < 4 {
        assert(forall|k: int| !http_at(line@, k));
        return false;
    }
    let mut k: usize = 0;
    while k <= line.len() - 4
        invariant
            4 <= line@.len(),
            forall|j: int| j < k ==> !http_at(line@, j),
        decreases line@.len() - k,
    {
        if line[k] == 'H' && line[k + 1] == 'T' && line[k + 2] == 'T' && line[k + 3] == 'P' {
            assert(http_at(line@, k as int));
            return true;
        }
        k = k + 1;
    }
    assert(forall|j: int| !http_at(line@, j));
    false
}

impl HttpRequest {
    /// The request that `text` holds.
    pub fn parse(text: &str) -> (request: HttpRequest)
        ensures
            request@ == request_of(text@),
            request.headers.wf(),
    {
        let chars: Vec<char> = chars_of(text);
        let mut request = HttpRequest {
            method: Method::Uninitialized,
            version: Version::Uninitialized,
            resource: Resource::Path(String::new()),
            headers: Headers::new(),
            msg_body: String::new(),
        };
        let mut i: usize = 0;
        while i < chars.len()
            invariant
                i <= chars@.len(),
                request.headers.wf(),
                request_of(chars@) == with_lines(request@, chars@, i as int),
            decreases chars@.len() - i,
        {
            let e: usize = scan_run(&chars, i, CharClass::NotNewline);
            let stop: usize = if i < e && e < chars.len() && chars[e - 1] == '\r' {
                e - 1
            } else {
                e
            };
            let next: usize = if e < chars.len() {
                e + 1
            } else {
                e
            };
            let mut line: Vec<char> = Vec::new();
            let mut k: usize = i;
            while k < stop
                invariant
                    i <= k <= stop <= chars@.len(),
                    line@ == chars@.subrange(i as int, k as int),
                decreases stop - k,
            {
                line.push(chars[k]);
                k = k + 1;
                assert(line@ =~= chars@.subrange(i as int, k as int));
            }
            let ghost before = request@;
            if line_mentions_http(&line) {
                match read_request_line(&line) {
                    Some(parts) => {
                        request.method = parts.0;
                        request.resource = parts.1;
                        request.version = parts.2;
                    },
                    None => {},
                }
            } else if scan_run(&line, 0, CharClass::NotColon) < line.len() {
                let field = read_header_line(&line);
                request.headers.insert(field.0, field.1);
            } else if line.len() == 0 {
            } else {
                request.msg_body = text_of(&line, 0, line.len());
                assert(line@.subrange(0, line@.len() as int) =~= line@);
            }
            assert(request@ == with_line(before, line@));
            i = next;
        }
        request
    }
}

impl From<String> for HttpRequest {
    fn from(req: String) -> (request: HttpRequest)
        ensures
            request@ == request_of(req@),
            request.headers.wf(),
    {
        HttpRequest::parse(req.as_str())
    }
}

impl FromSpecImpl<String> for HttpRequest {
    open spec fn obeys_from_spec() -> bool {
        false
    }

    open spec fn from_spec(req: String) -> HttpRequest {
        choose|request: HttpRequest| request@ == request_of(req@)
    }
}

} // verus!
