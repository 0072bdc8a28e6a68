//! Writing a response.

use crate::chars::{decimal_text, push_decimal, str_equals};
use crate::http::headers::{Field, Headers};
use vstd::prelude::*;
use vstd::std_specs::convert::FromSpecImpl;
use vstd::string::StringExecFns;
use vstd::utf8::encode_utf8;

verus! {

/// A response. Without header fields or without a body it is written as one
/// with no fields or with an empty body.
#[derive(Debug, PartialEq, Clone)]
pub struct HttpResponse<'a> {
    pub version: &'a str,
    pub status_code: &'a str,
    pub status_text: &'a str,
    pub headers: Option<Headers>,
    pub body: Option<String>,
}

/// A response as a mathematical value.
pub struct ResponseView {
    pub version: Seq<char>,
    pub status_code: Seq<char>,
    pub status_text: Seq<char>,
    pub fields: Option<Seq<Field>>,
    pub body: Option<Seq<char>>,
}

impl<'a> View for HttpResponse<'a> {
    type V = ResponseView;

    open spec fn view(&self) -> ResponseView {
        ResponseView {
            version: self.version@,
            status_code: self.status_code@,
            status_text: self.status_text@,
            fields: match self.headers {
                Some(headers) => Some(headers.fields()),
                None => None,
            },
            body: match self.body {
                Some(text) => Some(text@),
                None => None,
            },
        }
    }
}

/// The reason phrase that goes with a status code. A code that is not known
/// gets that of 404.
pub open spec fn status_text_of(code: Seq<char>) -> Seq<char> {
    if code == "200"@ {
        "OK"@
    } else if code == "400"@ {
        "Bad Request"@
    } else if code == "404"@ {
        "Not Found"@
    } else if code == "500"@ {
        "Internal Server Error"@
    } else {
        "Not Found"@
    }
}

/// The fields of a response that was given none.
pub open spec fn default_fields() -> Seq<Field> {
    seq![("Content-Type"@, "text/html"@)]
}

/// The header fields as they are written: each a line of name, colon, blank
/// and contents, in their order.
pub open spec fn header_lines(fields: Seq<Field>) -> Seq<char>
    decreases fields.len(),
{
    if fields.len() == 0 {
        Seq::empty()
    } else {
        header_lines(fields.drop_last()) + fields.last().0 + ": "@ + fields.last().1 + "\r\n"@
    }
}

/// The fields of a response, none where it has none.
pub open spec fn fields_or_none(fields: Option<Seq<Field>>) -> Seq<Field> {
    match fields {
        Some(f) => f,
        None => Seq::empty(),
    }
}

/// The body of a response, empty where it has none.
pub open spec fn body_or_empty(body: Option<Seq<char>>) -> Seq<char> {
    match body {
        Some(text) => text,
        None => Seq::empty(),
    }
}

/// A response as it is written: the status line, the header fields, the
/// length of the body in bytes, an empty line and the body.
pub open spec fn response_text(r: ResponseView) -> Seq<char> {
    r.version + " "@ + r.status_code + " "@ + r.status_text + "\r\n"@ + header_lines(
        fields_or_none(r.fields),
    ) + "Content-length: "@ + decimal_text(encode_utf8(body_or_empty(r.body)).len()) + "\r\n\r\n"@
        + body_or_empty(r.body)
}

impl<'a> Default for HttpResponse<'a> {
    fn default() -> (response: HttpResponse<'a>)
        ensures
            response.version@ == "HTTP/1.1"@,
            response.status_code@ == "200"@,
            response.status_text@ == "OK"@,
            response.headers is None,
            response.body is None,
    {
        HttpResponse {
            version: "HTTP/1.1",
            status_code: "200",
            status_text: "OK",
            headers: None,
            body: None,
        }
    }
}

impl<'a> HttpResponse<'a> {
    /// A response of version 1.1 with the given status code, the reason
    /// phrase that goes with it, and the given body. Where no header fields
    /// are given it says that its content is HTML.
    pub fn new(status_code: &'a str, headers: Option<Headers>, body: Option<String>) -> (response:
        HttpResponse<'a>)
        ensures
            response.version@ == "HTTP/1.1"@,
            response.status_code@ == status_code@,
            response.status_text@ == status_text_of(status_code@),
            match headers {
                Some(given) => response.headers == Some(given),
                None => response.headers is Some && response.headers->0.fields()
                    == default_fields() && response.headers->0.wf(),
            },
            response.body == body,
    {
        let headers: Option<Headers> = match headers {
            Some(given) => Some(given),
            None => {
                let mut h = Headers::new();
                h.insert("Content-Type".to_owned(), "text/html".to_owned());
                assert(h.fields() =~= default_fields());
                Some(h)
            },
        };
        let status_text: &'static str = if str_equals(status_code, "200") {
            "OK"
        } else if str_equals(status_code, "400") {
            "Bad Request"
        } else if str_equals(status_code, "404") {
            "Not Found"
        } else if str_equals(status_code, "500") {
            "Internal Server Error"
        } else {
            "Not Found"
        };
        HttpResponse { version: "HTTP/1.1", status_code, status_text, headers, body }
    }

    /// The version of the protocol.
    pub fn version(&self) -> (out: &str)
        ensures
            out@ == self.version@,
    {
        self.version
    }

    /// The status code.
    pub fn status_code(&self) -> (out: &str)
        ensures
            out@ == self.status_code@,
    {
        self.status_code
    }

    /// The reason phrase.
    pub fn status_text(&self) -> (out: &str)
        ensures
            out@ == self.status_text@,
    {
        self.status_text
    }

    /// The header fields as they are written.
    pub fn headers(&self) -> (out: String)
        ensures
            out@ == header_lines(fields_or_none(self@.fields)),
    {
        let mut out = String::new();
        match &self.headers {
            Some(headers) => {
                let ghost fields = headers.fields();
                let mut i: usize = 0;
                assert(fields.take(0) =~= Seq::<Field>::empty());
                while i < headers.len()
                    invariant
                        fields == headers.fields(),
                        i <= fields.len(),
                        out@ == header_lines(fields.take(i as int)),
                    decreases fields.len() - i,
                {
                    let field = headers.field(i);
                    proof {
                        let longer = fields.take(i + 1);
                        assert(longer.drop_last() =~= fields.take(i as int));
                        assert(longer.last() == fields[i as int]);
                    }
                    out.append(field.0);
                    out.append(": ");
                    out.append(field.1);
                    out.append("\r\n");
                    i = i + 1;
                }
                assert(fields.take(i as int) =~= fields);
            },
            None => {},
        }
        out
    }

    /// The body, empty where the response has none.
    pub fn body(&self) -> (out: &str)
        ensures
            out@ == body_or_empty(self@.body),
    {
        match &self.body {
            Some(b) => b.as_str(),
            None => {
                let empty: &'static str = "";
                proof {
                    reveal_strlit("");
                    assert(empty@ =~= Seq::<char>::empty());
                }
                empty
            },
        }
    }

    /// The response as it is written.
    pub fn to_text(&self) -> (out: String)
        ensures
            out@ == response_text(self@),
    {
        let mut out = String::new();
        out.append(self.version);
        out.append(" ");
        out.append(self.status_code);
        out.append(" ");
        out.append(self.status_text);
        out.append("\r\n");
        let lines = self.headers();
        out.append(lines.as_str());
        out.append("Content-length: ");
        let body: &str = self.body();
        push_decimal(&mut out, body.as_bytes().len());
        out.append("\r\n\r\n");
        out.append(body);
        assert(out@ =~= response_text(self@));
        out
    }

    /// Appends the bytes of the response as it is written to `write_stream`.
    pub fn send_response(&self, write_stream: &mut Vec<u8>)
        ensures
            final(write_stream)@ == old(write_stream)@ + encode_utf8(response_text(self@)),
    {
        let text = self.to_text();
        write_stream.extend_from_slice(text.as_str().as_bytes());
    }
}

impl<'a> From<HttpResponse<'a>> for String {
    fn from(res: HttpResponse<'a>) -> (out: String)
        ensures
            out@ == response_text(res@),
    {
        res.to_text()
    }
}

impl<'a> FromSpecImpl<HttpResponse<'a>> for String {
    open spec fn obeys_from_spec() -> bool {
        false
    }

    open spec fn from_spec(res: HttpResponse<'a>) -> String {
        choose|out: String| out@ == response_text(res@)
    }
}

} // verus!
