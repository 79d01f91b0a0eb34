//! Rendering an answer. Every answer closes the connection.

use crate::datastore::value::Value;
use crate::json::{encode, json_text};
use crate::text::{dec, push_decimal};
use vstd::prelude::*;
use vstd::utf8::encode_utf8;

verus! {

/// An answer, built before anything is written.
#[derive(Debug, Clone, PartialEq, Eq)]
pub struct Response {
    pub status: u16,
    pub reason: &'static str,
    pub content_type: &'static str,
    /// Further headers, in order.
    pub extra: Vec<(&'static str, String)>,
    pub body: Vec<u8>,
}

/// The model of a [`Response`].
#[verifier::ext_equal]
pub struct Answer {
    pub status: u16,
    pub reason: Seq<char>,
    pub content_type: Seq<char>,
    pub extra: Seq<(Seq<char>, Seq<char>)>,
    pub body: Seq<u8>,
}

impl View for Response {
    type V = Answer;

    open spec fn view(&self) -> Answer {
        Answer {
            status: self.status,
            reason: self.reason@,
            content_type: self.content_type@,
            extra: self.extra.deep_view(),
            body: self.body@,
        }
    }
}

/// The reason that goes with a status.
pub open spec fn reason_text(status: u16) -> Seq<char> {
    if status == 200 {
        "OK"@
    } else if status == 202 {
        "Accepted"@
    } else if status == 400 {
        "Bad Request"@
    } else if status == 401 {
        "Unauthorized"@
    } else if status == 404 {
        "Not Found"@
    } else if status == 405 {
        "Method Not Allowed"@
    } else if status == 429 {
        "Too Many Requests"@
    } else if status == 500 {
        "Internal Server Error"@
    } else if status == 503 {
        "Service Unavailable"@
    } else {
        ""@
    }
}

fn reason_for(status: u16) -> (r: &'static str)
    ensures
        r@ == reason_text(status),
{
    if status == 200 {
        "OK"
    } else if status == 202 {
        "Accepted"
    } else if status == 400 {
        "Bad Request"
    } else if status == 401 {
        "Unauthorized"
    } else if status == 404 {
        "Not Found"
    } else if status == 405 {
        "Method Not Allowed"
    } else if status == 429 {
        "Too Many Requests"
    } else if status == 500 {
        "Internal Server Error"
    } else if status == 503 {
        "Service Unavailable"
    } else {
        ""
    }
}

/// An answer without a body.
pub open spec fn bare_answer(status: u16, reason: Seq<char>) -> Answer {
    Answer {
        status,
        reason,
        content_type: "text/plain; charset=utf-8"@,
        extra: Seq::empty(),
        body: Seq::empty(),
    }
}

/// A plain text.
pub open spec fn text_answer(status: u16, body: Seq<char>) -> Answer {
    Answer { body: encode_utf8(body), ..bare_answer(status, reason_text(status)) }
}

/// A JSON document that is already rendered.
pub open spec fn json_bytes_answer(status: u16, body: Seq<u8>) -> Answer {
    Answer { content_type: "application/json"@, body, ..bare_answer(status, reason_text(status)) }
}

/// The headers, one per line.
pub open spec fn header_lines(extra: Seq<(Seq<char>, Seq<char>)>) -> Seq<char>
    decreases extra.len(),
{
    if extra.len() == 0 {
        Seq::empty()
    } else {
        header_lines(extra.drop_last()) + extra.last().0 + ": "@ + extra.last().1 + "\r\n"@
    }
}

/// The head of an answer: the status line and the headers, with the length of the body, and the
/// empty line behind them.
pub open spec fn head_text(a: Answer) -> Seq<char> {
    "HTTP/1.1 "@ + dec(a.status as nat) + " "@ + a.reason
        + "\r\nConnection: close\r\nContent-Type: "@ + a.content_type + "\r\nContent-Length: "@
        + dec(a.body.len()) + "\r\n"@ + header_lines(a.extra) + "\r\n"@
}

/// The bytes of an answer.
pub open spec fn rendered(a: Answer) -> Seq<u8> {
    encode_utf8(head_text(a)) + a.body
}

/// The bytes of a text.
fn bytes_of(s: &str) -> (r: Vec<u8>)
    ensures
        r@ == encode_utf8(s@),
{
    s.as_bytes_vec()
}

impl Response {
    pub fn status(status: u16, reason: &'static str) -> (r: Response)
        ensures
            r@ == bare_answer(status, reason@),
    {
        let r = Response {
            status,
            reason,
            content_type: "text/plain; charset=utf-8",
            extra: Vec::new(),
            body: Vec::new(),
        };
        assert(r@ =~= bare_answer(status, reason@));
        r
    }

    pub fn text(status: u16, body: &str) -> (r: Response)
        ensures
            r@ == text_answer(status, body@),
    {
        let mut r = Response::status(status, reason_for(status));
        r.body = bytes_of(body);
        r
    }

    pub fn json(status: u16, value: &Value) -> (r: Response)
        ensures
            r@ == json_bytes_answer(status, encode_utf8(json_text(value@))),
    {
        let text = encode(value);
        Response::json_bytes(status, bytes_of(text.as_str()))
    }

    /// JSON that is already rendered.
    pub fn json_bytes(status: u16, body: Vec<u8>) -> (r: Response)
        ensures
            r@ == json_bytes_answer(status, body@),
    {
        let mut r = Response::status(status, reason_for(status));
        r.content_type = "application/json";
        r.body = body;
        r
    }

    /// Text in the exposition format of Prometheus.
    pub fn prometheus(body: String) -> (r: Response)
        ensures
            r@ == (Answer {
                content_type: "text/plain; version=0.0.4; charset=utf-8"@,
                body: encode_utf8(body@),
                ..bare_answer(200, "OK"@)
            }),
    {
        let mut r = Response::status(200, "OK");
        r.content_type = "text/plain; version=0.0.4; charset=utf-8";
        r.body = bytes_of(body.as_str());
        r
    }

    pub fn not_found() -> (r: Response)
        ensures
            r@ == bare_answer(404, "Not Found"@),
    {
        Response::status(404, "Not Found")
    }

    /// The answer with one header more.
    pub fn with_header(self, name: &'static str, value: String) -> (r: Response)
        ensures
            r@ == (Answer { extra: self@.extra.push((name@, value@)), ..self@ }),
    {
        let mut r = self;
        r.extra.push((name, value));
        assert(r.extra.deep_view() =~= self.extra.deep_view().push((name@, value@)));
        r
    }

    /// The bytes to write.
    pub fn render(&self) -> (r: Vec<u8>)
        ensures
            r@ == rendered(self@),
    {
        let mut head = "HTTP/1.1 ".to_string();
        push_decimal(&mut head, self.status as u64);
        head.append(" ");
        head.append(self.reason);
        head.append("\r\nConnection: close\r\nContent-Type: ");
        head.append(self.content_type);
        head.append("\r\nContent-Length: ");
        push_decimal(&mut head, self.body.len() as u64);
        head.append("\r\n");
        let ghost start = head@;
        let ghost extra = self.extra.deep_view();
        assert(extra.take(0) =~= Seq::<(Seq<char>, Seq<char>)>::empty());
        assert(head@ =~= start + header_lines(extra.take(0)));
        for i in 0..self.extra.len()
            invariant
                extra == self.extra.deep_view(),
                head@ == start + header_lines(extra.take(i as int)),
        {
            assert(extra.take(i + 1).drop_last() =~= extra.take(i as int));
            assert(extra.take(i + 1).last() == extra[i as int]);
            head.append(self.extra[i].0);
            head.append(": ");
            head.append(self.extra[i].1.as_str());
            head.append("\r\n");
            assert(head@ =~= start + header_lines(extra.take(i + 1)));
        }
        assert(extra.take(extra.len() as int) =~= extra);
        head.append("\r\n");
        assert(head@ =~= head_text(self@));
        let mut out = bytes_of(head.as_str());
        let mut body = self.body.clone();
        out.append(&mut body);
        out
    }
}

} // verus!
