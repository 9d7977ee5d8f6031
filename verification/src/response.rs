//! The response a handler builds, and its exact wire form.

use vstd::prelude::*;

use crate::status::HttpStatusCode;

verus! {

/// The mathematical content of a response: a status, header pairs in
/// insertion order, and the body text.
pub ghost struct ResponseView {
    pub status: HttpStatusCode,
    pub headers: Seq<(Seq<char>, Seq<char>)>,
    pub body: Seq<char>,
}

/// A response under construction: consumed exactly once by serialization.
#[derive(Debug, PartialEq, Eq)]
pub struct Response {
    pub status_code: HttpStatusCode,
    pub headers: Vec<(String, String)>,
    pub body: String,
}

impl View for Response {
    type V = ResponseView;

    open spec fn view(&self) -> ResponseView {
        ResponseView {
            status: self.status_code,
            headers: self.headers.deep_view(),
            body: self.body@,
        }
    }
}

/// One header as written on the wire.
pub open spec fn spec_header_line(h: (Seq<char>, Seq<char>)) -> Seq<char> {
    h.0 + ": "@ + h.1 + "\r\n"@
}

/// All headers as written on the wire, in order.
pub open spec fn spec_header_lines(hs: Seq<(Seq<char>, Seq<char>)>) -> Seq<char>
    decreases hs.len(),
{
    if hs.len() == 0 {
        Seq::empty()
    } else {
        spec_header_line(hs[0]) + spec_header_lines(hs.drop_first())
    }
}

pub proof fn lemma_header_lines_push(hs: Seq<(Seq<char>, Seq<char>)>, x: (Seq<char>, Seq<char>))
    ensures
        spec_header_lines(hs.push(x)) == spec_header_lines(hs) + spec_header_line(x),
    decreases hs.len(),
{
    let p = hs.push(x);
    if hs.len() == 0 {
        assert(p[0] == x);
        assert(p.drop_first() =~= Seq::<(Seq<char>, Seq<char>)>::empty());
        assert(spec_header_lines(p.drop_first()) == Seq::<char>::empty());
        assert(spec_header_lines(p) =~= spec_header_line(x));
        assert(spec_header_lines(hs) + spec_header_line(x) =~= spec_header_line(x));
    } else {
        lemma_header_lines_push(hs.drop_first(), x);
        assert(p.drop_first() =~= hs.drop_first().push(x));
        assert(p[0] == hs[0]);
        assert(spec_header_lines(hs) + spec_header_line(x) =~= spec_header_line(hs[0]) + (
        spec_header_lines(hs.drop_first()) + spec_header_line(x)));
    }
}

/// The full wire form: status line, headers in insertion order, a blank
/// line, then the body verbatim.
pub open spec fn spec_serialize(v: ResponseView) -> Seq<char> {
    "HTTP/1.1 "@ + v.status.spec_code_text() + " "@ + v.status.spec_reason() + "\r\n"@
        + spec_header_lines(v.headers) + "\r\n"@ + v.body
}

impl Response {
    pub fn new(status_code: HttpStatusCode, headers: Vec<(String, String)>, body: String) -> (r:
        Response)
        ensures
            r@ == (ResponseView {
                status: status_code,
                headers: headers.deep_view(),
                body: body@,
            }),
    {
        Response { status_code, headers, body }
    }

    pub fn new_without_body(status_code: HttpStatusCode, headers: Vec<(String, String)>) -> (r:
        Response)
        ensures
            r@ == (ResponseView {
                status: status_code,
                headers: headers.deep_view(),
                body: Seq::<char>::empty(),
            }),
    {
        let r = Response { status_code, headers, body: String::new() };
        r
    }

    /// A response that is a bare status: no headers, empty body.
    pub fn from_status(status_code: HttpStatusCode) -> (r: Response)
        ensures
            r@ == (ResponseView {
                status: status_code,
                headers: Seq::<(Seq<char>, Seq<char>)>::empty(),
                body: Seq::<char>::empty(),
            }),
    {
        let headers: Vec<(String, String)> = Vec::new();
        proof {
            assert(headers.deep_view() =~= Seq::<(Seq<char>, Seq<char>)>::empty());
        }
        Response::new_without_body(status_code, headers)
    }

    /// Serializes the response to its exact wire text.
    pub fn serialize(&self) -> (r: String)
        ensures
            r@ == spec_serialize(self@),
    {
        let ghost head = "HTTP/1.1 "@ + self@.status.spec_code_text() + " "@
            + self@.status.spec_reason() + "\r\n"@;
        let mut r = String::from_str("HTTP/1.1 ");
        r.append(self.status_code.code_text());
        r.append(" ");
        r.append(self.status_code.reason());
        r.append("\r\n");
        proof {
            assert(r@ =~= head + spec_header_lines(self@.headers.take(0)));
        }
        let mut i: usize = 0;
        while i < self.headers.len()
            invariant
                i <= self.headers.len(),
                self@.headers.len() == self.headers.len(),
                r@ == head + spec_header_lines(self@.headers.take(i as int)),
                head == "HTTP/1.1 "@ + self@.status.spec_code_text() + " "@
                    + self@.status.spec_reason() + "\r\n"@,
            decreases self.headers.len() - i,
        {
            let ghost seen = self@.headers.take(i as int);
            let pair = &self.headers[i];
            r.append(pair.0.as_str());
            r.append(": ");
            r.append(pair.1.as_str());
            r.append("\r\n");
            proof {
                assert(self@.headers[i as int] == (pair.0@, pair.1@));
                lemma_header_lines_push(seen, self@.headers[i as int]);
                assert(self@.headers.take(i + 1) =~= seen.push(self@.headers[i as int]));
                assert(r@ =~= head + spec_header_lines(self@.headers.take(i + 1)));
            }
            i += 1;
        }
        r.append("\r\n");
        r.append(self.body.as_str());
        proof {
            assert(self@.headers.take(self.headers.len() as int) =~= self@.headers);
            assert(r@ =~= spec_serialize(self@));
        }
        r
    }
}

} // verus!
