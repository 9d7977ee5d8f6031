//! Turning the received text into a structured request.

use vstd::prelude::*;

use crate::method::{spec_method_of, HttpMethod};
use crate::text::{
    first_at, is_whitespace, join_lines, last_at, lemma_first_at_is, lemma_last_at_is,
    lemma_trim_start_skip, lines_of, spec_join_nl, spec_lines, spec_trim, spec_trim_start, trim,
};

verus! {

/// Why a received text is not a request.
#[derive(Clone, Copy, Debug, PartialEq, Eq, Structural)]
pub enum ParseError {
    /// The first line does not hold two distinct space positions.
    MalformedRequestLine,
    /// The method token is outside the recognized set.
    UnknownMethod,
}

/// The mathematical content of a parsed request.
pub ghost struct RequestView {
    pub method: HttpMethod,
    pub path: Seq<char>,
    pub version: Seq<char>,
    pub headers: Seq<(Seq<char>, Seq<char>)>,
    pub body: Seq<char>,
}

/// A parsed request. Header names may repeat; every occurrence is kept, in
/// order of arrival.
#[derive(Debug, PartialEq, Eq)]
pub struct Request {
    pub method: HttpMethod,
    pub path: String,
    pub http_version: String,
    pub headers: Vec<(String, String)>,
    pub body: String,
}

impl View for Request {
    type V = RequestView;

    open spec fn view(&self) -> RequestView {
        RequestView {
            method: self.method,
            path: self.path@,
            version: self.http_version@,
            headers: self.headers.deep_view(),
            body: self.body@,
        }
    }
}

/// How one header line splits: the part before the first colon is the name,
/// the part after it, less its leading whitespace, is the value; a line
/// without a colon splits not at all.
pub open spec fn spec_split_header(h: Seq<char>) -> Option<(Seq<char>, Seq<char>)> {
    let i = first_at(h, ':');
    if i < h.len() {
        Some((h.take(i), spec_trim_start(h.skip(i + 1))))
    } else {
        None
    }
}

/// Splits one header line on its first colon, trimming the value's leading
/// whitespace. `None` when the line has no colon.
pub fn split_header<'a>(header: &'a str) -> (r: Option<(&'a str, &'a str)>)
    ensures
        (match r {
            Some(kv) => spec_split_header(header@) == Some((kv.0@, kv.1@)),
            None => spec_split_header(header@) is None,
        }),
{
    let n = header.unicode_len();
    let mut i: usize = 0;
    while i < n && header.get_char(i) != ':'
        invariant
            i <= n,
            n == header@.len(),
            forall|j: int| 0 <= j < i ==> header@[j] != ':',
        decreases n - i,
    {
        i += 1;
    }
    proof {
        lemma_first_at_is(header@, ':', i as int);
    }
    if i == n {
        return None;
    }
    let key = header.substring_char(0, i);
    let mut v: usize = i + 1;
    while v < n && is_whitespace(header.get_char(v))
        invariant
            i < v <= n,
            n == header@.len(),
            forall|j: int| i < j < v ==> crate::text::spec_is_whitespace(header@[j]),
        decreases n - v,
    {
        v += 1;
    }
    let value = header.substring_char(v, n);
    proof {
        let tail = header@.skip(i + 1);
        lemma_trim_start_skip(tail, v - (i + 1));
        assert(tail.skip(v - (i + 1)) =~= header@.subrange(v as int, n as int));
        assert(key@ =~= header@.take(i as int));
    }
    Some((key, value))
}

/// Where the header block ends: the first empty line at or after `i`, or
/// the end of the lines.
pub open spec fn spec_header_end_from(ls: Seq<Seq<char>>, i: int) -> int
    decreases ls.len() - i when 0 <= i <= ls.len()
{
    if i >= ls.len() {
        i
    } else if ls[i].len() == 0 {
        i
    } else {
        spec_header_end_from(ls, i + 1)
    }
}

pub proof fn lemma_header_end_is(ls: Seq<Seq<char>>, from: int, i: int)
    requires
        0 <= from <= i <= ls.len(),
        forall|j: int| from <= j < i ==> ls[j].len() != 0,
        i < ls.len() ==> ls[i].len() == 0,
    ensures
        spec_header_end_from(ls, from) == i,
    decreases i - from,
{
    if from < i {
        assert(ls[from].len() != 0);
        lemma_header_end_is(ls, from + 1, i);
    }
}

/// The header pairs collected from the lines in `[i, end)`: each line with
/// a colon contributes its split, lines without one are skipped.
pub open spec fn spec_headers(ls: Seq<Seq<char>>, i: int, end: int) -> Seq<(Seq<char>, Seq<char>)>
    decreases end - i when i <= end
{
    if i >= end {
        Seq::empty()
    } else {
        match spec_split_header(ls[i]) {
            Some(kv) => seq![kv] + spec_headers(ls, i + 1, end),
            None => spec_headers(ls, i + 1, end),
        }
    }
}

/// How the received text parses, in full: the first line splits at its
/// first and last space into method, path and version, each trimmed; the
/// method token must be recognized; the following lines up to the first
/// empty line are headers; the lines after that empty line, rejoined with a
/// single newline, are the body.
pub open spec fn spec_parse_request(s: Seq<char>) -> Result<RequestView, ParseError> {
    let ls = spec_lines(s);
    if ls.len() == 0 {
        Err(ParseError::MalformedRequestLine)
    } else {
        let line = ls[0];
        let i1 = first_at(line, ' ');
        let i2 = last_at(line, ' ');
        if i1 >= line.len() || i1 == i2 {
            Err(ParseError::MalformedRequestLine)
        } else {
            match spec_method_of(spec_trim(line.take(i1))) {
                None => Err(ParseError::UnknownMethod),
                Some(method) => {
                    let he = spec_header_end_from(ls, 1);
                    Ok(
                        RequestView {
                            method,
                            path: spec_trim(line.subrange(i1 + 1, i2)),
                            version: spec_trim(line.skip(i2 + 1)),
                            headers: spec_headers(ls, 1, he),
                            body: if he < ls.len() {
                                spec_join_nl(ls.skip(he + 1))
                            } else {
                                Seq::empty()
                            },
                        },
                    )
                },
            }
        }
    }
}

/// Parses the received text into a request, exactly as `spec_parse_request`
/// says.
pub fn parse_request(text: &str) -> (r: Result<Request, ParseError>)
    ensures
        (match r {
            Ok(req) => spec_parse_request(text@) == Ok::<RequestView, ParseError>(req@),
            Err(e) => spec_parse_request(text@) == Err::<RequestView, ParseError>(e),
        }),
{
    let lines = lines_of(text);
    let ghost ls = spec_lines(text@);
    if lines.len() == 0 {
        return Err(ParseError::MalformedRequestLine);
    }
    let line = &lines[0];
    let ghost l = ls[0];
    proof {
        assert(line@ == ls[0]);
    }
    let n = line.as_str().unicode_len();
    let mut i1: usize = 0;
    while i1 < n && line.as_str().get_char(i1) != ' '
        invariant
            i1 <= n,
            n == l.len(),
            line@ == l,
            forall|j: int| 0 <= j < i1 ==> l[j] != ' ',
        decreases n - i1,
    {
        i1 += 1;
    }
    proof {
        lemma_first_at_is(l, ' ', i1 as int);
    }
    if i1 == n {
        return Err(ParseError::MalformedRequestLine);
    }
    let mut i2: usize = n - 1;
    while line.as_str().get_char(i2) != ' '
        invariant
            i1 <= i2 < n,
            n == l.len(),
            line@ == l,
            l[i1 as int] == ' ',
            forall|j: int| i2 < j < n ==> l[j] != ' ',
        decreases i2,
    {
        i2 -= 1;
    }
    proof {
        lemma_last_at_is(l, ' ', i2 as int);
    }
    if i1 == i2 {
        return Err(ParseError::MalformedRequestLine);
    }
    let method_token = trim(line.as_str().substring_char(0, i1));
    let path = trim(line.as_str().substring_char(i1 + 1, i2));
    let version = trim(line.as_str().substring_char(i2 + 1, n));
    proof {
        assert(l.subrange(0, i1 as int) =~= l.take(i1 as int));
    }
    let method = match HttpMethod::parse(method_token.as_str()) {
        Some(m) => m,
        None => {
            return Err(ParseError::UnknownMethod);
        },
    };
    let mut he: usize = 1;
    while he < lines.len() && !lines[he].as_str().is_empty()
        invariant
            1 <= he <= lines.len(),
            lines.deep_view() == ls,
            forall|j: int| 1 <= j < he ==> ls[j].len() != 0,
        decreases lines.len() - he,
    {
        proof {
            assert(lines[he as int]@ == ls[he as int]);
        }
        he += 1;
    }
    proof {
        assert(he < lines.len() ==> lines[he as int]@ == ls[he as int]);
        lemma_header_end_is(ls, 1, he as int);
    }
    let mut headers: Vec<(String, String)> = Vec::new();
    let mut i: usize = 1;
    proof {
        assert(headers.deep_view() =~= Seq::<(Seq<char>, Seq<char>)>::empty());
        assert(spec_headers(ls, 1, he as int) =~= headers.deep_view() + spec_headers(
            ls,
            1,
            he as int,
        ));
    }
    while i < he
        invariant
            1 <= i <= he <= lines.len(),
            lines.deep_view() == ls,
            spec_headers(ls, 1, he as int) == headers.deep_view() + spec_headers(
                ls,
                i as int,
                he as int,
            ),
        decreases he - i,
    {
        let ghost old_dv = headers.deep_view();
        proof {
            assert(lines[i as int]@ == ls[i as int]);
        }
        match split_header(lines[i].as_str()) {
            Some(kv) => {
                let pair = (String::from_str(kv.0), String::from_str(kv.1));
                headers.push(pair);
                proof {
                    assert(headers.deep_view() =~= old_dv.push((kv.0@, kv.1@)));
                    assert(old_dv.push((kv.0@, kv.1@)) + spec_headers(ls, i + 1, he as int)
                        =~= old_dv + (seq![(kv.0@, kv.1@)] + spec_headers(ls, i + 1, he as int)));
                }
            },
            None => {},
        }
        i += 1;
    }
    let body = if he < lines.len() {
        join_lines(&lines, he + 1)
    } else {
        String::new()
    };
    let req = Request { method, path, http_version: version, headers, body };
    proof {
        assert(spec_headers(ls, he as int, he as int) =~= Seq::<(Seq<char>, Seq<char>)>::empty());
        assert(req@.headers =~= spec_headers(ls, 1, he as int));
        assert(spec_parse_request(text@) == Ok::<RequestView, ParseError>(req@));
    }
    Ok(req)
}

} // verus!
