//! Choosing what a request gets: one handler, in a fixed priority order,
//! and the exact response or file action it produces.

use vstd::prelude::*;

use vstd::utf8::encode_utf8;

use crate::digits::{spec_dec, u64_to_string, usize_to_string};
use crate::method::HttpMethod;
use crate::request::{parse_request, spec_parse_request, ParseError, Request, RequestView};
use crate::response::{Response, ResponseView};
use crate::status::HttpStatusCode;
use crate::text::{has_prefix, spec_has_prefix, str_eq, strip_prefix};

verus! {

/// Byte length of text as sent on the wire (what `str::len` reports).
pub open spec fn spec_byte_len(s: Seq<char>) -> int {
    (encode_utf8(s).len() as usize) as int
}

/// A response that is a bare status: no headers, empty body.
pub open spec fn spec_status_response(status: HttpStatusCode) -> ResponseView {
    ResponseView {
        status,
        headers: Seq::<(Seq<char>, Seq<char>)>::empty(),
        body: Seq::<char>::empty(),
    }
}

/// A 200 response carrying plain text: `Content-Type: text/plain`, a
/// `Content-Length` of the body's byte length, and the text as body.
pub open spec fn spec_text_response(body: Seq<char>) -> ResponseView {
    ResponseView {
        status: HttpStatusCode::Okay,
        headers: seq![
            ("Content-Type"@, "text/plain"@),
            ("Content-Length"@, spec_dec(spec_byte_len(body))),
        ],
        body,
    }
}

/// The head of a 200 response whose body will be a streamed file of
/// `size` bytes: `Content-Type: application/octet-stream` and a
/// `Content-Length` of that size.
pub open spec fn spec_serve_head(size: int) -> ResponseView {
    ResponseView {
        status: HttpStatusCode::Okay,
        headers: seq![
            ("Content-Type"@, "application/octet-stream"@),
            ("Content-Length"@, spec_dec(size)),
        ],
        body: Seq::<char>::empty(),
    }
}

/// What a save attempt answers: 201 Created on success, 500 on failure,
/// both with an empty body.
pub open spec fn spec_save_response(ok: bool) -> ResponseView {
    spec_status_response(
        if ok {
            HttpStatusCode::Created
        } else {
            HttpStatusCode::InternalServerError
        },
    )
}

/// The value of the first header with the given name, exact and
/// case-sensitive; `None` when no header has it.
pub open spec fn spec_lookup_header(hs: Seq<(Seq<char>, Seq<char>)>, name: Seq<char>) -> Option<
    Seq<char>,
>
    decreases hs.len(),
{
    if hs.len() == 0 {
        None
    } else if hs[0].0 == name {
        Some(hs[0].1)
    } else {
        spec_lookup_header(hs.drop_first(), name)
    }
}

/// What the router decides: answer at once, or hand a file name (and for
/// saving, the contents) to the file-transfer edge.
#[derive(Debug, PartialEq, Eq)]
pub enum Action {
    Respond(Response),
    ServeFile(String),
    SaveFile(String, String),
}

/// The mathematical content of a routing decision.
pub ghost enum ActionView {
    Respond(ResponseView),
    ServeFile(Seq<char>),
    SaveFile(Seq<char>, Seq<char>),
}

impl View for Action {
    type V = ActionView;

    open spec fn view(&self) -> ActionView {
        match self {
            Action::Respond(r) => ActionView::Respond(r@),
            Action::ServeFile(n) => ActionView::ServeFile(n@),
            Action::SaveFile(n, b) => ActionView::SaveFile(n@, b@),
        }
    }
}

/// The routing rules, in their fixed priority order: the root path, then
/// `/user-agent`, then the `/echo/` prefix, then the `/files/` prefix
/// (live only with a configured directory, `GET` serving and
/// `POST`/`PUT` saving), and 404 for everything else.
pub open spec fn spec_route(req: RequestView, has_dir: bool) -> ActionView {
    if req.path == "/"@ {
        ActionView::Respond(spec_status_response(HttpStatusCode::Okay))
    } else if req.path == "/user-agent"@ {
        match spec_lookup_header(req.headers, "User-Agent"@) {
            Some(v) => ActionView::Respond(spec_text_response(v)),
            None => ActionView::Respond(spec_status_response(HttpStatusCode::NotFound)),
        }
    } else if spec_has_prefix(req.path, "/echo/"@) {
        ActionView::Respond(spec_text_response(req.path.skip("/echo/"@.len() as int)))
    } else if spec_has_prefix(req.path, "/files/"@) {
        if !has_dir {
            ActionView::Respond(spec_status_response(HttpStatusCode::NotFound))
        } else if req.method == HttpMethod::Get {
            ActionView::ServeFile(req.path.skip("/files/"@.len() as int))
        } else if req.method == HttpMethod::Post || req.method == HttpMethod::Put {
            ActionView::SaveFile(req.path.skip("/files/"@.len() as int), req.body)
        } else {
            ActionView::Respond(spec_status_response(HttpStatusCode::NotFound))
        }
    } else {
        ActionView::Respond(spec_status_response(HttpStatusCode::NotFound))
    }
}

/// Finds the first header with the given name, exact and case-sensitive.
pub fn lookup_header<'a>(headers: &'a Vec<(String, String)>, name: &str) -> (r: Option<
    &'a String,
>)
    ensures
        (match r {
            Some(v) => spec_lookup_header(headers.deep_view(), name@) == Some(v@),
            None => spec_lookup_header(headers.deep_view(), name@) is None,
        }),
{
    let ghost dv = headers.deep_view();
    let mut i: usize = 0;
    proof {
        assert(dv.skip(0) =~= dv);
    }
    while i < headers.len()
        invariant
            i <= headers.len(),
            dv == headers.deep_view(),
            dv.len() == headers.len(),
            spec_lookup_header(dv, name@) == spec_lookup_header(dv.skip(i as int), name@),
        decreases headers.len() - i,
    {
        let pair = &headers[i];
        proof {
            assert(dv[i as int] == (pair.0@, pair.1@));
            assert(dv.skip(i as int)[0] == dv[i as int]);
        }
        if str_eq(pair.0.as_str(), name) {
            return Some(&headers[i].1);
        }
        proof {
            assert(dv.skip(i as int).drop_first() =~= dv.skip(i + 1));
        }
        i += 1;
    }
    proof {
        assert(dv.skip(headers.len() as int) =~= Seq::<(Seq<char>, Seq<char>)>::empty());
    }
    None
}

/// Builds the 200 plain-text response for the given body.
pub fn text_response(body: String) -> (r: Response)
    ensures
        r@ == spec_text_response(body@),
{
    let len = body.as_str().len();
    let mut headers: Vec<(String, String)> = Vec::new();
    headers.push((String::from_str("Content-Type"), String::from_str("text/plain")));
    headers.push((String::from_str("Content-Length"), usize_to_string(len)));
    proof {
        assert(headers.deep_view() =~= spec_text_response(body@).headers);
    }
    Response::new(HttpStatusCode::Okay, headers, body)
}

/// Builds the head of the 200 response for a file of `size` bytes about to
/// be streamed.
pub fn serve_file_head(size: u64) -> (r: Response)
    ensures
        r@ == spec_serve_head(size as int),
{
    let mut headers: Vec<(String, String)> = Vec::new();
    headers.push(
        (String::from_str("Content-Type"), String::from_str("application/octet-stream")),
    );
    headers.push((String::from_str("Content-Length"), u64_to_string(size)));
    proof {
        assert(headers.deep_view() =~= spec_serve_head(size as int).headers);
    }
    Response::new_without_body(HttpStatusCode::Okay, headers)
}

/// Builds the answer to a save attempt: 201 Created on success, 500 on
/// failure.
pub fn save_file_response(ok: bool) -> (r: Response)
    ensures
        r@ == spec_save_response(ok),
{
    if ok {
        Response::from_status(HttpStatusCode::Created)
    } else {
        Response::from_status(HttpStatusCode::InternalServerError)
    }
}

/// Routes a parsed request, exactly as `spec_route` says.
pub fn route(req: Request, has_dir: bool) -> (a: Action)
    ensures
        a@ == spec_route(req@, has_dir),
{
    if str_eq(req.path.as_str(), "/") {
        Action::Respond(Response::from_status(HttpStatusCode::Okay))
    } else if str_eq(req.path.as_str(), "/user-agent") {
        match lookup_header(&req.headers, "User-Agent") {
            Some(v) => Action::Respond(text_response(v.clone())),
            None => Action::Respond(Response::from_status(HttpStatusCode::NotFound)),
        }
    } else if has_prefix(req.path.as_str(), "/echo/") {
        Action::Respond(text_response(strip_prefix(req.path.as_str(), "/echo/")))
    } else if has_prefix(req.path.as_str(), "/files/") {
        if !has_dir {
            Action::Respond(Response::from_status(HttpStatusCode::NotFound))
        } else {
            let name = strip_prefix(req.path.as_str(), "/files/");
            if req.method == HttpMethod::Get {
                Action::ServeFile(name)
            } else if req.method == HttpMethod::Post || req.method == HttpMethod::Put {
                Action::SaveFile(name, req.body)
            } else {
                Action::Respond(Response::from_status(HttpStatusCode::NotFound))
            }
        }
    } else {
        Action::Respond(Response::from_status(HttpStatusCode::NotFound))
    }
}

/// The whole decision for one connection: what the received text gets.
pub open spec fn spec_handle_request(s: Seq<char>, has_dir: bool) -> Result<
    ActionView,
    ParseError,
> {
    match spec_parse_request(s) {
        Ok(rv) => Ok(spec_route(rv, has_dir)),
        Err(e) => Err(e),
    }
}

/// Parses the received text and routes the request. An `Err` means the
/// text was no request; the caller answers 400 and closes.
pub fn handle_request(text: &str, has_dir: bool) -> (r: Result<Action, ParseError>)
    ensures
        (match r {
            Ok(a) => spec_handle_request(text@, has_dir) == Ok::<ActionView, ParseError>(a@),
            Err(e) => spec_handle_request(text@, has_dir) == Err::<ActionView, ParseError>(e),
        }),
{
    match parse_request(text) {
        Ok(req) => Ok(route(req, has_dir)),
        Err(e) => Err(e),
    }
}

/// The target path of a file request: the configured directory with the
/// requested name appended verbatim. Nothing confines the name to the
/// directory (no traversal defense), by design.
pub fn file_path(dir: &str, name: &str) -> (r: String)
    ensures
        r@ == dir@ + name@,
{
    let mut r = String::from_str(dir);
    r.append(name);
    r
}

} // verus!
