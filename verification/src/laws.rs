//! The properties this core guarantees, each proved from the route and
//! handler specifications alone.

use vstd::prelude::*;

use crate::digits::spec_dec;
use crate::method::HttpMethod;
use crate::request::{ParseError, RequestView};
use crate::router::{
    spec_byte_len, spec_handle_request, spec_lookup_header, spec_route, spec_status_response,
    spec_text_response, ActionView,
};
use crate::status::HttpStatusCode;
use crate::text::spec_has_prefix;

verus! {

/// Echo round trip: a request whose path is `/echo/` followed by any text
/// `m` is answered 200 `OK` with `Content-Type: text/plain`, a
/// `Content-Length` of `m`'s byte length, and body exactly `m`, whatever
/// the method, headers and configuration.
pub proof fn lemma_echo_round_trip(req: RequestView, m: Seq<char>, has_dir: bool)
    requires
        req.path == "/echo/"@ + m,
    ensures
        spec_route(req, has_dir) == ActionView::Respond(spec_text_response(m)),
        spec_text_response(m).status.spec_code() == 200,
        spec_text_response(m).body == m,
{
    reveal_strlit("/");
    reveal_strlit("/echo/");
    reveal_strlit("/user-agent");
    assert(req.path.len() == 6 + m.len());
    if req.path == "/"@ {
        assert(false);
    }
    if req.path == "/user-agent"@ {
        assert(req.path[1] == "/echo/"@[1]);
        assert(false);
    }
    assert(req.path.take(6) =~= "/echo/"@);
    assert(req.path.skip(6) =~= m);
}

/// A request for the root path is answered 200 with no headers and an
/// empty body, whatever the method.
pub proof fn lemma_root_route(req: RequestView, has_dir: bool)
    requires
        req.path == "/"@,
    ensures
        spec_route(req, has_dir) == ActionView::Respond(
            spec_status_response(HttpStatusCode::Okay),
        ),
        spec_status_response(HttpStatusCode::Okay).body == Seq::<char>::empty(),
{
}

/// A path matching none of the known patterns is answered 404 with an
/// empty body, whatever the method.
pub proof fn lemma_unmatched_route(req: RequestView, has_dir: bool)
    requires
        req.path != "/"@,
        req.path != "/user-agent"@,
        !spec_has_prefix(req.path, "/echo/"@),
        !spec_has_prefix(req.path, "/files/"@),
    ensures
        spec_route(req, has_dir) == ActionView::Respond(
            spec_status_response(HttpStatusCode::NotFound),
        ),
        spec_status_response(HttpStatusCode::NotFound).body == Seq::<char>::empty(),
{
}

/// The user-agent route echoes the first `User-Agent` header's value with
/// status 200; with no such header it answers 404.
pub proof fn lemma_user_agent_route(req: RequestView, has_dir: bool)
    requires
        req.path == "/user-agent"@,
    ensures
        (match spec_lookup_header(req.headers, "User-Agent"@) {
            Some(v) => spec_route(req, has_dir) == ActionView::Respond(spec_text_response(v)),
            None => spec_route(req, has_dir) == ActionView::Respond(
                spec_status_response(HttpStatusCode::NotFound),
            ),
        }),
{
    reveal_strlit("/");
    reveal_strlit("/user-agent");
    if req.path == "/"@ {
        assert(false);
    }
}

/// With no base directory configured, every request under `/files/` is
/// answered 404, for reading and writing alike.
pub proof fn lemma_files_unconfigured(req: RequestView)
    requires
        spec_has_prefix(req.path, "/files/"@),
    ensures
        spec_route(req, false) == ActionView::Respond(
            spec_status_response(HttpStatusCode::NotFound),
        ),
{
    lemma_files_path_is_no_other(req.path);
}

/// A path carrying the `/files/` prefix matches no earlier route.
proof fn lemma_files_path_is_no_other(path: Seq<char>)
    requires
        spec_has_prefix(path, "/files/"@),
    ensures
        path != "/"@,
        path != "/user-agent"@,
        !spec_has_prefix(path, "/echo/"@),
{
    reveal_strlit("/");
    reveal_strlit("/echo/");
    reveal_strlit("/files/");
    reveal_strlit("/user-agent");
    assert(path.take(7)[1] == path[1]);
    assert(path[1] == 'f');
    if path == "/"@ {
        assert(false);
    }
    if path == "/user-agent"@ {
        assert(false);
    }
    if spec_has_prefix(path, "/echo/"@) {
        assert(path.take(6)[1] == path[1]);
        assert(false);
    }
}

/// File round trip: with a directory configured, a `POST` or `PUT` under
/// `/files/` becomes a save of the request body under the stripped name,
/// a `GET` for the same path becomes a serve of that very name, and a
/// store holding what the save wrote hands those bytes back.
pub proof fn lemma_file_round_trip(
    post: RequestView,
    get: RequestView,
    store: Map<Seq<char>, Seq<u8>>,
    saved: Seq<u8>,
)
    requires
        post.method == HttpMethod::Post || post.method == HttpMethod::Put,
        get.method == HttpMethod::Get,
        spec_has_prefix(post.path, "/files/"@),
        get.path == post.path,
    ensures
        spec_route(post, true) == ActionView::SaveFile(
            post.path.skip("/files/"@.len() as int),
            post.body,
        ),
        spec_route(get, true) == ActionView::ServeFile(post.path.skip("/files/"@.len() as int)),
        store.insert(post.path.skip("/files/"@.len() as int), saved)[post.path.skip(
            "/files/"@.len() as int,
        )] == saved,
{
    lemma_files_path_is_no_other(post.path);
}

/// Handling is a function of the received text and the configuration
/// alone: two outcomes of handling the same text agree, so repeating a
/// request yields a byte-identical response.
pub proof fn lemma_handling_deterministic(
    text: Seq<char>,
    has_dir: bool,
    r1: Result<ActionView, ParseError>,
    r2: Result<ActionView, ParseError>,
)
    requires
        r1 == spec_handle_request(text, has_dir),
        r2 == spec_handle_request(text, has_dir),
    ensures
        r1 == r2,
{
}

/// Every `Content-Length` a plain-text response carries equals the byte
/// length of the body it is sent with.
pub proof fn lemma_content_length_exact(body: Seq<char>)
    ensures
        spec_lookup_header(spec_text_response(body).headers, "Content-Length"@) == Some(
            spec_dec(spec_byte_len(body)),
        ),
        spec_text_response(body).body == body,
{
    reveal_strlit("Content-Type");
    reveal_strlit("Content-Length");
    let hs = spec_text_response(body).headers;
    assert(hs[0].0 == "Content-Type"@);
    assert("Content-Type"@.len() != "Content-Length"@.len());
    assert(hs[0].0 != "Content-Length"@);
    assert(hs.drop_first()[0] == hs[1]);
    assert(spec_lookup_header(hs.drop_first(), "Content-Length"@) == Some(
        spec_dec(spec_byte_len(body)),
    ));
}

} // verus!
