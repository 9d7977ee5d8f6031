use http_core::method::HttpMethod;
use http_core::request::{parse_request, Request};
use http_core::response::Response;
use http_core::router::{handle_request, route, Action};
use http_core::status::HttpStatusCode;

fn bare_request(method: HttpMethod, path: &str) -> Request {
    Request {
        method,
        path: path.to_string(),
        http_version: "HTTP/1.1".to_string(),
        headers: Vec::new(),
        body: String::new(),
    }
}

fn expect_status(action: Action, status: HttpStatusCode) -> Response {
    match action {
        Action::Respond(resp) => {
            assert_eq!(resp.status_code, status);
            resp
        }
        other => panic!("expected a direct response, got {:?}", other),
    }
}

#[test]
fn root_returns_ok_with_empty_body_for_any_method() {
    for method in [HttpMethod::Get, HttpMethod::Post, HttpMethod::Delete, HttpMethod::Head] {
        let resp = expect_status(route(bare_request(method, "/"), false), HttpStatusCode::Okay);
        assert_eq!(resp.body, "");
        assert!(resp.headers.is_empty());
    }
}

#[test]
fn unmatched_paths_return_not_found_with_empty_body() {
    for path in ["/nope", "/echo", "/files", "/user-agent/x", "", "index.html"] {
        let resp = expect_status(
            route(bare_request(HttpMethod::Get, path), true),
            HttpStatusCode::NotFound,
        );
        assert_eq!(resp.body, "");
    }
}

#[test]
fn echo_returns_the_path_remainder() {
    let resp = expect_status(
        route(bare_request(HttpMethod::Get, "/echo/hello-world"), false),
        HttpStatusCode::Okay,
    );
    assert_eq!(resp.body, "hello-world");
    assert_eq!(
        resp.headers,
        vec![
            ("Content-Type".to_string(), "text/plain".to_string()),
            ("Content-Length".to_string(), "11".to_string()),
        ]
    );
}

#[test]
fn echo_content_length_counts_bytes_not_characters() {
    let resp = expect_status(
        route(bare_request(HttpMethod::Get, "/echo/héllo"), false),
        HttpStatusCode::Okay,
    );
    assert_eq!(resp.body, "héllo");
    assert_eq!(resp.headers[1], ("Content-Length".to_string(), "6".to_string()));
}

#[test]
fn echo_of_empty_message_is_ok() {
    let resp = expect_status(
        route(bare_request(HttpMethod::Get, "/echo/"), false),
        HttpStatusCode::Okay,
    );
    assert_eq!(resp.body, "");
    assert_eq!(resp.headers[1], ("Content-Length".to_string(), "0".to_string()));
}

#[test]
fn user_agent_echoes_the_header_value() {
    let mut req = bare_request(HttpMethod::Get, "/user-agent");
    req.headers.push(("User-Agent".to_string(), "test-agent/1.0".to_string()));
    let resp = expect_status(route(req, false), HttpStatusCode::Okay);
    assert_eq!(resp.body, "test-agent/1.0");
    assert_eq!(
        resp.headers,
        vec![
            ("Content-Type".to_string(), "text/plain".to_string()),
            ("Content-Length".to_string(), "14".to_string()),
        ]
    );
}

#[test]
fn user_agent_without_header_is_not_found() {
    let resp = expect_status(
        route(bare_request(HttpMethod::Get, "/user-agent"), false),
        HttpStatusCode::NotFound,
    );
    assert_eq!(resp.body, "");
}

#[test]
fn user_agent_takes_the_first_occurrence_and_is_case_sensitive() {
    let mut req = bare_request(HttpMethod::Get, "/user-agent");
    req.headers.push(("user-agent".to_string(), "lowercase".to_string()));
    req.headers.push(("User-Agent".to_string(), "first".to_string()));
    req.headers.push(("User-Agent".to_string(), "second".to_string()));
    let resp = expect_status(route(req, false), HttpStatusCode::Okay);
    assert_eq!(resp.body, "first");
}

#[test]
fn files_routes_are_not_found_without_a_directory() {
    for method in [HttpMethod::Get, HttpMethod::Post, HttpMethod::Put] {
        let resp = expect_status(
            route(bare_request(method, "/files/sample.txt"), false),
            HttpStatusCode::NotFound,
        );
        assert_eq!(resp.body, "");
    }
}

#[test]
fn files_get_becomes_a_serve_action() {
    let action = route(bare_request(HttpMethod::Get, "/files/sample.txt"), true);
    assert_eq!(action, Action::ServeFile("sample.txt".to_string()));
}

#[test]
fn files_post_and_put_become_save_actions_carrying_the_body() {
    for method in [HttpMethod::Post, HttpMethod::Put] {
        let mut req = bare_request(method, "/files/sample.txt");
        req.body = "hello".to_string();
        let action = route(req, true);
        assert_eq!(
            action,
            Action::SaveFile("sample.txt".to_string(), "hello".to_string())
        );
    }
}

#[test]
fn files_with_other_methods_are_not_found() {
    let resp = expect_status(
        route(bare_request(HttpMethod::Delete, "/files/sample.txt"), true),
        HttpStatusCode::NotFound,
    );
    assert_eq!(resp.body, "");
}

#[test]
fn route_precedence_echo_wins_over_files() {
    // "/echo/" wins over any later pattern even when a directory is set
    let action = route(bare_request(HttpMethod::Get, "/echo/files"), true);
    match action {
        Action::Respond(resp) => assert_eq!(resp.body, "files"),
        other => panic!("expected a direct response, got {:?}", other),
    }
}

#[test]
fn handle_request_runs_parse_then_route() {
    let action = handle_request("GET /echo/abc HTTP/1.1\r\n\r\n", false).unwrap();
    match action {
        Action::Respond(resp) => {
            assert_eq!(resp.status_code, HttpStatusCode::Okay);
            assert_eq!(resp.body, "abc");
        }
        other => panic!("expected a direct response, got {:?}", other),
    }
    assert!(handle_request("bogus", false).is_err());
}

#[test]
fn parsed_file_upload_carries_its_body_to_the_save_action() {
    let req = parse_request("POST /files/sample.txt HTTP/1.1\r\nHost: h\r\n\r\nhello").unwrap();
    let action = route(req, true);
    assert_eq!(
        action,
        Action::SaveFile("sample.txt".to_string(), "hello".to_string())
    );
}
