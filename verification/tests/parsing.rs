use http_core::frame::{FrameReader, ReadError, READ_BUFFER_SIZE};
use http_core::method::HttpMethod;
use http_core::request::{parse_request, split_header, ParseError};

#[test]
fn method_tokens_parse_case_insensitively() {
    assert_eq!(HttpMethod::parse("GET"), Some(HttpMethod::Get));
    assert_eq!(HttpMethod::parse("get"), Some(HttpMethod::Get));
    assert_eq!(HttpMethod::parse("GeT"), Some(HttpMethod::Get));
    assert_eq!(HttpMethod::parse("POST"), Some(HttpMethod::Post));
    assert_eq!(HttpMethod::parse("put"), Some(HttpMethod::Put));
    assert_eq!(HttpMethod::parse("Delete"), Some(HttpMethod::Delete));
    assert_eq!(HttpMethod::parse("patch"), Some(HttpMethod::Patch));
    assert_eq!(HttpMethod::parse("HEAD"), Some(HttpMethod::Head));
    assert_eq!(HttpMethod::parse("options"), Some(HttpMethod::Options));
    assert_eq!(HttpMethod::parse("TRACE"), Some(HttpMethod::Trace));
    assert_eq!(HttpMethod::parse("connect"), Some(HttpMethod::Connect));
    assert_eq!(HttpMethod::parse("FETCH"), None);
    assert_eq!(HttpMethod::parse(""), None);
    assert_eq!(HttpMethod::parse("GETS"), None);
}

#[test]
fn split_header_takes_first_colon_and_trims_value() {
    assert_eq!(split_header("Host: example.com"), Some(("Host", "example.com")));
    assert_eq!(split_header("Key:value"), Some(("Key", "value")));
    assert_eq!(split_header("Key:   padded"), Some(("Key", "padded")));
    assert_eq!(split_header("A: b: c"), Some(("A", "b: c")));
    assert_eq!(split_header(":empty-name"), Some(("", "empty-name")));
    assert_eq!(split_header("no colon here"), None);
    assert_eq!(split_header(""), None);
}

#[test]
fn request_parses_into_parts() {
    let text = "GET /index.html HTTP/1.1\r\nHost: example.com\r\nAccept: */*\r\n\r\nhello";
    let req = parse_request(text).unwrap();
    assert_eq!(req.method, HttpMethod::Get);
    assert_eq!(req.path, "/index.html");
    assert_eq!(req.http_version, "HTTP/1.1");
    assert_eq!(req.headers.len(), 2);
    assert_eq!(req.headers[0], ("Host".to_string(), "example.com".to_string()));
    assert_eq!(req.headers[1], ("Accept".to_string(), "*/*".to_string()));
    assert_eq!(req.body, "hello");
}

#[test]
fn request_line_needs_two_distinct_spaces() {
    assert_eq!(parse_request(""), Err(ParseError::MalformedRequestLine));
    assert_eq!(parse_request("GET/ HTTP/1.1"), Err(ParseError::MalformedRequestLine));
    assert_eq!(parse_request("GETHTTP"), Err(ParseError::MalformedRequestLine));
    assert_eq!(parse_request("GET /"), Err(ParseError::MalformedRequestLine));
}

#[test]
fn unknown_method_is_its_own_error() {
    assert_eq!(parse_request("FETCH / HTTP/1.1\r\n\r\n"), Err(ParseError::UnknownMethod));
}

#[test]
fn repeated_header_names_are_all_kept_in_order() {
    let text = "GET / HTTP/1.1\r\nSet-Cookie: a\r\nHost: h\r\nSet-Cookie: b\r\n\r\n";
    let req = parse_request(text).unwrap();
    assert_eq!(
        req.headers,
        vec![
            ("Set-Cookie".to_string(), "a".to_string()),
            ("Host".to_string(), "h".to_string()),
            ("Set-Cookie".to_string(), "b".to_string()),
        ]
    );
}

#[test]
fn header_lines_without_colon_are_skipped() {
    let text = "GET / HTTP/1.1\r\nGood: yes\r\njunk line\r\nAlso: fine\r\n\r\n";
    let req = parse_request(text).unwrap();
    assert_eq!(req.headers.len(), 2);
    assert_eq!(req.headers[0].0, "Good");
    assert_eq!(req.headers[1].0, "Also");
}

#[test]
fn body_lines_are_rejoined_with_single_newlines() {
    let text = "POST /x HTTP/1.1\r\nH: v\r\n\r\nline one\r\nline two\nline three\n";
    let req = parse_request(text).unwrap();
    assert_eq!(req.body, "line one\nline two\nline three");
}

#[test]
fn missing_blank_line_means_empty_body() {
    let req = parse_request("GET / HTTP/1.1\r\nH: v").unwrap();
    assert_eq!(req.headers.len(), 1);
    assert_eq!(req.body, "");
}

#[test]
fn request_line_parts_are_trimmed() {
    let req = parse_request("GET  /  HTTP/1.1\r\n\r\n").unwrap();
    assert_eq!(req.method, HttpMethod::Get);
    assert_eq!(req.path, "/");
    assert_eq!(req.http_version, "HTTP/1.1");
}

#[test]
fn frame_reader_accumulates_until_short_chunk() {
    let mut reader = FrameReader::new();
    let full = [b'a'; READ_BUFFER_SIZE];
    assert!(!reader.push_chunk(&full));
    assert!(!reader.is_complete());
    let done = reader.push_chunk(b"bc");
    assert!(done);
    assert!(reader.is_complete());
    let text = reader.into_text().unwrap();
    assert_eq!(text.len(), READ_BUFFER_SIZE + 2);
    assert!(text.starts_with("aaa"));
    assert!(text.ends_with("abc"));
}

#[test]
fn frame_reader_decodes_utf8_text() {
    let mut reader = FrameReader::new();
    let done = reader.push_chunk("héllo".as_bytes());
    assert!(done);
    assert_eq!(reader.into_text().unwrap(), "héllo");
}

#[test]
fn frame_reader_rejects_invalid_utf8() {
    let mut reader = FrameReader::new();
    reader.push_chunk(&[0xff, 0xfe]);
    assert_eq!(reader.into_text(), Err(ReadError::InvalidUtf8));
}

#[test]
fn empty_read_completes_with_empty_text() {
    let mut reader = FrameReader::new();
    assert!(reader.push_chunk(&[]));
    assert_eq!(reader.into_text().unwrap(), "");
}
