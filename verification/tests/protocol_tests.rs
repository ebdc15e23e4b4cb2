use http_core::dispatch::{dispatch_request, Action};
use http_core::encoding::get_compression;
use http_core::headers::get_header;
use http_core::response::build_content_response;
use http_core::routes::{generate_filename, handle_file, post_body};
use std::io::Read;

fn respond_bytes(action: Action) -> Vec<u8> {
    match action {
        Action::Respond(b) => b,
        _ => panic!("expected a finished response"),
    }
}

fn gunzip(data: &[u8]) -> Vec<u8> {
    let mut decoder = flate2::read::GzDecoder::new(data);
    let mut out = Vec::new();
    decoder.read_to_end(&mut out).expect("body must be a valid gzip stream");
    out
}

fn split_head_body(resp: &[u8]) -> (String, Vec<u8>) {
    let sep = b"\r\n\r\n";
    let i = (0..=resp.len() - sep.len())
        .find(|&i| &resp[i..i + sep.len()] == sep)
        .expect("response must hold a blank line");
    (
        String::from_utf8(resp[..i].to_vec()).expect("head must be text"),
        resp[i + sep.len()..].to_vec(),
    )
}

#[test]
fn echo_plain_exact() {
    let req = b"GET /echo/abc HTTP/1.1\r\nHost: x\r\n\r\n";
    let resp = respond_bytes(dispatch_request(b"/tmp/", req));
    let expected = b"HTTP/1.1 200 OK\r\nContent-Type: text/plain\r\nContent-Length: 3\r\n\r\nabc";
    assert_eq!(resp, expected.to_vec());
}

#[test]
fn echo_empty_text() {
    let req = b"GET /echo/ HTTP/1.1\r\n\r\n";
    let resp = respond_bytes(dispatch_request(b"/tmp/", req));
    let expected = b"HTTP/1.1 200 OK\r\nContent-Type: text/plain\r\nContent-Length: 0\r\n\r\n";
    assert_eq!(resp, expected.to_vec());
}

#[test]
fn echo_gzip_round_trip() {
    let req = b"GET /echo/hello-compression HTTP/1.1\r\nAccept-Encoding: gzip\r\n\r\n";
    let resp = respond_bytes(dispatch_request(b"/tmp/", req));
    let (head, body) = split_head_body(&resp);
    assert!(head.starts_with("HTTP/1.1 200 OK\r\n"));
    assert!(head.contains("Content-Encoding: gzip\r\n"));
    assert!(head.contains(&format!("Content-Length: {}", body.len())));
    assert_eq!(gunzip(&body), b"hello-compression".to_vec());
}

#[test]
fn identity_yields_no_content_encoding() {
    let req = b"GET /echo/abc HTTP/1.1\r\nAccept-Encoding: identity\r\n\r\n";
    let resp = respond_bytes(dispatch_request(b"/tmp/", req));
    let (head, body) = split_head_body(&resp);
    assert!(!head.contains("Content-Encoding"));
    assert_eq!(body, b"abc".to_vec());
}

#[test]
fn gzip_among_other_encodings_wins() {
    let req = b"GET /echo/abc HTTP/1.1\r\nAccept-Encoding: br, gzip\r\n\r\n";
    let resp = respond_bytes(dispatch_request(b"/tmp/", req));
    let (head, body) = split_head_body(&resp);
    assert!(head.contains("Content-Encoding: gzip\r\n"));
    assert_eq!(gunzip(&body), b"abc".to_vec());
}

#[test]
fn gzip_must_match_a_whole_token() {
    assert_eq!(get_compression(b"GET / HTTP/1.1\r\nAccept-Encoding: xgzip\r\n\r\n"), b"".to_vec());
    assert_eq!(
        get_compression(b"GET / HTTP/1.1\r\nAccept-Encoding: gzip\r\n\r\n"),
        b"Content-Encoding: gzip".to_vec()
    );
    assert_eq!(
        get_compression(b"GET / HTTP/1.1\r\nAccept-Encoding: br, gzip, deflate\r\n\r\n"),
        b"Content-Encoding: gzip".to_vec()
    );
    // a repeated token still yields the fragment exactly once
    assert_eq!(
        get_compression(b"GET / HTTP/1.1\r\nAccept-Encoding: gzip, gzip\r\n\r\n"),
        b"Content-Encoding: gzip".to_vec()
    );
}

#[test]
fn echo_strips_only_the_leading_prefix() {
    let req = b"GET /echo/x/echo/y HTTP/1.1\r\n\r\n";
    let resp = respond_bytes(dispatch_request(b"/tmp/", req));
    let (_, body) = split_head_body(&resp);
    assert_eq!(body, b"x/echo/y".to_vec());
}

#[test]
fn filename_strips_only_the_leading_prefix() {
    assert_eq!(generate_filename(b"/d/", b"/files/a/files/b"), b"/d/a/files/b".to_vec());
}

#[test]
fn get_root_exact() {
    let req = b"GET / HTTP/1.1\r\n\r\n";
    let resp = respond_bytes(dispatch_request(b"/tmp/", req));
    assert_eq!(resp, b"HTTP/1.1 200 OK\r\n\r\n".to_vec());
}

#[test]
fn user_agent_reflected() {
    let req = b"GET /user-agent HTTP/1.1\r\nUser-Agent: test-client/1.0\r\n\r\n";
    let resp = respond_bytes(dispatch_request(b"/tmp/", req));
    let expected =
        b"HTTP/1.1 200 OK\r\nContent-Type: text/plain\r\nContent-Length: 15\r\n\r\ntest-client/1.0";
    assert_eq!(resp, expected.to_vec());
}

#[test]
fn user_agent_missing_is_404() {
    let req = b"GET /user-agent HTTP/1.1\r\nHost: x\r\n\r\n";
    let resp = respond_bytes(dispatch_request(b"/tmp/", req));
    assert_eq!(resp, b"HTTP/1.1 404 Not Found\r\n\r\n".to_vec());
}

#[test]
fn duplicate_user_agent_last_wins() {
    let req = b"GET /user-agent HTTP/1.1\r\nUser-Agent: first\r\nUser-Agent: second\r\n\r\n";
    assert_eq!(get_header(req, b"User-Agent:"), b"second".to_vec());
    let resp = respond_bytes(dispatch_request(b"/tmp/", req));
    let (_, body) = split_head_body(&resp);
    assert_eq!(body, b"second".to_vec());
}

#[test]
fn header_scan_stops_at_blank_line() {
    let req = b"GET / HTTP/1.1\r\nUser-Agent: real\r\n\r\nUser-Agent: in-body\r\n";
    assert_eq!(get_header(req, b"User-Agent:"), b"real".to_vec());
}

#[test]
fn header_scan_survives_missing_terminator() {
    // a truncated request without a blank line: the end of input is the
    // boundary and the scan still returns the last value seen
    let req = b"GET / HTTP/1.1\r\nUser-Agent: abc";
    assert_eq!(get_header(req, b"User-Agent:"), b"abc".to_vec());
    assert_eq!(get_header(b"", b"User-Agent:"), b"".to_vec());
}

#[test]
fn files_write_then_read() {
    let dir = b"/srv/data/";
    let post = b"POST /files/foo.txt HTTP/1.1\r\nContent-Length: 5\r\n\r\nhello";
    let (path, body) = match dispatch_request(dir, post) {
        Action::WriteFile { path, body } => (path, body),
        _ => panic!("a POST to /files/ must ask for a file write"),
    };
    assert_eq!(path, b"/srv/data/foo.txt".to_vec());
    assert_eq!(body, b"hello".to_vec());

    let get = b"GET /files/foo.txt HTTP/1.1\r\n\r\n";
    let read_path = match dispatch_request(dir, get) {
        Action::ReadFile { path } => path,
        _ => panic!("a GET of /files/ must ask for a file read"),
    };
    assert_eq!(read_path, path);

    let resp = handle_file(get, Some(&body));
    let expected =
        b"HTTP/1.1 200 OK\r\nContent-Type: application/octet-stream\r\nContent-Length: 5\r\n\r\nhello";
    assert_eq!(resp, expected.to_vec());
}

#[test]
fn missing_file_is_404() {
    let get = b"GET /files/does-not-exist HTTP/1.1\r\n\r\n";
    match dispatch_request(b"/srv/data/", get) {
        Action::ReadFile { path } => assert_eq!(path, b"/srv/data/does-not-exist".to_vec()),
        _ => panic!("a GET of /files/ must ask for a file read"),
    }
    assert_eq!(handle_file(get, None), b"HTTP/1.1 404 Not Found\r\n\r\n".to_vec());
}

#[test]
fn post_body_is_after_last_blank_line() {
    assert_eq!(post_body(b"POST /files/a HTTP/1.1\r\n\r\nabc\r\n\r\ndef"), b"def".to_vec());
    assert_eq!(post_body(b"no separator at all"), b"no separator at all".to_vec());
    assert_eq!(post_body(b"POST /files/a HTTP/1.1\r\n\r\n"), b"".to_vec());
}

#[test]
fn filename_collapses_doubled_separators() {
    assert_eq!(generate_filename(b"/tmp/", b"/files/foo"), b"/tmp/foo".to_vec());
    assert_eq!(generate_filename(b"/tmp", b"/files/foo"), b"/tmpfoo".to_vec());
    assert_eq!(generate_filename(b"/tmp/", b"/files//a"), b"/tmp/a".to_vec());
    // one left-to-right pass: four slashes become two
    assert_eq!(generate_filename(b"/d//", b"/files///x"), b"/d//x".to_vec());
}

#[test]
fn unknown_path_is_404() {
    let resp = respond_bytes(dispatch_request(b"/tmp/", b"GET /nope HTTP/1.1\r\n\r\n"));
    assert_eq!(resp, b"HTTP/1.1 404 Not Found\r\n\r\n".to_vec());
}

#[test]
fn unsupported_method_is_404() {
    let resp = respond_bytes(dispatch_request(b"/tmp/", b"PUT / HTTP/1.1\r\n\r\n"));
    assert_eq!(resp, b"HTTP/1.1 404 Not Found\r\n\r\n".to_vec());
}

#[test]
fn post_outside_files_gets_no_response() {
    // a latent gap kept as it is: such a POST is silently ignored
    assert!(matches!(dispatch_request(b"/tmp/", b"POST /abc HTTP/1.1\r\n\r\n"), Action::NoResponse));
}

#[test]
fn short_request_line_is_404() {
    let resp = respond_bytes(dispatch_request(b"/tmp/", b"GET /\r\n\r\n"));
    assert_eq!(resp, b"HTTP/1.1 404 Not Found\r\n\r\n".to_vec());
}

#[test]
fn empty_request_gets_no_response() {
    assert!(matches!(dispatch_request(b"/tmp/", b""), Action::NoResponse));
}

#[test]
fn request_line_tolerates_repeated_whitespace() {
    let resp = respond_bytes(dispatch_request(b"/tmp/", b"GET  /   HTTP/1.1\r\n\r\n"));
    assert_eq!(resp, b"HTTP/1.1 200 OK\r\n\r\n".to_vec());
}

#[test]
fn content_length_counts_final_body_bytes() {
    let req = b"GET / HTTP/1.1\r\nAccept-Encoding: gzip\r\n\r\n";
    let resp = build_content_response(req, b"a longer body for the counter", b"text/plain");
    let (head, body) = split_head_body(&resp);
    let stated: usize = head
        .lines()
        .find_map(|l| l.strip_prefix("Content-Length: "))
        .expect("a content length must be stated")
        .parse()
        .expect("the content length must be a number");
    assert_eq!(stated, body.len());
    assert_eq!(gunzip(&body), b"a longer body for the counter".to_vec());
}
