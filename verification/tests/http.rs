//! HTTP/1.1 to the gateway.

use pomodoro::http::{
    decode_chunked, encode_uri_component, find_gateway, find_subslice, parse_head, parse_http_url,
    pick_gateway, raw_request, read_reply, read_response, reply_json, Progress, Reply,
};
use pomodoro::json::{parse_stored, print_compact, Json};

fn j(text: &str) -> Json {
    parse_stored(text).unwrap()
}

fn set(s: &str) -> Option<String> {
    Some(s.to_string())
}

#[test]
fn parses_status_and_content_length() {
    let text = "HTTP/1.1 200 OK\r\nContent-Type: application/json\r\nContent-Length: 17\r\n\r\n";
    let (code, h) = parse_head(text).unwrap();
    assert_eq!(code, 200);
    assert_eq!(h.content_length, Some(17));
    assert!(!h.chunked);
}

#[test]
fn detects_chunked() {
    let text = "HTTP/1.1 200 OK\r\nTransfer-Encoding: chunked\r\n\r\n";
    let (_, h) = parse_head(text).unwrap();
    assert!(h.chunked);
    assert_eq!(h.content_length, None);
}

#[test]
fn decodes_chunked_body() {
    let body = b"5\r\nhello\r\n6\r\n world\r\n0\r\n\r\n";
    assert_eq!(decode_chunked(body).unwrap(), b"hello world");
    let body = b"5;foo=bar\r\nhello\r\n0\r\n\r\n";
    assert_eq!(decode_chunked(body).unwrap(), b"hello");
    assert!(decode_chunked(b"5\r\nhel").is_none());
}

#[test]
fn each_chunk_ends_with_its_line() {
    assert!(decode_chunked(b"5\r\nhelloXX0\r\n\r\n").is_none());
    assert!(decode_chunked(b"5\r\nhello\r0\r\n\r\n").is_none());
    assert!(decode_chunked(b"5\r\nhello\n\r0\r\n\r\n").is_none());
    assert!(decode_chunked(b"5\r\nhello\r\n").is_none());
}

#[test]
fn finds_header_terminator() {
    assert_eq!(find_subslice(b"abc\r\n\r\nxyz", b"\r\n\r\n"), Some(3));
    assert_eq!(find_subslice(b"abc", b"\r\n\r\n"), None);
    assert_eq!(find_subslice(b"a\r\nb\r\n\r\n", b"\r\n\r\n"), Some(4));
}

#[test]
fn parses_http_url() {
    let u = parse_http_url("http://127.0.0.1:4096").unwrap();
    assert_eq!(u.port, 4096);
    assert_eq!(u.path, "/");
    let u = parse_http_url("http://127.0.0.1:4096/session/a%20b/question/reply").unwrap();
    assert_eq!(u.path, "/session/a%20b/question/reply");
    assert_eq!(parse_http_url("http://127.0.0.1/x").unwrap().port, 80);
    assert!(parse_http_url("https://127.0.0.1:1/x").is_none());
    assert!(parse_http_url("").is_none());
}

#[test]
fn encode_matches_encode_uri_component() {
    assert_eq!(encode_uri_component("abc-_.!~*'()"), "abc-_.!~*'()");
    assert_eq!(encode_uri_component("a b"), "a%20b");
    assert_eq!(encode_uri_component("a/b"), "a%2Fb");
    assert_eq!(encode_uri_component("中"), "%E4%B8%AD");
    assert_eq!(encode_uri_component(""), "");
}

#[test]
fn the_gateway_is_found_by_name_then_by_file() {
    let g = find_gateway(&set(" 5300 "), &set("t"), &[]).unwrap();
    assert_eq!((g.port, g.token.as_str()), (5300, "t"));
    let files = vec![
        "not json".to_string(),
        r#"{ "port": 0, "token": "a" }"#.to_string(),
        r#"{ "port": 70000, "token": "b" }"#.to_string(),
        r#"{ "port": 5277, "token": "c" }"#.to_string(),
    ];
    let g = find_gateway(&set("5300"), &None, &files).unwrap();
    assert_eq!((g.port, g.token.as_str()), (5277, "c"));
    assert!(find_gateway(&None, &None, &files[..3]).is_none());
    assert!(pick_gateway(&None, &None, &[j(r#"{ "port": 5277 }"#)]).is_none());
}

#[test]
fn requests_count_the_bytes_of_their_body() {
    let r = raw_request(5277, "tok", "POST", "/api/event", Some(&j(r#"{ "a": "中" }"#)));
    assert_eq!(
        r,
        "POST /api/event HTTP/1.1\r\nHost: 127.0.0.1:5277\r\nAccept: application/json\r\n\
         Authorization: Bearer tok\r\nContent-Type: application/json\r\nContent-Length: 11\r\n\
         Connection: close\r\n\r\n{\"a\":\"中\"}"
    );
    let r = raw_request(1, "", "GET", "/x", None);
    assert_eq!(
        r,
        "GET /x HTTP/1.1\r\nHost: 127.0.0.1:1\r\nAccept: application/json\r\nConnection: close\r\n\r\n"
    );
}

#[test]
fn responses_are_complete_by_length_by_chunks_or_by_the_end() {
    let head = "HTTP/1.1 200 OK\r\nContent-Length: 3\r\n\r\n";
    assert!(matches!(read_response(head.as_bytes(), false), Progress::More));
    let whole = format!("{head}abcd");
    match read_response(whole.as_bytes(), false) {
        Progress::Done(200, b) => assert_eq!(b, b"abc"),
        _ => panic!("complete"),
    }
    match read_response(b"HTTP/1.1 204 x\r\n\r\nrest", true) {
        Progress::Done(204, b) => assert_eq!(b, b"rest"),
        _ => panic!("complete"),
    }
    assert!(matches!(read_response(b"HTTP/1.1 204 x\r\n\r\nrest", false), Progress::More));
    assert!(matches!(read_response(b"HTTP/1.1 20", true), Progress::Failed(_)));
    assert!(matches!(read_response(b"junk\r\n\r\n", false), Progress::Failed(_)));
}

#[test]
fn replies_are_errors_nothing_or_values() {
    match read_reply(404, "x".repeat(300).as_bytes()) {
        Reply::Failed(e) => assert_eq!(e.0, format!("HTTP 404: {}", "x".repeat(200))),
        _ => panic!("an error"),
    }
    assert!(matches!(read_reply(200, b""), Reply::Nothing));
    let v = reply_json(read_reply(200, br#"{"ok":true}"#)).unwrap();
    assert_eq!(print_compact(&v), r#"{"ok":true}"#);
    assert_eq!(print_compact(&reply_json(read_reply(200, b"oops")).unwrap()), "null");
    assert_eq!(print_compact(&reply_json(Reply::Nothing).unwrap()), "null");
    assert!(reply_json(read_reply(500, b"e")).is_err());
    match read_reply(200, &[0xff, 0x41]) {
        Reply::Text(t) => assert_eq!(t, "\u{fffd}A"),
        _ => panic!("a text"),
    }
}
