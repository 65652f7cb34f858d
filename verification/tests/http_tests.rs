use rust_https_server::content::{select_variant, HandleInfo};
use rust_https_server::handlers::{handle_get, handle_options, keep_alive_after, u64_dec, write_response};
use rust_https_server::http::{parse_headers, parse_request, parse_request_line, Request};

#[test]
fn it_works() {
    let output = parse_request_line(&"GET / HTTP/1.1\r\n".to_string());
    match output {
        Ok((method, url)) => {
            assert_eq!(method, "GET");
            assert_eq!(url, "/")
        }
        _ => assert!(false),
    }
}

#[test]
fn parse_headers_handles_empty_header() {
    let lines: Vec<String> = Vec::new();
    let output = parse_headers(&lines);
    assert_eq!(output.get("Dummy"), None);
}

#[test]
fn parse_headers_handles_single_header() {
    let lines = vec!["Dummy: test\r\n".to_string()];
    let output = parse_headers(&lines);
    assert_eq!(output.get("Dummy"), Some("test".to_string()));
}

#[test]
fn parse_headers_handles_2_headers() {
    let lines = vec!["Dummy: test\r\n".to_string(), "Dummy2: test2\r\n".to_string()];
    let output = parse_headers(&lines);
    assert_eq!(output.get("Dummy"), Some("test".to_string()));
    assert_eq!(output.get("Dummy2"), Some("test2".to_string()));
}

#[test]
fn duplicate_header_overwrites() {
    let lines = vec!["Dummy: one\r\n".to_string(), "Dummy: two\r\n".to_string()];
    let output = parse_headers(&lines);
    assert_eq!(output.get("Dummy"), Some("two".to_string()));
}

#[test]
fn accept_encoding_gzip_is_substring_match() {
    let lines = vec!["Accept-Encoding: deflate, gzip, br\r\n".to_string()];
    assert!(parse_headers(&lines).accept_encoding_gzip());
    let no = vec!["Accept-Encoding: deflate\r\n".to_string()];
    assert!(!parse_headers(&no).accept_encoding_gzip());
    let absent: Vec<String> = Vec::new();
    assert!(!parse_headers(&absent).accept_encoding_gzip());
}

#[test]
fn keep_alive_defaults_to_true() {
    let absent: Vec<String> = Vec::new();
    assert!(parse_headers(&absent).connection_keep_alive());
    let close = vec!["Connection: close\r\n".to_string()];
    assert!(!parse_headers(&close).connection_keep_alive());
    let keep = vec!["Connection: keep-alive\r\n".to_string()];
    assert!(parse_headers(&keep).connection_keep_alive());
}

#[test]
fn if_modified_since_parses_rfc2822() {
    let lines = vec!["If-Modified-Since: Thu, 01 Jan 1970 00:00:10 +0000\r\n".to_string()];
    assert_eq!(parse_headers(&lines).if_modified_since(), Some(10));
    let bad = vec!["If-Modified-Since: not a date\r\n".to_string()];
    assert_eq!(parse_headers(&bad).if_modified_since(), None);
}

#[test]
fn unsupported_method_yields_405() {
    let lines: Vec<String> = Vec::new();
    match parse_request(&"PUT /x HTTP/1.1\r\n".to_string(), &lines) {
        Err(b) => {
            assert_eq!(b.code, "405");
            assert_eq!(b.reason, "Method not supported");
        }
        _ => assert!(false),
    }
}

#[test]
fn malformed_request_line_yields_400() {
    let lines: Vec<String> = Vec::new();
    match parse_request(&"NONSENSE\r\n".to_string(), &lines) {
        Err(b) => {
            assert_eq!(b.code, "400");
            assert_eq!(b.reason, "Request line not understood");
        }
        _ => assert!(false),
    }
}

#[test]
fn options_asterisk_form() {
    let lines: Vec<String> = Vec::new();
    match parse_request(&"OPTIONS * HTTP/1.1\r\n".to_string(), &lines) {
        Ok(Request::Options(None, _)) => {}
        _ => assert!(false),
    }
}

#[test]
fn get_found_resource_yields_200_with_headers() {
    let info = HandleInfo { content_length: 11, mod_timestamp: 0, gzipped: false };
    let (head, send) = handle_get(Some(info), None, false, true, "D");
    assert!(head.starts_with("HTTP/1.1 200 OK\n"));
    assert!(head.contains("Connection: keep-alive\n"));
    assert!(head.contains("Content-Length: 11\n"));
    assert!(head.contains("Last-Modified: Thu, 1 Jan 1970 00:00:00 +0000\n"));
    assert!(head.contains("Server: rust-http2-server\n"));
    assert!(head.ends_with("\n\n"));
    assert!(send);
}

#[test]
fn head_suppresses_entity_with_same_head() {
    let info = HandleInfo { content_length: 11, mod_timestamp: 0, gzipped: false };
    let (get_head, get_send) = handle_get(Some(info), None, false, true, "D");
    let (head_head, head_send) = handle_get(Some(info), None, true, true, "D");
    assert_eq!(get_head, head_head);
    assert!(get_send);
    assert!(!head_send);
}

#[test]
fn get_missing_resource_yields_404() {
    let (head, send) = handle_get(None, None, false, true, "D");
    assert!(head.starts_with("HTTP/1.1 404 Not Found\n"));
    assert!(!send);
}

#[test]
fn conditional_get_yields_bare_304() {
    let info = HandleInfo { content_length: 5, mod_timestamp: 100, gzipped: true };
    let (head, send) = handle_get(Some(info), Some(100), false, true, "D");
    assert_eq!(head, "HTTP/1.1 304 Not Modified\n");
    assert!(!send);
    let (fresh, send2) = handle_get(Some(info), Some(99), false, true, "D");
    assert!(fresh.starts_with("HTTP/1.1 200 OK\n"));
    assert!(fresh.contains("Content-Encoding: gzip\n"));
    assert!(send2);
}

#[test]
fn options_includes_allow_header() {
    let head = handle_options(true, false, "D");
    assert!(head.starts_with("HTTP/1.1 200 OK\n"));
    assert!(head.contains("Allow: OPTIONS, GET, HEAD\n"));
    assert!(head.contains("Content-Length: 0\n"));
    assert!(head.contains("Connection: close\n"));
    let missing = handle_options(false, false, "D");
    assert!(missing.starts_with("HTTP/1.1 404 Not Found\n"));
}

#[test]
fn gzip_variant_takes_gz_length_and_plain_mtime() {
    let chosen = select_variant(true, Some((77, 100)), Some(40));
    assert_eq!(
        chosen,
        Some(HandleInfo { content_length: 40, mod_timestamp: 77, gzipped: true })
    );
    let plain = select_variant(false, Some((77, 100)), Some(40));
    assert_eq!(
        plain,
        Some(HandleInfo { content_length: 100, mod_timestamp: 77, gzipped: false })
    );
    let absent = select_variant(true, None, Some(40));
    assert_eq!(absent, None);
}

#[test]
fn response_head_exact_bytes() {
    let headers = vec![("Content-Length".to_string(), "0".to_string())];
    let head = write_response("200", "OK", &headers, false, "Thu, 1 Jan 1970 00:00:00 +0000");
    assert_eq!(
        head,
        "HTTP/1.1 200 OK\nConnection: close\nDate: Thu, 1 Jan 1970 00:00:00 +0000\nServer: rust-http2-server\nContent-Length: 0\n\n"
    );
}

#[test]
fn decimal_rendering() {
    assert_eq!(u64_dec(0), "0");
    assert_eq!(u64_dec(10), "10");
    assert_eq!(u64_dec(65535), "65535");
}

#[test]
fn keep_alive_request_continues_connection() {
    let lines = vec!["Connection: keep-alive\r\n".to_string()];
    match parse_request(&"GET /index.html HTTP/1.1\r\n".to_string(), &lines) {
        Ok(first) => assert!(keep_alive_after(&first)),
        _ => assert!(false),
    }
    match parse_request(&"GET /index.html HTTP/1.1\r\n".to_string(), &lines) {
        Ok(second) => assert!(keep_alive_after(&second)),
        _ => assert!(false),
    }
    match parse_request(&"OPTIONS * HTTP/1.1\r\n".to_string(), &lines) {
        Ok(options) => assert!(!keep_alive_after(&options)),
        _ => assert!(false),
    }
}
