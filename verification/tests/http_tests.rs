use codex_gateway::http::{
    build_response_head, decode_component, find_header_end, on_eof, parse_query_string,
    parse_target, read_request_progress, web_error_of, HttpRequest, ParseError, Progress,
};
use codex_gateway::util::{from_hex, parse_u64};

fn complete(data: &[u8]) -> HttpRequest {
    match read_request_progress(data) {
        Progress::Complete(r) => r,
        Progress::NeedMore => panic!("request unexpectedly incomplete"),
        Progress::Failed(e) => panic!("request unexpectedly failed: {:?}", e),
    }
}

fn failure(data: &[u8]) -> ParseError {
    match read_request_progress(data) {
        Progress::Failed(e) => e,
        _ => panic!("expected a parse failure"),
    }
}

#[test]
fn finds_the_header_terminator() {
    assert_eq!(find_header_end(b"GET / HTTP/1.1\r\n\r\nrest"), Some(14));
    assert_eq!(find_header_end(b"GET / HTTP/1.1\r\n"), None);
    assert_eq!(find_header_end(b"\r\n\r\n"), Some(0));
    assert_eq!(find_header_end(b""), None);
}

#[test]
fn percent_decoding_basics() {
    assert_eq!(decode_component(b"a+b"), b"a b".to_vec());
    assert_eq!(decode_component(b"%41"), b"A".to_vec());
    assert_eq!(decode_component(b"%4"), b"%4".to_vec());
    assert_eq!(decode_component(b"%"), b"%".to_vec());
    assert_eq!(decode_component(b"%zz"), b"%zz".to_vec());
    assert_eq!(decode_component(b"%41%62"), b"Ab".to_vec());
    assert_eq!(decode_component(b"caf%C3%A9"), "caf\u{e9}".as_bytes().to_vec());
}

#[test]
fn hex_digits_both_cases() {
    assert_eq!(from_hex(b'0'), Some(0));
    assert_eq!(from_hex(b'9'), Some(9));
    assert_eq!(from_hex(b'a'), Some(10));
    assert_eq!(from_hex(b'F'), Some(15));
    assert_eq!(from_hex(b'g'), None);
}

#[test]
fn target_splits_on_the_first_question_mark() {
    let (path, query) = parse_target(b"/p?x=1&y=2");
    assert_eq!(path, b"/p".to_vec());
    assert_eq!(
        query,
        vec![(b"x".to_vec(), b"1".to_vec()), (b"y".to_vec(), b"2".to_vec())]
    );

    let (path, query) = parse_target(b"/plain");
    assert_eq!(path, b"/plain".to_vec());
    assert!(query.is_empty());

    let (path, query) = parse_target(b"/p?a=1?b=2");
    assert_eq!(path, b"/p".to_vec());
    assert_eq!(query, vec![(b"a".to_vec(), b"1?b=2".to_vec())]);
}

#[test]
fn query_strings_skip_blank_parts_and_empty_keys() {
    let pairs = parse_query_string(b"a=1&&b=%20&=5&c");
    assert_eq!(
        pairs,
        vec![
            (b"a".to_vec(), b"1".to_vec()),
            (b"b".to_vec(), b" ".to_vec()),
            (b"c".to_vec(), b"".to_vec()),
        ]
    );
    assert_eq!(
        parse_query_string(b"k+e=v+1"),
        vec![(b"k e".to_vec(), b"v 1".to_vec())]
    );
}

#[test]
fn parses_a_full_request() {
    let wire = b"POST /api/send?token=abc HTTP/1.1\r\nContent-Length: 5\r\nX-Codex-Monitor-Token: tok\r\n\r\nhello";
    let req = complete(wire);
    assert_eq!(req.method, b"POST".to_vec());
    assert_eq!(req.path, b"/api/send".to_vec());
    assert_eq!(req.query, vec![(b"token".to_vec(), b"abc".to_vec())]);
    assert_eq!(
        req.headers,
        vec![
            (b"content-length".to_vec(), b"5".to_vec()),
            (b"x-codex-monitor-token".to_vec(), b"tok".to_vec()),
        ]
    );
    assert_eq!(req.body, b"hello".to_vec());
}

#[test]
fn absent_content_length_means_an_empty_body() {
    let req = complete(b"GET /health HTTP/1.1\r\nHost: x\r\n\r\n");
    assert_eq!(req.body, b"".to_vec());
}

#[test]
fn body_is_truncated_to_the_declared_length() {
    let req = complete(b"POST / HTTP/1.1\r\nContent-Length: 2\r\n\r\nhello");
    assert_eq!(req.body, b"he".to_vec());
}

#[test]
fn header_names_fold_and_malformed_lines_are_skipped() {
    let req = complete(b"GET / HTTP/1.1\r\nnot a header line\r\nCoNtEnT-LeNgTh: 3\r\n\r\nabcdef");
    assert_eq!(req.headers, vec![(b"content-length".to_vec(), b"3".to_vec())]);
    assert_eq!(req.body, b"abc".to_vec());
}

#[test]
fn three_records_split_anywhere_parse_the_same() {
    let wire: Vec<u8> =
        b"POST /api/send HTTP/1.1\r\nContent-Length: 4\r\n\r\nbody".to_vec();
    let whole = complete(&wire);
    for cut in 0..wire.len() {
        let mut buffer: Vec<u8> = Vec::new();
        buffer.extend_from_slice(&wire[..cut]);
        match read_request_progress(&buffer) {
            Progress::Failed(e) => panic!("prefix must not fail: {:?}", e),
            Progress::Complete(early) => {
                assert_eq!(early.body, whole.body);
                assert_eq!(early.method, whole.method);
            },
            Progress::NeedMore => {},
        }
        buffer.extend_from_slice(&wire[cut..]);
        let req = complete(&buffer);
        assert_eq!(req.method, whole.method);
        assert_eq!(req.path, whole.path);
        assert_eq!(req.headers, whole.headers);
        assert_eq!(req.body, whole.body);
    }
}

#[test]
fn terminator_split_across_reads_still_parses() {
    let head: &[u8] = b"GET / HTTP/1.1\r\n\r";
    assert!(matches!(read_request_progress(head), Progress::NeedMore));
    let mut buffer = head.to_vec();
    buffer.extend_from_slice(b"\n");
    let req = complete(&buffer);
    assert_eq!(req.method, b"GET".to_vec());
}

#[test]
fn oversized_headers_are_rejected() {
    let mut data = vec![b'A'; 64 * 1024 + 1];
    assert_eq!(failure(&data), ParseError::HeadersTooLarge);
    data.extend_from_slice(b"\r\n\r\n");
    assert_eq!(failure(&data), ParseError::HeadersTooLarge);
}

#[test]
fn oversized_declared_body_is_rejected_before_any_body_byte() {
    let head = b"POST / HTTP/1.1\r\nContent-Length: 524289\r\n\r\n";
    assert_eq!(failure(head), ParseError::BodyTooLarge);
    let mut with_body = head.to_vec();
    with_body.extend_from_slice(b"ignored");
    assert_eq!(failure(&with_body), ParseError::BodyTooLarge);
    let at_cap = b"POST / HTTP/1.1\r\nContent-Length: 524288\r\n\r\n";
    assert!(matches!(read_request_progress(at_cap), Progress::NeedMore));
}

#[test]
fn bad_content_lengths_are_hard_errors() {
    assert_eq!(
        failure(b"POST / HTTP/1.1\r\nContent-Length: abc\r\n\r\n"),
        ParseError::InvalidContentLength
    );
    assert_eq!(
        failure(b"POST / HTTP/1.1\r\nContent-Length: 99999999999999999999\r\n\r\n"),
        ParseError::InvalidContentLength
    );
}

#[test]
fn request_line_errors() {
    assert_eq!(failure(b"\r\n\r\n"), ParseError::MissingMethod);
    assert_eq!(failure(b"GET\r\n\r\n"), ParseError::MissingTarget);
}

#[test]
fn eof_reports_where_the_stream_stood() {
    assert_eq!(on_eof(b""), Some(ParseError::EmptyRequest));
    assert_eq!(on_eof(b"GET / HT"), Some(ParseError::EmptyRequest));
    assert_eq!(
        on_eof(b"POST / HTTP/1.1\r\nContent-Length: 9\r\n\r\nhal"),
        Some(ParseError::UnexpectedEof)
    );
    assert_eq!(on_eof(b"GET / HTTP/1.1\r\n\r\n"), None);
}

#[test]
fn parse_error_texts_match_their_replies() {
    let e = web_error_of(ParseError::HeadersTooLarge);
    assert_eq!(e.status, 400);
    assert_eq!(e.message, b"Request headers too large".to_vec());
    assert_eq!(
        web_error_of(ParseError::UnexpectedEof).message,
        b"Unexpected EOF in request body".to_vec()
    );
    assert_eq!(web_error_of(ParseError::EmptyRequest).message, b"Empty request".to_vec());
}

#[test]
fn response_head_is_written_exactly() {
    let head = build_response_head(200, b"application/json; charset=utf-8", 5);
    let expected: &[u8] = b"HTTP/1.1 200 OK\r\nContent-Type: application/json; charset=utf-8\r\nContent-Length: 5\r\nConnection: close\r\nCache-Control: no-store\r\nAccess-Control-Allow-Origin: *\r\nAccess-Control-Allow-Headers: Content-Type, X-Codex-Monitor-Token\r\nAccess-Control-Allow-Methods: GET, POST, OPTIONS\r\n\r\n";
    assert_eq!(head, expected.to_vec());
    let no_content = build_response_head(204, b"text/plain; charset=utf-8", 0);
    assert!(no_content.starts_with(b"HTTP/1.1 204 No Content\r\n"));
    let teapot = build_response_head(418, b"text/plain; charset=utf-8", 0);
    assert!(teapot.starts_with(b"HTTP/1.1 418 Internal Server Error\r\n"));
}

#[test]
fn parse_u64_accepts_plain_digit_runs_only() {
    assert_eq!(parse_u64(b"0"), Some(0));
    assert_eq!(parse_u64(b"007"), Some(7));
    assert_eq!(parse_u64(b"18446744073709551615"), Some(u64::MAX));
    assert_eq!(parse_u64(b"18446744073709551616"), None);
    assert_eq!(parse_u64(b"+5"), None);
    assert_eq!(parse_u64(b""), None);
    assert_eq!(parse_u64(b"12 "), None);
}

#[test]
fn last_content_length_wins_and_bad_ones_fail_first() {
    let req = complete(b"POST / HTTP/1.1\r\nContent-Length: 1\r\nContent-Length: 3\r\n\r\nabcd");
    assert_eq!(req.body, b"abc".to_vec());

    assert_eq!(
        failure(b"POST / HTTP/1.1\r\nContent-Length: x\r\nContent-Length: 3\r\n\r\nabc"),
        ParseError::InvalidContentLength
    );
}

#[test]
fn header_values_and_names_are_trimmed() {
    let req = complete(b"GET / HTTP/1.1\r\n  Host : spaced out \r\n\r\n");
    assert_eq!(req.headers, vec![(b"host".to_vec(), b"spaced out".to_vec())]);
}
