use codex_gateway::json::{parse_json, to_bytes, Json};
use codex_gateway::wire::{
    classify_parsed, encode_request, is_event_notification, parse_error_message,
    parse_thread_id_from_start_response, parse_thread_page, peel_result_envelope, LineVerdict,
};

fn parsed(text: &[u8]) -> Json {
    parse_json(text).expect("test value must parse")
}

#[test]
fn event_detection_requires_method_and_no_id() {
    assert!(is_event_notification(&parsed(
        br#"{"method": "app-server-event", "params": {"ok": true}}"#
    )));

    assert!(!is_event_notification(&parsed(br#"{"id": 42, "result": {"ok": true}}"#)));
}

#[test]
fn notification_needs_a_non_blank_method_string() {
    assert!(!is_event_notification(&parsed(br#"{"method": "  "}"#)));
    assert!(!is_event_notification(&parsed(br#"{"method": 7}"#)));
    assert!(!is_event_notification(&parsed(br#"{"params": {}}"#)));
    assert!(!is_event_notification(&parsed(br#"{"id": 1, "method": "event"}"#)));
}

#[test]
fn encode_request_writes_one_framed_line() {
    let params = parsed(br#"{"token":"t"}"#);
    let line = encode_request(1, b"auth", &params);
    assert_eq!(line, b"{\"id\":1,\"method\":\"auth\",\"params\":{\"token\":\"t\"}}\n".to_vec());

    let ping = encode_request(2, b"ping", &Json::Null);
    assert_eq!(ping, b"{\"id\":2,\"method\":\"ping\",\"params\":null}\n".to_vec());
}

#[test]
fn classify_skips_strays_and_answers_matches() {
    let stray = parsed(br#"{"id": 1, "result": "late"}"#);
    assert!(matches!(classify_parsed(Some(&stray), 2), LineVerdict::Skip));

    let notification = parsed(br#"{"method": "event", "params": {}}"#);
    assert!(matches!(classify_parsed(Some(&notification), 2), LineVerdict::Skip));

    let odd_id = parsed(br#"{"id": "2", "result": 1}"#);
    assert!(matches!(classify_parsed(Some(&odd_id), 2), LineVerdict::Skip));

    assert!(matches!(classify_parsed(None, 2), LineVerdict::Malformed));

    let reply = parsed(br#"{"id": 2, "result": {"a": 1}}"#);
    match classify_parsed(Some(&reply), 2) {
        LineVerdict::Answer(v) => assert_eq!(to_bytes(&v), b"{\"a\":1}".to_vec()),
        _ => panic!("expected the matching answer"),
    }

    let bare = parsed(br#"{"id": 2}"#);
    match classify_parsed(Some(&bare), 2) {
        LineVerdict::Answer(v) => assert_eq!(to_bytes(&v), b"null".to_vec()),
        _ => panic!("expected a null answer"),
    }
}

#[test]
fn daemon_error_message_surfaces_verbatim() {
    let failure = parsed(br#"{"id": 2, "error": {"message": "no such thread"}}"#);
    match classify_parsed(Some(&failure), 2) {
        LineVerdict::Failure(msg) => assert_eq!(msg, b"no such thread".to_vec()),
        _ => panic!("expected the failure verdict"),
    }

    let body = codex_gateway::routes::error_body(b"no such thread");
    assert_eq!(body, b"{\"error\":\"no such thread\"}".to_vec());
}

#[test]
fn error_without_message_gets_the_fallback_text() {
    let failure = parsed(br#"{"id": 2, "error": {"code": 5}}"#);
    match classify_parsed(Some(&failure), 2) {
        LineVerdict::Failure(msg) => {
            assert_eq!(msg, b"daemon returned an unknown error".to_vec())
        },
        _ => panic!("expected the failure verdict"),
    }
    assert_eq!(
        parse_error_message(&parsed(br#"{"error": 3}"#)),
        b"daemon returned an unknown error".to_vec()
    );
}

#[test]
fn peel_unwraps_only_object_results() {
    let wrapped = parsed(br#"{"result": {"inner": 1}}"#);
    assert_eq!(to_bytes(peel_result_envelope(&wrapped)), b"{\"inner\":1}".to_vec());

    let scalar = parsed(br#"{"result": 7}"#);
    assert_eq!(to_bytes(peel_result_envelope(&scalar)), b"{\"result\":7}".to_vec());
}

#[test]
fn double_envelope_unwraps_to_items_and_cursor() {
    let reply = parsed(br#"{"result": {"result": {"data": [1,2], "nextCursor": "c1"}}}"#);
    let (items, cursor) = parse_thread_page(&reply);
    let texts: Vec<Vec<u8>> = items.iter().map(|i| to_bytes(i)).collect();
    assert_eq!(texts, vec![b"1".to_vec(), b"2".to_vec()]);
    assert_eq!(cursor, Some(b"c1".to_vec()));
}

#[test]
fn thread_page_tolerates_other_shapes() {
    let (items, cursor) = parse_thread_page(&parsed(br#"[1,2,3]"#));
    assert!(items.is_empty());
    assert_eq!(cursor, None);

    let snake = parsed(br#"{"data": [], "next_cursor": "s"}"#);
    let (items, cursor) = parse_thread_page(&snake);
    assert!(items.is_empty());
    assert_eq!(cursor, Some(b"s".to_vec()));

    let shadowed = parsed(br#"{"data": [], "nextCursor": 5, "next_cursor": "s"}"#);
    let (_, cursor) = parse_thread_page(&shadowed);
    assert_eq!(cursor, None);
}

#[test]
fn start_response_yields_the_thread_id() {
    let nested = parsed(br#"{"result": {"thread": {"id": "t-9"}}}"#);
    assert_eq!(parse_thread_id_from_start_response(&nested), Some(b"t-9".to_vec()));

    let raw_level = parsed(br#"{"result": "x", "thread": {"id": "t-1"}}"#);
    assert_eq!(parse_thread_id_from_start_response(&raw_level), Some(b"t-1".to_vec()));

    let none = parsed(br#"{"result": {}}"#);
    assert_eq!(parse_thread_id_from_start_response(&none), None);
}
