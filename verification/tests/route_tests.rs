use codex_gateway::assets::{build_html, companion_javascript, usage};
use codex_gateway::http::HttpRequest;
use codex_gateway::json::{parse_json, to_bytes, Json};
use codex_gateway::relay::{
    browser_frame_reply, gateway_disconnected_frame, gateway_error_frame, gateway_pong_frame,
    gateway_ready_frame, relay_forward_decision, relay_transition, BrowserFrame, BrowserReply,
    RelayPhase, SessionEvent,
};
use codex_gateway::routes::{
    drawing_snapshot, drawings_params, drawings_response, error_body, health_body,
    prepare_list_threads, prepare_resume_thread, prepare_rpc, prepare_send_message,
    prepare_start_thread, route_request, start_thread_response, thread_list_response,
    workspace_id_of, BusinessCall, RoutePlan,
};

fn request(method: &[u8], path: &[u8], query: &[(&[u8], &[u8])], body: &[u8]) -> HttpRequest {
    HttpRequest {
        method: method.to_vec(),
        path: path.to_vec(),
        query: query.iter().map(|(k, v)| (k.to_vec(), v.to_vec())).collect(),
        headers: vec![(b"x-codex-monitor-token".to_vec(), b"tok".to_vec())],
        body: body.to_vec(),
    }
}

fn parsed(text: &[u8]) -> Json {
    parse_json(text).expect("test value must parse")
}

#[test]
fn options_requests_are_answered_before_auth() {
    let req = HttpRequest {
        method: b"OPTIONS".to_vec(),
        path: b"/api/send".to_vec(),
        query: Vec::new(),
        headers: Vec::new(),
        body: Vec::new(),
    };
    match route_request(&req, b"tok", None).unwrap() {
        RoutePlan::Respond { status, body, .. } => {
            assert_eq!(status, 204);
            assert!(body.is_empty());
        },
        _ => panic!("expected an immediate reply"),
    }
}

#[test]
fn console_page_needs_the_token_and_script_does_not() {
    let page = request(b"GET", b"/", &[], b"");
    match route_request(&page, b"tok", None).unwrap() {
        RoutePlan::Respond { status, content_type, body } => {
            assert_eq!(status, 200);
            assert_eq!(content_type, b"text/html; charset=utf-8".to_vec());
            assert_eq!(body, build_html().to_vec());
        },
        _ => panic!("expected the page"),
    }

    let bad = route_request(&page, b"other", None).unwrap_err();
    assert_eq!(bad.status, 401);
    assert_eq!(bad.message, b"Unauthorized".to_vec());

    let script = HttpRequest {
        method: b"GET".to_vec(),
        path: b"/web-companion.js".to_vec(),
        query: Vec::new(),
        headers: Vec::new(),
        body: Vec::new(),
    };
    match route_request(&script, b"tok", None).unwrap() {
        RoutePlan::Respond { status, body, .. } => {
            assert_eq!(status, 200);
            assert_eq!(body, companion_javascript().to_vec());
        },
        _ => panic!("expected the script"),
    }
}

#[test]
fn health_and_workspaces_routes() {
    let health = request(b"GET", b"/api/health", &[], b"");
    match route_request(&health, b"tok", None).unwrap() {
        RoutePlan::Respond { body, .. } => assert_eq!(body, b"{\"ok\":true}".to_vec()),
        _ => panic!("expected the health reply"),
    }

    let ws = request(b"GET", b"/api/workspaces", &[], b"");
    assert!(matches!(
        route_request(&ws, b"tok", None).unwrap(),
        RoutePlan::Invoke(BusinessCall::ListWorkspaces)
    ));
}

#[test]
fn thread_routes_demand_their_parameters() {
    let missing = request(b"GET", b"/api/threads", &[], b"");
    let err = route_request(&missing, b"tok", None).unwrap_err();
    assert_eq!(err.status, 400);
    assert_eq!(err.message, b"workspaceId is required".to_vec());

    let listed = request(b"GET", b"/api/threads", &[(b"workspaceId", b"w1")], b"");
    match route_request(&listed, b"tok", None).unwrap() {
        RoutePlan::Invoke(BusinessCall::ListThreads { workspace_id }) => {
            assert_eq!(workspace_id, b"w1".to_vec())
        },
        _ => panic!("expected a listing call"),
    }

    let half = request(b"GET", b"/api/thread", &[(b"workspaceId", b"w1")], b"");
    let err = route_request(&half, b"tok", None).unwrap_err();
    assert_eq!(err.message, b"threadId is required".to_vec());

    let both = request(
        b"GET",
        b"/api/thread",
        &[(b"workspaceId", b"w1"), (b"threadId", b"t1")],
        b"",
    );
    match route_request(&both, b"tok", None).unwrap() {
        RoutePlan::Invoke(BusinessCall::GetThread { workspace_id, thread_id }) => {
            assert_eq!(workspace_id, b"w1".to_vec());
            assert_eq!(thread_id, b"t1".to_vec());
        },
        _ => panic!("expected a thread call"),
    }
}

#[test]
fn post_routes_check_method_and_body() {
    let get = request(b"GET", b"/api/send", &[], b"");
    let err = route_request(&get, b"tok", None).unwrap_err();
    assert_eq!(err.message, b"POST is required".to_vec());

    let post = request(b"POST", b"/api/send", &[], b"");
    let bad_body = parse_json(b"{\"workspaceId\": \"w\"}");
    let err = route_request(&post, b"tok", bad_body.as_ref()).unwrap_err();
    assert_eq!(err.message, b"Invalid JSON body".to_vec());

    let good = parsed(b"{\"workspaceId\":\"w\",\"threadId\":\"t\",\"text\":\"hi\"}");
    match route_request(&post, b"tok", Some(&good)).unwrap() {
        RoutePlan::Invoke(BusinessCall::SendMessage { workspace_id, thread_id, text }) => {
            assert_eq!(workspace_id, b"w".to_vec());
            assert_eq!(thread_id, b"t".to_vec());
            assert_eq!(text, b"hi".to_vec());
        },
        _ => panic!("expected a send call"),
    }

    let start = request(b"post", b"/api/start-thread", &[], b"");
    let payload = parsed(b"{\"workspaceId\":\"w2\"}");
    match route_request(&start, b"tok", Some(&payload)).unwrap() {
        RoutePlan::Invoke(BusinessCall::StartThread { workspace_id }) => {
            assert_eq!(workspace_id, b"w2".to_vec())
        },
        _ => panic!("expected a start call"),
    }
}

#[test]
fn unknown_paths_are_not_found() {
    let req = request(b"GET", b"/nope", &[], b"");
    let err = route_request(&req, b"tok", None).unwrap_err();
    assert_eq!(err.status, 404);
    assert_eq!(err.message, b"Not found".to_vec());
}

#[test]
fn empty_text_is_rejected_before_the_daemon_is_reached() {
    let err = prepare_send_message(b"w", b"t", b"   ", None, None, None, None, None)
        .unwrap_err();
    assert_eq!(err.status, 400);
    assert_eq!(err.message, b"`text` must not be empty".to_vec());

    let err = prepare_send_message(b"  ", b"t", b"hi", None, None, None, None, None)
        .unwrap_err();
    assert_eq!(err.message, b"`workspaceId` must not be empty".to_vec());

    let err = prepare_send_message(b"w", b"", b"hi", None, None, None, None, None)
        .unwrap_err();
    assert_eq!(err.message, b"`threadId` must not be empty".to_vec());
}

#[test]
fn send_message_params_are_framed_exactly() {
    let params = prepare_send_message(b"w", b"t", b"hi", None, None, None, None, None).unwrap();
    assert_eq!(
        to_bytes(&params),
        b"{\"workspaceId\":\"w\",\"threadId\":\"t\",\"text\":\"hi\",\"model\":null,\"effort\":null,\"accessMode\":null,\"images\":null,\"collaborationMode\":null}".to_vec()
    );

    let images = vec![b"img1".to_vec()];
    let collab = parsed(b"{\"mode\":\"pair\"}");
    let params = prepare_send_message(
        b"w",
        b"t",
        b"hi",
        Some(b"m1"),
        Some(b"high"),
        Some(b"rw"),
        Some(&images),
        Some(&collab),
    )
    .unwrap();
    assert_eq!(
        to_bytes(&params),
        b"{\"workspaceId\":\"w\",\"threadId\":\"t\",\"text\":\"hi\",\"model\":\"m1\",\"effort\":\"high\",\"accessMode\":\"rw\",\"images\":[\"img1\"],\"collaborationMode\":{\"mode\":\"pair\"}}".to_vec()
    );
}

#[test]
fn other_prepares_validate_their_inputs() {
    let err = prepare_list_threads(b" ", None, None, None).unwrap_err();
    assert_eq!(err.message, b"`workspaceId` must not be empty".to_vec());

    let params =
        prepare_list_threads(b"w", Some(b"c0"), Some(25), Some(b"updated_at")).unwrap();
    assert_eq!(
        to_bytes(&params),
        b"{\"workspaceId\":\"w\",\"cursor\":\"c0\",\"limit\":25,\"sortKey\":\"updated_at\"}"
            .to_vec()
    );

    let params = prepare_start_thread(b"w").unwrap();
    assert_eq!(to_bytes(&params), b"{\"workspaceId\":\"w\"}".to_vec());

    let err = prepare_resume_thread(b"w", b" ").unwrap_err();
    assert_eq!(err.message, b"`threadId` must not be empty".to_vec());
    let params = prepare_resume_thread(b"w", b"t").unwrap();
    assert_eq!(to_bytes(&params), b"{\"workspaceId\":\"w\",\"threadId\":\"t\"}".to_vec());

    assert!(prepare_rpc(b"list_workspaces").is_ok());
    let err = prepare_rpc(b"  ").unwrap_err();
    assert_eq!(err.message, b"`method` must not be empty".to_vec());
}

#[test]
fn reply_bodies_are_shaped_exactly() {
    assert_eq!(health_body(), b"{\"ok\":true}".to_vec());
    assert_eq!(error_body(b"boom"), b"{\"error\":\"boom\"}".to_vec());

    let raw = parsed(b"{\"result\":{\"data\":[{\"id\":\"t1\"}],\"nextCursor\":\"n\"}}");
    assert_eq!(
        thread_list_response(b"w", &raw),
        b"{\"workspace_id\":\"w\",\"threads\":[{\"id\":\"t1\"}],\"next_cursor\":\"n\",\"raw\":{\"result\":{\"data\":[{\"id\":\"t1\"}],\"nextCursor\":\"n\"}}}".to_vec()
    );

    let started = parsed(b"{\"thread\":{\"id\":\"t-9\"}}");
    assert_eq!(
        start_thread_response(&started),
        b"{\"threadId\":\"t-9\",\"result\":{\"thread\":{\"id\":\"t-9\"}}}".to_vec()
    );
}

#[test]
fn drawings_pieces_compose() {
    let workspace = parsed(b"{\"id\":\"w1\",\"name\":\"One\"}");
    assert_eq!(workspace_id_of(&workspace), Some(b"w1".to_vec()));
    assert_eq!(workspace_id_of(&parsed(b"{\"name\":\"x\"}")), None);

    assert_eq!(
        to_bytes(&drawings_params(b"w1")),
        b"{\"workspaceId\":\"w1\",\"limit\":20,\"sortKey\":\"updated_at\"}".to_vec()
    );

    let listing = parsed(b"{\"data\":[7],\"nextCursor\":\"c\"}");
    let ok_snapshot = drawing_snapshot(&workspace, Ok(&listing));
    assert_eq!(
        to_bytes(&ok_snapshot),
        b"{\"workspace\":{\"id\":\"w1\",\"name\":\"One\"},\"threads\":[7],\"next_cursor\":\"c\",\"error\":null}".to_vec()
    );

    let message = b"daemon is down".to_vec();
    let err_snapshot = drawing_snapshot(&workspace, Err(&message));
    assert_eq!(
        to_bytes(&err_snapshot),
        b"{\"workspace\":{\"id\":\"w1\",\"name\":\"One\"},\"threads\":[],\"next_cursor\":null,\"error\":\"daemon is down\"}".to_vec()
    );

    let body = drawings_response(vec![ok_snapshot]);
    assert!(body.starts_with(b"{\"workspaces\":[{\"workspace\":"));
}

#[test]
fn relay_frames_are_exact() {
    assert_eq!(
        gateway_error_frame(b"boom"),
        b"{\"type\":\"gateway/error\",\"message\":\"boom\"}".to_vec()
    );
    assert_eq!(
        gateway_disconnected_frame(b"daemon stream closed"),
        b"{\"type\":\"gateway/disconnected\",\"message\":\"daemon stream closed\"}".to_vec()
    );
    assert_eq!(
        gateway_ready_frame(b"127.0.0.1:4732"),
        b"{\"type\":\"gateway/ready\",\"daemon\":\"127.0.0.1:4732\"}".to_vec()
    );
    assert_eq!(gateway_pong_frame(), b"{\"type\":\"gateway/pong\"}".to_vec());
}

#[test]
fn relay_forwards_only_notifications() {
    let event = parsed(b"{\"method\":\"app-server-event\",\"params\":{}}");
    assert!(relay_forward_decision(Some(&event)));
    let reply = parsed(b"{\"id\":2,\"result\":{}}");
    assert!(!relay_forward_decision(Some(&reply)));
    assert!(!relay_forward_decision(None));
}

#[test]
fn browser_frames_drive_the_relay() {
    assert!(matches!(browser_frame_reply(BrowserFrame::CloseFrame), BrowserReply::Stop));
    assert!(matches!(browser_frame_reply(BrowserFrame::Failed), BrowserReply::Stop));
    match browser_frame_reply(BrowserFrame::Ping(b"p1".to_vec())) {
        BrowserReply::Pong(p) => assert_eq!(p, b"p1".to_vec()),
        _ => panic!("expected a pong"),
    }
    assert!(matches!(
        browser_frame_reply(BrowserFrame::TextFrame(b"  PING ".to_vec())),
        BrowserReply::GatewayPong
    ));
    assert!(matches!(
        browser_frame_reply(BrowserFrame::TextFrame(b"hello".to_vec())),
        BrowserReply::Ignore
    ));
    assert!(matches!(browser_frame_reply(BrowserFrame::Other), BrowserReply::Ignore));
}

#[test]
fn relay_phases_follow_the_table() {
    assert_eq!(relay_transition(RelayPhase::Connecting, SessionEvent::DaemonConnected), RelayPhase::Authenticating);
    assert_eq!(relay_transition(RelayPhase::Connecting, SessionEvent::DaemonConnectFailed), RelayPhase::Closing);
    assert_eq!(relay_transition(RelayPhase::Authenticating, SessionEvent::Authenticated), RelayPhase::Probing);
    assert_eq!(relay_transition(RelayPhase::Authenticating, SessionEvent::AuthFailed), RelayPhase::Closing);
    assert_eq!(relay_transition(RelayPhase::Probing, SessionEvent::ProbeAnswered), RelayPhase::Ready);
    assert_eq!(relay_transition(RelayPhase::Probing, SessionEvent::ProbeFailed), RelayPhase::Closing);
    assert_eq!(relay_transition(RelayPhase::Ready, SessionEvent::ReadyDelivered), RelayPhase::Relaying);
    assert_eq!(relay_transition(RelayPhase::Ready, SessionEvent::DeliveryFailed), RelayPhase::Closed);
    assert_eq!(relay_transition(RelayPhase::Relaying, SessionEvent::DaemonStreamEnded), RelayPhase::Closing);
    assert_eq!(relay_transition(RelayPhase::Relaying, SessionEvent::BrowserEnded), RelayPhase::Closing);
    assert_eq!(relay_transition(RelayPhase::Closing, SessionEvent::CloseSent), RelayPhase::Closed);
    assert_eq!(relay_transition(RelayPhase::Closed, SessionEvent::DaemonConnected), RelayPhase::Closed);
    assert_eq!(relay_transition(RelayPhase::Relaying, SessionEvent::DaemonConnected), RelayPhase::Relaying);
}

#[test]
fn assets_have_their_expected_shape() {
    assert!(usage().starts_with(b"USAGE:"));
    assert!(build_html().starts_with(b"<!doctype html>"));
    let js = companion_javascript();
    assert!(js.len() > 0);
}
