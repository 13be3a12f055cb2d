use codex_gateway::auth::{
    authorize_request, extract_request_token, normalize_token, validate_token, GatewayConfig,
};
use codex_gateway::http::HttpRequest;

fn headers(pairs: &[(&[u8], &[u8])]) -> Vec<(Vec<u8>, Vec<u8>)> {
    pairs.iter().map(|(k, v)| (k.to_vec(), v.to_vec())).collect()
}

fn request_with(
    query: &[(&[u8], &[u8])],
    header_pairs: &[(&[u8], &[u8])],
) -> HttpRequest {
    HttpRequest {
        method: b"GET".to_vec(),
        path: b"/".to_vec(),
        query: headers(query),
        headers: headers(header_pairs),
        body: Vec::new(),
    }
}

#[test]
fn extracts_bearer_token() {
    let hs = headers(&[(b"authorization", b"Bearer secret-value")]);
    assert_eq!(
        extract_request_token(&hs, Some(b"query-token")),
        Some(b"secret-value".to_vec())
    );
}

#[test]
fn extracts_token_from_custom_header() {
    let hs = headers(&[(b"x-codex-monitor-token", b"custom-token")]);
    assert_eq!(extract_request_token(&hs, None), Some(b"custom-token".to_vec()));
}

#[test]
fn falls_back_to_query_token() {
    let hs = headers(&[]);
    assert_eq!(
        extract_request_token(&hs, Some(b"query-token")),
        Some(b"query-token".to_vec())
    );
}

#[test]
fn custom_header_beats_query_token() {
    let hs = headers(&[(b"x-codex-monitor-token", b"custom-token")]);
    assert_eq!(
        extract_request_token(&hs, Some(b"query-token")),
        Some(b"custom-token".to_vec())
    );
}

#[test]
fn blank_tokens_count_as_absent() {
    let hs = headers(&[
        (b"authorization", b"Bearer    "),
        (b"x-codex-monitor-token", b"  \t "),
    ]);
    assert_eq!(extract_request_token(&hs, Some(b"   ")), None);
    let hs2 = headers(&[(b"authorization", b"Bearer  \t")]);
    assert_eq!(
        extract_request_token(&hs2, Some(b" fallback ")),
        Some(b"fallback".to_vec())
    );
}

#[test]
fn bearer_values_are_trimmed() {
    let hs = headers(&[(b"authorization", b"Bearer  spaced-token ")]);
    assert_eq!(extract_request_token(&hs, None), Some(b"spaced-token".to_vec()));
}

#[test]
fn header_names_fold_case() {
    let hs = headers(&[(b"AuThOrIzAtIoN", b"Bearer secret-value")]);
    assert_eq!(extract_request_token(&hs, None), Some(b"secret-value".to_vec()));
}

#[test]
fn normalize_token_trims_and_drops_blanks() {
    assert_eq!(normalize_token(None), None);
    assert_eq!(normalize_token(Some(b"")), None);
    assert_eq!(normalize_token(Some(b"  \t")), None);
    assert_eq!(normalize_token(Some(b"  tok  ")), Some(b"tok".as_slice()));
}

fn config(api_token: Option<&[u8]>) -> GatewayConfig {
    GatewayConfig {
        listen: b"127.0.0.1:8741".to_vec(),
        daemon_addr: b"127.0.0.1:4732".to_vec(),
        daemon_token: None,
        api_token: api_token.map(|t| t.to_vec()),
    }
}

#[test]
fn authorize_passes_without_configured_token() {
    let cfg = config(None);
    let hs = headers(&[]);
    assert!(authorize_request(&cfg, &hs, None).is_ok());
}

#[test]
fn authorize_accepts_exact_match_only() {
    let cfg = config(Some(b"secret"));
    let ok = headers(&[(b"authorization", b"Bearer secret")]);
    assert!(authorize_request(&cfg, &ok, None).is_ok());

    let wrong = headers(&[(b"authorization", b"Bearer other")]);
    let err = authorize_request(&cfg, &wrong, None).unwrap_err();
    assert_eq!(err.status, 401);
    assert_eq!(err.message, b"invalid API token".to_vec());

    let missing = headers(&[]);
    let err = authorize_request(&cfg, &missing, None).unwrap_err();
    assert_eq!(err.status, 401);
    assert_eq!(
        err.message,
        b"missing API token (expected Authorization: Bearer <token>)".to_vec()
    );
}

#[test]
fn validate_token_header_beats_query() {
    let req = request_with(
        &[(b"token", b"from-query")],
        &[(b"x-codex-monitor-token", b"from-header")],
    );
    assert!(validate_token(&req, b"from-header").is_ok());
    assert!(validate_token(&req, b"from-query").is_err());

    let query_only = request_with(&[(b"token", b"from-query")], &[]);
    assert!(validate_token(&query_only, b"from-query").is_ok());

    let neither = request_with(&[], &[]);
    let err = validate_token(&neither, b"expected").unwrap_err();
    assert_eq!(err.status, 401);
    assert_eq!(err.message, b"Unauthorized".to_vec());
}
