//! Configuration and the authorization gate. The gateway holds two
//! independent bearer tokens: one it presents to the daemon, one it demands
//! from browser clients. A client may hand its token over in the
//! `Authorization: Bearer` header, in the custom token header, or — only
//! where headers are unavailable, as in a browser WebSocket upgrade — in a
//! query parameter; the header always wins. Comparison is exact equality
//! (no timing-safe comparison is attempted; a known hardening gap, not a
//! correctness one).
use vstd::prelude::*;

use crate::http::pair_views;
use crate::util::{ascii, lit, lower_seq, trimmed};

verus! {

/// Immutable gateway configuration, created once at startup and shared
/// read-only by every handler.
pub struct GatewayConfig {
    /// Bind address for browser clients.
    pub listen: Vec<u8>,
    /// Daemon address.
    pub daemon_addr: Vec<u8>,
    /// Token presented to the daemon at connection start, if any.
    pub daemon_token: Option<Vec<u8>>,
    /// Token demanded from browser clients; `None` is the explicit insecure
    /// mode in which every request is authorized.
    pub api_token: Option<Vec<u8>>,
}

/// A gateway-side failure, shaped for an HTTP reply.
#[derive(Debug)]
pub struct GatewayError {
    pub status: u16,
    pub message: Vec<u8>,
}

impl GatewayError {
    /// A client error: the request itself is invalid.
    pub fn bad_request(message: &[u8]) -> (r: GatewayError)
        ensures
            r.status == 400,
            r.message@ == message@,
    {
        GatewayError { status: 400, message: crate::util::to_vec(message) }
    }

    /// Missing or mismatched client token.
    pub fn unauthorized(message: &[u8]) -> (r: GatewayError)
        ensures
            r.status == 401,
            r.message@ == message@,
    {
        GatewayError { status: 401, message: crate::util::to_vec(message) }
    }

    /// An upstream failure: the daemon, not the client, is to blame.
    pub fn daemon(message: &[u8]) -> (r: GatewayError)
        ensures
            r.status == 502,
            r.message@ == message@,
    {
        GatewayError { status: 502, message: crate::util::to_vec(message) }
    }
}

/// A trimmed, non-empty token; a blank or absent one counts as absent.
pub open spec fn normalized_seq(s: Seq<u8>) -> Option<Seq<u8>> {
    if trimmed(s).len() == 0 {
        None
    } else {
        Some(trimmed(s))
    }
}

/// Trim a presented token; an empty or whitespace-only one is treated as
/// absent.
pub fn normalize_token<'a>(token: Option<&'a [u8]>) -> (r: Option<&'a [u8]>)
    ensures
        match token {
            Some(s) => match r {
                Some(v) => normalized_seq(s@) == Some(v@),
                None => normalized_seq(s@) is None,
            },
            None => r is None,
        },
{
    match token {
        Some(s) => {
            let t = crate::util::trim(s);
            if t.len() == 0 {
                None
            } else {
                Some(t)
            }
        },
        None => None,
    }
}

/// The value of the first header whose name, lower-cased, equals `key`.
pub open spec fn lookup_first(headers: Seq<(Seq<u8>, Seq<u8>)>, key: Seq<u8>) -> Option<Seq<u8>>
    decreases headers.len(),
{
    if headers.len() == 0 {
        None
    } else if lower_seq(headers[0].0) == key {
        Some(headers[0].1)
    } else {
        lookup_first(headers.drop_first(), key)
    }
}

/// The value of the last entry with exactly this key; later entries
/// overwrite earlier ones, as map insertion does.
pub open spec fn lookup_last(entries: Seq<(Seq<u8>, Seq<u8>)>, key: Seq<u8>) -> Option<Seq<u8>>
    decreases entries.len(),
{
    if entries.len() == 0 {
        None
    } else if entries.last().0 == key {
        Some(entries.last().1)
    } else {
        lookup_last(entries.drop_last(), key)
    }
}

/// Find the first header with this lower-case name, folding stored names.
pub fn header_first<'a>(headers: &'a Vec<(Vec<u8>, Vec<u8>)>, key: &[u8]) -> (r: Option<
    &'a Vec<u8>,
>)
    ensures
        match r {
            Some(v) => lookup_first(pair_views(headers@), key@) == Some(v@),
            None => lookup_first(pair_views(headers@), key@) is None,
        },
{
    let ghost hs = pair_views(headers@);
    let mut i: usize = 0;
    proof {
        assert(hs.skip(0) =~= hs);
    }
    while i < headers.len()
        invariant
            i <= headers@.len(),
            hs == pair_views(headers@),
            lookup_first(hs, key@) == lookup_first(hs.skip(i as int), key@),
        decreases headers@.len() - i,
    {
        let folded = crate::util::to_lower(headers[i].0.as_slice());
        proof {
            assert(hs.skip(i as int)[0] == hs[i as int]);
            assert(hs.skip(i as int).drop_first() =~= hs.skip(i + 1 as int));
        }
        if crate::util::bytes_eq(folded.as_slice(), key) {
            return Some(&headers[i].1);
        }
        i = i + 1;
    }
    proof {
        assert(hs.skip(headers@.len() as int) =~= Seq::<(Seq<u8>, Seq<u8>)>::empty());
    }
    None
}

/// Find the last entry with exactly this key.
pub fn entry_last<'a>(entries: &'a Vec<(Vec<u8>, Vec<u8>)>, key: &[u8]) -> (r: Option<
    &'a Vec<u8>,
>)
    ensures
        match r {
            Some(v) => lookup_last(pair_views(entries@), key@) == Some(v@),
            None => lookup_last(pair_views(entries@), key@) is None,
        },
{
    let ghost es = pair_views(entries@);
    let mut i: usize = entries.len();
    proof {
        assert(es.take(entries@.len() as int) =~= es);
    }
    while i > 0
        invariant
            i <= entries@.len(),
            es == pair_views(entries@),
            lookup_last(es, key@) == lookup_last(es.take(i as int), key@),
        decreases i,
    {
        i = i - 1;
        proof {
            assert(es.take(i + 1 as int).last() == es[i as int]);
            assert(es.take(i + 1 as int).drop_last() =~= es.take(i as int));
        }
        if crate::util::bytes_eq(entries[i].0.as_slice(), key) {
            return Some(&entries[i].1);
        }
    }
    proof {
        assert(es.take(0) =~= Seq::<(Seq<u8>, Seq<u8>)>::empty());
    }
    None
}

/// The token a request presents, by precedence: a well-formed
/// `Authorization: Bearer` header first, then the custom token header, then
/// the query parameter; blank values count as absent at every step.
pub open spec fn extracted_token(headers: Seq<(Seq<u8>, Seq<u8>)>, query_token: Option<Seq<u8>>)
    -> Option<Seq<u8>> {
    let bearer = match lookup_first(headers, ascii("authorization"@)) {
        Some(v) => if v.len() >= 7 && v.take(7) == ascii("Bearer "@) {
            normalized_seq(v.skip(7))
        } else {
            None
        },
        None => None,
    };
    match bearer {
        Some(t) => Some(t),
        None => {
            let custom = match lookup_first(headers, ascii("x-codex-monitor-token"@)) {
                Some(v) => normalized_seq(v),
                None => None,
            };
            match custom {
                Some(t) => Some(t),
                None => match query_token {
                    Some(q) => normalized_seq(q),
                    None => None,
                },
            }
        },
    }
}

/// Extract the client token from a request, header sources before the query
/// parameter.
pub fn extract_request_token(
    headers: &Vec<(Vec<u8>, Vec<u8>)>,
    query_token: Option<&[u8]>,
) -> (r: Option<Vec<u8>>)
    ensures
        match r {
            Some(t) => extracted_token(
                pair_views(headers@),
                match query_token {
                    Some(q) => Some(q@),
                    None => None,
                },
            ) == Some(t@),
            None => extracted_token(
                pair_views(headers@),
                match query_token {
                    Some(q) => Some(q@),
                    None => None,
                },
            ) is None,
        },
{
    proof {
        reveal_strlit("authorization");
        assert("authorization".is_ascii());
        reveal_strlit("Bearer ");
        assert("Bearer ".is_ascii());
        reveal_strlit("x-codex-monitor-token");
        assert("x-codex-monitor-token".is_ascii());
    }
    let bearer_prefix = lit("Bearer ");
    match header_first(headers, lit("authorization")) {
        Some(v) => {
            if v.len() >= 7 {
                let head = vstd::slice::slice_subrange(v.as_slice(), 0, 7);
                if crate::util::bytes_eq(head, bearer_prefix) {
                    let rest = vstd::slice::slice_subrange(v.as_slice(), 7, v.len());
                    proof {
                        assert(rest@ =~= v@.skip(7));
                        assert(head@ =~= v@.take(7));
                    }
                    match normalize_token(Some(rest)) {
                        Some(t) => {
                            return Some(crate::util::to_vec(t));
                        },
                        None => {},
                    }
                }
            }
        },
        None => {},
    }
    match header_first(headers, lit("x-codex-monitor-token")) {
        Some(v) => {
            match normalize_token(Some(v.as_slice())) {
                Some(t) => {
                    return Some(crate::util::to_vec(t));
                },
                None => {},
            }
        },
        None => {},
    }
    match normalize_token(query_token) {
        Some(t) => Some(crate::util::to_vec(t)),
        None => None,
    }
}

/// Whether a request is authorized: with no API token set, every request
/// is (the explicit insecure mode); otherwise exactly the requests
/// presenting that token are.
pub open spec fn authorized(
    api_token: Option<Vec<u8>>,
    headers: Seq<(Seq<u8>, Seq<u8>)>,
    query_token: Option<Seq<u8>>,
) -> bool {
    match api_token {
        None => true,
        Some(expected) => extracted_token(headers, query_token) == Some(expected@),
    }
}

/// Authorize one inbound request against the configured API token. Fails
/// with a message naming the expected header when no token was presented,
/// and a mismatch message when one was presented and differs.
pub fn authorize_request(
    config: &GatewayConfig,
    headers: &Vec<(Vec<u8>, Vec<u8>)>,
    query_token: Option<&[u8]>,
) -> (r: Result<(), GatewayError>)
    ensures
        r is Ok <==> authorized(
            config.api_token,
            pair_views(headers@),
            match query_token {
                Some(q) => Some(q@),
                None => None,
            },
        ),
        r matches Err(e) ==> e.status == 401 && (match extracted_token(
            pair_views(headers@),
            match query_token {
                Some(q) => Some(q@),
                None => None,
            },
        ) {
            None => e.message@ == ascii(
                "missing API token (expected Authorization: Bearer <token>)"@,
            ),
            Some(_) => e.message@ == ascii("invalid API token"@),
        }),
{
    proof {
        reveal_strlit("missing API token (expected Authorization: Bearer <token>)");
        assert("missing API token (expected Authorization: Bearer <token>)".is_ascii());
        reveal_strlit("invalid API token");
        assert("invalid API token".is_ascii());
    }
    let expected = match &config.api_token {
        None => {
            return Ok(());
        },
        Some(expected) => expected,
    };
    let provided = match extract_request_token(headers, query_token) {
        None => {
            return Err(
                GatewayError::unauthorized(
                    lit("missing API token (expected Authorization: Bearer <token>)"),
                ),
            );
        },
        Some(provided) => provided,
    };
    if crate::util::bytes_eq(provided.as_slice(), expected.as_slice()) {
        Ok(())
    } else {
        Err(GatewayError::unauthorized(lit("invalid API token")))
    }
}

/// The token the companion request supplies: the custom token header first,
/// then the `token` query parameter, an empty string when neither is there.
pub open spec fn supplied_token(m: crate::http::HttpRequestModel) -> Seq<u8> {
    match lookup_last(m.headers, ascii("x-codex-monitor-token"@)) {
        Some(v) => v,
        None => match lookup_last(m.query, ascii("token"@)) {
            Some(v) => v,
            None => Seq::empty(),
        },
    }
}

/// Validate the companion session token: exact equality of the supplied
/// token (header over query parameter) with the expected one.
pub fn validate_token(request: &crate::http::HttpRequest, expected: &[u8]) -> (r: Result<
    (),
    crate::http::WebError,
>)
    ensures
        r is Ok <==> supplied_token(request.model()) == expected@,
        r matches Err(e) ==> e.status == 401 && e.message@ == ascii("Unauthorized"@),
{
    proof {
        reveal_strlit("x-codex-monitor-token");
        assert("x-codex-monitor-token".is_ascii());
        reveal_strlit("token");
        assert("token".is_ascii());
        reveal_strlit("Unauthorized");
        assert("Unauthorized".is_ascii());
    }
    let empty: &[u8] = vstd::slice::slice_subrange(expected, 0, 0);
    proof {
        assert(empty@ =~= Seq::<u8>::empty());
    }
    let supplied: &[u8] = match entry_last(&request.headers, lit("x-codex-monitor-token")) {
        Some(v) => v.as_slice(),
        None => match entry_last(&request.query, lit("token")) {
            Some(v) => v.as_slice(),
            None => empty,
        },
    };
    if crate::util::bytes_eq(supplied, expected) {
        Ok(())
    } else {
        Err(crate::http::WebError::unauthorized(lit("Unauthorized")))
    }
}


/// Header precedence: a well-formed bearer token in the `Authorization`
/// header wins over anything in the custom header or the query parameter.
pub proof fn lemma_bearer_header_wins(
    headers: Seq<(Seq<u8>, Seq<u8>)>,
    query_token: Option<Seq<u8>>,
    v: Seq<u8>,
)
    requires
        lookup_first(headers, ascii("authorization"@)) == Some(v),
        v.len() >= 7,
        v.take(7) == ascii("Bearer "@),
        normalized_seq(v.skip(7)) is Some,
    ensures
        extracted_token(headers, query_token) == normalized_seq(v.skip(7)),
{
}

/// Query fallback: with no token-bearing header at all, the query parameter
/// decides, and a blank one still counts as absent.
pub proof fn lemma_query_fallback(headers: Seq<(Seq<u8>, Seq<u8>)>, q: Seq<u8>)
    requires
        lookup_first(headers, ascii("authorization"@)) is None,
        lookup_first(headers, ascii("x-codex-monitor-token"@)) is None,
    ensures
        extracted_token(headers, Some(q)) == normalized_seq(q),
{
}

} // verus!
