//! The daemon wire protocol: newline-delimited JSON-RPC envelopes. Requests
//! go out as `{"id":N,"method":M,"params":P}` on one line; every inbound line
//! is either a correlated reply (`id` with `result` or `error`), a push
//! notification (`method` without `id`), or noise to be skipped. Within one
//! connection at most one request is outstanding, so the fixed two-step id
//! scheme (1 for the auth handshake, 2 for the payload call) correlates
//! replies completely; a line with any other id is a stray and is skipped.
use vstd::prelude::*;

use crate::json::{
    clone_json, deep_list, obj_push, text_of, to_bytes, Json, JsonModel,
};
use crate::util::{ascii, dec, lit, trimmed};

verus! {

/// The id of the authentication handshake request.
pub const AUTH_REQUEST_ID: u64 = 1;

/// The id of the payload request that follows it.
pub const CALL_REQUEST_ID: u64 = 2;

fn key_id() -> (r: &'static [u8])
    ensures
        r@ == ascii("id"@),
{
    proof {
        reveal_strlit("id");
        assert("id".is_ascii());
    }
    lit("id")
}

fn key_method() -> (r: &'static [u8])
    ensures
        r@ == ascii("method"@),
{
    proof {
        reveal_strlit("method");
        assert("method".is_ascii());
    }
    lit("method")
}

fn key_error() -> (r: &'static [u8])
    ensures
        r@ == ascii("error"@),
{
    proof {
        reveal_strlit("error");
        assert("error".is_ascii());
    }
    lit("error")
}

fn key_result() -> (r: &'static [u8])
    ensures
        r@ == ascii("result"@),
{
    proof {
        reveal_strlit("result");
        assert("result".is_ascii());
    }
    lit("result")
}

/// The model of one outbound request envelope.
pub open spec fn envelope_model(id: u64, method: Seq<u8>, params: JsonModel) -> JsonModel {
    JsonModel::Obj(
        seq![
            (ascii("id"@), JsonModel::Num(dec(id as nat))),
            (ascii("method"@), JsonModel::Text(method)),
            (ascii("params"@), params),
        ],
    )
}

/// Encode one request as a complete wire line: the compact envelope text and
/// the terminating newline. This is the only framing the protocol has; there
/// is no length prefix.
pub fn encode_request(id: u64, method: &[u8], params: &Json) -> (r: Vec<u8>)
    ensures
        r@ == text_of(envelope_model(id, method@, params.deep())) + seq![10u8],
{
    proof {
        reveal_strlit("params");
        assert("params".is_ascii());
    }
    let mut entries: Vec<(Vec<u8>, Json)> = Vec::new();
    obj_push(&mut entries, key_id(), Json::Num(crate::util::u64_dec(id)));
    obj_push(&mut entries, key_method(), Json::Text(crate::util::to_vec(method)));
    obj_push(&mut entries, lit("params"), clone_json(params));
    let env = Json::Obj(entries);
    proof {
        assert(crate::json::deep_entries(Seq::<(Vec<u8>, Json)>::empty())
            == Seq::<(Seq<u8>, JsonModel)>::empty());
        assert(crate::json::deep_entries(entries@) =~= seq![
            (ascii("id"@), JsonModel::Num(dec(id as nat))),
            (ascii("method"@), JsonModel::Text(method@)),
            (ascii("params"@), params.deep()),
        ]);
        assert(env.deep() == envelope_model(id, method@, params.deep()));
    }
    let mut out = to_bytes(&env);
    out.push(10);
    proof {
        assert(out@ =~= text_of(envelope_model(id, method@, params.deep())) + seq![10u8]);
    }
    out
}

/// A daemon push notification: a message with no `id` field whose `method`
/// field is a string that is not blank. A message carrying an `id` is never a
/// notification, whatever else it carries.
pub open spec fn is_notification(m: JsonModel) -> bool {
    &&& m.get_field(ascii("id"@)) is None
    &&& match m.get_field(ascii("method"@)) {
        Some(JsonModel::Text(t)) => trimmed(t).len() > 0,
        _ => false,
    }
}

/// Whether a parsed daemon message is a push notification.
pub fn is_event_notification(message: &Json) -> (r: bool)
    ensures
        r == is_notification(message.deep()),
{
    match message.get(key_id()) {
        Some(_) => false,
        None => match message.get(key_method()) {
            Some(v) => match v.as_text() {
                Some(t) => !crate::util::is_blank(t.as_slice()),
                None => false,
            },
            None => false,
        },
    }
}

/// A message with an `id` field is never a notification.
pub proof fn lemma_notification_has_no_id(m: JsonModel)
    ensures
        m.get_field(ascii("id"@)) is Some ==> !is_notification(m),
{
}

/// The human-readable failure text of an error envelope: `error.message`
/// when it is a string, and a fixed fallback otherwise.
pub open spec fn error_message_model(m: JsonModel) -> Seq<u8> {
    match m.get_field(ascii("error"@)) {
        Some(e) => match e.get_field(ascii("message"@)) {
            Some(JsonModel::Text(t)) => t,
            _ => ascii("daemon returned an unknown error"@),
        },
        None => ascii("daemon returned an unknown error"@),
    }
}

/// Extract the failure text of an error envelope.
pub fn parse_error_message(message: &Json) -> (r: Vec<u8>)
    ensures
        r@ == error_message_model(message.deep()),
{
    proof {
        reveal_strlit("message");
        assert("message".is_ascii());
        reveal_strlit("daemon returned an unknown error");
        assert("daemon returned an unknown error".is_ascii());
    }
    let fallback = lit("daemon returned an unknown error");
    match message.get(key_error()) {
        Some(e) => match e.get(lit("message")) {
            Some(v) => match v.as_text() {
                Some(t) => crate::util::to_vec(t.as_slice()),
                None => crate::util::to_vec(fallback),
            },
            None => crate::util::to_vec(fallback),
        },
        None => crate::util::to_vec(fallback),
    }
}

/// What one parsed daemon line means to a caller waiting on `expected_id`.
#[derive(Debug)]
pub enum LineVerdict {
    /// Not addressed to this call: a stray reply or a notification. Skipped,
    /// never treated as an error.
    Skip,
    /// The line was not parseable JSON: a protocol error, fatal to the call.
    Malformed,
    /// The matching reply carried an error envelope with this message.
    Failure(Vec<u8>),
    /// The matching reply; its `result` value, `null` when absent.
    Answer(Json),
}

/// The id a reply correlates to, in the sense the skip rule uses: the `id`
/// field read as a `u64`, anything else counting as no id.
pub open spec fn correlation_id(m: JsonModel) -> Option<u64> {
    match m.get_field(ascii("id"@)) {
        Some(v) => v.to_u64(),
        None => None,
    }
}

/// Judge one daemon line, already trimmed and parsed (`None` when parsing
/// failed). The caller reads lines until the verdict stops being `Skip`.
pub fn classify_parsed(parsed: Option<&Json>, expected_id: u64) -> (r: LineVerdict)
    ensures
        match parsed {
            None => r is Malformed,
            Some(m) => {
                if correlation_id(m.deep()) != Some(expected_id) {
                    r is Skip
                } else if m.deep().get_field(ascii("error"@)) is Some {
                    r matches LineVerdict::Failure(msg) && msg@ == error_message_model(m.deep())
                } else {
                    match m.deep().get_field(ascii("result"@)) {
                        Some(v) => r matches LineVerdict::Answer(a) && a.deep() == v,
                        None => r matches LineVerdict::Answer(a) && a.deep() == JsonModel::Null,
                    }
                }
            },
        },
{
    let message = match parsed {
        Some(m) => m,
        None => {
            return LineVerdict::Malformed;
        },
    };
    let correlated = match message.get(key_id()) {
        Some(v) => match v.as_u64() {
            Some(n) => n == expected_id,
            None => false,
        },
        None => false,
    };
    if !correlated {
        return LineVerdict::Skip;
    }
    match message.get(key_error()) {
        Some(_) => LineVerdict::Failure(parse_error_message(message)),
        None => match message.get(key_result()) {
            Some(v) => LineVerdict::Answer(clone_json(v)),
            None => LineVerdict::Answer(Json::Null),
        },
    }
}

/// A notification is always a stray to a waiting call: it carries no id,
/// so it can never correlate, and the skip rule passes it over rather than
/// failing the call.
pub proof fn lemma_notifications_are_strays(m: JsonModel, expected_id: u64)
    ensures
        is_notification(m) ==> correlation_id(m) != Some(expected_id),
{
}

/// The reply envelope peeled once: when `result` holds an object, that
/// object; the value itself otherwise.
pub open spec fn peeled(m: JsonModel) -> JsonModel {
    match m.get_field(ascii("result"@)) {
        Some(inner) => if inner is Obj {
            inner
        } else {
            m
        },
        None => m,
    }
}

/// Peel one generic `result` wrapper off a reply, if there is one.
pub fn peel_result_envelope<'a>(value: &'a Json) -> (r: &'a Json)
    ensures
        r.deep() == peeled(value.deep()),
{
    match value.get(key_result()) {
        Some(inner) => {
            if inner.is_obj() {
                inner
            } else {
                value
            }
        },
        None => value,
    }
}

/// The items of a paginated reply: the `data` array found after peeling up
/// to two `result` wrappers; no items when the shape differs.
pub open spec fn thread_items_model(m: JsonModel) -> Seq<JsonModel> {
    let r = peeled(peeled(m));
    match r {
        JsonModel::Obj(_) => match r.get_field(ascii("data"@)) {
            Some(JsonModel::Arr(items)) => items,
            _ => Seq::empty(),
        },
        _ => Seq::empty(),
    }
}

/// The pagination cursor of such a reply: `nextCursor`, with `next_cursor`
/// consulted only when `nextCursor` is wholly absent; it must be a string.
pub open spec fn next_cursor_model(m: JsonModel) -> Option<Seq<u8>> {
    let r = peeled(peeled(m));
    match r {
        JsonModel::Obj(_) => {
            let c = match r.get_field(ascii("nextCursor"@)) {
                Some(v) => Some(v),
                None => r.get_field(ascii("next_cursor"@)),
            };
            match c {
                Some(JsonModel::Text(t)) => Some(t),
                _ => None,
            }
        },
        _ => None,
    }
}

/// Split a paginated reply into its thread items and pagination cursor,
/// peeling up to two nested `result` envelopes first.
pub fn parse_thread_page(value: &Json) -> (r: (Vec<Json>, Option<Vec<u8>>))
    ensures
        deep_list(r.0@) == thread_items_model(value.deep()),
        match r.1 {
            Some(c) => next_cursor_model(value.deep()) == Some(c@),
            None => next_cursor_model(value.deep()) is None,
        },
{
    proof {
        reveal_strlit("data");
        assert("data".is_ascii());
        reveal_strlit("nextCursor");
        assert("nextCursor".is_ascii());
        reveal_strlit("next_cursor");
        assert("next_cursor".is_ascii());
    }
    let response = peel_result_envelope(value);
    let response = peel_result_envelope(response);

    if !response.is_obj() {
        let none: Vec<Json> = Vec::new();
        proof {
            assert(deep_list(none@) == Seq::<JsonModel>::empty());
        }
        return (none, None);
    }
    let threads: Vec<Json> = match response.get(lit("data")) {
        Some(v) => match v.as_arr() {
            Some(items) => {
                let all = clone_json(v);
                match all {
                    Json::Arr(cloned) => cloned,
                    _ => {
                        proof {
                            assert(false);
                        }
                        Vec::new()
                    },
                }
            },
            None => {
                let none: Vec<Json> = Vec::new();
                proof {
                    assert(deep_list(none@) == Seq::<JsonModel>::empty());
                }
                none
            },
        },
        None => {
            let none: Vec<Json> = Vec::new();
            proof {
                assert(deep_list(none@) == Seq::<JsonModel>::empty());
            }
            none
        },
    };
    let cursor_field = match response.get(lit("nextCursor")) {
        Some(v) => Some(v),
        None => response.get(lit("next_cursor")),
    };
    let next_cursor: Option<Vec<u8>> = match cursor_field {
        Some(v) => match v.as_text() {
            Some(t) => Some(crate::util::to_vec(t.as_slice())),
            None => None,
        },
        None => None,
    };
    (threads, next_cursor)
}

/// `thread.id` of a value, when `thread` is an object field carrying a
/// string `id`.
pub open spec fn nested_thread_id(m: JsonModel) -> Option<Seq<u8>> {
    match m.get_field(ascii("thread"@)) {
        Some(th) => match th.get_field(ascii("id"@)) {
            Some(JsonModel::Text(t)) => Some(t),
            _ => None,
        },
        None => None,
    }
}

/// The id of a newly started thread: `thread.id` after peeling up to two
/// `result` envelopes, falling back to `thread.id` of the raw reply.
pub open spec fn thread_id_model(m: JsonModel) -> Option<Seq<u8>> {
    match nested_thread_id(peeled(peeled(m))) {
        Some(t) => Some(t),
        None => nested_thread_id(m),
    }
}

fn read_nested_thread_id(value: &Json) -> (r: Option<Vec<u8>>)
    ensures
        match r {
            Some(t) => nested_thread_id(value.deep()) == Some(t@),
            None => nested_thread_id(value.deep()) is None,
        },
{
    proof {
        reveal_strlit("thread");
        assert("thread".is_ascii());
    }
    match value.get(lit("thread")) {
        Some(th) => match th.get(key_id()) {
            Some(v) => match v.as_text() {
                Some(t) => Some(crate::util::to_vec(t.as_slice())),
                None => None,
            },
            None => None,
        },
        None => None,
    }
}

/// Extract the id of a newly started thread from the reply.
pub fn parse_thread_id_from_start_response(value: &Json) -> (r: Option<Vec<u8>>)
    ensures
        match r {
            Some(t) => thread_id_model(value.deep()) == Some(t@),
            None => thread_id_model(value.deep()) is None,
        },
{
    let response = peel_result_envelope(value);
    let response = peel_result_envelope(response);
    match read_nested_thread_id(response) {
        Some(t) => Some(t),
        None => read_nested_thread_id(value),
    }
}

} // verus!
