//! The HTTP front: routing decisions for the companion server and the
//! request preparation and reply shaping of the gateway endpoints. Business
//! operations stay opaque — the bridge only names them (`list_workspaces`,
//! `list_threads`, `start_thread`, `resume_thread`, `send_user_message`) and
//! validates what goes in; the host side performs them and hands their
//! replies back here to be shaped.
use vstd::prelude::*;

use crate::auth::{lookup_last, supplied_token, GatewayError};
use crate::http::{HttpRequest, HttpRequestModel, WebError};
use crate::json::{
    clone_json, deep_entries, deep_list, lemma_deep_list_push, obj_push, text_of, to_bytes, Json,
    JsonModel,
};
use crate::util::{ascii, dec, lit, lower_seq, trimmed};
use crate::wire::{next_cursor_model, thread_id_model, thread_items_model};

verus! {

/// An object with one entry.
pub open spec fn obj1_model(key: Seq<u8>, v: JsonModel) -> JsonModel {
    JsonModel::Obj(seq![(key, v)])
}

/// A string value when present, `null` when absent.
pub open spec fn opt_text_model(v: Option<Seq<u8>>) -> JsonModel {
    match v {
        Some(s) => JsonModel::Text(s),
        None => JsonModel::Null,
    }
}

/// The body `{<key>: <v>}` in compact wire text.
pub fn keyed_body(key: &[u8], v: Json) -> (r: Vec<u8>)
    ensures
        r@ == text_of(obj1_model(key@, v.deep())),
{
    let mut entries: Vec<(Vec<u8>, Json)> = Vec::new();
    let ghost vm = v.deep();
    obj_push(&mut entries, key, v);
    let body = Json::Obj(entries);
    proof {
        assert(deep_entries(Seq::<(Vec<u8>, Json)>::empty())
            == Seq::<(Seq<u8>, JsonModel)>::empty());
        assert(deep_entries(entries@) =~= seq![(key@, vm)]);
    }
    to_bytes(&body)
}

/// The error body every handled failure answers with: `{"error": <message>}`.
pub fn error_body(message: &[u8]) -> (r: Vec<u8>)
    ensures
        r@ == text_of(obj1_model(ascii("error"@), JsonModel::Text(message@))),
{
    proof {
        reveal_strlit("error");
        assert("error".is_ascii());
    }
    keyed_body(lit("error"), Json::Text(crate::util::to_vec(message)))
}

/// The health body `{"ok":true}`.
pub fn health_body() -> (r: Vec<u8>)
    ensures
        r@ == text_of(obj1_model(ascii("ok"@), JsonModel::Boolean(true))),
{
    proof {
        reveal_strlit("ok");
        assert("ok".is_ascii());
    }
    keyed_body(lit("ok"), Json::Boolean(true))
}

/// The body `{"workspaces": <v>}`.
pub fn workspaces_body(v: &Json) -> (r: Vec<u8>)
    ensures
        r@ == text_of(obj1_model(ascii("workspaces"@), v.deep())),
{
    proof {
        reveal_strlit("workspaces");
        assert("workspaces".is_ascii());
    }
    keyed_body(lit("workspaces"), clone_json(v))
}

/// The body `{"result": <v>}`.
pub fn result_body(v: &Json) -> (r: Vec<u8>)
    ensures
        r@ == text_of(obj1_model(ascii("result"@), v.deep())),
{
    proof {
        reveal_strlit("result");
        assert("result".is_ascii());
    }
    keyed_body(lit("result"), clone_json(v))
}

/// The body `{"threads": <v>}`.
pub fn threads_body(v: &Json) -> (r: Vec<u8>)
    ensures
        r@ == text_of(obj1_model(ascii("threads"@), v.deep())),
{
    proof {
        reveal_strlit("threads");
        assert("threads".is_ascii());
    }
    keyed_body(lit("threads"), clone_json(v))
}

/// The body `{"thread": <v>}`.
pub fn thread_body(v: &Json) -> (r: Vec<u8>)
    ensures
        r@ == text_of(obj1_model(ascii("thread"@), v.deep())),
{
    proof {
        reveal_strlit("thread");
        assert("thread".is_ascii());
    }
    keyed_body(lit("thread"), clone_json(v))
}

/// The parameters of a `list_threads` call, absent options as `null`.
pub open spec fn list_threads_params_model(
    workspace_id: Seq<u8>,
    cursor: Option<Seq<u8>>,
    limit: Option<u32>,
    sort_key: Option<Seq<u8>>,
) -> JsonModel {
    JsonModel::Obj(
        seq![
            (ascii("workspaceId"@), JsonModel::Text(workspace_id)),
            (ascii("cursor"@), opt_text_model(cursor)),
            (
                ascii("limit"@),
                match limit {
                    Some(n) => JsonModel::Num(dec(n as nat)),
                    None => JsonModel::Null,
                },
            ),
            (ascii("sortKey"@), opt_text_model(sort_key)),
        ],
    )
}

/// Validate a `list_threads` request and build its parameters. Fails
/// exactly on a blank workspace id.
pub fn prepare_list_threads(
    workspace_id: &[u8],
    cursor: Option<&[u8]>,
    limit: Option<u32>,
    sort_key: Option<&[u8]>,
) -> (r: Result<Json, GatewayError>)
    ensures
        r is Ok <==> trimmed(workspace_id@).len() > 0,
        r matches Ok(params) ==> params.deep() == list_threads_params_model(
            workspace_id@,
            crate::util::opt_view(cursor),
            limit,
            crate::util::opt_view(sort_key),
        ),
        r matches Err(e) ==> e.status == 400 && e.message@ == ascii(
            "`workspaceId` must not be empty"@,
        ),
{
    proof {
        reveal_strlit("`workspaceId` must not be empty");
        assert("`workspaceId` must not be empty".is_ascii());
        reveal_strlit("workspaceId");
        assert("workspaceId".is_ascii());
        reveal_strlit("cursor");
        assert("cursor".is_ascii());
        reveal_strlit("limit");
        assert("limit".is_ascii());
        reveal_strlit("sortKey");
        assert("sortKey".is_ascii());
    }
    if crate::util::is_blank(workspace_id) {
        return Err(GatewayError::bad_request(lit("`workspaceId` must not be empty")));
    }
    let mut entries: Vec<(Vec<u8>, Json)> = Vec::new();
    obj_push(&mut entries, lit("workspaceId"), Json::Text(crate::util::to_vec(workspace_id)));
    let cursor_value = match cursor {
        Some(c) => Json::Text(crate::util::to_vec(c)),
        None => Json::Null,
    };
    obj_push(&mut entries, lit("cursor"), cursor_value);
    let limit_value = match limit {
        Some(n) => Json::Num(crate::util::u64_dec(n as u64)),
        None => Json::Null,
    };
    obj_push(&mut entries, lit("limit"), limit_value);
    let sort_value = match sort_key {
        Some(s) => Json::Text(crate::util::to_vec(s)),
        None => Json::Null,
    };
    obj_push(&mut entries, lit("sortKey"), sort_value);
    let params = Json::Obj(entries);
    proof {
        assert(deep_entries(Seq::<(Vec<u8>, Json)>::empty())
            == Seq::<(Seq<u8>, JsonModel)>::empty());
        assert(params.deep() matches JsonModel::Obj(es) && es =~= seq![
            (ascii("workspaceId"@), JsonModel::Text(workspace_id@)),
            (ascii("cursor"@), opt_text_model(crate::util::opt_view(cursor))),
            (
                ascii("limit"@),
                match limit {
                    Some(n) => JsonModel::Num(dec(n as nat)),
                    None => JsonModel::Null,
                },
            ),
            (ascii("sortKey"@), opt_text_model(crate::util::opt_view(sort_key))),
        ]);
    }
    Ok(params)
}

/// The parameters of a `start_thread` call.
pub open spec fn start_thread_params_model(workspace_id: Seq<u8>) -> JsonModel {
    obj1_model(ascii("workspaceId"@), JsonModel::Text(workspace_id))
}

/// Validate a `start_thread` request and build its parameters. Fails
/// exactly on a blank workspace id.
pub fn prepare_start_thread(workspace_id: &[u8]) -> (r: Result<Json, GatewayError>)
    ensures
        r is Ok <==> trimmed(workspace_id@).len() > 0,
        r matches Ok(params) ==> params.deep() == start_thread_params_model(workspace_id@),
        r matches Err(e) ==> e.status == 400 && e.message@ == ascii(
            "`workspaceId` must not be empty"@,
        ),
{
    proof {
        reveal_strlit("`workspaceId` must not be empty");
        assert("`workspaceId` must not be empty".is_ascii());
        reveal_strlit("workspaceId");
        assert("workspaceId".is_ascii());
    }
    if crate::util::is_blank(workspace_id) {
        return Err(GatewayError::bad_request(lit("`workspaceId` must not be empty")));
    }
    let mut entries: Vec<(Vec<u8>, Json)> = Vec::new();
    obj_push(&mut entries, lit("workspaceId"), Json::Text(crate::util::to_vec(workspace_id)));
    let params = Json::Obj(entries);
    proof {
        assert(deep_entries(Seq::<(Vec<u8>, Json)>::empty())
            == Seq::<(Seq<u8>, JsonModel)>::empty());
        assert(params.deep() matches JsonModel::Obj(es) && es =~= seq![
            (ascii("workspaceId"@), JsonModel::Text(workspace_id@)),
        ]);
    }
    Ok(params)
}

/// The parameters of a `resume_thread` call.
pub open spec fn resume_thread_params_model(workspace_id: Seq<u8>, thread_id: Seq<u8>)
    -> JsonModel {
    JsonModel::Obj(
        seq![
            (ascii("workspaceId"@), JsonModel::Text(workspace_id)),
            (ascii("threadId"@), JsonModel::Text(thread_id)),
        ],
    )
}

/// Validate a `resume_thread` request and build its parameters: the
/// workspace id is checked first, then the thread id, each for blankness.
pub fn prepare_resume_thread(workspace_id: &[u8], thread_id: &[u8]) -> (r: Result<
    Json,
    GatewayError,
>)
    ensures
        r is Ok <==> trimmed(workspace_id@).len() > 0 && trimmed(thread_id@).len() > 0,
        r matches Ok(params) ==> params.deep() == resume_thread_params_model(
            workspace_id@,
            thread_id@,
        ),
        r matches Err(e) ==> e.status == 400 && e.message@ == (if trimmed(workspace_id@).len()
            == 0 {
            ascii("`workspaceId` must not be empty"@)
        } else {
            ascii("`threadId` must not be empty"@)
        }),
{
    proof {
        reveal_strlit("`workspaceId` must not be empty");
        assert("`workspaceId` must not be empty".is_ascii());
        reveal_strlit("`threadId` must not be empty");
        assert("`threadId` must not be empty".is_ascii());
        reveal_strlit("workspaceId");
        assert("workspaceId".is_ascii());
        reveal_strlit("threadId");
        assert("threadId".is_ascii());
    }
    if crate::util::is_blank(workspace_id) {
        return Err(GatewayError::bad_request(lit("`workspaceId` must not be empty")));
    }
    if crate::util::is_blank(thread_id) {
        return Err(GatewayError::bad_request(lit("`threadId` must not be empty")));
    }
    let mut entries: Vec<(Vec<u8>, Json)> = Vec::new();
    obj_push(&mut entries, lit("workspaceId"), Json::Text(crate::util::to_vec(workspace_id)));
    obj_push(&mut entries, lit("threadId"), Json::Text(crate::util::to_vec(thread_id)));
    let params = Json::Obj(entries);
    proof {
        assert(deep_entries(Seq::<(Vec<u8>, Json)>::empty())
            == Seq::<(Seq<u8>, JsonModel)>::empty());
        assert(params.deep() matches JsonModel::Obj(es) && es =~= seq![
            (ascii("workspaceId"@), JsonModel::Text(workspace_id@)),
            (ascii("threadId"@), JsonModel::Text(thread_id@)),
        ]);
    }
    Ok(params)
}

/// String values of a list of byte strings.
pub open spec fn texts_of(xs: Seq<Seq<u8>>) -> Seq<JsonModel> {
    Seq::new(xs.len(), |i: int| JsonModel::Text(xs[i]))
}

/// The image list of a `send_user_message` call: its strings, `null` when
/// absent.
pub open spec fn images_model(o: Option<&Vec<Vec<u8>>>) -> JsonModel {
    match o {
        Some(xs) => JsonModel::Arr(texts_of(crate::http::line_views(xs@))),
        None => JsonModel::Null,
    }
}

/// The collaboration mode of a `send_user_message` call, `null` when absent.
pub open spec fn collab_model(o: Option<&Json>) -> JsonModel {
    match o {
        Some(c) => c.deep(),
        None => JsonModel::Null,
    }
}

/// The parameters of a `send_user_message` call, absent options as `null`.
pub open spec fn send_message_params_model(
    workspace_id: Seq<u8>,
    thread_id: Seq<u8>,
    text: Seq<u8>,
    model: Option<Seq<u8>>,
    effort: Option<Seq<u8>>,
    access_mode: Option<Seq<u8>>,
    images: Option<&Vec<Vec<u8>>>,
    collaboration_mode: Option<&Json>,
) -> JsonModel {
    JsonModel::Obj(
        seq![
            (ascii("workspaceId"@), JsonModel::Text(workspace_id)),
            (ascii("threadId"@), JsonModel::Text(thread_id)),
            (ascii("text"@), JsonModel::Text(text)),
            (ascii("model"@), opt_text_model(model)),
            (ascii("effort"@), opt_text_model(effort)),
            (ascii("accessMode"@), opt_text_model(access_mode)),
            (ascii("images"@), images_model(images)),
            (ascii("collaborationMode"@), collab_model(collaboration_mode)),
        ],
    )
}


fn images_json(images: Option<&Vec<Vec<u8>>>) -> (r: Json)
    ensures
        r.deep() == images_model(images),
{
    match images {
        Some(xs) => {
            let mut items: Vec<Json> = Vec::new();
            let mut i: usize = 0;
            proof {
                assert(deep_list(items@) =~= texts_of(crate::http::line_views(xs@)).take(0));
            }
            while i < xs.len()
                invariant
                    i <= xs@.len(),
                    deep_list(items@) == texts_of(crate::http::line_views(xs@)).take(i as int),
                decreases xs@.len() - i,
            {
                let t = Json::Text(crate::util::to_vec(xs[i].as_slice()));
                proof {
                    lemma_deep_list_push(items@, t);
                    assert(texts_of(crate::http::line_views(xs@)).take(i + 1 as int)
                        =~= texts_of(crate::http::line_views(xs@)).take(i as int).push(
                        JsonModel::Text(xs@[i as int]@),
                    ));
                }
                items.push(t);
                i = i + 1;
            }
            proof {
                assert(texts_of(crate::http::line_views(xs@)).take(xs@.len() as int)
                    =~= texts_of(crate::http::line_views(xs@)));
            }
            Json::Arr(items)
        },
        None => Json::Null,
    }
}

fn collab_json(collaboration_mode: Option<&Json>) -> (r: Json)
    ensures
        r.deep() == collab_model(collaboration_mode),
{
    match collaboration_mode {
        Some(c) => clone_json(c),
        None => Json::Null,
    }
}

/// Validate a `send_user_message` request and build its parameters: the
/// workspace id, the thread id and the message text are each checked for
/// blankness, in that order, before anything reaches the daemon.
#[verifier::rlimit(60)]
pub fn prepare_send_message(
    workspace_id: &[u8],
    thread_id: &[u8],
    text: &[u8],
    model: Option<&[u8]>,
    effort: Option<&[u8]>,
    access_mode: Option<&[u8]>,
    images: Option<&Vec<Vec<u8>>>,
    collaboration_mode: Option<&Json>,
) -> (r: Result<Json, GatewayError>)
    ensures
        r is Ok <==> trimmed(workspace_id@).len() > 0 && trimmed(thread_id@).len() > 0 && trimmed(
            text@,
        ).len() > 0,
        r matches Ok(params) ==> params.deep() == send_message_params_model(
            workspace_id@,
            thread_id@,
            text@,
            crate::util::opt_view(model),
            crate::util::opt_view(effort),
            crate::util::opt_view(access_mode),
            images,
            collaboration_mode,
        ),
        r matches Err(e) ==> e.status == 400 && e.message@ == (if trimmed(workspace_id@).len()
            == 0 {
            ascii("`workspaceId` must not be empty"@)
        } else if trimmed(thread_id@).len() == 0 {
            ascii("`threadId` must not be empty"@)
        } else {
            ascii("`text` must not be empty"@)
        }),
{
    proof {
        reveal_strlit("`workspaceId` must not be empty");
        assert("`workspaceId` must not be empty".is_ascii());
        reveal_strlit("`threadId` must not be empty");
        assert("`threadId` must not be empty".is_ascii());
        reveal_strlit("`text` must not be empty");
        assert("`text` must not be empty".is_ascii());
        reveal_strlit("workspaceId");
        assert("workspaceId".is_ascii());
        reveal_strlit("threadId");
        assert("threadId".is_ascii());
        reveal_strlit("text");
        assert("text".is_ascii());
        reveal_strlit("model");
        assert("model".is_ascii());
        reveal_strlit("effort");
        assert("effort".is_ascii());
        reveal_strlit("accessMode");
        assert("accessMode".is_ascii());
        reveal_strlit("images");
        assert("images".is_ascii());
        reveal_strlit("collaborationMode");
        assert("collaborationMode".is_ascii());
    }
    if crate::util::is_blank(workspace_id) {
        return Err(GatewayError::bad_request(lit("`workspaceId` must not be empty")));
    }
    if crate::util::is_blank(thread_id) {
        return Err(GatewayError::bad_request(lit("`threadId` must not be empty")));
    }
    if crate::util::is_blank(text) {
        return Err(GatewayError::bad_request(lit("`text` must not be empty")));
    }
    let mut entries: Vec<(Vec<u8>, Json)> = Vec::new();
    obj_push(&mut entries, lit("workspaceId"), Json::Text(crate::util::to_vec(workspace_id)));
    obj_push(&mut entries, lit("threadId"), Json::Text(crate::util::to_vec(thread_id)));
    obj_push(&mut entries, lit("text"), Json::Text(crate::util::to_vec(text)));
    let model_value = match model {
        Some(s) => Json::Text(crate::util::to_vec(s)),
        None => Json::Null,
    };
    obj_push(&mut entries, lit("model"), model_value);
    let effort_value = match effort {
        Some(s) => Json::Text(crate::util::to_vec(s)),
        None => Json::Null,
    };
    obj_push(&mut entries, lit("effort"), effort_value);
    let access_value = match access_mode {
        Some(s) => Json::Text(crate::util::to_vec(s)),
        None => Json::Null,
    };
    obj_push(&mut entries, lit("accessMode"), access_value);
    let images_value = images_json(images);
    obj_push(&mut entries, lit("images"), images_value);
    let collab_value = collab_json(collaboration_mode);
    obj_push(&mut entries, lit("collaborationMode"), collab_value);
    let params = Json::Obj(entries);
    proof {
        assert(deep_entries(Seq::<(Vec<u8>, Json)>::empty())
            == Seq::<(Seq<u8>, JsonModel)>::empty());
        assert(params.deep() matches JsonModel::Obj(es) && es =~= seq![
            (ascii("workspaceId"@), JsonModel::Text(workspace_id@)),
            (ascii("threadId"@), JsonModel::Text(thread_id@)),
            (ascii("text"@), JsonModel::Text(text@)),
            (ascii("model"@), opt_text_model(crate::util::opt_view(model))),
            (ascii("effort"@), opt_text_model(crate::util::opt_view(effort))),
            (ascii("accessMode"@), opt_text_model(crate::util::opt_view(access_mode))),
            (ascii("images"@), images_model(images)),
            (ascii("collaborationMode"@), collab_model(collaboration_mode)),
        ]);
        assert(params.deep() == send_message_params_model(
            workspace_id@,
            thread_id@,
            text@,
            crate::util::opt_view(model),
            crate::util::opt_view(effort),
            crate::util::opt_view(access_mode),
            images,
            collaboration_mode,
        ));
    }
    Ok(params)
}

/// Validate the method name of an opaque passthrough call: it must not be
/// blank; the daemon's method set is otherwise an external contract.
pub fn prepare_rpc(method: &[u8]) -> (r: Result<(), GatewayError>)
    ensures
        r is Ok <==> trimmed(method@).len() > 0,
        r matches Err(e) ==> e.status == 400 && e.message@ == ascii(
            "`method` must not be empty"@,
        ),
{
    proof {
        reveal_strlit("`method` must not be empty");
        assert("`method` must not be empty".is_ascii());
    }
    if crate::util::is_blank(method) {
        return Err(GatewayError::bad_request(lit("`method` must not be empty")));
    }
    Ok(())
}

/// The reply body of the gateway's thread-list endpoint: the workspace id,
/// the items and cursor the raw reply unwraps to, and the raw reply itself.
pub fn thread_list_response(workspace_id: &[u8], raw: &Json) -> (r: Vec<u8>)
    ensures
        r@ == text_of(
            JsonModel::Obj(
                seq![
                    (ascii("workspace_id"@), JsonModel::Text(workspace_id@)),
                    (ascii("threads"@), JsonModel::Arr(thread_items_model(raw.deep()))),
                    (ascii("next_cursor"@), opt_text_model(next_cursor_model(raw.deep()))),
                    (ascii("raw"@), raw.deep()),
                ],
            ),
        ),
{
    proof {
        reveal_strlit("workspace_id");
        assert("workspace_id".is_ascii());
        reveal_strlit("threads");
        assert("threads".is_ascii());
        reveal_strlit("next_cursor");
        assert("next_cursor".is_ascii());
        reveal_strlit("raw");
        assert("raw".is_ascii());
    }
    let page = crate::wire::parse_thread_page(raw);
    let (threads, cursor) = page;
    let mut entries: Vec<(Vec<u8>, Json)> = Vec::new();
    obj_push(&mut entries, lit("workspace_id"), Json::Text(crate::util::to_vec(workspace_id)));
    obj_push(&mut entries, lit("threads"), Json::Arr(threads));
    let cursor_value = match cursor {
        Some(c) => Json::Text(c),
        None => Json::Null,
    };
    obj_push(&mut entries, lit("next_cursor"), cursor_value);
    obj_push(&mut entries, lit("raw"), clone_json(raw));
    let body = Json::Obj(entries);
    proof {
        assert(deep_entries(Seq::<(Vec<u8>, Json)>::empty())
            == Seq::<(Seq<u8>, JsonModel)>::empty());
        assert(body.deep() matches JsonModel::Obj(es) && es =~= seq![
            (ascii("workspace_id"@), JsonModel::Text(workspace_id@)),
            (ascii("threads"@), JsonModel::Arr(thread_items_model(raw.deep()))),
            (ascii("next_cursor"@), opt_text_model(next_cursor_model(raw.deep()))),
            (ascii("raw"@), raw.deep()),
        ]);
    }
    to_bytes(&body)
}

/// The reply body of the gateway's start-thread endpoint: the id of the
/// thread the reply names, `null` when it names none, and the raw result.
pub fn start_thread_response(result: &Json) -> (r: Vec<u8>)
    ensures
        r@ == text_of(
            JsonModel::Obj(
                seq![
                    (ascii("threadId"@), opt_text_model(thread_id_model(result.deep()))),
                    (ascii("result"@), result.deep()),
                ],
            ),
        ),
{
    proof {
        reveal_strlit("threadId");
        assert("threadId".is_ascii());
        reveal_strlit("result");
        assert("result".is_ascii());
    }
    let tid = crate::wire::parse_thread_id_from_start_response(result);
    let mut entries: Vec<(Vec<u8>, Json)> = Vec::new();
    let tid_value = match tid {
        Some(t) => Json::Text(t),
        None => Json::Null,
    };
    obj_push(&mut entries, lit("threadId"), tid_value);
    obj_push(&mut entries, lit("result"), clone_json(result));
    let body = Json::Obj(entries);
    proof {
        assert(deep_entries(Seq::<(Vec<u8>, Json)>::empty())
            == Seq::<(Seq<u8>, JsonModel)>::empty());
        assert(body.deep() matches JsonModel::Obj(es) && es =~= seq![
            (ascii("threadId"@), opt_text_model(thread_id_model(result.deep()))),
            (ascii("result"@), result.deep()),
        ]);
    }
    to_bytes(&body)
}

/// The `id` a workspace value names, when it is a string field.
pub fn workspace_id_of(workspace: &Json) -> (r: Option<Vec<u8>>)
    ensures
        match r {
            Some(t) => (match workspace.deep().get_field(ascii("id"@)) {
                Some(JsonModel::Text(s)) => Some(s),
                _ => None,
            }) == Some(t@),
            None => (match workspace.deep().get_field(ascii("id"@)) {
                Some(JsonModel::Text(s)) => Some(s),
                _ => None,
            }) is None,
        },
{
    proof {
        reveal_strlit("id");
        assert("id".is_ascii());
    }
    match workspace.get(lit("id")) {
        Some(v) => match v.as_text() {
            Some(t) => Some(crate::util::to_vec(t.as_slice())),
            None => None,
        },
        None => None,
    }
}

/// The error a workspace without a string `id` is annotated with.
pub fn workspace_missing_id_message() -> (r: &'static [u8])
    ensures
        r@ == ascii("workspace is missing an `id` field"@),
{
    proof {
        reveal_strlit("workspace is missing an `id` field");
        assert("workspace is missing an `id` field".is_ascii());
    }
    lit("workspace is missing an `id` field")
}

/// The fixed parameters of the per-workspace thread listing the drawings
/// endpoint makes: the newest twenty threads by update time.
pub fn drawings_params(workspace_id: &[u8]) -> (r: Json)
    ensures
        r.deep() == JsonModel::Obj(
            seq![
                (ascii("workspaceId"@), JsonModel::Text(workspace_id@)),
                (ascii("limit"@), JsonModel::Num(dec(20))),
                (ascii("sortKey"@), JsonModel::Text(ascii("updated_at"@))),
            ],
        ),
{
    proof {
        reveal_strlit("workspaceId");
        assert("workspaceId".is_ascii());
        reveal_strlit("limit");
        assert("limit".is_ascii());
        reveal_strlit("sortKey");
        assert("sortKey".is_ascii());
        reveal_strlit("updated_at");
        assert("updated_at".is_ascii());
    }
    let mut entries: Vec<(Vec<u8>, Json)> = Vec::new();
    obj_push(&mut entries, lit("workspaceId"), Json::Text(crate::util::to_vec(workspace_id)));
    obj_push(&mut entries, lit("limit"), Json::Num(crate::util::u64_dec(20)));
    obj_push(&mut entries, lit("sortKey"), Json::Text(crate::util::to_vec(lit("updated_at"))));
    let params = Json::Obj(entries);
    proof {
        assert(deep_entries(Seq::<(Vec<u8>, Json)>::empty())
            == Seq::<(Seq<u8>, JsonModel)>::empty());
        assert(params.deep() matches JsonModel::Obj(es) && es =~= seq![
            (ascii("workspaceId"@), JsonModel::Text(workspace_id@)),
            (ascii("limit"@), JsonModel::Num(dec(20))),
            (ascii("sortKey"@), JsonModel::Text(ascii("updated_at"@))),
        ]);
    }
    params
}

/// One workspace snapshot of the drawings endpoint: the workspace itself,
/// the threads and cursor its listing unwrapped to when the call succeeded,
/// and the failure message when it did not.
pub fn drawing_snapshot(workspace: &Json, call: Result<&Json, &Vec<u8>>) -> (r: Json)
    ensures
        r.deep() == JsonModel::Obj(
            seq![
                (ascii("workspace"@), workspace.deep()),
                (
                    ascii("threads"@),
                    JsonModel::Arr(
                        match call {
                            Ok(raw) => thread_items_model(raw.deep()),
                            Err(_) => Seq::empty(),
                        },
                    ),
                ),
                (
                    ascii("next_cursor"@),
                    opt_text_model(
                        match call {
                            Ok(raw) => next_cursor_model(raw.deep()),
                            Err(_) => None,
                        },
                    ),
                ),
                (
                    ascii("error"@),
                    match call {
                        Ok(_) => JsonModel::Null,
                        Err(m) => JsonModel::Text(m@),
                    },
                ),
            ],
        ),
{
    proof {
        reveal_strlit("workspace");
        assert("workspace".is_ascii());
        reveal_strlit("threads");
        assert("threads".is_ascii());
        reveal_strlit("next_cursor");
        assert("next_cursor".is_ascii());
        reveal_strlit("error");
        assert("error".is_ascii());
    }
    let mut entries: Vec<(Vec<u8>, Json)> = Vec::new();
    obj_push(&mut entries, lit("workspace"), clone_json(workspace));
    let threads_value: Json;
    let cursor_value: Json;
    let error_value: Json;
    match call {
        Ok(raw) => {
            let page = crate::wire::parse_thread_page(raw);
            let (threads, cursor) = page;
            threads_value = Json::Arr(threads);
            cursor_value = match cursor {
                Some(c) => Json::Text(c),
                None => Json::Null,
            };
            error_value = Json::Null;
        },
        Err(m) => {
            let none: Vec<Json> = Vec::new();
            proof {
                assert(deep_list(none@) =~= Seq::<JsonModel>::empty());
            }
            threads_value = Json::Arr(none);
            cursor_value = Json::Null;
            error_value = Json::Text(crate::util::to_vec(m.as_slice()));
        },
    }
    obj_push(&mut entries, lit("threads"), threads_value);
    obj_push(&mut entries, lit("next_cursor"), cursor_value);
    obj_push(&mut entries, lit("error"), error_value);
    let snapshot = Json::Obj(entries);
    proof {
        assert(deep_entries(Seq::<(Vec<u8>, Json)>::empty())
            == Seq::<(Seq<u8>, JsonModel)>::empty());
        assert(snapshot.deep() matches JsonModel::Obj(es) && es =~= seq![
            (ascii("workspace"@), workspace.deep()),
            (
                ascii("threads"@),
                JsonModel::Arr(
                    match call {
                        Ok(raw) => thread_items_model(raw.deep()),
                        Err(_) => Seq::empty(),
                    },
                ),
            ),
            (
                ascii("next_cursor"@),
                opt_text_model(
                    match call {
                        Ok(raw) => next_cursor_model(raw.deep()),
                        Err(_) => None,
                    },
                ),
            ),
            (
                ascii("error"@),
                match call {
                    Ok(_) => JsonModel::Null,
                    Err(m) => JsonModel::Text(m@),
                },
            ),
        ]);
    }
    snapshot
}

/// The reply body of the drawings endpoint: every workspace snapshot.
pub fn drawings_response(snapshots: Vec<Json>) -> (r: Vec<u8>)
    ensures
        r@ == text_of(
            obj1_model(ascii("workspaces"@), JsonModel::Arr(deep_list(snapshots@))),
        ),
{
    proof {
        reveal_strlit("workspaces");
        assert("workspaces".is_ascii());
    }
    keyed_body(lit("workspaces"), Json::Arr(snapshots))
}


/// A string field of a request body object.
pub open spec fn text_field(b: JsonModel, key: Seq<u8>) -> Option<Seq<u8>> {
    match b.get_field(key) {
        Some(JsonModel::Text(t)) => Some(t),
        _ => None,
    }
}

/// The workspace id a start-thread body carries, when it is well-formed.
pub open spec fn payload_workspace(body: Option<&Json>) -> Option<Seq<u8>> {
    match body {
        Some(b) => text_field(b.deep(), ascii("workspaceId"@)),
        None => None,
    }
}

/// The fields a send body carries, when all three are present as strings.
pub open spec fn payload_send(body: Option<&Json>) -> Option<(Seq<u8>, Seq<u8>, Seq<u8>)> {
    match body {
        Some(b) => match (
            text_field(b.deep(), ascii("workspaceId"@)),
            text_field(b.deep(), ascii("threadId"@)),
            text_field(b.deep(), ascii("text"@)),
        ) {
            (Some(w), Some(t), Some(x)) => Some((w, t, x)),
            _ => None,
        },
        None => None,
    }
}

/// A business operation the companion asks its host to perform.
#[derive(Debug)]
pub enum BusinessCall {
    ListWorkspaces,
    ListThreads { workspace_id: Vec<u8> },
    GetThread { workspace_id: Vec<u8>, thread_id: Vec<u8> },
    StartThread { workspace_id: Vec<u8> },
    SendMessage { workspace_id: Vec<u8>, thread_id: Vec<u8>, text: Vec<u8> },
}

/// The model of a [`BusinessCall`].
pub enum BusinessCallModel {
    ListWorkspaces,
    ListThreads { workspace_id: Seq<u8> },
    GetThread { workspace_id: Seq<u8>, thread_id: Seq<u8> },
    StartThread { workspace_id: Seq<u8> },
    SendMessage { workspace_id: Seq<u8>, thread_id: Seq<u8>, text: Seq<u8> },
}

impl BusinessCall {
    /// The model of this call.
    pub open spec fn model(self) -> BusinessCallModel {
        match self {
            BusinessCall::ListWorkspaces => BusinessCallModel::ListWorkspaces,
            BusinessCall::ListThreads { workspace_id } => BusinessCallModel::ListThreads {
                workspace_id: workspace_id@,
            },
            BusinessCall::GetThread { workspace_id, thread_id } => BusinessCallModel::GetThread {
                workspace_id: workspace_id@,
                thread_id: thread_id@,
            },
            BusinessCall::StartThread { workspace_id } => BusinessCallModel::StartThread {
                workspace_id: workspace_id@,
            },
            BusinessCall::SendMessage { workspace_id, thread_id, text } => {
                BusinessCallModel::SendMessage {
                    workspace_id: workspace_id@,
                    thread_id: thread_id@,
                    text: text@,
                }
            },
        }
    }
}

/// What one routed request asks for: an immediate reply, or a business call
/// whose result the caller shapes afterwards.
#[derive(Debug)]
pub enum RoutePlan {
    Respond { status: u16, content_type: Vec<u8>, body: Vec<u8> },
    Invoke(BusinessCall),
}

/// The model of a [`RoutePlan`].
pub enum RoutePlanModel {
    Respond { status: u16, content_type: Seq<u8>, body: Seq<u8> },
    Invoke(BusinessCallModel),
}

impl RoutePlan {
    /// The model of this plan.
    pub open spec fn model(self) -> RoutePlanModel {
        match self {
            RoutePlan::Respond { status, content_type, body } => RoutePlanModel::Respond {
                status: status,
                content_type: content_type@,
                body: body@,
            },
            RoutePlan::Invoke(c) => RoutePlanModel::Invoke(c.model()),
        }
    }
}

/// The companion routing table. An `OPTIONS` request is answered empty
/// before anything else; the script needs no token; every other route is
/// token-gated; the thread routes demand their query parameters; the two
/// `POST` routes demand the method and a well-formed body; anything else is
/// not found. Errors are `(status, message)` pairs.
pub open spec fn route_model(m: HttpRequestModel, expected: Seq<u8>, body: Option<&Json>)
    -> Result<RoutePlanModel, (u16, Seq<u8>)> {
    if lower_seq(m.method) == ascii("options"@) {
        Ok(
            RoutePlanModel::Respond {
                status: 204,
                content_type: ascii("text/plain; charset=utf-8"@),
                body: Seq::empty(),
            },
        )
    } else if m.path == ascii("/"@) {
        if supplied_token(m) == expected {
            Ok(
                RoutePlanModel::Respond {
                    status: 200,
                    content_type: ascii("text/html; charset=utf-8"@),
                    body: crate::assets::html_text(),
                },
            )
        } else {
            Err((401, ascii("Unauthorized"@)))
        }
    } else if m.path == ascii("/web-companion.js"@) {
        Ok(
            RoutePlanModel::Respond {
                status: 200,
                content_type: ascii("application/javascript; charset=utf-8"@),
                body: crate::assets::js_text(),
            },
        )
    } else if m.path == ascii("/api/health"@) {
        if supplied_token(m) == expected {
            Ok(
                RoutePlanModel::Respond {
                    status: 200,
                    content_type: ascii("application/json; charset=utf-8"@),
                    body: text_of(obj1_model(ascii("ok"@), JsonModel::Boolean(true))),
                },
            )
        } else {
            Err((401, ascii("Unauthorized"@)))
        }
    } else if m.path == ascii("/api/workspaces"@) {
        if supplied_token(m) == expected {
            Ok(RoutePlanModel::Invoke(BusinessCallModel::ListWorkspaces))
        } else {
            Err((401, ascii("Unauthorized"@)))
        }
    } else if m.path == ascii("/api/threads"@) {
        if supplied_token(m) == expected {
            match lookup_last(m.query, ascii("workspaceId"@)) {
                Some(ws) => Ok(
                    RoutePlanModel::Invoke(BusinessCallModel::ListThreads { workspace_id: ws }),
                ),
                None => Err((400, ascii("workspaceId is required"@))),
            }
        } else {
            Err((401, ascii("Unauthorized"@)))
        }
    } else if m.path == ascii("/api/thread"@) {
        if supplied_token(m) == expected {
            match lookup_last(m.query, ascii("workspaceId"@)) {
                Some(ws) => match lookup_last(m.query, ascii("threadId"@)) {
                    Some(th) => Ok(
                        RoutePlanModel::Invoke(
                            BusinessCallModel::GetThread { workspace_id: ws, thread_id: th },
                        ),
                    ),
                    None => Err((400, ascii("threadId is required"@))),
                },
                None => Err((400, ascii("workspaceId is required"@))),
            }
        } else {
            Err((401, ascii("Unauthorized"@)))
        }
    } else if m.path == ascii("/api/start-thread"@) {
        if supplied_token(m) == expected {
            if lower_seq(m.method) != ascii("post"@) {
                Err((400, ascii("POST is required"@)))
            } else {
                match payload_workspace(body) {
                    Some(ws) => Ok(
                        RoutePlanModel::Invoke(
                            BusinessCallModel::StartThread { workspace_id: ws },
                        ),
                    ),
                    None => Err((400, ascii("Invalid JSON body"@))),
                }
            }
        } else {
            Err((401, ascii("Unauthorized"@)))
        }
    } else if m.path == ascii("/api/send"@) {
        if supplied_token(m) == expected {
            if lower_seq(m.method) != ascii("post"@) {
                Err((400, ascii("POST is required"@)))
            } else {
                match payload_send(body) {
                    Some(p) => Ok(
                        RoutePlanModel::Invoke(
                            BusinessCallModel::SendMessage {
                                workspace_id: p.0,
                                thread_id: p.1,
                                text: p.2,
                            },
                        ),
                    ),
                    None => Err((400, ascii("Invalid JSON body"@))),
                }
            }
        } else {
            Err((401, ascii("Unauthorized"@)))
        }
    } else {
        Err((404, ascii("Not found"@)))
    }
}

/// Route one companion request, the body already parsed where there is one.
pub fn route_request(request: &HttpRequest, expected_token: &[u8], body: Option<&Json>) -> (r:
    Result<RoutePlan, WebError>)
    ensures
        match r {
            Ok(plan) => route_model(request.model(), expected_token@, body) == Ok::<
                _,
                (u16, Seq<u8>),
            >(plan.model()),
            Err(e) => route_model(request.model(), expected_token@, body) == Err::<
                RoutePlanModel,
                _,
            >((e.status, e.message@)),
        },
{
    proof {
        reveal_strlit("options");
        assert("options".is_ascii());
        assert(lower_seq(ascii("options"@)) =~= ascii("options"@));
        reveal_strlit("post");
        assert("post".is_ascii());
        assert(lower_seq(ascii("post"@)) =~= ascii("post"@));
        reveal_strlit("/");
        assert("/".is_ascii());
        reveal_strlit("/web-companion.js");
        assert("/web-companion.js".is_ascii());
        reveal_strlit("/api/health");
        assert("/api/health".is_ascii());
        reveal_strlit("/api/workspaces");
        assert("/api/workspaces".is_ascii());
        reveal_strlit("/api/threads");
        assert("/api/threads".is_ascii());
        reveal_strlit("/api/thread");
        assert("/api/thread".is_ascii());
        reveal_strlit("/api/start-thread");
        assert("/api/start-thread".is_ascii());
        reveal_strlit("/api/send");
        assert("/api/send".is_ascii());
        reveal_strlit("text/plain; charset=utf-8");
        assert("text/plain; charset=utf-8".is_ascii());
        reveal_strlit("text/html; charset=utf-8");
        assert("text/html; charset=utf-8".is_ascii());
        reveal_strlit("application/javascript; charset=utf-8");
        assert("application/javascript; charset=utf-8".is_ascii());
        reveal_strlit("application/json; charset=utf-8");
        assert("application/json; charset=utf-8".is_ascii());
        reveal_strlit("workspaceId");
        assert("workspaceId".is_ascii());
        reveal_strlit("threadId");
        assert("threadId".is_ascii());
        reveal_strlit("text");
        assert("text".is_ascii());
        reveal_strlit("workspaceId is required");
        assert("workspaceId is required".is_ascii());
        reveal_strlit("threadId is required");
        assert("threadId is required".is_ascii());
        reveal_strlit("POST is required");
        assert("POST is required".is_ascii());
        reveal_strlit("Invalid JSON body");
        assert("Invalid JSON body".is_ascii());
        reveal_strlit("Not found");
        assert("Not found".is_ascii());
    }
    if crate::util::eq_ignore_case(request.method.as_slice(), lit("options")) {
        let empty_body: Vec<u8> = Vec::new();
        return Ok(
            RoutePlan::Respond {
                status: 204,
                content_type: crate::util::to_vec(lit("text/plain; charset=utf-8")),
                body: empty_body,
            },
        );
    }
    let path = request.path.as_slice();
    if crate::util::bytes_eq(path, lit("/")) {
        match crate::auth::validate_token(request, expected_token) {
            Ok(()) => Ok(
                RoutePlan::Respond {
                    status: 200,
                    content_type: crate::util::to_vec(lit("text/html; charset=utf-8")),
                    body: crate::util::to_vec(crate::assets::build_html()),
                },
            ),
            Err(e) => Err(e),
        }
    } else if crate::util::bytes_eq(path, lit("/web-companion.js")) {
        Ok(
            RoutePlan::Respond {
                status: 200,
                content_type: crate::util::to_vec(lit("application/javascript; charset=utf-8")),
                body: crate::util::to_vec(crate::assets::companion_javascript()),
            },
        )
    } else if crate::util::bytes_eq(path, lit("/api/health")) {
        match crate::auth::validate_token(request, expected_token) {
            Ok(()) => Ok(
                RoutePlan::Respond {
                    status: 200,
                    content_type: crate::util::to_vec(lit("application/json; charset=utf-8")),
                    body: health_body(),
                },
            ),
            Err(e) => Err(e),
        }
    } else if crate::util::bytes_eq(path, lit("/api/workspaces")) {
        match crate::auth::validate_token(request, expected_token) {
            Ok(()) => Ok(RoutePlan::Invoke(BusinessCall::ListWorkspaces)),
            Err(e) => Err(e),
        }
    } else if crate::util::bytes_eq(path, lit("/api/threads")) {
        match crate::auth::validate_token(request, expected_token) {
            Ok(()) => match crate::auth::entry_last(&request.query, lit("workspaceId")) {
                Some(ws) => Ok(
                    RoutePlan::Invoke(
                        BusinessCall::ListThreads {
                            workspace_id: crate::util::to_vec(ws.as_slice()),
                        },
                    ),
                ),
                None => Err(WebError::bad_request(lit("workspaceId is required"))),
            },
            Err(e) => Err(e),
        }
    } else if crate::util::bytes_eq(path, lit("/api/thread")) {
        match crate::auth::validate_token(request, expected_token) {
            Ok(()) => match crate::auth::entry_last(&request.query, lit("workspaceId")) {
                Some(ws) => match crate::auth::entry_last(&request.query, lit("threadId")) {
                    Some(th) => Ok(
                        RoutePlan::Invoke(
                            BusinessCall::GetThread {
                                workspace_id: crate::util::to_vec(ws.as_slice()),
                                thread_id: crate::util::to_vec(th.as_slice()),
                            },
                        ),
                    ),
                    None => Err(WebError::bad_request(lit("threadId is required"))),
                },
                None => Err(WebError::bad_request(lit("workspaceId is required"))),
            },
            Err(e) => Err(e),
        }
    } else if crate::util::bytes_eq(path, lit("/api/start-thread")) {
        match crate::auth::validate_token(request, expected_token) {
            Ok(()) => {
                if !crate::util::eq_ignore_case(request.method.as_slice(), lit("post")) {
                    return Err(WebError::bad_request(lit("POST is required")));
                }
                let ws = match body {
                    Some(b) => match b.get(lit("workspaceId")) {
                        Some(v) => match v.as_text() {
                            Some(t) => Some(crate::util::to_vec(t.as_slice())),
                            None => None,
                        },
                        None => None,
                    },
                    None => None,
                };
                match ws {
                    Some(workspace_id) => Ok(
                        RoutePlan::Invoke(BusinessCall::StartThread { workspace_id }),
                    ),
                    None => Err(WebError::bad_request(lit("Invalid JSON body"))),
                }
            },
            Err(e) => Err(e),
        }
    } else if crate::util::bytes_eq(path, lit("/api/send")) {
        match crate::auth::validate_token(request, expected_token) {
            Ok(()) => {
                if !crate::util::eq_ignore_case(request.method.as_slice(), lit("post")) {
                    return Err(WebError::bad_request(lit("POST is required")));
                }
                let fields = match body {
                    Some(b) => {
                        let w = match b.get(lit("workspaceId")) {
                            Some(v) => match v.as_text() {
                                Some(t) => Some(crate::util::to_vec(t.as_slice())),
                                None => None,
                            },
                            None => None,
                        };
                        let th = match b.get(lit("threadId")) {
                            Some(v) => match v.as_text() {
                                Some(t) => Some(crate::util::to_vec(t.as_slice())),
                                None => None,
                            },
                            None => None,
                        };
                        let tx = match b.get(lit("text")) {
                            Some(v) => match v.as_text() {
                                Some(t) => Some(crate::util::to_vec(t.as_slice())),
                                None => None,
                            },
                            None => None,
                        };
                        match (w, th, tx) {
                            (Some(w2), Some(th2), Some(tx2)) => Some((w2, th2, tx2)),
                            _ => None,
                        }
                    },
                    None => None,
                };
                match fields {
                    Some(p) => Ok(
                        RoutePlan::Invoke(
                            BusinessCall::SendMessage {
                                workspace_id: p.0,
                                thread_id: p.1,
                                text: p.2,
                            },
                        ),
                    ),
                    None => Err(WebError::bad_request(lit("Invalid JSON body"))),
                }
            },
            Err(e) => Err(e),
        }
    } else {
        Err(WebError::not_found(lit("Not found")))
    }
}

} // verus!
