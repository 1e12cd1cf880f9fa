//! The decisions of the request handler: which requests are answered at
//! once, where the others are forwarded and with what, and what is logged
//! of each exchange.
use crate::common::clickhouse::QueryLog;
use crate::common::config::{Config, Upstream};
use crate::json::{
    is_object_of, json_from_bytes, json_from_text, json_get, json_to_bytes, lookup, parse_json,
    parse_json_bytes, to_json_bytes, u64_or_zero, entry_views, get_object, get_u64_or_zero,
    lemma_object_view, Json, JsonNum, JsonValue,
};
use crate::status::StatusCode;
use crate::text::{
    chars_eq, chars_of, concat, contains, seq_contains, skip_prefix, skip_prefix_repeated,
    string_from_index, string_from_utf8_lossy, strip_prefix_or_self, strip_prefix_repeated,
    utf8_lossy,
};
use crate::validation::{accepts, validate_api_key};
use vstd::prelude::*;

pub use crate::handler::sse::parse_sse_events;

verus! {

broadcast use vstd::string::group_string_axioms;

/// What the handler does with a request before reading its body.
#[derive(Debug)]
pub enum RouteDecision {
    /// Answer at once, with an empty body and this status.
    Respond(StatusCode),
    /// Read the body and forward the request upstream.
    Forward,
}

/// A `GET` that the gateway answers itself: a path naming the model list.
pub open spec fn is_get_allowed(method: Seq<char>, path: Seq<char>) -> bool {
    &&& method == "GET"@
    &&& seq_contains(path, "/api/v1/models"@) || seq_contains(path, "/v1/models"@)
}

/// The decision for a request with this method, path and `Authorization`
/// header: paths outside `/api/v1/` are not implemented, a wrong key is
/// unauthorized, the model list answers OK, a method other than `POST` is
/// not allowed, and the rest is forwarded.
pub open spec fn route(method: Seq<char>, path: Seq<char>, authorization: Seq<char>, api_key: Seq<char>) -> RouteDecision {
    if !"/api/v1/"@.is_prefix_of(path) {
        RouteDecision::Respond(StatusCode { code: 501 })
    } else if !accepts(authorization, api_key) {
        RouteDecision::Respond(StatusCode { code: 401 })
    } else if is_get_allowed(method, path) {
        RouteDecision::Respond(StatusCode { code: 200 })
    } else if method != "POST"@ {
        RouteDecision::Respond(StatusCode { code: 405 })
    } else {
        RouteDecision::Forward
    }
}

/// Decides how to handle a request from its method, path and
/// `Authorization` header value (empty when the header is missing).
pub fn route_request(method: &str, path: &str, authorization: &str, config: &Config) -> (r: RouteDecision)
    ensures
        r == route(method@, path@, authorization@, config.api_key@),
{
    let path_chars = chars_of(path);
    // * prefix filtering
    if !crate::text::starts_with(&path_chars, &chars_of("/api/v1/")) {
        return RouteDecision::Respond(StatusCode::not_implemented());
    }
    // * validate api key
    if let Err(status) = validate_api_key(authorization, config) {
        return RouteDecision::Respond(status);
    }
    let method_chars = chars_of(method);
    // * allowed GET paths
    let is_get = chars_eq(&method_chars, &chars_of("GET"));
    let is_get_allowed = is_get && (contains(&path_chars, &chars_of("/api/v1/models")) || contains(
        &path_chars,
        &chars_of("/v1/models"),
    ));
    let is_post = chars_eq(&method_chars, &chars_of("POST"));
    // * check method
    if !is_post && !is_get_allowed {
        return RouteDecision::Respond(StatusCode::method_not_allowed());
    }
    // * handle get requests
    if is_get_allowed {
        return RouteDecision::Respond(StatusCode::ok());
    }
    RouteDecision::Forward
}

/// The request path without its leading `/api`.
pub open spec fn path_v1(path: Seq<char>) -> Seq<char> {
    strip_prefix_or_self(path, "/api"@)
}

/// Requests under `/v1/messages` go to the Anthropic endpoint.
pub open spec fn is_anthropic(path: Seq<char>) -> bool {
    "/v1/messages"@.is_prefix_of(path_v1(path))
}

/// The URI a request is forwarded to: the Anthropic endpoint followed by
/// the `/v1` path, or the OpenAI endpoint followed by the path after `/v1`.
pub open spec fn target_uri(path: Seq<char>, upstream: Upstream) -> Seq<char> {
    if is_anthropic(path) {
        upstream.anthropic_endpoint@ + path_v1(path)
    } else {
        upstream.openai_endpoint@ + strip_prefix_or_self(path_v1(path), "/v1"@)
    }
}

/// The headers sent upstream, in order: the content type and the
/// upstream's key, as the provider of the endpoint expects it.
pub open spec fn target_headers(path: Seq<char>, upstream: Upstream) -> Seq<(Seq<char>, Seq<char>)> {
    let common = seq![
        ("Content-Type"@, "application/json"@),
        ("Authorization"@, "Bearer "@ + upstream.key@),
    ];
    if is_anthropic(path) {
        common + seq![("x-api-key"@, upstream.key@), ("anthropic-version"@, "2023-06-01"@)]
    } else {
        common
    }
}

/// The members of an object other than those named `key`.
pub open spec fn drop_member(entries: Seq<(Seq<char>, Json)>, key: Seq<char>) -> Seq<(Seq<char>, Json)>
    decreases entries.len(),
{
    if entries.len() == 0 {
        entries
    } else if entries[0].0 == key {
        drop_member(entries.drop_first(), key)
    } else {
        seq![entries[0]] + drop_member(entries.drop_first(), key)
    }
}

/// A document without the members that Anthropic does not accept.
pub open spec fn without_denied(doc: Json) -> Json {
    match doc {
        Json::Object(entries) => Json::Object(drop_member(entries, "context_management"@)),
        other => other,
    }
}

/// The body forwarded to Anthropic: the request body printed again
/// without the denied members, or unchanged when it is not JSON.
pub open spec fn anthropic_body(body: Seq<u8>) -> Seq<u8> {
    match json_from_bytes(body) {
        Some(doc) => match json_to_bytes(without_denied(doc)) {
            Some(bytes) => bytes,
            None => body,
        },
        None => body,
    }
}

/// The body forwarded upstream.
pub open spec fn target_body(path: Seq<char>, body: Seq<u8>) -> Seq<u8> {
    if is_anthropic(path) {
        anthropic_body(body)
    } else {
        body
    }
}

/// A request to send upstream.
pub struct UpstreamRequest {
    pub uri: String,
    pub headers: Vec<(String, String)>,
    pub body: Vec<u8>,
}

/// The names and values of a list of headers.
pub open spec fn header_views(headers: Seq<(String, String)>) -> Seq<(Seq<char>, Seq<char>)> {
    Seq::new(headers.len(), |i: int| (headers[i].0@, headers[i].1@))
}

/// Removes from an object the members named `key`.
pub fn remove_member(entries: &mut Vec<(String, JsonValue)>, key: &str)
    ensures
        entry_views(final(entries)@) == drop_member(entry_views(old(entries)@), key@),
{
    let k = key.to_string();
    let ghost target = drop_member(entry_views(old(entries)@), key@);
    let mut i: usize = 0;
    assert(entry_views(entries@).skip(0) =~= entry_views(entries@));
    assert(entry_views(entries@).take(0) + drop_member(entry_views(entries@).skip(0), key@) =~= target);
    while i < entries.len()
        invariant
            0 <= i <= entries@.len(),
            k@ == key@,
            target == drop_member(entry_views(old(entries)@), key@),
            entry_views(entries@).take(i as int) + drop_member(entry_views(entries@).skip(i as int), key@) == target,
        decreases entries@.len() - i,
    {
        let ghost before = entries@;
        let ghost rest = entry_views(before).skip(i as int);
        assert(rest[0] == (before[i as int].0@, crate::json::json_view(before[i as int].1)));
        assert(rest.drop_first() =~= entry_views(before).skip(i + 1));
        if entries[i].0 == k {
            entries.remove(i);
            assert(entry_views(entries@).take(i as int) =~= entry_views(before).take(i as int));
            assert(entry_views(entries@).skip(i as int) =~= entry_views(before).skip(i + 1));
        } else {
            assert(entry_views(before).take(i + 1) =~= entry_views(before).take(i as int) + seq![rest[0]]);
            i = i + 1;
        }
    }
    assert(entry_views(entries@).take(i as int) =~= entry_views(entries@));
    assert(entry_views(entries@).skip(i as int) =~= Seq::empty());
}

/// A document without the members that Anthropic does not accept.
pub fn strip_denied(doc: JsonValue) -> (r: JsonValue)
    ensures
        r@ == without_denied(doc@),
{
    match doc {
        JsonValue::Object(entries) => {
            let mut entries = entries;
            proof {
                lemma_object_view(entries);
            }
            remove_member(&mut entries, "context_management");
            proof {
                lemma_object_view(entries);
            }
            JsonValue::Object(entries)
        },
        other => other,
    }
}

/// The body forwarded to Anthropic: unsupported members stripped.
pub fn filter_anthropic_body(body: &[u8]) -> (r: Vec<u8>)
    ensures
        r@ == anthropic_body(body@),
{
    match parse_json_bytes(body) {
        Some(doc) => {
            let doc = strip_denied(doc);
            match to_json_bytes(&doc) {
                Some(bytes) => bytes,
                None => vstd::slice::slice_to_vec(body),
            }
        },
        None => vstd::slice::slice_to_vec(body),
    }
}

/// The request that is sent upstream for a forwarded request with this
/// path and body: to the first upstream of the configuration.
pub fn plan_upstream_request(path: &str, body: &[u8], config: &Config) -> (r: UpstreamRequest)
    requires
        config.upstreams@.len() > 0,
    ensures
        r.uri@ == target_uri(path@, config.upstreams@[0]),
        header_views(r.headers@) == target_headers(path@, config.upstreams@[0]),
        r.body@ == target_body(path@, body@),
{
    let upstream = &config.upstreams[0];
    let path_chars = chars_of(path);
    // * strip prefix
    let v1_start = skip_prefix(&path_chars, 0, &chars_of("/api"));
    assert(path_chars@.skip(0) =~= path@);
    let anthropic = crate::text::matches_at(&path_chars, v1_start, &chars_of("/v1/messages"));
    let mut headers: Vec<(String, String)> = Vec::new();
    headers.push(("Content-Type".to_string(), "application/json".to_string()));
    headers.push(("Authorization".to_string(), concat(&"Bearer ".to_string(), upstream.key.as_str())));
    if anthropic {
        // * anthropic – strip unsupported fields
        headers.push(("x-api-key".to_string(), upstream.key.clone()));
        headers.push(("anthropic-version".to_string(), "2023-06-01".to_string()));
        let suffix = string_from_index(&path_chars, v1_start);
        let uri = concat(&upstream.anthropic_endpoint, suffix.as_str());
        let forward = filter_anthropic_body(body);
        assert(header_views(headers@) =~= target_headers(path@, config.upstreams@[0]));
        UpstreamRequest { uri, headers, body: forward }
    } else {
        // * openai
        let rest = skip_prefix(&path_chars, v1_start, &chars_of("/v1"));
        let suffix = string_from_index(&path_chars, rest);
        let uri = concat(&upstream.openai_endpoint, suffix.as_str());
        assert(header_views(headers@) =~= target_headers(path@, config.upstreams@[0]));
        UpstreamRequest { uri, headers, body: vstd::slice::slice_to_vec(body) }
    }
}

/// The key id recorded for an `Authorization` header: the header with every
/// leading `Bearer `, then every leading `bearer `, removed.
pub open spec fn key_id_of(authorization: Seq<char>) -> Seq<char> {
    strip_prefix_repeated(strip_prefix_repeated(authorization, "Bearer "@), "bearer "@)
}

/// Extracts key ID from the authorization header
pub fn extract_key_id(authorization: &String) -> (r: String)
    ensures
        r@ == key_id_of(authorization@),
{
    let chars = chars_of(authorization.as_str());
    let upper = chars_of("Bearer ");
    let lower = chars_of("bearer ");
    proof {
        reveal_strlit("Bearer ");
        reveal_strlit("bearer ");
    }
    assert(chars@.skip(0) =~= chars@);
    let a = skip_prefix_repeated(&chars, 0, &upper);
    let b = skip_prefix_repeated(&chars, a, &lower);
    string_from_index(&chars, b)
}

/// The token counts of a response document: the `input_tokens`,
/// `output_tokens` and `cache_read_input_tokens` of its `usage`, each 0 when
/// missing.
pub open spec fn usage_tokens(doc: Json) -> (u64, u64, u64) {
    match json_get(doc, "usage"@) {
        Some(usage) => (
            u64_or_zero(json_get(usage, "input_tokens"@)),
            u64_or_zero(json_get(usage, "output_tokens"@)),
            u64_or_zero(json_get(usage, "cache_read_input_tokens"@)),
        ),
        None => (0, 0, 0),
    }
}

/// The token counts of a parsed response document.
pub fn usage_of(doc: &JsonValue) -> (r: (u64, u64, u64))
    ensures
        r == usage_tokens(doc@),
{
    match doc.get("usage") {
        Some(usage) => (
            get_u64_or_zero(usage, "input_tokens"),
            get_u64_or_zero(usage, "output_tokens"),
            get_u64_or_zero(usage, "cache_read_input_tokens"),
        ),
        None => (0, 0, 0),
    }
}

/// The token counts of a response body, all 0 when it is not JSON.
pub open spec fn body_tokens(body: Seq<u8>) -> (u64, u64, u64) {
    match json_from_text(utf8_lossy(body)) {
        Some(doc) => usage_tokens(doc),
        None => (0, 0, 0),
    }
}

/// Extracts token usage from the response body
pub fn extract_tokens(response_body: &[u8]) -> (r: (u64, u64, u64))
    ensures
        r == body_tokens(response_body@),
{
    let text = string_from_utf8_lossy(response_body);
    match parse_json(text.as_str()) {
        Some(doc) => usage_of(&doc),
        None => (0, 0, 0),
    }
}

/// The document logged for a request or response text: the parsed text,
/// or an empty object when it is not JSON.
pub open spec fn payload_of(text: Seq<char>) -> Json {
    match json_from_text(text) {
        Some(doc) => doc,
        None => Json::Object(Seq::empty()),
    }
}

/// The document logged for a request or response text.
pub fn payload_or_empty(text: &str) -> (r: JsonValue)
    ensures
        r@ == payload_of(text@),
{
    match parse_json(text) {
        Some(doc) => doc,
        None => {
            let empty: Vec<(String, JsonValue)> = Vec::new();
            proof {
                lemma_object_view(empty);
            }
            assert(entry_views(empty@) =~= Seq::empty());
            JsonValue::Object(empty)
        },
    }
}

/// An upstream response is streamed when its content type names a stream.
pub open spec fn is_stream_type(content_type: Seq<char>) -> bool {
    seq_contains(content_type, "text/event-stream"@) || seq_contains(content_type, "stream"@)
}

/// Whether an upstream response with this content type is streamed.
pub fn is_streaming_response(content_type: &str) -> (r: bool)
    ensures
        r == is_stream_type(content_type@),
{
    let ct = chars_of(content_type);
    contains(&ct, &chars_of("text/event-stream")) || contains(&ct, &chars_of("stream"))
}

/// The time of the first token once this chunk has been seen: kept when
/// already known, else the elapsed time when the chunk starts a content
/// block.
pub open spec fn first_token_after(first: Option<u64>, chunk: Seq<u8>, elapsed_ms: u64) -> Option<u64> {
    if first is None && seq_contains(utf8_lossy(chunk), "content_block_start"@) {
        Some(elapsed_ms)
    } else {
        first
    }
}

/// Records the time of the first token of a streamed response.
pub fn note_first_token(first: Option<u64>, chunk: &[u8], elapsed_ms: u64) -> (r: Option<u64>)
    ensures
        r == first_token_after(first, chunk@, elapsed_ms),
{
    if first.is_none() {
        let text = string_from_utf8_lossy(chunk);
        if contains(&chars_of(text.as_str()), &chars_of("content_block_start")) {
            return Some(elapsed_ms);
        }
    }
    first
}

/// The log entry of one exchange: the caller's key id, the request's
/// model and latest message, both payloads as documents (an empty object
/// for text that is not JSON), the timings and the token counts. Its id is
/// 0 until the entry is written.
pub fn query_log_entry(
    authorization: &String,
    model: String,
    content: String,
    request_text: &str,
    response_text: &str,
    first_token_ms: Option<u64>,
    completed_ms: u64,
    tokens: (u64, u64, u64),
) -> (r: QueryLog)
    ensures
        r.id == 0,
        r.key_id@ == key_id_of(authorization@),
        r.model == model,
        r.content == content,
        r.request_payload@ == payload_of(request_text@),
        r.response_payload@ == payload_of(response_text@),
        r.duration_first_token == match first_token_ms {
            Some(ms) => ms,
            None => 0,
        },
        r.duration_completed == completed_ms,
        r.input_token == tokens.0,
        r.output_token == tokens.1,
        r.cache_token == tokens.2,
{
    QueryLog {
        id: 0,
        key_id: extract_key_id(authorization),
        model,
        content,
        request_payload: payload_or_empty(request_text),
        response_payload: payload_or_empty(response_text),
        duration_first_token: match first_token_ms {
            Some(ms) => ms,
            None => 0,
        },
        duration_completed: completed_ms,
        input_token: tokens.0,
        output_token: tokens.1,
        cache_token: tokens.2,
    }
}

/// What can go wrong once a request is forwarded.
#[derive(Debug)]
pub enum Failure {
    /// The request body could not be read.
    BodyUnreadable,
    /// The upstream could not be reached.
    UpstreamUnreachable,
    /// The exchange could not be written to the query log.
    LogNotWritten,
}

/// The answer to a failure: 400 with an empty body for an unreadable
/// request body, 502 `proxy error: <detail>` when the upstream is
/// unreachable, 500 `clickhouse insert error: <detail>` when the log
/// cannot be written.
pub open spec fn failure_answer(failure: Failure, detail: Seq<char>) -> (u16, Seq<char>) {
    match failure {
        Failure::BodyUnreadable => (400, Seq::empty()),
        Failure::UpstreamUnreachable => (502, "proxy error: "@ + detail),
        Failure::LogNotWritten => (500, "clickhouse insert error: "@ + detail),
    }
}

/// The status and body answered for a failure, given the text of its error.
pub fn failure_response(failure: Failure, detail: &str) -> (r: (StatusCode, String))
    ensures
        (r.0.code, r.1@) == failure_answer(failure, detail@),
{
    match failure {
        Failure::BodyUnreadable => (StatusCode::bad_request(), String::new()),
        Failure::UpstreamUnreachable => (
            StatusCode::bad_gateway(),
            concat(&"proxy error: ".to_string(), detail),
        ),
        Failure::LogNotWritten => (
            StatusCode::internal_server_error(),
            concat(&"clickhouse insert error: ".to_string(), detail),
        ),
    }
}

/// The status answered for an upstream status code: the code itself when
/// it is a status code (100 to 999, as `http::StatusCode::from_u16`
/// accepts), else 500.
pub open spec fn upstream_status_code(code: u16) -> u16 {
    if 100 <= code <= 999 {
        code
    } else {
        500
    }
}

/// The status answered for an upstream status code.
pub fn upstream_status(code: u16) -> (r: StatusCode)
    ensures
        r.code == upstream_status_code(code),
{
    if 100 <= code && code <= 999 {
        StatusCode { code }
    } else {
        StatusCode::internal_server_error()
    }
}

/// A request is forwarded upstream only when its path is under `/api/v1/`,
/// it presents the configured key, and it is a `POST`; every other request
/// is answered at once.
pub proof fn lemma_forwarded_only_when_authorized(
    method: Seq<char>,
    path: Seq<char>,
    authorization: Seq<char>,
    api_key: Seq<char>,
)
    ensures
        route(method, path, authorization, api_key) is Forward ==> {
            &&& "/api/v1/"@.is_prefix_of(path)
            &&& accepts(authorization, api_key)
            &&& method == "POST"@
        },
        !accepts(authorization, api_key) ==> (route(method, path, authorization, api_key)
            matches RouteDecision::Respond(s) && (s.code == 401 || s.code == 501)),
{
}

/// An accepted request is logged under the configured key, when that key
/// does not itself start with `Bearer ` or `bearer `.
pub proof fn lemma_key_id_of_accepted(authorization: Seq<char>, api_key: Seq<char>)
    requires
        accepts(authorization, api_key),
        !"Bearer "@.is_prefix_of(api_key),
        !"bearer "@.is_prefix_of(api_key),
    ensures
        key_id_of(authorization) == api_key,
{
    reveal_strlit("Bearer ");
    reveal_strlit("bearer ");
    let upper = "Bearer "@;
    let lower = "bearer "@;
    if upper.is_prefix_of(authorization) {
        assert(strip_prefix_repeated(authorization, upper) == strip_prefix_repeated(
            authorization.skip(7),
            upper,
        ));
        assert(!lower.is_prefix_of(api_key));
    } else if lower.is_prefix_of(authorization) {
        assert(strip_prefix_repeated(authorization, upper) == authorization);
        assert(strip_prefix_repeated(authorization, lower) == strip_prefix_repeated(
            authorization.skip(7),
            lower,
        ));
    } else {
        assert(strip_prefix_repeated(authorization, upper) == authorization);
    }
}

/// Removing the members named `key` leaves no member of that name, and
/// every other member as the object had it.
pub proof fn lemma_drop_member(entries: Seq<(Seq<char>, Json)>, key: Seq<char>, other: Seq<char>)
    ensures
        lookup(drop_member(entries, key), key) is None,
        other != key ==> lookup(drop_member(entries, key), other) == lookup(entries, other),
    decreases entries.len(),
{
    if entries.len() > 0 {
        lemma_drop_member(entries.drop_first(), key, other);
        if entries[0].0 != key {
            let d = seq![entries[0]] + drop_member(entries.drop_first(), key);
            assert(d.drop_first() =~= drop_member(entries.drop_first(), key));
        }
    }
}

/// The document forwarded to Anthropic has no `context_management`
/// member, and every other member of the request as it was.
pub proof fn lemma_denied_member_removed(doc: Json, other: Seq<char>)
    ensures
        json_get(without_denied(doc), "context_management"@) is None,
        other != "context_management"@ ==> json_get(without_denied(doc), other) == json_get(doc, other),
{
    if let Json::Object(entries) = doc {
        lemma_drop_member(entries, "context_management"@, other);
    }
}

/// Every path under `/api/v1/messages` goes to Anthropic: to the Anthropic
/// endpoint followed by the path after `/api`, with the upstream's key as
/// `x-api-key` and the `anthropic-version` header, and the body with the
/// denied members removed.
pub proof fn lemma_messages_paths_go_to_anthropic(x: Seq<char>, u: Upstream, body: Seq<u8>)
    ensures
        target_uri("/api/v1/messages"@ + x, u) == u.anthropic_endpoint@ + ("/v1/messages"@ + x),
        target_headers("/api/v1/messages"@ + x, u).contains(("x-api-key"@, u.key@)),
        target_headers("/api/v1/messages"@ + x, u).contains(("anthropic-version"@, "2023-06-01"@)),
        target_headers("/api/v1/messages"@ + x, u).contains(("Authorization"@, "Bearer "@ + u.key@)),
        target_body("/api/v1/messages"@ + x, body) == anthropic_body(body),
{
    reveal_strlit("/api/v1/messages");
    reveal_strlit("/api");
    reveal_strlit("/v1/messages");
    let path = "/api/v1/messages"@ + x;
    assert(path =~= "/api"@ + ("/v1/messages"@ + x));
    assert(path.subrange(0, 4) =~= "/api"@);
    assert(path.skip(4) =~= "/v1/messages"@ + x);
    assert(path_v1(path) == "/v1/messages"@ + x);
    assert(("/v1/messages"@ + x).subrange(0, 12) =~= "/v1/messages"@);
    assert(is_anthropic(path));
    let h = target_headers(path, u);
    assert(h[1] == ("Authorization"@, "Bearer "@ + u.key@));
    assert(h[2] == ("x-api-key"@, u.key@));
    assert(h[3] == ("anthropic-version"@, "2023-06-01"@));
}

/// Every other path under `/api/v1` goes to OpenAI: to the OpenAI endpoint
/// followed by the path after `/api/v1`, with the content type and the
/// upstream's key alone, and the body unchanged.
pub proof fn lemma_other_paths_go_to_openai(x: Seq<char>, u: Upstream, body: Seq<u8>)
    requires
        !"/messages"@.is_prefix_of(x),
    ensures
        target_uri("/api/v1"@ + x, u) == u.openai_endpoint@ + x,
        target_headers("/api/v1"@ + x, u) == seq![
            ("Content-Type"@, "application/json"@),
            ("Authorization"@, "Bearer "@ + u.key@),
        ],
        target_body("/api/v1"@ + x, body) == body,
{
    reveal_strlit("/api/v1");
    reveal_strlit("/api");
    reveal_strlit("/v1");
    reveal_strlit("/v1/messages");
    reveal_strlit("/messages");
    let path = "/api/v1"@ + x;
    assert(path.subrange(0, 4) =~= "/api"@);
    let v = "/v1"@ + x;
    assert(path.skip(4) =~= v);
    assert(path_v1(path) == v);
    assert(!"/v1/messages"@.is_prefix_of(v)) by {
        if "/v1/messages"@.is_prefix_of(v) {
            let m = "/v1/messages"@;
            assert(m.len() == 12);
            assert(x.len() >= 9);
            assert forall|i: int| 0 <= i < 9 implies x[i] == "/messages"@[i] by {
                assert(v[i + 3] == m[i + 3]);
                assert(v[i + 3] == x[i]);
            }
            assert(x.subrange(0, 9) =~= "/messages"@);
        }
    }
    assert(v.subrange(0, 3) =~= "/v1"@);
    assert(v.skip(3) =~= x);
}

/// The count named `key` in a `usage` object: its non-negative integer,
/// else 0.
pub open spec fn count_member(usage: Json, key: Seq<char>) -> u64 {
    match json_get(usage, key) {
        Some(Json::Number(JsonNum::PosInt(n))) => n,
        _ => 0,
    }
}

/// The token counts are the `input_tokens`, `output_tokens` and
/// `cache_read_input_tokens` of the `usage` member, each 0 unless it is a
/// non-negative integer; without `usage` they are all 0.
pub proof fn lemma_usage_counts(doc: Json)
    ensures
        json_get(doc, "usage"@) matches Some(usage) ==> usage_tokens(doc) == (
            count_member(usage, "input_tokens"@),
            count_member(usage, "output_tokens"@),
            count_member(usage, "cache_read_input_tokens"@),
        ),
        json_get(doc, "usage"@) is None ==> usage_tokens(doc) == (0u64, 0u64, 0u64),
{
}

/// The token counts read those three members alone: two documents whose
/// `usage` agrees on them give the same counts, whatever else either holds
/// (such as `cache_creation_input_tokens`).
pub proof fn lemma_usage_reads_three_members(d1: Json, d2: Json, u1: Json, u2: Json)
    requires
        json_get(d1, "usage"@) == Some(u1),
        json_get(d2, "usage"@) == Some(u2),
        json_get(u1, "input_tokens"@) == json_get(u2, "input_tokens"@),
        json_get(u1, "output_tokens"@) == json_get(u2, "output_tokens"@),
        json_get(u1, "cache_read_input_tokens"@) == json_get(u2, "cache_read_input_tokens"@),
    ensures
        usage_tokens(d1) == usage_tokens(d2),
{
}

} // verus!
