use model_gateway::config::{Config, Upstream};
use model_gateway::handler::handler::{
    extract_key_id, extract_tokens, failure_response, upstream_status, Failure, filter_anthropic_body, is_streaming_response, note_first_token,
    parse_sse_events, payload_or_empty, plan_upstream_request, query_log_entry, route_request,
    RouteDecision,
};
use model_gateway::json::{JsonNumber, JsonValue};

fn config() -> Config {
    Config {
        listen: ":8000".to_string(),
        api_key: "test-key".to_string(),
        upstreams: vec![Upstream {
            name: "test".to_string(),
            openai_endpoint: "https://api.example.com/v1".to_string(),
            anthropic_endpoint: "https://api.example.com/anthropic".to_string(),
            key: "upstream-key".to_string(),
        }],
        postgres: None,
        clickhouse: None,
    }
}

fn status_of(d: RouteDecision) -> Option<u16> {
    match d {
        RouteDecision::Respond(s) => Some(s.as_u16()),
        RouteDecision::Forward => None,
    }
}

#[test]
fn paths_outside_the_api_are_not_implemented() {
    let c = config();
    assert_eq!(status_of(route_request("POST", "/v1/chat/completions", "Bearer test-key", &c)), Some(501));
    assert_eq!(status_of(route_request("GET", "/", "", &c)), Some(501));
}

#[test]
fn wrong_keys_are_unauthorized() {
    let c = config();
    assert_eq!(status_of(route_request("POST", "/api/v1/chat/completions", "Bearer nope", &c)), Some(401));
    assert_eq!(status_of(route_request("GET", "/api/v1/models", "", &c)), Some(401));
}

#[test]
fn model_list_is_answered_and_other_methods_refused() {
    let c = config();
    assert_eq!(status_of(route_request("GET", "/api/v1/models", "Bearer test-key", &c)), Some(200));
    assert_eq!(status_of(route_request("GET", "/api/v1/chat/completions", "Bearer test-key", &c)), Some(405));
    assert_eq!(status_of(route_request("PUT", "/api/v1/models", "Bearer test-key", &c)), Some(405));
    assert_eq!(status_of(route_request("POST", "/api/v1/messages", "bearer test-key", &c)), None);
}

#[test]
fn anthropic_requests_go_to_the_anthropic_endpoint() {
    let c = config();
    let body = br#"{"model": "m", "context_management": {"x": 1}, "max_tokens": 10, "temperature": 0.5}"#;
    let req = plan_upstream_request("/api/v1/messages", body, &c);
    assert_eq!(req.uri, "https://api.example.com/anthropic/v1/messages");
    let headers: Vec<(&str, &str)> = req.headers.iter().map(|(k, v)| (k.as_str(), v.as_str())).collect();
    assert_eq!(
        headers,
        vec![
            ("Content-Type", "application/json"),
            ("Authorization", "Bearer upstream-key"),
            ("x-api-key", "upstream-key"),
            ("anthropic-version", "2023-06-01"),
        ]
    );
    let sent: serde_json::Value = serde_json::from_slice(&req.body).unwrap();
    let expected: serde_json::Value =
        serde_json::from_str(r#"{"model": "m", "max_tokens": 10, "temperature": 0.5}"#).unwrap();
    assert_eq!(sent, expected);
}

#[test]
fn openai_requests_go_to_the_openai_endpoint_unchanged() {
    let c = config();
    let body = br#"{"model": "m", "context_management": 1}"#;
    let req = plan_upstream_request("/api/v1/chat/completions", body, &c);
    assert_eq!(req.uri, "https://api.example.com/v1/chat/completions");
    assert_eq!(req.headers.len(), 2);
    assert_eq!(req.headers[1].1, "Bearer upstream-key");
    assert_eq!(req.body, body.to_vec());
    let req = plan_upstream_request("/api/v1/responses", b"raw", &c);
    assert_eq!(req.uri, "https://api.example.com/v1/responses");
    assert_eq!(req.body, b"raw".to_vec());
}

#[test]
fn anthropic_body_that_is_not_json_is_forwarded_as_is() {
    assert_eq!(filter_anthropic_body(b"not json"), b"not json".to_vec());
    assert_eq!(filter_anthropic_body(b"[1,2]"), b"[1,2]".to_vec());
    assert_eq!(filter_anthropic_body(br#"{"context_management":null}"#), b"{}".to_vec());
}

#[test]
fn key_ids_drop_bearer_prefixes() {
    assert_eq!(extract_key_id(&"Bearer abc".to_string()), "abc");
    assert_eq!(extract_key_id(&"bearer abc".to_string()), "abc");
    assert_eq!(extract_key_id(&"Bearer Bearer bearer abc".to_string()), "abc");
    assert_eq!(extract_key_id(&"abc".to_string()), "abc");
    assert_eq!(extract_key_id(&"bearer Bearer abc".to_string()), "Bearer abc");
}

#[test]
fn tokens_come_from_usage() {
    let body = br#"{"usage": {"input_tokens": 12, "output_tokens": 34, "cache_read_input_tokens": 5}}"#;
    assert_eq!(extract_tokens(body), (12, 34, 5));
    assert_eq!(extract_tokens(br#"{"usage": {"input_tokens": 3}}"#), (3, 0, 0));
    assert_eq!(extract_tokens(br#"{"usage": {"input_tokens": -3, "output_tokens": 2.5}}"#), (0, 0, 0));
    assert_eq!(extract_tokens(br#"{"id": 1}"#), (0, 0, 0));
    assert_eq!(extract_tokens(b"oops"), (0, 0, 0));
}

#[test]
fn streaming_is_told_by_content_type() {
    assert!(is_streaming_response("text/event-stream; charset=utf-8"));
    assert!(is_streaming_response("application/x-ndjson-stream"));
    assert!(!is_streaming_response("application/json"));
    assert!(!is_streaming_response(""));
}

#[test]
fn first_token_time_is_kept_once_seen() {
    assert_eq!(note_first_token(None, b"event: ping", 5), None);
    assert_eq!(note_first_token(None, b"data: {\"type\":\"content_block_start\"}", 7), Some(7));
    assert_eq!(note_first_token(Some(3), b"content_block_start", 9), Some(3));
}

const STREAM: &str = "event: message_start\n\
data: {\"type\":\"message_start\",\"message\":{\"id\":\"msg_1\",\"type\":\"message\",\"role\":\"assistant\",\"model\":\"m-1\",\"usage\":{\"input_tokens\":25,\"cache_read_input_tokens\":4}}}\r\n\
\n\
data: {\"type\":\"content_block_start\",\"index\":0,\"content_block\":{\"type\":\"thinking\"}}\n\
data: {\"type\":\"content_block_delta\",\"delta\":{\"thinking\":\"hmm\"}}\n\
data: {\"type\":\"content_block_delta\",\"delta\":{\"signature\":\"sig\"}}\n\
data: {\"type\":\"content_block_stop\"}\n\
data: {\"type\":\"content_block_start\",\"content_block\":{\"type\":\"text\",\"text\":\"\"}}\n\
  data: {\"type\":\"content_block_delta\",\"delta\":{\"type\":\"text_delta\",\"text\":\"Hel\"}}  \n\
data: {\"type\":\"content_block_delta\",\"delta\":{\"text\":\"lo\"}}\n\
data: not json\n\
data: {\"type\":\"content_block_stop\"}\n\
data: {\"type\":\"message_delta\",\"delta\":{\"stop_reason\":\"end_turn\"},\"usage\":{\"output_tokens\":15,\"input_tokens\":99}}\n\
data: {\"type\":\"message_stop\"}";

#[test]
fn stream_is_reassembled() {
    let (json, input, output, cache) = parse_sse_events(STREAM);
    assert_eq!((input, output, cache), (25, 15, 4));
    let got: serde_json::Value = serde_json::from_str(&json).unwrap();
    let expected: serde_json::Value = serde_json::from_str(
        r#"{"id":"msg_1","type":"message","role":"assistant","model":"m-1",
            "content":[{"type":"thinking","thinking":"hmm","signature":"sig"},{"type":"text","text":"Hello"}],
            "stop_reason":"end_turn",
            "usage":{"input_tokens":25,"output_tokens":15,"cache_read_input_tokens":4}}"#,
    )
    .unwrap();
    assert_eq!(got, expected);
}

#[test]
fn empty_stream_gives_an_empty_message() {
    let (json, input, output, cache) = parse_sse_events("");
    assert_eq!((input, output, cache), (0, 0, 0));
    let got: serde_json::Value = serde_json::from_str(&json).unwrap();
    let expected: serde_json::Value = serde_json::from_str(
        r#"{"id":"","type":"","role":"","model":"","usage":{"input_tokens":0,"output_tokens":0}}"#,
    )
    .unwrap();
    assert_eq!(got, expected);
}

#[test]
fn message_delta_fills_unknown_counts_only() {
    let stream = "data: {\"type\":\"message_delta\",\"usage\":{\"output_tokens\":2,\"input_tokens\":7,\"cache_read_input_tokens\":1}}\n";
    let (_, input, output, cache) = parse_sse_events(stream);
    assert_eq!((input, output, cache), (7, 2, 1));
}

#[test]
fn payloads_fall_back_to_an_empty_object() {
    match payload_or_empty("not json") {
        JsonValue::Object(entries) => assert!(entries.is_empty()),
        _ => panic!("expected an object"),
    }
    match payload_or_empty("[1]") {
        JsonValue::Array(items) => {
            assert_eq!(items.len(), 1);
            assert!(matches!(items[0], JsonValue::Number(JsonNumber::PosInt(1))));
        },
        _ => panic!("expected an array"),
    }
}

#[test]
fn log_entries_hold_the_exchange() {
    let log = query_log_entry(
        &"Bearer key-1".to_string(),
        "m".to_string(),
        "hi".to_string(),
        r#"{"a":1}"#,
        "broken",
        Some(12),
        34,
        (1, 2, 3),
    );
    assert_eq!(log.id, 0);
    assert_eq!(log.key_id, "key-1");
    assert_eq!(log.model, "m");
    assert_eq!(log.content, "hi");
    assert_eq!(log.duration_first_token, 12);
    assert_eq!(log.duration_completed, 34);
    assert_eq!((log.input_token, log.output_token, log.cache_token), (1, 2, 3));
    assert!(matches!(log.request_payload, JsonValue::Object(ref e) if e.len() == 1 && e[0].0 == "a"));
    assert!(matches!(log.response_payload, JsonValue::Object(ref e) if e.is_empty()));
    let log = query_log_entry(&"k".to_string(), String::new(), String::new(), "{}", "{}", None, 0, (0, 0, 0));
    assert_eq!(log.duration_first_token, 0);
}

#[test]
fn accepted_requests_are_logged_under_the_configured_key() {
    let c = config();
    for auth in ["Bearer test-key", "bearer test-key", "test-key"] {
        assert!(model_gateway::validation::validate_api_key(auth, &c).is_ok());
        assert_eq!(extract_key_id(&auth.to_string()), c.api_key);
    }
}

#[test]
fn inert_lines_change_nothing() {
    let noisy = STREAM.replace(
        "data: {\"type\":\"content_block_stop\"}\n",
        "data: {\"type\":\"content_block_stop\"}\n: comment\ndata: {\"type\":\"ping\"}\ndata: [oops\nevent: x\n",
    );
    assert_ne!(noisy, STREAM);
    assert_eq!(parse_sse_events(&noisy), parse_sse_events(STREAM));
}

#[test]
fn failures_are_answered() {
    let (s, b) = failure_response(Failure::BodyUnreadable, "ignored");
    assert_eq!((s.as_u16(), b.as_str()), (400, ""));
    let (s, b) = failure_response(Failure::UpstreamUnreachable, "refused");
    assert_eq!((s.as_u16(), b.as_str()), (502, "proxy error: refused"));
    let (s, b) = failure_response(Failure::LogNotWritten, "down");
    assert_eq!((s.as_u16(), b.as_str()), (500, "clickhouse insert error: down"));
    assert_eq!(upstream_status(201).as_u16(), 201);
    assert_eq!(upstream_status(999).as_u16(), 999);
    assert_eq!(upstream_status(99).as_u16(), 500);
    assert_eq!(upstream_status(1000).as_u16(), 500);
}

#[test]
fn floats_are_forwarded_as_serde_prints_them() {
    let body = br#"{"temperature": 0.1000000000000000055511151231257827021181583404541015625, "top_p": 9.999999999999999e22, "x": 1e-320, "context_management": 1}"#;
    let mut expected: serde_json::Value = serde_json::from_slice(body).unwrap();
    expected.as_object_mut().unwrap().remove("context_management");
    assert_eq!(filter_anthropic_body(body), serde_json::to_vec(&expected).unwrap());
}

#[test]
fn inert_lines_at_several_places_change_nothing() {
    let noisy = format!(": hello\n{}", STREAM)
        .replace("\n\n", "\n\nretry: 5\n")
        .replace("data: not json\n", "data: not json\ndata: {\"type\":\"message_stop\"}\n");
    assert_ne!(noisy, STREAM);
    assert_eq!(parse_sse_events(&noisy), parse_sse_events(STREAM));
}
