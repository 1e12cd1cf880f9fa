use model_gateway::util::parser::{extract_content, extract_model};

#[test]
fn test_extract_model_from_chat() {
    let body = r#"{"model": "gpt-4o", "messages": []}"#;
    let model = extract_model(body);
    assert_eq!(model, Some("gpt-4o".to_string()));
}

#[test]
fn test_extract_model_not_found() {
    let body = r#"{"messages": []}"#;
    let model = extract_model(body);
    assert_eq!(model, None);
}

#[test]
fn test_extract_content_from_string() {
    let body = r#"{"model": "gpt-4o", "messages": [{"role": "user", "content": "Hello world"}]}"#;
    let content = extract_content(body);
    assert_eq!(content, Some("Hello world".to_string()));
}

#[test]
fn test_extract_content_from_blocks() {
    let body = r#"{"model": "gpt-4o", "messages": [{"role": "user", "content": [{"type": "text", "text": "Hello world"}]}]}"#;
    let content = extract_content(body);
    assert_eq!(content, Some("Hello world".to_string()));
}

#[test]
fn test_extract_content_from_anthropic() {
    let body = r#"{"model": "anthropic-sonnet-3-5", "messages": [{"role": "user", "content": [{"type": "text", "text": "Hello"}]}]}"#;
    let content = extract_content(body);
    assert_eq!(content, Some("Hello".to_string()));
}

#[test]
fn test_extract_content_from_responses_api() {
    let body = r#"{"model": "gpt-4o", "input": [{"role": "user", "content": "Hello"}]}"#;
    let content = extract_content(body);
    assert_eq!(content, Some("Hello".to_string()));
}

#[test]
fn test_extract_content_invalid_json() {
    let body = "invalid json";
    let content = extract_content(body);
    assert_eq!(content, None);
}

#[test]
fn model_must_be_a_string() {
    assert_eq!(extract_model(r#"{"model": 4}"#), None);
    assert_eq!(extract_model("not json"), None);
    assert_eq!(extract_model(r#"["model"]"#), None);
}

#[test]
fn content_takes_the_last_message_and_last_block() {
    let body = r#"{"messages": [{"content": "first"}, {"content": [{"text": "a"}, {"text": "b"}]}]}"#;
    assert_eq!(extract_content(body), Some("b".to_string()));
}

#[test]
fn content_falls_back_to_input_when_messages_have_none() {
    let body = r#"{"messages": [{"content": 7}], "input": [{"content": [{"text": "from input"}]}]}"#;
    assert_eq!(extract_content(body), Some("from input".to_string()));
}

#[test]
fn content_absent_for_empty_arrays() {
    assert_eq!(extract_content(r#"{"messages": []}"#), None);
    assert_eq!(extract_content(r#"{"messages": [{"content": []}]}"#), None);
    assert_eq!(extract_content(r#"{"input": [{"content": [{"type": "image"}]}]}"#), None);
}
