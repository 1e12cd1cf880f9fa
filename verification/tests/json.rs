use model_gateway::json::{parse_json, parse_json_bytes, to_json_bytes, to_json_string, JsonNumber, JsonValue};
use model_gateway::text::{string_from_chars, string_from_utf8_lossy, string_of};

#[test]
fn documents_parse_into_their_parts() {
    let doc = parse_json(r#"{"b": [true, null, -2, 1.5, 7], "a": "x"}"#).unwrap();
    let a = doc.get("a").unwrap();
    assert_eq!(a.as_str().unwrap(), "x");
    let b = doc.get("b").unwrap().as_array().unwrap();
    assert!(matches!(b[0], JsonValue::Bool(true)));
    assert!(matches!(b[1], JsonValue::Null));
    assert!(matches!(b[2], JsonValue::Number(JsonNumber::NegInt(-2))));
    assert!(matches!(b[3], JsonValue::Number(JsonNumber::Float(ref f)) if f.text() == "1.5"));
    assert_eq!(b[4].as_u64(), Some(7));
    assert!(doc.get("c").is_none());
    assert!(parse_json("{").is_none());
    assert!(parse_json_bytes(b"[1]").is_some());
    assert!(parse_json_bytes(&[0x22, 0xff, 0x22]).is_none());
}

#[test]
fn documents_print_back() {
    let doc = parse_json(r#"{"b": 1.5, "a": [1, -1, "s", null, false]}"#).unwrap();
    assert_eq!(to_json_string(&doc), r#"{"a":[1,-1,"s",null,false],"b":1.5}"#);
    assert_eq!(to_json_bytes(&doc).unwrap(), br#"{"a":[1,-1,"s",null,false],"b":1.5}"#.to_vec());
}

#[test]
fn text_helpers() {
    let chars: Vec<char> = "héllo".chars().collect();
    assert_eq!(string_from_chars(&chars, 1, 3), "él");
    assert_eq!(string_of(&chars), "héllo");
    assert_eq!(string_from_utf8_lossy(b"ok"), "ok");
    assert_eq!(string_from_utf8_lossy(&[0x61, 0xff]), "a\u{fffd}");
}

