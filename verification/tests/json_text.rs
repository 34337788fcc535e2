use hollowreach::json::{parse_json_text, JsonValue};

#[test]
fn json_text_is_parsed_into_plain_values() {
    let v = parse_json_text(r#"{"type": "show_text", "text": "It creaks.", "loud": true}"#).unwrap();
    assert_eq!(v.get_str("type"), Some(&"show_text".to_string()));
    assert_eq!(v.get_str("text"), Some(&"It creaks.".to_string()));
    assert_eq!(v.get_bool("loud"), Some(true));
    assert!(v.get("missing").is_none());
    assert!(matches!(parse_json_text("null"), Some(JsonValue::Null)));
    assert!(parse_json_text("{not json").is_none());
}
