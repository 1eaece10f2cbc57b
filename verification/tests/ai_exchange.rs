use token_optimizer::ai_client::{
    chat_completions_url, reply_content, reply_from_body, request_body, AiError, JsonValue,
};

#[test]
fn url_drops_trailing_slashes() {
    assert_eq!(chat_completions_url("http://localhost:1234"), "http://localhost:1234/v1/chat/completions");
    assert_eq!(chat_completions_url("http://localhost:1234/"), "http://localhost:1234/v1/chat/completions");
    assert_eq!(chat_completions_url("http://h//"), "http://h/v1/chat/completions");
    assert_eq!(chat_completions_url(""), "/v1/chat/completions");
    assert_eq!(chat_completions_url("///"), "/v1/chat/completions");
}

fn expected_body(model: &str, system_prompt: &str, max_tokens: u32, text: &str) -> String {
    let mut system = serde_json::Map::new();
    system.insert("role".to_string(), serde_json::Value::String("system".to_string()));
    system.insert("content".to_string(), serde_json::Value::String(system_prompt.to_string()));
    let mut user = serde_json::Map::new();
    user.insert("role".to_string(), serde_json::Value::String("user".to_string()));
    user.insert("content".to_string(), serde_json::Value::String(text.to_string()));
    let mut body = serde_json::Map::new();
    body.insert("model".to_string(), serde_json::Value::String(model.to_string()));
    body.insert(
        "messages".to_string(),
        serde_json::Value::Array(vec![serde_json::Value::Object(system), serde_json::Value::Object(user)]),
    );
    body.insert("max_tokens".to_string(), serde_json::Value::from(max_tokens));
    body.insert("temperature".to_string(), serde_json::Value::from(0));
    body.insert("stream".to_string(), serde_json::Value::Bool(false));
    serde_json::to_string(&serde_json::Value::Object(body)).unwrap()
}

#[test]
fn request_body_exact_text() {
    assert_eq!(
        request_body("m", "sys", 512, "hi"),
        "{\"max_tokens\":512,\"messages\":[{\"content\":\"sys\",\"role\":\"system\"},{\"content\":\"hi\",\"role\":\"user\"}],\"model\":\"m\",\"stream\":false,\"temperature\":0}"
    );
}

#[test]
fn request_body_escapes_like_serde_json() {
    let text = "error[E0308]: \"x\" \\ path\n  --> src/main.rs:3:5\t\u{1}é→";
    assert_eq!(request_body("Phi-4", "be \"brief\"", 0, text), expected_body("Phi-4", "be \"brief\"", 0, text));
    assert_eq!(request_body("", "", u32::MAX, ""), expected_body("", "", u32::MAX, ""));
    assert_eq!(request_body("a", "b", 7, "c"), expected_body("a", "b", 7, "c"));
    assert_eq!(request_body("a", "b", 1000, "c"), expected_body("a", "b", 1000, "c"));
}

fn s(t: &str) -> String {
    t.to_string()
}

fn reply(content: JsonValue) -> JsonValue {
    let message = JsonValue::Object(vec![(s("role"), JsonValue::Str(s("assistant"))), (s("content"), content)]);
    let choice = JsonValue::Object(vec![(s("index"), JsonValue::Number(s("0"))), (s("message"), message)]);
    JsonValue::Object(vec![(s("id"), JsonValue::Str(s("x"))), (s("choices"), JsonValue::Array(vec![choice]))])
}

#[test]
fn reply_content_reads_first_choice() {
    match reply_content(&reply(JsonValue::Str(s("short")))) {
        Ok(t) => assert_eq!(t, "short"),
        Err(e) => panic!("unexpected {:?}", e),
    }
}

#[test]
fn reply_content_missing_or_not_text_is_no_content() {
    assert!(matches!(reply_content(&reply(JsonValue::Null)), Err(AiError::NoContent)));
    assert!(matches!(reply_content(&reply(JsonValue::Number(s("3")))), Err(AiError::NoContent)));
    assert!(matches!(reply_content(&JsonValue::Null), Err(AiError::NoContent)));
    let no_choices = JsonValue::Object(vec![(s("choices"), JsonValue::Array(vec![]))]);
    assert!(matches!(reply_content(&no_choices), Err(AiError::NoContent)));
    let choices_object = JsonValue::Object(vec![(s("choices"), JsonValue::Object(vec![]))]);
    assert!(matches!(reply_content(&choices_object), Err(AiError::NoContent)));
}

#[test]
fn first_member_with_a_key_wins() {
    let message = JsonValue::Object(vec![(s("content"), JsonValue::Str(s("one"))), (s("content"), JsonValue::Str(s("two")))]);
    let choice = JsonValue::Object(vec![(s("message"), message)]);
    let v = JsonValue::Object(vec![(s("choices"), JsonValue::Array(vec![choice]))]);
    assert_eq!(reply_content(&v).ok(), Some(s("one")));
}

#[test]
fn error_messages() {
    assert_eq!(AiError::Http(s("refused")).to_string(), "HTTP error: refused");
    assert_eq!(AiError::Parse(s("eof")).to_string(), "Parse error: eof");
    assert_eq!(AiError::NoContent.to_string(), "No content in response");
}

#[test]
fn reply_body_is_parsed() {
    let body = r#"{"id":"x","choices":[{"index":0,"message":{"role":"assistant","content":"short \"text\""}}],"usage":{"total_tokens":12.5}}"#;
    assert_eq!(reply_from_body(body).ok(), Some(s("short \"text\"")));
    let dup = r#"{"choices":[{"message":{"content":"one","content":"two"}}]}"#;
    assert_eq!(reply_from_body(dup).ok(), Some(s("two")));
    assert!(matches!(reply_from_body(r#"{"choices":[]}"#), Err(AiError::NoContent)));
    assert!(matches!(reply_from_body(r#"{"choices":[{"message":{"content":null}}]}"#), Err(AiError::NoContent)));
    assert!(matches!(reply_from_body("[1,2]"), Err(AiError::NoContent)));
    match reply_from_body("not json") {
        Err(AiError::Parse(m)) => assert_eq!(m, serde_json::from_str::<serde_json::Value>("not json").unwrap_err().to_string()),
        other => panic!("unexpected {:?}", other),
    }
}

#[test]
fn control_characters_are_escaped_as_serde_json_does() {
    assert_eq!(
        request_body("\u{1f}\u{8}\u{c}\r", "\u{7f}", 1, "/"),
        "{\"max_tokens\":1,\"messages\":[{\"content\":\"\u{7f}\",\"role\":\"system\"},{\"content\":\"/\",\"role\":\"user\"}],\"model\":\"\\u001f\\b\\f\\r\",\"stream\":false,\"temperature\":0}"
    );
}
