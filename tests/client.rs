use openai_structured::{
    completion_content, handle_response, request_body, ClientError, Config, ConfigError, Json,
    Message, ProtocolFault, Role, Schema,
};
use serde_json::Value;

fn to_json(v: &Value) -> Json {
    match v {
        Value::Null => Json::Null,
        Value::Bool(b) => Json::Bool(*b),
        Value::Number(n) => Json::Number(n.to_string()),
        Value::String(s) => Json::Str(s.clone()),
        Value::Array(a) => Json::Array(a.iter().map(to_json).collect()),
        Value::Object(m) => Json::Object(m.iter().map(|(k, v)| (k.clone(), to_json(v))).collect()),
    }
}

fn from_json(j: &Json) -> Value {
    match j {
        Json::Null => Value::Null,
        Json::Bool(b) => Value::Bool(*b),
        Json::Number(n) => serde_json::from_str(n).unwrap(),
        Json::Str(s) => Value::String(s.clone()),
        Json::Array(a) => Value::Array(a.iter().map(from_json).collect()),
        Json::Object(es) => {
            let mut m = serde_json::Map::new();
            for (k, v) in es {
                m.insert(k.clone(), from_json(v));
            }
            Value::Object(m)
        }
    }
}

/// Stands in for the transport: the status and body that the provider sent.
fn respond(status: u16, body: &str) -> Result<String, ClientError> {
    let parsed = serde_json::from_str::<Value>(body).ok().map(|v| to_json(&v));
    handle_response(status, body.to_string(), parsed)
}

/// A success envelope whose choices carry the given texts, as the provider writes it.
fn envelope_with(contents: &[&str]) -> String {
    let choices: Vec<Value> = contents
        .iter()
        .enumerate()
        .map(|(i, c)| {
            let mut message = serde_json::Map::new();
            message.insert("role".to_string(), Value::String("assistant".to_string()));
            message.insert("content".to_string(), Value::String(c.to_string()));
            let mut choice = serde_json::Map::new();
            choice.insert("index".to_string(), Value::from(i as u64));
            choice.insert("message".to_string(), Value::Object(message));
            choice.insert("finish_reason".to_string(), Value::String("stop".to_string()));
            Value::Object(choice)
        })
        .collect();
    let mut top = serde_json::Map::new();
    top.insert("id".to_string(), Value::String("chatcmpl-1".to_string()));
    top.insert("object".to_string(), Value::String("chat.completion".to_string()));
    top.insert("choices".to_string(), Value::Array(choices));
    Value::Object(top).to_string()
}

fn user(text: &str) -> Vec<Message> {
    vec![Message::new(Role::User, text.to_string())]
}

fn simple_schema() -> Schema {
    let raw = serde_json::from_str::<Value>(
        r#"{"type":"object","properties":{"summary":{"type":"string"},"tone":{"type":"string"},
        "word_count":{"type":"integer","format":"int64"},"flair":{"type":"number","format":"double"}},
        "required":["summary","tone","word_count","flair"],"additionalProperties":false}"#,
    )
    .unwrap();
    openai_structured::get_schema(
        "tests::SimpleResponseSchema",
        &to_json(&raw),
        openai_structured::TitlePolicy::Keep,
    )
}

#[test]
fn test_simple_schema() {
    let messages = user("Hello, world!");
    let body = request_body("test-model".to_string(), &messages, simple_schema());
    let sent = from_json(&body);
    assert_eq!(sent["messages"][0]["content"], "Hello, world!");
    assert_eq!(sent["messages"][0]["role"], "user");

    let text = r#"{"summary":["A greeting.","Short and warm."],"tone":"friendly","word_count":2,"flair":0.4}"#;
    let content = respond(200, &envelope_with(&[text])).unwrap();
    assert_eq!(content, text);
    let response: Value = serde_json::from_str(&content).unwrap();
    assert!(response["summary"].as_array().unwrap().len() > 0);
    assert!(response["tone"].as_str().unwrap().len() > 0);
    assert!(response["word_count"].as_i64().unwrap() > 0);
    let flair = response["flair"].as_f64().unwrap();
    assert!(flair >= 0.0 && flair <= 1.0);
}

#[test]
fn test_enum_schema() {
    let text = r#"{"summary":"A happy day.","sentiment":"Positive","word_count":6}"#;
    let content = respond(200, &envelope_with(&[text])).unwrap();
    let response: Value = serde_json::from_str(&content).unwrap();
    assert!(response["summary"].as_str().unwrap().len() > 0);
    assert!(response["word_count"].as_i64().unwrap() > 0);
    assert_eq!(response["sentiment"], "Positive");
}

#[test]
fn test_nested_schema() {
    let messages = user("Hello, world! Reply with at least 3 different responses");
    let body = from_json(&request_body("m".to_string(), &messages, simple_schema()));
    assert_eq!(
        body["messages"][0]["content"],
        "Hello, world! Reply with at least 3 different responses"
    );
    let one = r#"{"summary":["Hi."],"tone":"warm","word_count":1,"flair":0.1}"#;
    let text = format!(r#"{{"responses":[{one},{one},{one}]}}"#);
    let content = respond(200, &envelope_with(&[&text])).unwrap();
    let responses: Value = serde_json::from_str(&content).unwrap();
    let list = responses["responses"].as_array().unwrap();
    assert!(list.len() >= 3);
    for response in list {
        assert!(response["summary"].as_array().unwrap().len() > 0);
    }
}

#[test]
fn upstream_error_keeps_raw_body() {
    let body = r#"{"error":{"message":"format is not permitted"}}"#;
    match respond(400, body) {
        Err(ClientError::Upstream { status, body: raw }) => {
            assert_eq!(status, 400);
            assert_eq!(raw, body);
        }
        other => panic!("unexpected outcome {:?}", other),
    }
}

#[test]
fn upstream_error_on_server_failure_with_text_body() {
    match respond(503, "service unavailable") {
        Err(ClientError::Upstream { status, body }) => {
            assert_eq!(status, 503);
            assert_eq!(body, "service unavailable");
        }
        other => panic!("unexpected outcome {:?}", other),
    }
}

#[test]
fn empty_choices_is_protocol_error() {
    match respond(200, r#"{"choices": []}"#) {
        Err(ClientError::Protocol(ProtocolFault::NoCompletion)) => {}
        other => panic!("unexpected outcome {:?}", other),
    }
}

#[test]
fn body_that_is_not_json_is_protocol_error() {
    match respond(200, "<html>gateway</html>") {
        Err(ClientError::Protocol(ProtocolFault::MalformedEnvelope)) => {}
        other => panic!("unexpected outcome {:?}", other),
    }
}

#[test]
fn envelope_without_content_is_protocol_error() {
    let bodies = [
        r#"{"id":"x"}"#,
        r#"{"choices":{}}"#,
        r#"{"choices":[{"message":{"role":"assistant"}}]}"#,
        r#"{"choices":[{"message":{"content":7}}]}"#,
        r#"[1,2]"#,
    ];
    for body in bodies {
        match respond(200, body) {
            Err(ClientError::Protocol(ProtocolFault::MalformedEnvelope)) => {}
            other => panic!("unexpected outcome {:?} for {}", other, body),
        }
    }
}

#[test]
fn only_first_choice_is_used() {
    let content = respond(200, &envelope_with(&["first", "second"])).unwrap();
    assert_eq!(content, "first");
}

#[test]
fn completion_content_reads_envelope() {
    let envelope = to_json(&serde_json::from_str::<Value>(&envelope_with(&["{\"a\":1}"])).unwrap());
    assert_eq!(completion_content(&envelope).unwrap(), "{\"a\":1}");
    let empty = to_json(&serde_json::from_str::<Value>(r#"{"choices":[]}"#).unwrap());
    assert_eq!(completion_content(&empty).unwrap_err(), ProtocolFault::NoCompletion);
}

#[test]
fn request_body_has_wire_shape() {
    let messages = vec![
        Message::new(Role::Developer, "Be brief.".to_string()),
        Message::new(Role::User, "Hi".to_string()),
        Message::new(Role::Assistant, "Hello".to_string()),
    ];
    let body = from_json(&request_body("o3-mini".to_string(), &messages, simple_schema()));
    assert_eq!(body["model"], "o3-mini");
    assert_eq!(body["messages"].as_array().unwrap().len(), 3);
    assert_eq!(body["messages"][0]["role"], "developer");
    assert_eq!(body["messages"][1]["role"], "user");
    assert_eq!(body["messages"][2]["role"], "assistant");
    assert_eq!(body["messages"][2]["content"], "Hello");
    assert_eq!(body["response_format"]["type"], "json_schema");
    let js = &body["response_format"]["json_schema"];
    assert_eq!(js["name"], "tests_CSimpleResponseSchema");
    assert_eq!(js["strict"], true);
    assert_eq!(js["schema"]["properties"]["flair"]["type"], "number");
    assert!(js["schema"]["properties"]["flair"].get("format").is_none());
}

#[test]
fn empty_conversation_is_forwarded() {
    let body = from_json(&request_body("m".to_string(), &Vec::new(), simple_schema()));
    assert_eq!(body["messages"].as_array().unwrap().len(), 0);
}

#[test]
fn role_names() {
    assert_eq!(Role::Developer.as_str(), "developer");
    assert_eq!(Role::User.as_str(), "user");
    assert_eq!(Role::Assistant.as_str(), "assistant");
}

#[test]
fn config_requires_both_values() {
    assert_eq!(
        Config::from_values(None, Some("m".to_string())).unwrap_err(),
        ConfigError::MissingApiKey
    );
    assert_eq!(
        Config::from_values(Some("k".to_string()), None).unwrap_err(),
        ConfigError::MissingModel
    );
    let c = Config::from_values(Some("k".to_string()), Some("m".to_string())).unwrap();
    assert_eq!(c.api_key, "k");
    assert_eq!(c.model, "m");
}
