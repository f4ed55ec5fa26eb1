use llm_gateway::{
    AuthType, ChatMessage, ErrorKind, HeaderBuildContext, HeaderMap, JsonMember, JsonNumber,
    JsonValue, OpenAiProtocol, ProtocolType, ProviderConfig, RequestBuildContext,
};

fn config() -> ProviderConfig {
    ProviderConfig {
        id: "vendor".to_string(),
        name: "Vendor".to_string(),
        protocol: ProtocolType::OpenAiCompatible,
        base_url: "https://api.example/v1".to_string(),
        api_key_name: "VENDOR_API_KEY".to_string(),
        supports_oauth: false,
        supports_coding_plan: false,
        supports_international: false,
        coding_plan_base_url: None,
        international_base_url: None,
        headers: None,
        extra_body: None,
        auth_type: AuthType::Bearer,
    }
}

fn member(name: &str, value: JsonValue) -> JsonMember {
    JsonMember { name: name.to_string(), value }
}

fn text(s: &str) -> JsonValue {
    JsonValue::String(s.to_string())
}

fn message(role: &str, content: &str) -> ChatMessage {
    ChatMessage { role: role.to_string(), content: content.to_string() }
}

fn message_document(role: &str, content: &str) -> JsonValue {
    JsonValue::Object(vec![member("role", text(role)), member("content", text(content))])
}

#[test]
fn dialect_fixes_the_content_type() {
    let c = config();
    let headers = OpenAiProtocol {}.build_base_headers(HeaderBuildContext { config: &c });
    assert_eq!(headers.len(), 1);
    assert_eq!(headers.get("Content-Type").map(|s| s.as_str()), Some("application/json"));
    assert_eq!(headers.get("Authorization"), None);
}

#[test]
fn vendor_headers_are_laid_over_the_dialect() {
    let mut c = config();
    let mut vendor = HeaderMap::new();
    vendor.insert("X-Vendor".to_string(), "yes".to_string());
    vendor.insert("Content-Type".to_string(), "application/json; charset=utf-8".to_string());
    c.headers = Some(vendor);
    let headers = OpenAiProtocol {}.build_base_headers(HeaderBuildContext { config: &c });
    assert_eq!(headers.len(), 2);
    assert_eq!(
        headers.get("Content-Type").map(|s| s.as_str()),
        Some("application/json; charset=utf-8")
    );
    assert_eq!(headers.get("X-Vendor").map(|s| s.as_str()), Some("yes"));
}

#[test]
fn request_body_has_the_dialect_shape() {
    let messages = vec![message("system", "be brief"), message("user", "hi")];
    let body = OpenAiProtocol {}
        .build_request(RequestBuildContext {
            model: "m1",
            messages: &messages,
            stream: true,
            max_tokens: Some(256),
            extra_body: None,
        })
        .expect("body");
    assert_eq!(
        body,
        JsonValue::Object(vec![
            member("model", text("m1")),
            member(
                "messages",
                JsonValue::Array(vec![
                    message_document("system", "be brief"),
                    message_document("user", "hi"),
                ])
            ),
            member("stream", JsonValue::Bool(true)),
            member(
                "max_tokens",
                JsonValue::Number(JsonNumber {
                    text: "256".to_string(),
                    unsigned: Some(256),
                    signed: Some(256)
                })
            ),
        ])
    );
}

#[test]
fn request_body_without_a_limit() {
    let messages = vec![message("user", "hi")];
    let body = OpenAiProtocol {}
        .build_request(RequestBuildContext {
            model: "m1",
            messages: &messages,
            stream: false,
            max_tokens: None,
            extra_body: None,
        })
        .expect("body");
    assert_eq!(
        body,
        JsonValue::Object(vec![
            member("model", text("m1")),
            member("messages", JsonValue::Array(vec![message_document("user", "hi")])),
            member("stream", JsonValue::Bool(false)),
        ])
    );
}

#[test]
fn vendor_defaults_fill_in_what_the_request_leaves_open() {
    let messages = vec![message("user", "hi")];
    let extra = JsonValue::Object(vec![
        member("thinking", JsonValue::Object(vec![member("type", text("disabled"))])),
        member("model", text("overridden")),
        member("stream", JsonValue::Bool(false)),
        member("seed", JsonValue::Number(JsonNumber {
            text: "7".to_string(),
            unsigned: Some(7),
            signed: Some(7),
        })),
        member("thinking", text("second")),
    ]);
    let body = OpenAiProtocol {}
        .build_request(RequestBuildContext {
            model: "m1",
            messages: &messages,
            stream: true,
            max_tokens: None,
            extra_body: Some(&extra),
        })
        .expect("body");
    assert_eq!(
        body,
        JsonValue::Object(vec![
            member("model", text("m1")),
            member("messages", JsonValue::Array(vec![message_document("user", "hi")])),
            member("stream", JsonValue::Bool(true)),
            member("thinking", JsonValue::Object(vec![member("type", text("disabled"))])),
            member("seed", JsonValue::Number(JsonNumber {
            text: "7".to_string(),
            unsigned: Some(7),
            signed: Some(7),
        })),
        ])
    );
}

#[test]
fn defaults_that_are_no_object_are_ignored() {
    let messages = vec![message("user", "hi")];
    for extra in [JsonValue::Null, text("x"), JsonValue::Array(vec![text("model")])] {
        let body = OpenAiProtocol {}
            .build_request(RequestBuildContext {
                model: "m1",
                messages: &messages,
                stream: true,
                max_tokens: None,
                extra_body: Some(&extra),
            })
            .expect("body");
        assert_eq!(body.as_members().map(|m| m.len()), Some(3));
    }
}

#[test]
fn request_without_a_model_cannot_be_built() {
    let messages = vec![message("user", "hi")];
    let err = OpenAiProtocol {}
        .build_request(RequestBuildContext {
            model: "",
            messages: &messages,
            stream: true,
            max_tokens: None,
            extra_body: None,
        })
        .unwrap_err();
    assert_eq!(err.kind, ErrorKind::RequestBuildFailed);
    assert_eq!(err.message, "model is required");
}

#[test]
fn request_without_messages_cannot_be_built() {
    let messages = vec![];
    let err = OpenAiProtocol {}
        .build_request(RequestBuildContext {
            model: "m1",
            messages: &messages,
            stream: true,
            max_tokens: None,
            extra_body: None,
        })
        .unwrap_err();
    assert_eq!(err.kind, ErrorKind::RequestBuildFailed);
    assert_eq!(err.message, "messages are required");
    let err = OpenAiProtocol {}
        .build_request(RequestBuildContext {
            model: "",
            messages: &messages,
            stream: true,
            max_tokens: None,
            extra_body: None,
        })
        .unwrap_err();
    assert_eq!(err.message, "model is required");
}

#[test]
fn a_default_that_is_a_fraction_keeps_its_numeral() {
    let messages = vec![message("user", "hi")];
    let extra = llm_gateway::json::parse_json(br#"{"temperature":0.7,"top_k":-3}"#).expect("json");
    let body = OpenAiProtocol {}
        .build_request(RequestBuildContext {
            model: "m1",
            messages: &messages,
            stream: true,
            max_tokens: None,
            extra_body: Some(&extra),
        })
        .expect("body");
    let temperature = body.get("temperature").and_then(|t| t.as_number()).expect("number");
    assert_eq!(temperature.text, "0.7");
    assert_eq!(temperature.unsigned, None);
    assert_eq!(temperature.signed, None);
    let top_k = body.get("top_k").and_then(|t| t.as_number()).expect("number");
    assert_eq!(top_k.text, "-3");
    assert_eq!(top_k.unsigned, None);
    assert_eq!(top_k.signed, Some(-3));
}
