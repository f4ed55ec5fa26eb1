use llm_gateway::{
    AuthType, EndpointPreference, ErrorKind, GeneratedImage, ImageGenerationRequest, JsonMember,
    JsonNumber, JsonValue, ProtocolType, ProviderConfig, ProviderCredentials,
    VolcengineImageClient,
};

fn volcengine_config(base_url: &str) -> ProviderConfig {
    ProviderConfig {
        id: "volcengine".to_string(),
        name: "Volcengine".to_string(),
        protocol: ProtocolType::OpenAiCompatible,
        base_url: base_url.to_string(),
        api_key_name: "VOLCENGINE_API_KEY".to_string(),
        supports_oauth: false,
        supports_coding_plan: false,
        supports_international: false,
        coding_plan_base_url: None,
        international_base_url: None,
        headers: None,
        extra_body: None,
        auth_type: AuthType::Bearer,
    }
}

fn no_preference() -> EndpointPreference {
    EndpointPreference { use_coding_plan: false, use_international: false }
}

fn plain_request(prompt: &str) -> ImageGenerationRequest {
    ImageGenerationRequest {
        prompt: prompt.to_string(),
        size: None,
        quality: None,
        n: None,
        response_format: None,
    }
}

fn member(name: &str, value: JsonValue) -> JsonMember {
    JsonMember { name: name.to_string(), value }
}

#[test]
fn parses_volcengine_image_response_with_b64() {
    let json = r#"{"data":[{"b64_json":"abc123","revised_prompt":"refined prompt"}]}"#;
    let parsed = VolcengineImageClient::read_response(200, json).expect("parse response");
    assert_eq!(parsed.len(), 1);
    assert_eq!(parsed[0].b64_json.as_deref(), Some("abc123"));
    assert_eq!(parsed[0].revised_prompt.as_deref(), Some("refined prompt"));
}

#[test]
fn parses_volcengine_image_response_with_url() {
    let json = r#"{"data":[{"url":"https://example.com/image.png"}]}"#;
    let parsed = VolcengineImageClient::read_response(200, json).expect("parse response");
    assert_eq!(parsed.len(), 1);
    assert_eq!(parsed[0].url.as_deref(), Some("https://example.com/image.png"));
}

#[test]
fn volcengine_image_client_constructs() {
    let config = ProviderConfig {
        id: "volcengine".to_string(),
        name: "Volcengine".to_string(),
        protocol: llm_gateway::ProtocolType::OpenAiCompatible,
        base_url: "https://ark.cn-beijing.volces.com/api/v3".to_string(),
        api_key_name: "VOLCENGINE_API_KEY".to_string(),
        supports_oauth: false,
        supports_coding_plan: false,
        supports_international: false,
        coding_plan_base_url: None,
        international_base_url: None,
        headers: None,
        extra_body: None,
        auth_type: llm_gateway::AuthType::Bearer,
    };
    let _client = VolcengineImageClient::new(config);
}

#[test]
fn client_keeps_its_configuration() {
    let client = VolcengineImageClient::new(volcengine_config("https://ark.example/api/v3"));
    assert_eq!(client.config().id, "volcengine");
    assert_eq!(client.config().api_key_name, "VOLCENGINE_API_KEY");
}

#[test]
fn inline_image_is_normalized() {
    let body = r#"{"data":[{"b64_json":"abc123","revised_prompt":"refined"}]}"#;
    let images = VolcengineImageClient::read_response(200, body).expect("images");
    assert_eq!(
        images,
        vec![GeneratedImage {
            b64_json: Some("abc123".to_string()),
            url: None,
            mime_type: "image/png".to_string(),
            revised_prompt: Some("refined".to_string()),
        }]
    );
}

#[test]
fn linked_image_is_normalized() {
    let body = r#"{"data":[{"url":"https://x/y.png"}]}"#;
    let images = VolcengineImageClient::read_response(200, body).expect("images");
    assert_eq!(images.len(), 1);
    assert_eq!(images[0].url.as_deref(), Some("https://x/y.png"));
    assert_eq!(images[0].b64_json, None);
    assert_eq!(images[0].mime_type, "image/png");
    assert_eq!(images[0].revised_prompt, None);
}

#[test]
fn images_keep_their_order() {
    let body = r#"{"data":[{"url":"a"},{"b64_json":"b","url":null},{}],"created":1}"#;
    let images = VolcengineImageClient::read_response(201, body).expect("images");
    assert_eq!(images.len(), 3);
    assert_eq!(images[0].url.as_deref(), Some("a"));
    assert_eq!(images[1].b64_json.as_deref(), Some("b"));
    assert_eq!(images[1].url, None);
    assert_eq!(images[2].b64_json, None);
    assert_eq!(images[2].url, None);
}

#[test]
fn empty_data_gives_no_image() {
    let images = VolcengineImageClient::read_response(200, r#"{"data":[]}"#).expect("images");
    assert!(images.is_empty());
}

#[test]
fn missing_credential_fails_before_anything_is_built() {
    let client = VolcengineImageClient::new(volcengine_config("https://ark.example/api/v3"));
    let err = client
        .prepare(&ProviderCredentials::NotConfigured, no_preference(), "m1", &plain_request("a"))
        .err().unwrap();
    assert_eq!(err.kind, ErrorKind::CredentialMissing);
    assert_eq!(
        err.message,
        "API key not configured for Volcengine image generation / Volcengine 图片生成未配置 API 密钥"
    );
    assert_eq!(err.status, None);
}

#[test]
fn missing_credential_comes_before_a_missing_endpoint() {
    let client = VolcengineImageClient::new(volcengine_config(""));
    let err = client
        .prepare(&ProviderCredentials::NotConfigured, no_preference(), "m1", &plain_request("a"))
        .err().unwrap();
    assert_eq!(err.kind, ErrorKind::CredentialMissing);
}

#[test]
fn missing_endpoint_is_reported() {
    let client = VolcengineImageClient::new(volcengine_config("/"));
    let err = client
        .prepare(
            &ProviderCredentials::Token("k".to_string()),
            no_preference(),
            "m1",
            &plain_request("a"),
        )
        .err()
        .unwrap();
    assert_eq!(err.kind, ErrorKind::EndpointUnresolved);
    assert_eq!(err.message, "No usable base URL configured for provider 'volcengine'");
}

#[test]
fn request_is_built_for_the_image_endpoint() {
    let client = VolcengineImageClient::new(volcengine_config("https://ark.example/api/v3///"));
    let out = client
        .prepare(
            &ProviderCredentials::Token("secret".to_string()),
            no_preference(),
            "m1",
            &plain_request("a"),
        )
        .expect("request");
    assert_eq!(out.url, "https://ark.example/api/v3/images/generations");
    assert_eq!(out.headers.len(), 2);
    assert_eq!(out.headers.get("Content-Type").map(|s| s.as_str()), Some("application/json"));
    assert_eq!(out.headers.get("Authorization").map(|s| s.as_str()), Some("Bearer secret"));
    assert_eq!(
        out.body,
        JsonValue::Object(vec![
            member("model", JsonValue::String("m1".to_string())),
            member("prompt", JsonValue::String("a".to_string())),
        ])
    );
}

#[test]
fn optional_fields_follow_in_order() {
    let client = VolcengineImageClient::new(volcengine_config("https://ark.example/api/v3"));
    let request = ImageGenerationRequest {
        prompt: "a cat".to_string(),
        size: Some("1024x1024".to_string()),
        quality: None,
        n: Some(2),
        response_format: Some("url".to_string()),
    };
    let out = client
        .prepare(&ProviderCredentials::Token("k".to_string()), no_preference(), "seedream", &request)
        .expect("request");
    assert_eq!(
        out.body,
        JsonValue::Object(vec![
            member("model", JsonValue::String("seedream".to_string())),
            member("prompt", JsonValue::String("a cat".to_string())),
            member("size", JsonValue::String("1024x1024".to_string())),
            member(
                "n",
                JsonValue::Number(JsonNumber {
                    text: "2".to_string(),
                    unsigned: Some(2),
                    signed: Some(2)
                })
            ),
            member("response_format", JsonValue::String("url".to_string())),
        ])
    );
}

#[test]
fn token_with_a_line_break_cannot_be_sent() {
    let client = VolcengineImageClient::new(volcengine_config("https://ark.example/api/v3"));
    let err = client
        .prepare(
            &ProviderCredentials::Token("bad\ntoken".to_string()),
            no_preference(),
            "m1",
            &plain_request("a"),
        )
        .err()
        .unwrap();
    assert_eq!(err.kind, ErrorKind::RequestBuildFailed);
    assert_eq!(err.message, "Invalid header value for Authorization (provider 'volcengine')");
}

#[test]
fn token_with_a_tab_can_be_sent() {
    let client = VolcengineImageClient::new(volcengine_config("https://ark.example/api/v3"));
    let out = client.prepare(
        &ProviderCredentials::Token("a\tb".to_string()),
        no_preference(),
        "m1",
        &plain_request("a"),
    );
    assert!(out.is_ok());
}

#[test]
fn upstream_failure_carries_status_and_body() {
    let err = VolcengineImageClient::read_response(429, "slow down").unwrap_err();
    assert_eq!(err.kind, ErrorKind::UpstreamError);
    assert_eq!(
        err.message,
        "Volcengine image generation failed (429 Too Many Requests): slow down / Volcengine 图片生成失败"
    );
    assert_eq!(err.status, Some(429));
    assert_eq!(err.body.as_deref(), Some("slow down"));
}

#[test]
fn status_bounds_of_success() {
    assert!(VolcengineImageClient::read_response(199, r#"{"data":[]}"#).is_err());
    assert!(VolcengineImageClient::read_response(200, r#"{"data":[]}"#).is_ok());
    assert!(VolcengineImageClient::read_response(299, r#"{"data":[]}"#).is_ok());
    assert!(VolcengineImageClient::read_response(300, r#"{"data":[]}"#).is_err());
}

#[test]
fn body_that_is_no_json_is_a_parse_failure() {
    let err = VolcengineImageClient::read_response(200, "not json").unwrap_err();
    assert_eq!(err.kind, ErrorKind::ResponseParseFailed);
    assert!(err.message.starts_with("Failed to parse Volcengine response: "));
    assert!(err.message.len() > "Failed to parse Volcengine response: ".len());
    assert_eq!(err.status, None);
    assert_eq!(err.body, None);
}

#[test]
fn payload_of_another_shape_is_a_parse_failure() {
    for body in [
        r#"{}"#,
        r#"{"data":{}}"#,
        r#"{"data":[1]}"#,
        r#"{"data":[{"url":5}]}"#,
        r#"{"data":[{"url":"a"},{"b64_json":false}]}"#,
        r#"[]"#,
    ] {
        let err = VolcengineImageClient::read_response(200, body).unwrap_err();
        assert_eq!(err.kind, ErrorKind::ResponseParseFailed);
        assert_eq!(err.message, "Failed to parse Volcengine response: unexpected payload shape");
    }
}

#[test]
fn images_from_reads_a_document_built_by_hand() {
    let payload = JsonValue::Object(vec![member(
        "data",
        JsonValue::Array(vec![JsonValue::Object(vec![
            member("url", JsonValue::String("u".to_string())),
            member("revised_prompt", JsonValue::Null),
        ])]),
    )]);
    let images = VolcengineImageClient::images_from(&payload).expect("images");
    assert_eq!(images.len(), 1);
    assert_eq!(images[0].url.as_deref(), Some("u"));
    assert_eq!(images[0].revised_prompt, None);
    assert_eq!(images[0].mime_type, "image/png");
}

#[test]
fn token_is_required_first() {
    let token = ProviderCredentials::Token("sk".to_string());
    assert_eq!(VolcengineImageClient::require_token(&token).map(|t| t.as_str()).ok(), Some("sk"));
    let err = VolcengineImageClient::require_token(&ProviderCredentials::NotConfigured)
        .err()
        .unwrap();
    assert_eq!(err.kind, ErrorKind::CredentialMissing);
    assert!(err.message.starts_with("API key not configured for Volcengine image generation / "));
}

#[test]
fn status_is_written_out_with_its_reason() {
    let cases = [
        (404, "404 Not Found"),
        (500, "500 Internal Server Error"),
        (199, "199 <unknown status code>"),
        (799, "799 <unknown status code>"),
        (42, "42 <unknown status code>"),
        (1000, "1000 <unknown status code>"),
        (0, "0 <unknown status code>"),
    ];
    for (status, line) in cases {
        let err = VolcengineImageClient::read_response(status, "b").unwrap_err();
        assert_eq!(
            err.message,
            format!("Volcengine image generation failed ({}): b / Volcengine 图片生成失败", line)
        );
        assert_eq!(err.status, Some(status));
    }
}

#[test]
fn upstream_failure_is_built_from_its_parts() {
    let e = VolcengineImageClient::upstream_failure(418, &Some("I'm a teapot".to_string()), "x");
    assert_eq!(e.kind, ErrorKind::UpstreamError);
    assert_eq!(
        e.message,
        "Volcengine image generation failed (418 I'm a teapot): x / Volcengine 图片生成失败"
    );
    let e = VolcengineImageClient::upstream_failure(418, &None, "");
    assert_eq!(
        e.message,
        "Volcengine image generation failed (418 <unknown status code>):  / Volcengine 图片生成失败"
    );
    assert_eq!(e.body.as_deref(), Some(""));
}

#[test]
fn of_two_members_of_one_name_the_last_counts() {
    let body = r#"{"data":[{"url":"first","url":"second"}]}"#;
    let images = VolcengineImageClient::read_response(200, body).expect("images");
    assert_eq!(images[0].url.as_deref(), Some("second"));
}
