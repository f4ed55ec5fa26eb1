use llm_gateway::{
    AuthType, BaseProvider, ChatMessage, CredentialResolver, EndpointPreference, ErrorKind,
    HeaderBuildContext, HeaderMap, KimiCodingProvider, ProtocolType, Provider, ProviderConfig,
    ProviderCredentials, RequestBuildContext, StreamEvent, StreamParseContext, StreamParseState,
};

fn kimi_config() -> ProviderConfig {
    ProviderConfig {
        id: "kimi_coding".to_string(),
        name: "Kimi Coding Plan".to_string(),
        protocol: ProtocolType::OpenAiCompatible,
        base_url: "https://api.kimi.com/coding/v1/".to_string(),
        api_key_name: "KIMI_CODING_API_KEY".to_string(),
        supports_oauth: false,
        supports_coding_plan: false,
        supports_international: false,
        coding_plan_base_url: None,
        international_base_url: None,
        headers: None,
        extra_body: None,
        auth_type: AuthType::Bearer,
    }
}

fn token(t: &str) -> ProviderCredentials {
    ProviderCredentials::Token(t.to_string())
}

fn value<'a>(headers: &'a HeaderMap, name: &str) -> Option<&'a str> {
    headers.get(name).map(|s| s.as_str())
}

#[test]
fn store_answers_become_credentials() {
    assert!(CredentialResolver::resolve(Ok(Some("sk-1".to_string()))) == Ok(token("sk-1")));
    assert!(CredentialResolver::resolve(Ok(Some(String::new()))) == Ok(token("")));
    assert!(CredentialResolver::resolve(Ok(None)) == Ok(ProviderCredentials::NotConfigured));
    let err = CredentialResolver::resolve(Err("store is down".to_string())).err().unwrap();
    assert_eq!(err.kind, ErrorKind::TransportFailed);
    assert_eq!(err.message, "store is down");
}

#[test]
fn lookup_goes_by_the_credential_name() {
    assert_eq!(CredentialResolver::lookup_name(&kimi_config()), "KIMI_CODING_API_KEY");
}

#[test]
fn provider_reports_what_it_is_bound_to() {
    let p = KimiCodingProvider::new(kimi_config());
    assert_eq!(p.id(), "kimi_coding");
    assert_eq!(p.name(), "Kimi Coding Plan");
    assert_eq!(p.protocol_type(), ProtocolType::OpenAiCompatible);
    assert_eq!(p.config().id, "kimi_coding");
    assert_eq!(p.config().base_url, "https://api.kimi.com/coding/v1/");
    assert_eq!(p.config().auth_type, AuthType::Bearer);
}

#[test]
fn provider_resolves_its_base_url() {
    let p = KimiCodingProvider::new(kimi_config());
    let url = p
        .resolve_base_url(EndpointPreference { use_coding_plan: true, use_international: true })
        .expect("url");
    assert_eq!(url, "https://api.kimi.com/coding/v1");
}

#[test]
fn absent_credential_is_credential_missing() {
    let p = KimiCodingProvider::new(kimi_config());
    let err = p.get_credentials(Ok(None)).err().unwrap();
    assert_eq!(err.kind, ErrorKind::CredentialMissing);
    assert_eq!(err.message, "API key 'KIMI_CODING_API_KEY' not found for provider 'kimi_coding'");
}

#[test]
fn present_credential_is_a_token() {
    let p = KimiCodingProvider::new(kimi_config());
    assert!(p.get_credentials(Ok(Some("sk-kimi".to_string()))) == Ok(token("sk-kimi")));
}

#[test]
fn failing_store_is_a_transport_failure() {
    let p = KimiCodingProvider::new(kimi_config());
    let err = p.get_credentials(Err("timeout".to_string())).err().unwrap();
    assert_eq!(err.kind, ErrorKind::TransportFailed);
    assert_eq!(err.message, "timeout (provider 'kimi_coding')");
}

#[test]
fn provider_header_is_added() {
    let p = KimiCodingProvider::new(kimi_config());
    let mut headers = HeaderMap::new();
    headers.insert("Accept".to_string(), "text/event-stream".to_string());
    assert_eq!(p.add_provider_headers(&mut headers), Ok(()));
    assert_eq!(headers.len(), 2);
    assert_eq!(value(&headers, "User-Agent"), Some("KimiCLI/1.3"));
    assert_eq!(value(&headers, "Accept"), Some("text/event-stream"));
}

#[test]
fn provider_header_wins_over_what_was_there() {
    let p = KimiCodingProvider::new(kimi_config());
    let mut headers = HeaderMap::new();
    headers.insert("User-Agent".to_string(), "curl/8".to_string());
    assert_eq!(p.add_provider_headers(&mut headers), Ok(()));
    assert_eq!(headers.len(), 1);
    assert_eq!(value(&headers, "User-Agent"), Some("KimiCLI/1.3"));
}

#[test]
fn request_headers_are_layered_in_order() {
    let mut config = kimi_config();
    let mut vendor = HeaderMap::new();
    vendor.insert("User-Agent".to_string(), "from-config".to_string());
    vendor.insert("Authorization".to_string(), "from-config".to_string());
    vendor.insert("X-Vendor".to_string(), "1".to_string());
    config.headers = Some(vendor);
    let p = KimiCodingProvider::new(config);
    let headers = p.request_headers(&token("sk-9")).expect("headers");
    assert_eq!(headers.len(), 4);
    assert_eq!(value(&headers, "Content-Type"), Some("application/json"));
    assert_eq!(value(&headers, "X-Vendor"), Some("1"));
    assert_eq!(value(&headers, "Authorization"), Some("Bearer sk-9"));
    assert_eq!(value(&headers, "User-Agent"), Some("KimiCLI/1.3"));
}

#[test]
fn request_headers_need_the_credential() {
    let p = KimiCodingProvider::new(kimi_config());
    let err = p.request_headers(&ProviderCredentials::NotConfigured).err().unwrap();
    assert_eq!(err.kind, ErrorKind::CredentialMissing);
    assert_eq!(err.message, "API key 'KIMI_CODING_API_KEY' not found for provider 'kimi_coding'");
}

#[test]
fn authorization_follows_the_scheme() {
    let mut config = kimi_config();
    config.auth_type = AuthType::ApiKey;
    let base = BaseProvider::new(config);
    let mut headers = HeaderMap::new();
    assert_eq!(base.authorize(&token("k1"), &mut headers), Ok(()));
    assert_eq!(value(&headers, "x-api-key"), Some("k1"));
    assert_eq!(value(&headers, "Authorization"), None);

    let mut config = kimi_config();
    config.auth_type = AuthType::Unauthenticated;
    let base = BaseProvider::new(config);
    let mut headers = HeaderMap::new();
    assert_eq!(base.authorize(&ProviderCredentials::NotConfigured, &mut headers), Ok(()));
    assert_eq!(base.authorize(&token("unused"), &mut headers), Ok(()));
    assert_eq!(headers.len(), 0);

    let base = BaseProvider::new(kimi_config());
    let mut headers = HeaderMap::new();
    headers.insert("Accept".to_string(), "*/*".to_string());
    let err = base.authorize(&ProviderCredentials::NotConfigured, &mut headers).unwrap_err();
    assert_eq!(err.kind, ErrorKind::CredentialMissing);
    assert_eq!(headers.len(), 1);
    assert_eq!(base.authorize(&token("t"), &mut headers), Ok(()));
    assert_eq!(value(&headers, "Authorization"), Some("Bearer t"));
}

#[test]
fn provider_passes_through_to_the_dialect() {
    let p = KimiCodingProvider::new(kimi_config());
    let headers = p.build_protocol_headers(HeaderBuildContext { config: p.config() });
    assert_eq!(headers.len(), 1);
    assert_eq!(value(&headers, "Content-Type"), Some("application/json"));

    let messages = vec![ChatMessage { role: "user".to_string(), content: "hi".to_string() }];
    let body = p
        .build_protocol_request(RequestBuildContext {
            model: "kimi-k2",
            messages: &messages,
            stream: true,
            max_tokens: None,
            extra_body: None,
        })
        .expect("body");
    assert_eq!(body.get("model").and_then(|m| m.as_text()).map(|s| s.as_str()), Some("kimi-k2"));

    let err = p
        .build_protocol_request(RequestBuildContext {
            model: "",
            messages: &messages,
            stream: true,
            max_tokens: None,
            extra_body: None,
        })
        .unwrap_err();
    assert_eq!(err.kind, ErrorKind::RequestBuildFailed);
    assert_eq!(err.message, "model is required (provider 'kimi_coding')");
    let err = p
        .build_protocol_request(RequestBuildContext {
            model: "kimi-k2",
            messages: &Vec::new(),
            stream: true,
            max_tokens: None,
            extra_body: None,
        })
        .unwrap_err();
    assert_eq!(err.message, "messages are required (provider 'kimi_coding')");

    let mut state = StreamParseState::new();
    let err = p
        .parse_protocol_stream_event(StreamParseContext { chunk: b"data: {oops\n" }, &mut state)
        .unwrap_err();
    assert_eq!(err.kind, ErrorKind::ResponseParseFailed);
    assert!(err.message.starts_with("Failed to parse stream payload: "));
    assert!(err.message.ends_with(" (provider 'kimi_coding')"));
    let event = p.parse_protocol_stream_event(
        StreamParseContext { chunk: b"data: {\"choices\":[{\"delta\":{\"content\":\"k\"}}]}\n" },
        &mut state,
    );
    assert_eq!(event, Ok(Some(StreamEvent::ContentDelta { text: "k".to_string() })));
    let done = p.parse_protocol_stream_event(StreamParseContext { chunk: b"data: [DONE]\n" }, &mut state);
    assert!(matches!(done, Ok(Some(StreamEvent::Done { .. }))));
    assert_eq!(
        p.parse_protocol_stream_event(StreamParseContext { chunk: b"data: [DONE]\n" }, &mut state),
        Ok(None)
    );
}

#[test]
fn missing_credential_names_credential_and_vendor() {
    let mut config = kimi_config();
    config.id = "vendor-x".to_string();
    config.api_key_name = "X_KEY".to_string();
    let p = KimiCodingProvider::new(config);
    let err = p.get_credentials(Ok(None)).err().unwrap();
    assert_eq!(err.kind, ErrorKind::CredentialMissing);
    assert_eq!(err.message, "API key 'X_KEY' not found for provider 'vendor-x'");
    assert!(err.message.contains("X_KEY"));
    assert!(err.message.contains("vendor-x"));
}

#[test]
fn request_headers_that_the_transport_refuses_are_not_handed_out() {
    let mut config = kimi_config();
    let mut vendor = HeaderMap::new();
    vendor.insert("X Bad".to_string(), "1".to_string());
    config.headers = Some(vendor);
    let p = KimiCodingProvider::new(config);
    let err = p.request_headers(&token("sk-9")).err().unwrap();
    assert_eq!(err.kind, ErrorKind::RequestBuildFailed);
    assert_eq!(err.message, "Invalid header name X Bad (provider 'kimi_coding')");

    let p = KimiCodingProvider::new(kimi_config());
    let err = p.request_headers(&token("line\nbreak")).err().unwrap();
    assert_eq!(err.kind, ErrorKind::RequestBuildFailed);
    assert_eq!(err.message, "Invalid header value for Authorization (provider 'kimi_coding')");
}

#[test]
fn status_decides_on_a_response() {
    let p = KimiCodingProvider::new(kimi_config());
    assert_eq!(p.check_status(200, "ok"), Ok(()));
    assert_eq!(p.check_status(204, ""), Ok(()));
    assert_eq!(p.check_status(299, ""), Ok(()));
    let err = p.check_status(401, "{\"error\":\"bad key\"}").unwrap_err();
    assert_eq!(err.kind, ErrorKind::UpstreamError);
    assert_eq!(err.message, "Kimi Coding Plan answered 401 Unauthorized");
    assert_eq!(err.status, Some(401));
    assert_eq!(err.body.as_deref(), Some("{\"error\":\"bad key\"}"));
    let err = p.check_status(199, "").unwrap_err();
    assert_eq!(err.message, "Kimi Coding Plan answered 199 <unknown status code>");
    let err = p.check_status(300, "").unwrap_err();
    assert_eq!(err.message, "Kimi Coding Plan answered 300 Multiple Choices");
    let base = BaseProvider::new(kimi_config());
    let err = base.check_status(503, "busy").unwrap_err();
    assert_eq!(err.message, "Kimi Coding Plan answered 503 Service Unavailable");
}
