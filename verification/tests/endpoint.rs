use llm_gateway::{
    AuthType, BaseProvider, EndpointPreference, EndpointResolver, ErrorKind, ProtocolType,
    ProviderConfig,
};

fn config(base_url: &str) -> ProviderConfig {
    ProviderConfig {
        id: "moonshot".to_string(),
        name: "Moonshot".to_string(),
        protocol: ProtocolType::OpenAiCompatible,
        base_url: base_url.to_string(),
        api_key_name: "MOONSHOT_API_KEY".to_string(),
        supports_oauth: false,
        supports_coding_plan: false,
        supports_international: false,
        coding_plan_base_url: None,
        international_base_url: None,
        headers: None,
        extra_body: None,
        auth_type: AuthType::Bearer,
    }
}

fn tiers(coding: Option<&str>, international: Option<&str>) -> ProviderConfig {
    let mut c = config("https://api.example/v1/");
    c.supports_coding_plan = true;
    c.supports_international = true;
    c.coding_plan_base_url = coding.map(|s| s.to_string());
    c.international_base_url = international.map(|s| s.to_string());
    c
}

fn prefer(use_coding_plan: bool, use_international: bool) -> EndpointPreference {
    EndpointPreference { use_coding_plan, use_international }
}

fn resolve(c: &ProviderConfig, p: EndpointPreference) -> String {
    EndpointResolver::resolve(c, p).expect("url")
}

#[test]
fn default_url_loses_one_trailing_slash() {
    assert_eq!(resolve(&config("https://api.example/v1/"), prefer(false, false)), "https://api.example/v1");
    assert_eq!(resolve(&config("https://api.example/v1"), prefer(false, false)), "https://api.example/v1");
    assert_eq!(resolve(&config("https://api.example/v1//"), prefer(false, false)), "https://api.example/v1/");
}

#[test]
fn default_url_whatever_the_preference() {
    for p in [prefer(false, false), prefer(true, false), prefer(false, true), prefer(true, true)] {
        assert_eq!(resolve(&config("https://api.example/v1/"), p), "https://api.example/v1");
    }
}

#[test]
fn enabled_alternate_tier_is_preferred() {
    let c = tiers(Some("https://coding.example/v1/"), Some("https://intl.example/v1"));
    assert_eq!(resolve(&c, prefer(true, false)), "https://coding.example/v1");
    assert_eq!(resolve(&c, prefer(false, true)), "https://intl.example/v1");
    assert_eq!(resolve(&c, prefer(false, false)), "https://api.example/v1");
}

#[test]
fn coding_plan_comes_before_international() {
    let c = tiers(Some("https://coding.example/v1"), Some("https://intl.example/v1"));
    assert_eq!(resolve(&c, prefer(true, true)), "https://coding.example/v1");
}

#[test]
fn tier_without_support_is_not_taken() {
    let mut c = tiers(Some("https://coding.example/v1"), Some("https://intl.example/v1"));
    c.supports_coding_plan = false;
    assert_eq!(resolve(&c, prefer(true, false)), "https://api.example/v1");
    assert_eq!(resolve(&c, prefer(true, true)), "https://intl.example/v1");
    c.supports_international = false;
    assert_eq!(resolve(&c, prefer(true, true)), "https://api.example/v1");
}

#[test]
fn tier_without_a_usable_url_falls_back() {
    assert_eq!(resolve(&tiers(None, None), prefer(true, true)), "https://api.example/v1");
    assert_eq!(resolve(&tiers(Some(""), Some("/")), prefer(true, true)), "https://api.example/v1");
    assert_eq!(
        resolve(&tiers(Some(""), Some("https://intl.example")), prefer(true, true)),
        "https://intl.example"
    );
}

#[test]
fn alternate_tier_can_stand_in_for_a_missing_default() {
    let mut c = tiers(Some("https://coding.example/v1"), None);
    c.base_url = String::new();
    assert_eq!(resolve(&c, prefer(true, false)), "https://coding.example/v1");
    let err = EndpointResolver::resolve(&c, prefer(false, false)).unwrap_err();
    assert_eq!(err.kind, ErrorKind::EndpointUnresolved);
}

#[test]
fn no_usable_url_is_an_error_that_names_the_vendor() {
    for base in ["", "/"] {
        let err = EndpointResolver::resolve(&config(base), prefer(false, false)).unwrap_err();
        assert_eq!(err.kind, ErrorKind::EndpointUnresolved);
        assert_eq!(err.message, "No usable base URL configured for provider 'moonshot'");
        assert_eq!(err.status, None);
        assert_eq!(err.body, None);
    }
}

#[test]
fn base_provider_resolves_alike() {
    let base = BaseProvider::new(tiers(Some("https://coding.example/v1/"), None));
    assert_eq!(
        base.resolve_base_url_with_fallback(prefer(true, false)).expect("url"),
        "https://coding.example/v1"
    );
    assert_eq!(
        base.resolve_base_url_with_fallback(prefer(false, true)).expect("url"),
        "https://api.example/v1"
    );
}
