use llm_gateway::{ErrorKind, HeaderMap};

fn map(pairs: &[(&str, &str)]) -> HeaderMap {
    let mut m = HeaderMap::new();
    for (name, value) in pairs {
        m.insert(name.to_string(), value.to_string());
    }
    m
}

fn value<'a>(headers: &'a HeaderMap, name: &str) -> Option<&'a str> {
    headers.get(name).map(|s| s.as_str())
}

#[test]
fn new_map_is_empty() {
    let m = HeaderMap::new();
    assert_eq!(m.len(), 0);
    assert_eq!(value(&m, "Accept"), None);
}

#[test]
fn insert_adds_and_replaces() {
    let mut m = HeaderMap::new();
    m.insert("Accept".to_string(), "a".to_string());
    m.insert("Content-Type".to_string(), "b".to_string());
    assert_eq!(m.len(), 2);
    m.insert("Accept".to_string(), "c".to_string());
    assert_eq!(m.len(), 2);
    assert_eq!(value(&m, "Accept"), Some("c"));
    assert_eq!(value(&m, "Content-Type"), Some("b"));
    assert_eq!(m.entry(0).name, "Accept");
    assert_eq!(m.entry(0).value, "c");
    assert_eq!(m.entry(1).name, "Content-Type");
}

#[test]
fn names_differ_by_their_exact_characters() {
    let m = map(&[("accept", "1"), ("Accept", "2")]);
    assert_eq!(m.len(), 2);
    assert_eq!(value(&m, "accept"), Some("1"));
    assert_eq!(value(&m, "Accept"), Some("2"));
    assert_eq!(value(&m, "ACCEPT"), None);
}

#[test]
fn extend_prefers_the_other_map() {
    let mut m = map(&[("A", "1"), ("B", "2")]);
    m.extend(&map(&[("B", "20"), ("C", "30")]));
    assert_eq!(m.len(), 3);
    assert_eq!(value(&m, "A"), Some("1"));
    assert_eq!(value(&m, "B"), Some("20"));
    assert_eq!(value(&m, "C"), Some("30"));
    m.extend(&HeaderMap::new());
    assert_eq!(m.len(), 3);
}

#[test]
fn well_formed_headers_pass() {
    assert_eq!(HeaderMap::new().validate(), Ok(()));
    let m = map(&[
        ("Content-Type", "application/json"),
        ("x-api-key", "k\tv \u{e9}"),
        ("!#$%&'*+-.^_`|~09azAZ", ""),
    ]);
    assert_eq!(m.validate(), Ok(()));
}

#[test]
fn bad_name_is_refused() {
    for name in ["Bad Name", "", "a:b", "h\u{e9}", "a\nb", "(x)", "a/b", "a\"b", "a@b", "{a}"] {
        let err = map(&[("Accept", "*/*"), (name, "v")]).validate().unwrap_err();
        assert_eq!(err.kind, ErrorKind::RequestBuildFailed);
        assert_eq!(err.message, format!("Invalid header name {}", name));
    }
}

#[test]
fn name_length_has_a_limit() {
    let longest = "a".repeat(65535);
    assert_eq!(map(&[(longest.as_str(), "v")]).validate(), Ok(()));
    let too_long = "a".repeat(65536);
    let err = map(&[(too_long.as_str(), "v")]).validate().unwrap_err();
    assert_eq!(err.kind, ErrorKind::RequestBuildFailed);
    let long_and_bad = format!("{} ", "a".repeat(100));
    assert!(map(&[(long_and_bad.as_str(), "v")]).validate().is_err());
    let long_and_good = "Ab-".repeat(40);
    assert_eq!(map(&[(long_and_good.as_str(), "v")]).validate(), Ok(()));
}

#[test]
fn bad_value_is_refused() {
    for value in ["a\nb", "a\rb", "\u{0}", "a\u{7f}", "\u{1f}"] {
        let err = map(&[("X-Test", value)]).validate().unwrap_err();
        assert_eq!(err.kind, ErrorKind::RequestBuildFailed);
        assert_eq!(err.message, "Invalid header value for X-Test");
    }
}

#[test]
fn maps_are_the_same_whatever_the_order() {
    let a = map(&[("A", "1"), ("B", "2")]);
    let b = map(&[("B", "2"), ("A", "1")]);
    assert!(a.same_as(&b));
    assert!(b.same_as(&a));
    assert!(a.same_as(&a));
    assert!(HeaderMap::new().same_as(&HeaderMap::new()));
    assert!(!a.same_as(&map(&[("A", "1")])));
    assert!(!map(&[("A", "1")]).same_as(&a));
    assert!(!a.same_as(&map(&[("A", "1"), ("B", "3")])));
    assert!(!a.same_as(&map(&[("A", "1"), ("b", "2")])));
    assert!(!a.same_as(&HeaderMap::new()));
}
