use axum::http::{HeaderMap, HeaderName, HeaderValue};
use git_sync_reloader_adapter::headers::header_text;
use git_sync_reloader_adapter::order::{compare_chars, compare_refs, Cmp};
use git_sync_reloader_adapter::resource_ref::ConfigMapRef;

fn one_header(name: &str, value: &[u8]) -> HeaderMap {
    let mut h = HeaderMap::new();
    h.insert(
        HeaderName::from_bytes(name.as_bytes()).unwrap(),
        HeaderValue::from_bytes(value).unwrap(),
    );
    h
}

#[test]
fn header_text_finds_value_in_any_case() {
    let h = one_header("Gitsync-Hash", b"abc123");
    assert_eq!(header_text(&h, "gitsync-hash"), Some("abc123".to_string()));
    assert_eq!(header_text(&h, "GITSYNC-HASH"), Some("abc123".to_string()));
    assert_eq!(header_text(&h, "Gitsync-Hash"), Some("abc123".to_string()));
    assert_eq!(header_text(&h, "other"), None);
    assert_eq!(header_text(&h, "not a name"), None);
}

#[test]
fn header_text_takes_the_first_value() {
    let mut h = HeaderMap::new();
    h.append("gitsync-hash", HeaderValue::from_static("first"));
    h.append("gitsync-hash", HeaderValue::from_static("second"));
    assert_eq!(header_text(&h, "Gitsync-Hash"), Some("first".to_string()));
}

#[test]
fn header_text_accepts_spaces_and_tabs() {
    let h = one_header("gitsync-hash", b"a b\tc");
    assert_eq!(header_text(&h, "gitsync-hash"), Some("a b\tc".to_string()));
}

#[test]
fn header_text_refuses_bytes_beyond_ascii() {
    let h = one_header("gitsync-hash", b"caf\xc3\xa9");
    assert_eq!(header_text(&h, "gitsync-hash"), None);
    let h = one_header("gitsync-hash", b"");
    assert_eq!(header_text(&h, "gitsync-hash"), Some(String::new()));
}

#[test]
fn compare_chars_is_lexicographic() {
    assert!(matches!(compare_chars("abc", "abd"), Cmp::Less));
    assert!(matches!(compare_chars("abd", "abc"), Cmp::Greater));
    assert!(matches!(compare_chars("ab", "abc"), Cmp::Less));
    assert!(matches!(compare_chars("abc", "ab"), Cmp::Greater));
    assert!(matches!(compare_chars("", ""), Cmp::Equal));
    assert!(matches!(compare_chars("", "a"), Cmp::Less));
    assert!(matches!(compare_chars("Z", "a"), Cmp::Less));
    assert!(matches!(compare_chars("é", "z"), Cmp::Greater));
    assert!(matches!(compare_chars("same", "same"), Cmp::Equal));
}

#[test]
fn compare_refs_goes_by_namespace_then_name() {
    let r = |ns: &str, n: &str| ConfigMapRef::new(ns.to_string(), n.to_string());
    assert!(matches!(compare_refs(&r("a", "z"), &r("b", "a")), Cmp::Less));
    assert!(matches!(compare_refs(&r("b", "a"), &r("a", "z")), Cmp::Greater));
    assert!(matches!(compare_refs(&r("a", "x"), &r("a", "y")), Cmp::Less));
    assert!(matches!(compare_refs(&r("a", "x"), &r("a", "x")), Cmp::Equal));
}
