use rustconvert::config::{allowed_origins, listen_address, origins_setting, trim, MAX_BYTES};

#[test]
fn body_limit_is_fifty_megabytes() {
    assert_eq!(MAX_BYTES, 52_428_800);
}

#[test]
fn listen_on_all_interfaces() {
    assert_eq!(listen_address(None), "0.0.0.0:3000");
    assert_eq!(listen_address(Some("8000".to_string())), "0.0.0.0:8000");
}

#[test]
fn default_origins_are_local_development() {
    let raw = origins_setting(None);
    assert_eq!(raw, "http://localhost:8080,http://127.0.0.1:8080");
    assert_eq!(allowed_origins(&raw), vec!["http://localhost:8080", "http://127.0.0.1:8080"]);
    assert_eq!(origins_setting(Some("https://x.com".to_string())), "https://x.com");
}

#[test]
fn origins_are_split_trimmed_and_checked() {
    assert_eq!(
        allowed_origins(" https://a.com ,\thttps://b.com\n,bad\u{7f}origin, https://c.com"),
        vec!["https://a.com", "https://b.com", "https://c.com"]
    );
    // Empty pieces stay: the empty string is a valid header value.
    assert_eq!(allowed_origins("https://a.com,,"), vec!["https://a.com", "", ""]);
    assert_eq!(allowed_origins(""), vec![""]);
    // A control character inside an entry drops it; a tab inside is allowed.
    assert_eq!(allowed_origins("a\u{1}b,c\td"), vec!["c\td"]);
    // Non-ASCII text is allowed in a header value.
    assert_eq!(allowed_origins("https://bé.vn"), vec!["https://bé.vn"]);
}

#[test]
fn trim_matches_std() {
    for s in ["", "  ", " a ", "\u{3000}x\u{2028}", "\u{85}a b\u{a0}", "a", "\u{200b}a"] {
        assert_eq!(trim(s), s.trim());
    }
}
