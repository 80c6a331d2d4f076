use bldr_session::header::{classify_header, tokens_match, Credential};

fn token_of(c: Credential) -> Option<String> {
    match c {
        Credential::Bearer(t) => Some(t),
        _ => None,
    }
}

#[test]
fn bearer_header_gives_token() {
    assert_eq!(token_of(classify_header(Some("Bearer abc"))), Some("abc".to_string()));
    assert_eq!(token_of(classify_header(Some("  Bearer\tabc== \n"))), Some("abc==".to_string()));
}

#[test]
fn missing_header_is_anonymous() {
    assert!(matches!(classify_header(None), Credential::Anonymous));
}

#[test]
fn malformed_headers() {
    for h in ["Bearer", "Basic abc", "bearer abc", "Bearer a b", "", "   ", "abc Bearer"] {
        assert!(matches!(classify_header(Some(h)), Credential::Malformed), "{}", h);
    }
}

#[test]
fn padding_is_ignored_in_comparison() {
    assert!(tokens_match("abc==", "abc"));
    assert!(tokens_match("abc", "abc="));
    assert!(tokens_match("", "=="));
    assert!(!tokens_match("abc", "abd"));
    assert!(!tokens_match("a=c", "ac"));
    assert!(!tokens_match("abc", "ab"));
}
