use cgit_auth::{constant_time_str_eq, decode, mint, AuthError, Token};

#[test]
fn minted_token_round_trips() {
    let t = mint("alice");
    assert_eq!(t.key.len(), 32);
    assert_eq!(t.body.len(), 32);
    let cookie = t.encode();
    let back = decode(cookie.as_str()).expect("a minted token must decode");
    assert_eq!(back.key, t.key);
    assert_eq!(back.body, t.body);
}

#[test]
fn encode_layout_is_key_colon_body() {
    let t = Token { key: String::from("00ff"), body: String::from("abc123") };
    assert_eq!(t.encode(), "00ff:abc123");
}

#[test]
fn decode_of_fixed_value() {
    let t = decode("deadbeef:0123456789abcdef").unwrap();
    assert_eq!(t.key, "deadbeef");
    assert_eq!(t.body, "0123456789abcdef");
}

#[test]
fn decode_rejects_empty_string() {
    assert!(matches!(decode(""), Err(AuthError::Malformed)));
}

#[test]
fn decode_rejects_missing_delimiter() {
    assert!(matches!(decode("deadbeef"), Err(AuthError::Malformed)));
}

#[test]
fn decode_rejects_empty_key() {
    assert!(matches!(decode(":deadbeef"), Err(AuthError::Malformed)));
}

#[test]
fn decode_rejects_empty_body() {
    assert!(matches!(decode("deadbeef:"), Err(AuthError::Malformed)));
}

#[test]
fn decode_rejects_bad_alphabet() {
    assert!(matches!(decode("dead beef:aa"), Err(AuthError::Malformed)));
    assert!(matches!(decode("DEADBEEF:aa"), Err(AuthError::Malformed)));
    assert!(matches!(decode("aa:bb:cc"), Err(AuthError::Malformed)));
    assert!(matches!(decode("aa:bÿ"), Err(AuthError::Malformed)));
}

#[test]
fn decode_never_panics_on_arbitrary_bytes() {
    let samples = ["\u{0}", "::::", "é:é", "a:", ":a", "🦀", "aa\u{7f}:bb"];
    for s in samples.iter() {
        let _ = decode(s);
    }
}

#[test]
fn constant_time_eq_agrees_with_equality() {
    assert!(constant_time_str_eq("", ""));
    assert!(constant_time_str_eq("abc", "abc"));
    assert!(!constant_time_str_eq("abc", "abd"));
    assert!(!constant_time_str_eq("abc", "ab"));
    assert!(!constant_time_str_eq("", "a"));
}

#[test]
fn eq_body_detects_last_byte_flip() {
    let t = Token { key: String::from("aa"), body: String::from("0123456789abcdef") };
    assert!(t.eq_body("0123456789abcdef"));
    assert!(!t.eq_body("0123456789abcdee"));
}
