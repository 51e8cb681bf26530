use cgit_auth::{
    authenticate_cookie, process_login, token_grants_access, AuthError, CredentialStore,
    SessionCache, Token,
};

#[test]
fn put_then_get_before_expiry() {
    let mut cache = SessionCache::new();
    cache.put_session(String::from("aa"), String::from("bb"), 600, 1000);
    assert_eq!(cache.get_session("aa", 1000), Some(String::from("bb")));
    assert_eq!(cache.get_session("aa", 1599), Some(String::from("bb")));
}

#[test]
fn entry_is_absent_from_expiry_on() {
    let mut cache = SessionCache::new();
    cache.put_session(String::from("aa"), String::from("bb"), 600, 1000);
    assert_eq!(cache.get_session("aa", 1600), None);
    assert_eq!(cache.get_session("aa", 9999), None);
}

#[test]
fn absent_key_is_absent() {
    let cache = SessionCache::new();
    assert_eq!(cache.get_session("aa", 0), None);
}

#[test]
fn colliding_put_overwrites_silently() {
    let mut cache = SessionCache::new();
    cache.put_session(String::from("aa"), String::from("bb"), 600, 1000);
    cache.put_session(String::from("aa"), String::from("cc"), 600, 2000);
    assert_eq!(cache.get_session("aa", 2000), Some(String::from("cc")));
    assert_eq!(cache.sessions.len(), 1);
}

#[test]
fn mismatched_body_is_rejected_even_for_live_key() {
    let mut cache = SessionCache::new();
    cache.put_session(String::from("aabb"), String::from("0123456789abcdef"), 600, 0);
    let right = Token { key: String::from("aabb"), body: String::from("0123456789abcdef") };
    let wrong_last = Token { key: String::from("aabb"), body: String::from("0123456789abcdee") };
    assert!(token_grants_access(&cache, &right, 10));
    assert!(!token_grants_access(&cache, &wrong_last, 10));
}

#[test]
fn expired_or_absent_entry_is_rejected() {
    let mut cache = SessionCache::new();
    let t = Token { key: String::from("aabb"), body: String::from("ccdd") };
    assert!(!token_grants_access(&cache, &t, 0));
    cache.put_session(String::from("aabb"), String::from("ccdd"), 60, 0);
    assert!(token_grants_access(&cache, &t, 59));
    assert!(!token_grants_access(&cache, &t, 60));
}

#[test]
fn login_end_to_end_scenario() {
    let mut st = CredentialStore::new();
    st.add_account("alice", "hunter2").unwrap();
    let mut cache = SessionCache::new();

    // a correct login yields a cookie
    let token = process_login(&st, &mut cache, "alice", "hunter2", 100, 600)
        .unwrap()
        .expect("correct credentials must mint a token");
    let cookie = token.encode();

    // resubmitting that cookie later grants access
    assert!(authenticate_cookie(&cache, false, "/repo", cookie.as_str(), 400));

    // one flipped character denies
    let mut flipped: Vec<char> = cookie.chars().collect();
    let last = flipped.len() - 1;
    flipped[last] = if flipped[last] == '0' { '1' } else { '0' };
    let flipped: String = flipped.into_iter().collect();
    assert!(!authenticate_cookie(&cache, false, "/repo", flipped.as_str(), 400));

    // once the TTL has elapsed the same cookie denies
    assert!(!authenticate_cookie(&cache, false, "/repo", cookie.as_str(), 700));
}

#[test]
fn wrong_password_denies_without_minting() {
    let mut st = CredentialStore::new();
    st.add_account("alice", "hunter2").unwrap();
    let mut cache = SessionCache::new();
    let r = process_login(&st, &mut cache, "alice", "wrong", 0, 600).unwrap();
    assert!(r.is_none());
    assert!(cache.sessions.is_empty());
}

#[test]
fn deleted_account_fails_at_lookup_whatever_the_cache_holds() {
    let mut st = CredentialStore::new();
    st.add_account("alice", "hunter2").unwrap();
    let mut cache = SessionCache::new();
    process_login(&st, &mut cache, "alice", "hunter2", 0, 600).unwrap().unwrap();
    st.delete_account("alice").unwrap();
    let r = process_login(&st, &mut cache, "alice", "hunter2", 1, 600);
    assert!(matches!(r, Err(AuthError::NotFound)));
}

#[test]
fn root_bypass_when_enabled() {
    let cache = SessionCache::new();
    assert!(authenticate_cookie(&cache, true, "/", "", 0));
    assert!(!authenticate_cookie(&cache, true, "/repo", "", 0));
    assert!(!authenticate_cookie(&cache, false, "/", "", 0));
}

#[test]
fn malformed_cookie_denies() {
    let mut cache = SessionCache::new();
    cache.put_session(String::from("aabb"), String::from("ccdd"), 600, 0);
    assert!(!authenticate_cookie(&cache, false, "/repo", "", 10));
    assert!(!authenticate_cookie(&cache, false, "/repo", "aabb", 10));
    assert!(!authenticate_cookie(&cache, false, "/repo", "aabb:", 10));
    assert!(!authenticate_cookie(&cache, false, "/repo", "aabb:ccdd:", 10));
}

#[test]
fn empty_deployment_denies_posted_login() {
    assert!(cgit_auth::test_auth_post());
}
