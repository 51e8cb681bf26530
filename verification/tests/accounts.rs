use cgit_auth::{check_credentials, validate_username, AuthError, CredentialStore};

#[test]
fn username_rules() {
    assert!(validate_username("alice"));
    assert!(validate_username("alice_2"));
    assert!(validate_username("A1_b2"));
    assert!(validate_username("aaaaaaaaaaaaaaaaaaaa")); // 20 characters
    assert!(!validate_username("aaaaaaaaaaaaaaaaaaaaa")); // 21 characters
    assert!(!validate_username(""));
    assert!(!validate_username("al ice"));
    assert!(!validate_username("alice!"));
    assert!(!validate_username("al-ice"));
}

#[test]
fn add_account_stores_verifiable_pair() {
    let mut st = CredentialStore::new();
    st.add_account("alice", "hunter2").unwrap();
    let (ok, _uid) = check_credentials(&st, "alice", "hunter2").unwrap();
    assert!(ok);
    let (ok2, _) = check_credentials(&st, "alice", "hunter3").unwrap();
    assert!(!ok2);
    let (ok3, _) = check_credentials(&st, "alice", "Hunter2").unwrap();
    assert!(!ok3);
}

#[test]
fn add_account_rejects_duplicate() {
    let mut st = CredentialStore::new();
    st.add_account("alice", "hunter2").unwrap();
    assert!(matches!(st.add_account("alice", "other"), Err(AuthError::Conflict)));
    assert_eq!(st.accounts.len(), 1);
}

#[test]
fn add_account_rejects_bad_input() {
    let mut st = CredentialStore::new();
    assert!(matches!(st.add_account("", "pw"), Err(AuthError::Malformed)));
    assert!(matches!(st.add_account("alice", ""), Err(AuthError::Malformed)));
    assert!(matches!(st.add_account("bad name", "pw"), Err(AuthError::Malformed)));
    assert!(st.accounts.is_empty());
}

#[test]
fn accounts_get_distinct_uids() {
    let mut st = CredentialStore::new();
    st.add_account("alice", "pw1").unwrap();
    st.add_account("bob", "pw2").unwrap();
    assert_eq!(st.accounts.len(), 2);
    assert_ne!(st.accounts[0].uid, st.accounts[1].uid);
    assert_eq!(st.accounts[0].uid.len(), 36);
}

#[test]
fn delete_account_removes_only_that_row() {
    let mut st = CredentialStore::new();
    st.add_account("alice", "pw1").unwrap();
    st.add_account("bob", "pw2").unwrap();
    st.delete_account("alice").unwrap();
    let users = st.list_users();
    assert_eq!(users, vec![String::from("bob")]);
}

#[test]
fn delete_absent_account_is_not_found() {
    let mut st = CredentialStore::new();
    assert!(matches!(st.delete_account("alice"), Err(AuthError::NotFound)));
}

#[test]
fn lookup_of_unknown_user_is_not_found() {
    let st = CredentialStore::new();
    assert!(matches!(check_credentials(&st, "alice", "hunter2"), Err(AuthError::NotFound)));
}

#[test]
fn corrupt_stored_hash_is_malformed() {
    let mut st = CredentialStore::new();
    st.add_account("alice", "hunter2").unwrap();
    st.accounts[0].password_hash = String::from("not a phc string");
    assert!(matches!(check_credentials(&st, "alice", "hunter2"), Err(AuthError::Malformed)));
}

#[test]
fn list_users_in_insertion_order() {
    let mut st = CredentialStore::new();
    st.add_account("carol", "pw").unwrap();
    st.add_account("alice", "pw").unwrap();
    st.add_account("bob", "pw").unwrap();
    let users = st.list_users();
    assert_eq!(users, vec!["carol".to_string(), "alice".to_string(), "bob".to_string()]);
}

#[test]
fn reset_empties_the_store() {
    let mut st = CredentialStore::new();
    st.add_account("alice", "pw").unwrap();
    st.reset();
    assert!(st.accounts.is_empty());
    assert!(st.repo_auth.is_empty());
    assert_eq!(st.version, "2");
}
