use cgit_auth::{migrate_accounts, migrate_accounts_with, AuthError, OldAccount};

fn old_rows(n: usize) -> Vec<OldAccount> {
    let mut rows = Vec::new();
    for i in 0..n {
        rows.push(OldAccount {
            user: format!("user{}", i),
            password_hash: format!("hash{}", i),
        });
    }
    rows
}

#[test]
fn migrate_empty_store() {
    let rows = old_rows(0);
    let st = migrate_accounts("1", &rows).unwrap();
    assert_eq!(st.version, "2");
    assert!(st.accounts.is_empty());
    assert!(st.repo_auth.is_empty());
}

#[test]
fn migrate_single_account() {
    let rows = old_rows(1);
    let st = migrate_accounts("1", &rows).unwrap();
    assert_eq!(st.accounts.len(), 1);
    assert_eq!(st.accounts[0].user, "user0");
    assert_eq!(st.accounts[0].password_hash, "hash0");
    assert_eq!(st.accounts[0].uid.len(), 36);
}

#[test]
fn migrate_thousand_accounts_preserves_rows_and_assigns_distinct_uids() {
    let rows = old_rows(1000);
    let st = migrate_accounts("1", &rows).unwrap();
    assert_eq!(st.accounts.len(), 1000);
    for i in 0..1000 {
        assert_eq!(st.accounts[i].user, rows[i].user);
        assert_eq!(st.accounts[i].password_hash, rows[i].password_hash);
    }
    let mut uids: Vec<String> = st.accounts.iter().map(|a| a.uid.clone()).collect();
    uids.sort();
    uids.dedup();
    assert_eq!(uids.len(), 1000);
}

#[test]
fn migrate_aborts_on_version_mismatch() {
    let rows = old_rows(3);
    assert!(matches!(migrate_accounts("2", &rows), Err(AuthError::VersionMismatch)));
    assert!(matches!(migrate_accounts("0", &rows), Err(AuthError::VersionMismatch)));
    assert!(matches!(migrate_accounts("", &rows), Err(AuthError::VersionMismatch)));
    // the snapshot rows are untouched by an aborted run
    assert_eq!(rows.len(), 3);
    assert_eq!(rows[0].user, "user0");
}

#[test]
fn migrate_with_explicit_uids() {
    let rows = old_rows(2);
    let uids = vec![String::from("uid-a"), String::from("uid-b")];
    let st = migrate_accounts_with("1", &rows, &uids).unwrap();
    assert_eq!(st.accounts[0].uid, "uid-a");
    assert_eq!(st.accounts[1].uid, "uid-b");
}

#[test]
fn migrate_refuses_duplicate_usernames() {
    let mut rows = old_rows(2);
    rows[1].user = rows[0].user.clone();
    assert!(matches!(migrate_accounts("1", &rows), Err(AuthError::Conflict)));
    let uids = vec![String::from("uid-a"), String::from("uid-b")];
    assert!(matches!(migrate_accounts_with("1", &rows, &uids), Err(AuthError::Conflict)));
}

#[test]
fn migrate_refuses_duplicate_uid_supply() {
    let rows = old_rows(2);
    let uids = vec![String::from("uid-a"), String::from("uid-a")];
    assert!(matches!(migrate_accounts_with("1", &rows, &uids), Err(AuthError::Fatal)));
}

#[test]
fn migrate_refuses_short_uid_supply() {
    let rows = old_rows(2);
    let uids = vec![String::from("uid-a")];
    assert!(matches!(migrate_accounts_with("1", &rows, &uids), Err(AuthError::Fatal)));
}
