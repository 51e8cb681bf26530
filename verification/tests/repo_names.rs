use cgit_auth::{split_repo_names, CredentialStore, RepoAuth, SessionCache};

#[test]
fn split_plain_list() {
    assert_eq!(split_repo_names("repo1 repo2 repo3"), vec!["repo1", "repo2", "repo3"]);
}

#[test]
fn split_handles_runs_of_whitespace() {
    assert_eq!(split_repo_names("  a\t\tb \n c\r\n"), vec!["a", "b", "c"]);
}

#[test]
fn split_of_empty_and_blank() {
    assert!(split_repo_names("").is_empty());
    assert!(split_repo_names(" \t \n ").is_empty());
}

#[test]
fn split_single_name() {
    assert_eq!(split_repo_names("only"), vec!["only"]);
}

#[test]
fn repo_set_is_populated_once_and_reused() {
    let mut cache = SessionCache::new();
    assert!(!cache.contains_repo_set("uid-1"));
    let names = split_repo_names("alpha beta");
    cache.populate_repo_set(String::from("uid-1"), names);
    assert!(cache.contains_repo_set("uid-1"));
    assert_eq!(cache.get_repo_set("uid-1"), Some(vec![String::from("alpha"), String::from("beta")]));
    assert_eq!(cache.get_repo_set("uid-2"), None);
}

#[test]
fn store_repo_auth_lookup() {
    let mut st = CredentialStore::new();
    st.repo_auth.push(RepoAuth { uid: String::from("uid-1"), repos: String::from("r1 r2") });
    assert_eq!(st.find_repo_auth("uid-1"), Some(String::from("r1 r2")));
    assert_eq!(st.find_repo_auth("uid-2"), None);
}
