//! Session-token and credential-verification library for a cgit
//! authentication filter: the cookie codec, the password-hash checks,
//! the TTL session cache, the account store, and the schema migrator.

pub mod cache;
pub mod errors;
pub mod handlers;
pub mod hashing;
pub mod migrate;
pub mod repos;
pub mod store;
pub mod token;

pub use cache::SessionCache;
pub use errors::AuthError;
pub use handlers::{
    authenticate_cookie, check_credentials, process_login, test_auth_post, token_grants_access,
    Meta,
};
pub use hashing::{hash_password, verify_password};
pub use migrate::{migrate_accounts, migrate_accounts_with, OldAccount};
pub use repos::split_repo_names;
pub use store::{validate_username, Account, CredentialStore, RepoAuth};
pub use token::{constant_time_str_eq, decode, mint, Token};
