use argon2::password_hash::{PasswordHash, PasswordHasher, PasswordVerifier, SaltString};
use argon2::Argon2;
use rand_core::OsRng;

use cgit_auth::{hash_password, verify_password, AuthError};

#[test]
fn test_argon2() {
    let passwd = b"hunter2";
    let salt = SaltString::generate(&mut OsRng);

    let argon2 = Argon2::default();

    argon2.hash_password_simple(passwd, salt.as_ref()).unwrap();
}

#[test]
fn test_argon2_verify() {
    let passwd = b"hunter2";
    let parsed_hash = PasswordHash::new("$argon2id$v=19$m=4096,t=3,p=1$szYDnoQSVPmXq+RD2LneBw$fRETH//iCQuIX+SgjYPdZ9iIbM8gEy9fBjTJ/KFFJNM").unwrap();
    let argon2 = Argon2::default();
    assert!(argon2.verify_password(passwd, &parsed_hash).is_ok())
}

#[test]
fn library_hash_verifies_its_own_password() {
    let h = hash_password("hunter2").unwrap();
    assert!(h.starts_with("$argon2"));
    assert_eq!(verify_password("hunter2", h.as_str()), Ok(true));
    assert_eq!(verify_password("hunter3", h.as_str()), Ok(false));
    assert_eq!(verify_password("hunter", h.as_str()), Ok(false));
    assert_eq!(verify_password("", h.as_str()), Ok(false));
}

#[test]
fn two_hashes_of_one_password_differ_but_both_verify() {
    let h1 = hash_password("hunter2").unwrap();
    let h2 = hash_password("hunter2").unwrap();
    assert_ne!(h1, h2); // fresh salt every time
    assert_eq!(verify_password("hunter2", h1.as_str()), Ok(true));
    assert_eq!(verify_password("hunter2", h2.as_str()), Ok(true));
}

#[test]
fn malformed_stored_hash_is_an_error_not_a_mismatch() {
    assert_eq!(verify_password("hunter2", ""), Err(AuthError::Malformed));
    assert_eq!(verify_password("hunter2", "plainly-not-phc"), Err(AuthError::Malformed));
}

#[test]
fn fixed_hash_verifies_through_the_library() {
    let stored = "$argon2id$v=19$m=4096,t=3,p=1$szYDnoQSVPmXq+RD2LneBw$fRETH//iCQuIX+SgjYPdZ9iIbM8gEy9fBjTJ/KFFJNM";
    assert_eq!(verify_password("hunter2", stored), Ok(true));
    assert_eq!(verify_password("hunter1", stored), Ok(false));
}
