use vstd::prelude::*;

use argon2::PasswordHasher;
use argon2::PasswordVerifier;

use crate::errors::AuthError;

verus! {

/// What the Argon2 verifier computes for a plaintext password and a
/// stored PHC-encoded hash string: whether recomputing the digest of
/// the password, with the algorithm, parameters and salt embedded in
/// the string, yields the digest the string carries. This is a pure
/// function of the two strings; it is named rather than written out
/// because its definition is the whole Argon2 algorithm.
pub uninterp spec fn argon2_verifies(password: Seq<char>, stored_hash: Seq<char>) -> bool;

/// Whether a stored hash string lets the Argon2 verifier reach a
/// verdict at all: it parses as a PHC string, and whatever algorithm,
/// version, parameters and salt it embeds pass the crate's
/// validation. A pure function of the string; named rather than
/// written out because its definition is the PHC grammar plus the
/// implementation's validation rules. Every string this library's own
/// hashing produces is usable.
pub uninterp spec fn phc_usable(stored_hash: Seq<char>) -> bool;

/// Relies on `argon2::password_hash::SaltString`.
#[verifier::external_type_specification]
#[verifier::external_body]
pub struct ExSaltString(argon2::password_hash::SaltString);

/// Relies on `argon2::password_hash::SaltString::generate`: a fresh
/// random salt drawn from the operating system's cryptographically
/// secure source. Nothing can be promised of the value.
#[verifier::external_body]
fn generate_salt() -> argon2::password_hash::SaltString {
    argon2::password_hash::SaltString::generate(&mut rand_core::OsRng)
}

/// Relies on `argon2::Argon2::hash_password_simple` (through the
/// `PasswordHasher` trait): it derives the Argon2 digest of the
/// password over the given salt with the default parameters and
/// returns a self-describing PHC string. `PasswordVerifier::
/// verify_password` recomputes the digest from exactly the material
/// embedded in such a string, so the returned string verifies against
/// the password it was derived from; and since that material is the
/// verifier's own default algorithm and parameters with a
/// freshly generated salt, the verifier always reaches a verdict on
/// it.
#[verifier::external_body]
fn argon2_hash(password: &str, salt: &argon2::password_hash::SaltString) -> (r: Result<
    String,
    AuthError,
>)
    ensures
        r matches Ok(h) ==> argon2_verifies(password@, h@) && phc_usable(h@),
        r matches Err(e) ==> e == AuthError::Fatal,
{
    match argon2::Argon2::default().hash_password_simple(password.as_bytes(), salt.as_ref()) {
        Ok(h) => Ok(h.to_string()),
        Err(_) => Err(AuthError::Fatal),
    }
}

/// Relies on `argon2::password_hash::PasswordHash::new` (PHC string
/// parsing) and `argon2::Argon2`'s `PasswordVerifier::verify_password`
/// (recompute the digest with the embedded parameters and salt, then
/// compare the digests in constant time). A verdict comes back
/// exactly when the stored string is usable: every parse or
/// validation failure of the string is a distinct error variant,
/// while `Error::Password` — a wrong password, or one over the
/// implementation's length limit, which it maps to the same variant —
/// is the `Ok(false)` verdict here. A stored string that does not
/// parse or names unusable parameters is the data-integrity error.
#[verifier::external_body]
fn argon2_verify(password: &str, stored_hash: &str) -> (r: Result<bool, AuthError>)
    ensures
        r is Ok <==> phc_usable(stored_hash@),
        r matches Ok(b) ==> b == argon2_verifies(password@, stored_hash@),
        r matches Err(e) ==> e == AuthError::Malformed,
{
    let parsed = match argon2::password_hash::PasswordHash::new(stored_hash) {
        Ok(p) => p,
        Err(_) => return Err(AuthError::Malformed),
    };
    match argon2::Argon2::default().verify_password(password.as_bytes(), &parsed) {
        Ok(()) => Ok(true),
        Err(argon2::password_hash::Error::Password) => Ok(false),
        Err(_) => Err(AuthError::Malformed),
    }
}

/// Derive a fresh random salt and hash the plaintext password with the
/// memory-hard scheme. On success the returned self-describing string
/// verifies against the password it was derived from; an underlying
/// randomness or encoding failure is fatal and unexpected.
pub fn hash_password(password: &str) -> (r: Result<String, AuthError>)
    ensures
        r matches Ok(h) ==> argon2_verifies(password@, h@) && phc_usable(h@),
        r matches Err(e) ==> e == AuthError::Fatal,
{
    let salt = generate_salt();
    argon2_hash(password, &salt)
}

/// Check a plaintext password against a stored hash string. A verdict
/// is owed, and given, on every usable stored string; a wrong
/// password is the ordinary `Ok(false)`, never an error. The error is
/// reserved for a stored string this system could not have written
/// itself.
pub fn verify_password(password: &str, stored_hash: &str) -> (r: Result<bool, AuthError>)
    ensures
        r is Ok <==> phc_usable(stored_hash@),
        r matches Ok(b) ==> b == argon2_verifies(password@, stored_hash@),
        r matches Err(e) ==> e == AuthError::Malformed,
{
    argon2_verify(password, stored_hash)
}

} // verus!
