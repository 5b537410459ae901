//! Salted, memory-hard password hashing (Argon2), as self-describing PHC strings.
use vstd::prelude::*;

verus! {

/// argon2's error, carried out of the hashing call and mapped to `Argon2Error`.
#[verifier::external_type_specification]
#[verifier::external_body]
pub struct ExHashError(argon2::password_hash::Error);

/// Whether Argon2 accepts `candidate` against the stored PHC string `stored`,
/// using the parameters and salt that the string records; a string that does
/// not parse accepts nothing.
pub uninterp spec fn password_accepts(candidate: Seq<char>, stored: Seq<char>) -> bool;

/// Relies on argon2's `PasswordHasher::hash_password` with default parameters
/// and a fresh salt from the operating system: a hash that it returns verifies
/// the password it was made from, and with default parameters it fails only on a
/// password of more than `u32::MAX` bytes (a character takes at most 4 bytes).
#[verifier::external_body]
fn argon2_hash(password: &str) -> (r: Result<String, argon2::password_hash::Error>)
    ensures
        r is Ok ==> password_accepts(password@, r->Ok_0@),
        password@.len() < 0x4000_0000 ==> r is Ok,
{
    let salt = argon2::password_hash::SaltString::generate(&mut argon2::password_hash::rand_core::OsRng);
    argon2::PasswordHasher::hash_password(&argon2::Argon2::default(), password.as_bytes(), &salt)
        .map(|h| h.to_string())
}

/// Relies on argon2's `PasswordHash::new` and `PasswordVerifier::verify_password`:
/// the verdict is a function of the candidate and the stored string.
#[verifier::external_body]
fn argon2_verify(candidate: &str, stored: &str) -> (r: bool)
    ensures
        r == password_accepts(candidate@, stored@),
{
    match argon2::PasswordHash::new(stored) {
        Ok(parsed) => argon2::PasswordVerifier::verify_password(
            &argon2::Argon2::default(),
            candidate.as_bytes(),
            &parsed,
        ).is_ok(),
        Err(_) => false,
    }
}

/// Why a password could not be hashed.
#[derive(Debug, Clone, Copy, PartialEq, Eq, Structural)]
pub enum Argon2Error {
    /// The hasher refused its input or could not draw a salt.
    HashingFailed,
}

/// Hashes a password with a fresh random salt; the result verifies that password.
/// Only a password of a gigabyte or more can fail.
pub fn hash_password(password: &str) -> (r: Result<String, Argon2Error>)
    ensures
        r is Ok ==> password_accepts(password@, r->Ok_0@),
        password@.len() < 0x4000_0000 ==> r is Ok,
{
    match argon2_hash(password) {
        Ok(h) => Ok(h),
        Err(_) => Err(Argon2Error::HashingFailed),
    }
}

/// Checks a candidate password against a stored hash; a malformed hash gives `false`.
pub fn verify_password(test_password: &str, hash: &str) -> (r: bool)
    ensures
        r == password_accepts(test_password@, hash@),
{
    argon2_verify(test_password, hash)
}

} // verus!
