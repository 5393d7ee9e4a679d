//! Passwords: a new password is stored as an Argon2 hash in the PHC string
//! format, and a password is checked against a stored hash.
use vstd::prelude::*;
use argon2::password_hash::{PasswordHash, SaltString};
use argon2::Argon2;
use crate::error::ServiceError;
use vstd::utf8::encode_utf8;

verus! {

/// What checking `password` against the stored hash `hash` with Argon2 (in
/// its default configuration) gives: whether the password matches, or, when
/// `hash` is not a PHC string, the text of the parse error.
pub uninterp spec fn argon2_verdict(hash: Seq<char>, password: Seq<char>) -> Result<bool, Seq<char>>;

/// Parses `hash` with `password_hash::PasswordHash::new` and, when it parses,
/// checks `password` against it with `PasswordHash::verify_password` and the
/// default `argon2::Argon2`. Both are functions of their arguments alone; the
/// outcome is named, not stated.
#[verifier::external_body]
fn argon2_check(hash: &str, password: &str) -> (r: Result<bool, String>)
    ensures
        match r {
            Ok(matches) => argon2_verdict(hash@, password@) == Ok::<bool, Seq<char>>(matches),
            Err(e) => argon2_verdict(hash@, password@) == Err::<bool, Seq<char>>(e@),
        },
{
    match PasswordHash::new(hash) {
        Ok(parsed) => Ok(parsed.verify_password(&[&Argon2::default()], password).is_ok()),
        Err(e) => Err(e.to_string()),
    }
}

/// Hashes `password` with the default `argon2::Argon2` under a fresh salt
/// (`SaltString::generate` from `rand::thread_rng`) by
/// `PasswordHash::generate`, and gives the PHC string or the error's text.
/// The salt is random, so the string itself is not stated. What is stated is
/// that a string it gives verifies against the same password: the crate's
/// verifier (`PasswordVerifier::verify_password`) recomputes the hash with
/// the algorithm, version, parameters and salt written into the string and
/// compares the outputs. With the default parameters and a generated salt,
/// hashing fails only for a password longer than `argon2::MAX_PWD_LEN`
/// (0xFFFFFFFF) bytes (`Argon2::verify_inputs`): it succeeds exactly when the
/// password is no longer than that.
#[verifier::external_body]
fn argon2_hash(password: &str) -> (r: Result<String, String>)
    ensures
        match r {
            Ok(h) => encode_utf8(password@).len() <= max_password_bytes() && argon2_verdict(
                h@,
                password@,
            ) == Ok::<bool, Seq<char>>(true),
            Err(_) => encode_utf8(password@).len() > max_password_bytes(),
        },
{
    let salt = SaltString::generate(rand::thread_rng());
    match PasswordHash::generate(Argon2::default(), password, &salt) {
        Ok(h) => Ok(h.to_string()),
        Err(e) => Err(e.to_string()),
    }
}

/// The longest password, in UTF-8 bytes, that Argon2 hashes.
pub open spec fn max_password_bytes() -> nat {
    0xFFFF_FFFF
}

/// The message of a stored hash that cannot be read.
pub open spec fn invalid_hash_message(e: Seq<char>) -> Seq<char> {
    "invalid password hash: "@ + e
}

/// The answer to checking `password` against `password_hash`, given what
/// Argon2 said: a hash that does not parse is refused with its parse error,
/// a password that does not match is refused as invalid, and a match passes.
pub fn password_verdict(verdict: Result<bool, String>) -> (r: Result<(), ServiceError>)
    ensures
        verdict matches Ok(true) ==> r is Ok,
        verdict matches Ok(false) ==> r matches Err(ServiceError::Rejected(m)) && m@
            == "invalid password"@,
        verdict matches Err(e) ==> r matches Err(ServiceError::Rejected(m)) && m@
            == invalid_hash_message(e@),
{
    match verdict {
        Ok(true) => Ok(()),
        Ok(false) => Err(ServiceError::Rejected("invalid password".to_owned())),
        Err(e) => {
            let mut m = "invalid password hash: ".to_owned();
            m.append(e.as_str());
            Err(ServiceError::Rejected(m))
        },
    }
}

/// Checks `password` against the stored hash `password_hash`: as
/// `password_verdict` answers for what Argon2 says of the two.
pub fn verify_password(password: String, password_hash: String) -> (r: Result<(), ServiceError>)
    ensures
        argon2_verdict(password_hash@, password@) matches Ok(true) ==> r is Ok,
        argon2_verdict(password_hash@, password@) matches Ok(false) ==> r matches Err(
            ServiceError::Rejected(m),
        ) && m@ == "invalid password"@,
        argon2_verdict(password_hash@, password@) matches Err(e) ==> r matches Err(
            ServiceError::Rejected(m),
        ) && m@ == invalid_hash_message(e),
{
    let verdict = argon2_check(password_hash.as_str(), password.as_str());
    password_verdict(verdict)
}

/// The hash to store for `password`, under a fresh random salt: a hash that
/// `password` verifies against. It is refused, naming Argon2's error, only
/// when the password is longer than Argon2 takes.
pub fn hash_password(password: String) -> (r: Result<String, ServiceError>)
    ensures
        (encode_utf8(password@).len() <= max_password_bytes()) <==> (r is Ok),
        r matches Ok(h) ==> argon2_verdict(h@, password@) == Ok::<bool, Seq<char>>(true),
        r matches Err(e) ==> e matches ServiceError::Rejected(m) && exists|cause: Seq<char>|
            m@ == "failed to generate password hash: "@ + cause,
{
    let outcome = argon2_hash(password.as_str());
    match outcome {
        Ok(h) => Ok(h),
        Err(e) => {
            let mut m = "failed to generate password hash: ".to_owned();
            m.append(e.as_str());
            assert(m@ == "failed to generate password hash: "@ + e@);
            Err(ServiceError::Rejected(m))
        },
    }
}

} // verus!
