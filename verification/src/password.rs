//! Password verifiers: slow, salted one-way hashes of raw passwords.
//!
//! The hashing itself is done by the `bcrypt` crate. Verification is a
//! function of the password and the verifier alone, so its outcome has a
//! name, [`bcrypt_verdict`], over which the rest of the library states its
//! contracts. Hashing draws a random salt, so two hashes of one password
//! differ; all that is known of a fresh verifier is that the password it was
//! made from verifies against it.

use vstd::prelude::*;
use crate::error::AuthError;

verus! {

/// The cost factor used when none is configured.
pub const DEFAULT_HASH_COST: u32 = 12;

/// The smallest cost factor the hashing primitive accepts.
pub const MIN_HASH_COST: u32 = 4;

/// The largest cost factor the hashing primitive accepts.
pub const MAX_HASH_COST: u32 = 31;

/// Whether the hashing primitive accepts a cost factor.
pub open spec fn usable_cost(cost: u32) -> bool {
    MIN_HASH_COST <= cost <= MAX_HASH_COST
}

#[verifier::external_type_specification]
#[verifier::external_body]
pub struct ExBcryptError(bcrypt::BcryptError);

/// What `bcrypt::verify` answers for a password and a stored verifier:
/// `Some(true)` when the password verifies, `Some(false)` when it does not,
/// `None` when the verifier is not a usable bcrypt hash.
pub uninterp spec fn bcrypt_verdict(password: Seq<char>, verifier: Seq<char>) -> Option<bool>;

/// Whether `raw` is the password that `verifier` was made from.
pub open spec fn password_accepted(raw: Seq<char>, verifier: Seq<char>) -> bool {
    bcrypt_verdict(raw, verifier) == Some(true)
}

/// Calls `bcrypt::verify`. The call recomputes the hash from the password
/// and the salt and cost stored in the verifier and compares in constant
/// time; it reads nothing else, so the answer is the named verdict. A
/// malformed verifier is reported as an error, never as a panic.
#[verifier::external_body]
fn bcrypt_verify(password: &str, verifier: &str) -> (r: Result<bool, bcrypt::BcryptError>)
    ensures
        match r {
            Ok(b) => bcrypt_verdict(password@, verifier@) == Some(b),
            Err(_) => bcrypt_verdict(password@, verifier@) is None,
        },
{
    bcrypt::verify(password, verifier)
}

/// Calls `bcrypt::hash`. The salt is random, so the verifier itself is not
/// determined by the arguments. Whatever salt was drawn, verification
/// recomputes the same hash from it, so the password verifies against the
/// verifier returned. A cost outside 4..=31 is always reported as an error,
/// before anything is computed; a failure of the random source is reported
/// as an error too.
#[verifier::external_body]
fn bcrypt_hash(password: &str, cost: u32) -> (r: Result<String, bcrypt::BcryptError>)
    ensures
        r matches Ok(h) ==> bcrypt_verdict(password@, h@) == Some(true),
        !usable_cost(cost) ==> r is Err,
{
    bcrypt::hash(password, cost)
}

/// Decides from the primitive's answer whether a password is accepted: only
/// a definite "yes" counts.
pub fn accept_verdict<E>(answer: Result<bool, E>) -> (accepted: bool)
    ensures
        accepted == (answer == Ok::<bool, E>(true)),
{
    match answer {
        Ok(b) => b,
        Err(_) => false,
    }
}

/// Whether the raw password matches the stored verifier. An unusable
/// verifier matches nothing.
pub fn password_matches(raw: &str, verifier: &str) -> (accepted: bool)
    ensures
        accepted == password_accepted(raw@, verifier@),
{
    accept_verdict(bcrypt_verify(raw, verifier))
}

/// Turns the primitive's hashing result into the library's own result.
pub fn verifier_from<E>(hashed: Result<String, E>) -> (r: Result<String, AuthError>)
    ensures
        match hashed {
            Ok(h) => r == Ok::<String, AuthError>(h),
            Err(_) => r == Err::<String, AuthError>(AuthError::Internal),
        },
{
    match hashed {
        Ok(h) => Ok(h),
        Err(_) => Err(AuthError::Internal),
    }
}

/// Computes a fresh verifier for a raw password. On success the password
/// matches the verifier; the only failure is one reported by the hashing
/// primitive itself, which it always does for a cost it does not accept.
pub fn hash_password(raw: &str, cost: u32) -> (r: Result<String, AuthError>)
    ensures
        match r {
            Ok(h) => password_accepted(raw@, h@) && usable_cost(cost),
            Err(e) => e == AuthError::Internal,
        },
{
    verifier_from(bcrypt_hash(raw, cost))
}

} // verus!
