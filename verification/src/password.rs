//! Password hashing. Passwords are stored only as salted bcrypt hashes.

use crate::error::ApiError;
use vstd::prelude::*;

verus! {

/// The error type of the `bcrypt` crate.
#[verifier::external_type_specification]
#[verifier::external_body]
pub struct ExBcryptError(bcrypt::BcryptError);

/// What `bcrypt::verify` returns for a password and a hash: whether the
/// password is the one that was hashed, or nothing where the hash cannot
/// be read.
pub uninterp spec fn bcrypt_verdict(password: Seq<char>, hash: Seq<char>) -> Option<bool>;

/// Calls `bcrypt::hash` at `bcrypt::DEFAULT_COST`. The salt is random, so
/// nothing is said of the text of the hash. Trusted: a hash that comes
/// back is one that `bcrypt::verify` accepts for the same password.
#[verifier::external_body]
fn bcrypt_hash(password: &str) -> (r: Result<String, bcrypt::BcryptError>)
    ensures
        r matches Ok(hash) ==> bcrypt_verdict(password@, hash@) == Some(true),
{
    bcrypt::hash(password, bcrypt::DEFAULT_COST)
}

/// Calls `bcrypt::verify`. Trusted: the result is the one named by
/// [`bcrypt_verdict`], an error standing for nothing.
#[verifier::external_body]
fn bcrypt_verify(password: &str, hash: &str) -> (r: Result<bool, bcrypt::BcryptError>)
    ensures
        match r {
            Ok(accepted) => bcrypt_verdict(password@, hash@) == Some(accepted),
            Err(_) => bcrypt_verdict(password@, hash@) is None,
        },
{
    bcrypt::verify(password, hash)
}

/// Whether `hash` is a hash of `password`. A hash that cannot be read
/// matches no password.
pub open spec fn password_matches(password: Seq<char>, hash: Seq<char>) -> bool {
    bcrypt_verdict(password, hash) == Some(true)
}

/// Hashes a password with a fresh random salt. Fails only where the hasher
/// does, and then as a storage failure.
pub fn hash_password(password: &str) -> (r: Result<String, ApiError>)
    ensures
        match r {
            Ok(hash) => password_matches(password@, hash@),
            Err(e) => e == ApiError::StorageFailure,
        },
{
    match bcrypt_hash(password) {
        Ok(hash) => Ok(hash),
        Err(_) => Err(ApiError::StorageFailure),
    }
}

/// Whether `hash` is a hash of `password`.
pub fn verify_password(password: &str, hash: &str) -> (accepted: bool)
    ensures
        accepted == password_matches(password@, hash@),
{
    match bcrypt_verify(password, hash) {
        Ok(accepted) => accepted,
        Err(_) => false,
    }
}

} // verus!
