//! Password handling at the engine's trust boundary: hashing uses bcrypt
//! with a random salt, so nothing is promised of a hash's value; checking a
//! password against a stored hash is a function of the two strings alone.

use vstd::prelude::*;
use crate::error::{AppError, AppResult};

verus! {

/// Whether bcrypt's check accepts this password against this stored hash.
pub uninterp spec fn password_matches(password: Seq<char>, hash: Seq<char>) -> bool;

#[verifier::external_type_specification]
#[verifier::external_body]
pub struct ExBcryptError(bcrypt::BcryptError);

/// Relies on bcrypt::hash at the default cost: a password hash salted with
/// fresh OS randomness, so nothing can be promised of the result.
#[verifier::external_body]
fn bcrypt_hash(password: &str) -> (r: Result<String, bcrypt::BcryptError>) {
    bcrypt::hash(password, bcrypt::DEFAULT_COST)
}

/// Relies on bcrypt::verify: it re-derives the hash from the password and
/// the salt carried inside `hash`, so an accepted outcome is a function of
/// the two strings alone; it errs on a malformed hash.
#[verifier::external_body]
fn bcrypt_verify(password: &str, hash: &str) -> (r: Result<bool, bcrypt::BcryptError>)
    ensures
        r matches Ok(b) ==> b == password_matches(password@, hash@),
{
    bcrypt::verify(password, hash)
}

/// Hash a password for storage; any failure of the hasher surfaces as an
/// internal error.
pub fn hash_password(password: &str) -> (r: AppResult<String>)
    ensures
        r is Err ==> r == Err::<String, AppError>(AppError::Internal),
{
    match bcrypt_hash(password) {
        Ok(h) => Ok(h),
        Err(_) => Err(AppError::Internal),
    }
}

/// Check a password against a stored hash; a malformed hash surfaces as an
/// internal error.
pub fn verify_password(password: &str, hash: &str) -> (r: AppResult<bool>)
    ensures
        r matches Ok(b) ==> b == password_matches(password@, hash@),
        r is Err ==> r == Err::<bool, AppError>(AppError::Internal),
{
    match bcrypt_verify(password, hash) {
        Ok(b) => Ok(b),
        Err(_) => Err(AppError::Internal),
    }
}

} // verus!
