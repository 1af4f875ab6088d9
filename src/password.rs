use vstd::prelude::*;

use crate::error::AuthError;

verus! {

/// The work factor bcrypt uses by default.
pub const DEFAULT_COST: u32 = 12;

/// The least work factor bcrypt accepts.
pub const MIN_COST: u32 = 4;

/// The greatest work factor bcrypt accepts.
pub const MAX_COST: u32 = 31;

/// Length of a bcrypt hash string.
pub const HASH_LEN: usize = 60;

/// The version tag that every hash produced here starts with.
pub open spec fn hash_prefix() -> Seq<char> {
    "$2b$"@
}

/// Whether bcrypt accepts `password` against the stored hash `hash`.
pub uninterp spec fn bcrypt_accepts(password: Seq<char>, hash: Seq<char>) -> bool;

/// Relies on bcrypt::hash: for a cost in its accepted range it fails only when
/// the operating system's random source does; the hash it returns is the
/// 60-character `$2b$` form (two cost digits, 22 characters of salt, 31 of
/// hash), one that bcrypt::verify accepts for the same password.
#[verifier::external_body]
fn bcrypt_hash(password: &str, cost: u32) -> (r: Option<String>)
    requires
        MIN_COST <= cost <= MAX_COST,
    ensures
        r matches Some(h) ==> bcrypt_accepts(password@, h@) && h@.len() == HASH_LEN && h@.subrange(0, 4)
            == hash_prefix(),
{
    bcrypt::hash(password, cost).ok()
}

/// Relies on bcrypt::verify: it recomputes the hash with the stored salt and
/// cost and compares; a malformed hash is an error, read here as a refusal.
#[verifier::external_body]
fn bcrypt_verify(password: &str, hash: &str) -> (r: bool)
    ensures
        r == bcrypt_accepts(password@, hash@),
{
    bcrypt::verify(password, hash).unwrap_or(false)
}

/// A salted, adaptive hash of `password` at work factor `cost`. A cost outside
/// bcrypt's range is refused; otherwise only a failing random source fails it.
pub fn hash_password(password: &str, cost: u32) -> (r: Result<String, AuthError>)
    ensures
        !(MIN_COST <= cost <= MAX_COST) ==> r == Err::<String, AuthError>(AuthError::Validation),
        MIN_COST <= cost <= MAX_COST && r is Err ==> r == Err::<String, AuthError>(AuthError::Internal),
        r matches Ok(h) ==> bcrypt_accepts(password@, h@) && h@.len() == HASH_LEN && h@.subrange(0, 4)
            == hash_prefix(),
{
    if cost < MIN_COST || cost > MAX_COST {
        return Err(AuthError::Validation);
    }
    match bcrypt_hash(password, cost) {
        Some(h) => Ok(h),
        None => Err(AuthError::Internal),
    }
}

/// Whether bcrypt accepts `password` against the stored hash `hash`.
pub fn verify_password(password: &str, hash: &str) -> (r: bool)
    ensures
        r == bcrypt_accepts(password@, hash@),
{
    bcrypt_verify(password, hash)
}

} // verus!
