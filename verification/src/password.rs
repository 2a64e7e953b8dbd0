//! The password hashing service: one-way, salted, memory-hard hashing
//! and verification.
//!
//! Hashes are self-describing PHC strings carrying algorithm, version,
//! parameters and salt, so verification needs no side-channel state.
//! Verification never reveals whether the string was malformed or the
//! password merely wrong.

use vstd::prelude::*;

use crate::errors::AppError;
use argon2::{Algorithm, Argon2, Params, PasswordHash, PasswordHasher, PasswordVerifier, Version};

verus! {

/// Memory cost of the hash, in KiB blocks.
pub const HASH_MEMORY_COST: u32 = 15000;

/// Number of hashing iterations.
pub const HASH_ITERATIONS: u32 = 2;

/// Degree of parallelism of the hash.
pub const HASH_PARALLELISM: u32 = 1;

/// Whether verifying the password against the self-describing hash
/// string succeeds: a function of the two strings alone.
pub uninterp spec fn pwd_matches(password: Seq<char>, phc: Seq<char>) -> bool;

/// Relies on argon2's PasswordHasher::hash_password (Argon2id, version
/// 0x13, the given costs, a fresh random salt): the returned PHC string
/// verifies against the hashed password.
#[verifier::external_body]
fn argon2_hash(password: &str, m_cost: u32, t_cost: u32, p_cost: u32) -> (r: Result<
    String,
    AppError,
>)
    ensures
        r matches Ok(h) ==> pwd_matches(password@, h@),
        r is Err ==> r matches Err(AppError::UnexpectedError(_)),
{
    let params = match Params::new(m_cost, t_cost, p_cost, None) {
        Ok(p) => p,
        Err(e) => return Err(AppError::UnexpectedError(e.to_string())),
    };
    let hasher = Argon2::new(Algorithm::Argon2id, Version::V0x13, params);
    match hasher.hash_password(password.as_bytes()) {
        Ok(h) => Ok(h.to_string()),
        Err(e) => Err(AppError::UnexpectedError(e.to_string())),
    }
}

/// Relies on argon2's PasswordVerifier::verify_password, run with the
/// parameters and salt carried by the PHC string: the outcome is a
/// function of the password and the string alone, and a malformed
/// string fails like a mismatch.
#[verifier::external_body]
fn argon2_verify(password: &str, hashed_password: &str) -> (r: Result<(), AppError>)
    ensures
        r is Ok <==> pwd_matches(password@, hashed_password@),
        r is Err ==> r matches Err(AppError::UnauthorizedError(_)),
{
    let parsed = match PasswordHash::new(hashed_password) {
        Ok(p) => p,
        Err(e) => return Err(AppError::UnauthorizedError(e.to_string())),
    };
    match Argon2::default().verify_password(password.as_bytes(), &parsed) {
        Ok(()) => Ok(()),
        Err(e) => Err(AppError::UnauthorizedError(e.to_string())),
    }
}

/// The production hashing service.
pub struct ServerPwdHasher;

/// The hashing capability the core depends on; implemented by the
/// production service and open to test doubles.
pub trait PwdHasher {
    /// Hashes a password into a self-describing string that verifies
    /// against the same password.
    fn hash_password(&self, password: &str) -> (r: Result<String, AppError>)
        ensures
            r matches Ok(h) ==> pwd_matches(password@, h@),
            r is Err ==> r matches Err(AppError::UnexpectedError(_)),
    ;

    /// Succeeds exactly when the password matches the stored string.
    fn verify_password(&self, password: &str, hashed_password: &str) -> (r: Result<(), AppError>)
        ensures
            r is Ok <==> pwd_matches(password@, hashed_password@),
            r is Err ==> r matches Err(AppError::UnauthorizedError(_)),
    ;
}

impl PwdHasher for ServerPwdHasher {
    fn hash_password(&self, password: &str) -> (r: Result<String, AppError>) {
        argon2_hash(password, HASH_MEMORY_COST, HASH_ITERATIONS, HASH_PARALLELISM)
    }

    /// Failures carry one fixed message, so a malformed stored string
    /// is indistinguishable from a mismatch: no oracle for the caller.
    fn verify_password(&self, password: &str, hashed_password: &str) -> (r: Result<(), AppError>)
        ensures
            r matches Err(AppError::UnauthorizedError(m)) ==> m@ == "Invalid credentials."@,
    {
        match argon2_verify(password, hashed_password) {
            Ok(()) => Ok(()),
            Err(_) => Err(AppError::UnauthorizedError("Invalid credentials.".to_owned())),
        }
    }
}

} // verus!
