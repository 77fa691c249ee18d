//! Password hashing through the external credential hasher.
//!
//! Algorithm 0 is a plaintext passthrough kept for legacy data and tests;
//! algorithm 1 is the memory-hard argon2 hash.  The argon2 computation is
//! external; everything around it — algorithm selection, error mapping —
//! is verified.

use vstd::prelude::*;
use argon2::password_hash::{PasswordHash, PasswordHasher, PasswordVerifier, SaltString};
use argon2::Argon2;

verus! {

/// The password hashes that argon2's verifier can process: well-formed
/// PHC strings naming a supported algorithm.  Membership is a function of
/// the string alone.
pub uninterp spec fn argon2_processable(hash: Seq<char>) -> bool;

/// The verdict of argon2 verification for a processable hash and a
/// password, as a function of the two alone.
pub uninterp spec fn argon2_accepts(hash: Seq<char>, plain: Seq<u8>) -> bool;

/// Failure reported by the credential hasher.
#[derive(Debug)]
pub enum HashError {
    /// The requested hash algorithm id is not known.
    UnknownHashId,
    /// The argon2 backend refused the input.
    Argon2(argon2::password_hash::Error),
}

#[verifier::external_type_specification]
#[verifier::external_body]
pub struct ExPasswordHashError(argon2::password_hash::Error);

/// Relies on argon2's PasswordHasher::hash_password with a fresh random
/// salt drawn through rand: every hash it emits is a processable PHC
/// string that verifies against the password it was computed from.
#[verifier::external_body]
fn hash_argon2(plain: &[u8]) -> (r: Result<String, argon2::password_hash::Error>)
    ensures
        r matches Ok(h) ==> argon2_processable(h@) && argon2_accepts(h@, plain@),
{
    let salt_bytes: [u8; 16] = rand::random();
    let salt = SaltString::encode_b64(&salt_bytes)?;
    let hashed = Argon2::default().hash_password(plain, &salt)?;
    Ok(hashed.to_string())
}

/// Relies on argon2's PasswordVerifier::verify_password: on a processable
/// hash it returns the deterministic verdict; `Error::Password` is the
/// mismatch verdict, every other error means the hash cannot be processed
/// or the password is over argon2's hard length cap of `u32::MAX` bytes.
#[verifier::external_body]
fn verify_argon2(hash: &str, plain: &[u8]) -> (r: Result<
    bool,
    argon2::password_hash::Error,
>)
    ensures
        argon2_processable(hash@) && plain@.len() <= u32::MAX ==> r is Ok,
        r matches Ok(b) ==> argon2_processable(hash@) && b == argon2_accepts(hash@, plain@),
{
    let argon2 = Argon2::default();
    let parsed = PasswordHash::new(hash)?;
    match argon2.verify_password(plain, &parsed) {
        Ok(()) => Ok(true),
        Err(argon2::password_hash::Error::Password) => Ok(false),
        Err(e) => Err(e),
    }
}

/// The stored hash `hash` (under algorithm `hash_id`) matches the
/// plaintext `plain`.
pub open spec fn spec_password_matches(plain: Seq<char>, hash: Seq<char>, hash_id: u16) -> bool {
    if hash_id == 0 {
        plain == hash
    } else if hash_id == 1 {
        argon2_processable(hash) && argon2_accepts(hash, vstd::utf8::encode_utf8(plain))
    } else {
        false
    }
}

/// Hash a plaintext password under the selected algorithm.  A successful
/// result always verifies against the plaintext it came from.
pub fn hash_password(plaintext: &str, hash_id: u16) -> (r: Result<String, HashError>)
    ensures
        hash_id == 0 ==> (r matches Ok(h) && h@ == plaintext@),
        hash_id > 1 ==> (r matches Err(e) && e is UnknownHashId),
        hash_id == 1 && r is Err ==> (r matches Err(e) && e matches HashError::Argon2(_)),
        r matches Ok(h) ==> spec_password_matches(plaintext@, h@, hash_id),
{
    if hash_id == 0 {
        Ok(plaintext.to_owned())
    } else if hash_id == 1 {
        match hash_argon2(plaintext.as_bytes()) {
            Ok(h) => Ok(h),
            Err(e) => Err(HashError::Argon2(e)),
        }
    } else {
        Err(HashError::UnknownHashId)
    }
}

/// Check a plaintext password against a stored hash under the selected
/// algorithm.
pub fn verify_password(plaintext: &str, hash: &str, hash_id: u16) -> (r: Result<bool, HashError>)
    ensures
        hash_id == 0 ==> (r matches Ok(b) && b == (plaintext@ == hash@)),
        hash_id > 1 ==> (r matches Err(e) && e is UnknownHashId),
        hash_id == 1 && argon2_processable(hash@) && vstd::utf8::encode_utf8(plaintext@).len()
            <= u32::MAX ==> r is Ok,
        r matches Ok(b) ==> b == spec_password_matches(plaintext@, hash@, hash_id),
{
    if hash_id == 0 {
        Ok(str_eq(plaintext, hash))
    } else if hash_id == 1 {
        match verify_argon2(hash, plaintext.as_bytes()) {
            Ok(b) => Ok(b),
            Err(e) => Err(HashError::Argon2(e)),
        }
    } else {
        Err(HashError::UnknownHashId)
    }
}

/// Relies on str's PartialEq: equality of the two character sequences.
#[verifier::external_body]
fn str_eq(a: &str, b: &str) -> (r: bool)
    ensures
        r == (a@ == b@),
{
    a == b
}

} // verus!
