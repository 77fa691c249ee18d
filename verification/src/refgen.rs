//! Generation of unique random external references.
//!
//! A fresh reference is drawn at random and held against the store's
//! uniqueness predicate; the loop retries a bounded number of times and
//! reports exhaustion instead of spinning forever on a faulty source.

use vstd::prelude::*;
use crate::entities::{GroupRef, TenantRef, UserRef};
use crate::store::AuthDb;

verus! {

/// Bound on how often a colliding random reference is redrawn.
pub const MAX_REF_ATTEMPTS: usize = 32;

/// Relies on rand::random: one uniformly drawn 64-bit token.  Nothing can
/// be promised of a random value.
#[verifier::external_body]
fn random_code() -> u64 {
    rand::random::<u64>()
}

/// Draw a user reference that no stored row carries, giving up after
/// `MAX_REF_ATTEMPTS` collisions.
pub fn gen_unique_user_ref(db: &AuthDb) -> (r: Option<UserRef>)
    ensures
        r matches Some(u) ==> !db.spec_user_ref_exists(u),
{
    let mut attempts: usize = 0;
    while attempts < MAX_REF_ATTEMPTS
        decreases MAX_REF_ATTEMPTS - attempts,
    {
        let candidate = UserRef { code: random_code() };
        if db.find_user_by_ref(&candidate).is_none() {
            return Some(candidate);
        }
        attempts += 1;
    }
    None
}

/// Draw a tenant reference that no stored row carries, giving up after
/// `MAX_REF_ATTEMPTS` collisions.
pub fn gen_unique_tenant_ref(db: &AuthDb) -> (r: Option<TenantRef>)
    ensures
        r matches Some(t) ==> !db.spec_tenant_ref_exists(t),
{
    let mut attempts: usize = 0;
    while attempts < MAX_REF_ATTEMPTS
        decreases MAX_REF_ATTEMPTS - attempts,
    {
        let candidate = TenantRef { code: random_code() };
        if db.find_tenant_by_ref(&candidate).is_none() {
            return Some(candidate);
        }
        attempts += 1;
    }
    None
}

/// Draw a group reference that no stored row carries, giving up after
/// `MAX_REF_ATTEMPTS` collisions.
pub fn gen_unique_group_ref(db: &AuthDb) -> (r: Option<GroupRef>)
    ensures
        r matches Some(g) ==> !db.spec_group_ref_exists(g),
{
    let mut attempts: usize = 0;
    while attempts < MAX_REF_ATTEMPTS
        decreases MAX_REF_ATTEMPTS - attempts,
    {
        let candidate = GroupRef { code: random_code() };
        if db.find_group_by_ref(&candidate).is_none() {
            return Some(candidate);
        }
        attempts += 1;
    }
    None
}

} // verus!
