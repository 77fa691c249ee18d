//! Tenant payloads.

use vstd::prelude::*;
use crate::entities::UserRef;
use crate::users::structures::CreateUser;

verus! {

/// Payload for creating a tenant.  Exactly one of `superuser` (a full
/// user-creation payload) and `superuser_id` (a reference to an existing
/// user) must be supplied.
pub struct CreateTenant {
    pub name: String,
    pub superuser: Option<CreateUser>,
    pub superuser_id: Option<UserRef>,
}

} // verus!
