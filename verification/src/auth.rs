//! The authorization engine: one stateless decision function over the
//! actor's login context and the resolved facts about the target.
//!
//! Three tiers, highest first: a global superuser may do everything; a
//! tenant administrator may administer groups and users within the
//! tenant; an ordinary member may read their own data and data within
//! their tenant.  A write across tenant boundaries is denied even when
//! the admin tier alone would allow it.

use vstd::prelude::*;
use crate::entities::{GroupRef, LoggedInUser, TenantRef};
use crate::store::{active_user_ref_resolves, user_in_tenant, AuthDb};

verus! {

/// An operation to authorize, with the target facts already resolved
/// from the store.
pub enum AuthOperation {
    /// Read a user; `actor_is_target` says whether the target is the
    /// actor's own row, `target_tenants` lists the target's tenants.
    ReadUser { actor_is_target: bool, target_tenants: Vec<TenantRef> },
    /// Change a user.
    WriteUser { actor_is_target: bool, target_tenants: Vec<TenantRef> },
    /// Soft-delete a user.
    DeleteUser,
    /// Create a user.
    CreateUser,
    /// Create a tenant with its system groups.
    CreateTenant,
    /// Read a tenant and the users that belong to it.
    ReadTenant { tenant: TenantRef },
    /// List a tenant's administrators.
    ReadTenantAdmins { tenant: TenantRef },
    /// Attach a user to or detach a user from a tenant.
    ModifyTenantUsers { tenant: TenantRef },
    /// Promote or demote a tenant administrator, or list the tenant's
    /// groups.
    AdministerTenant { tenant: TenantRef },
    /// Read a group and its members.
    ReadGroup { group: GroupRef, group_tenant: TenantRef },
    /// Create, rename or delete a group.
    ModifyGroup { group_tenant: TenantRef },
    /// Add a user to a group; `target_tenants` lists the tenants the
    /// user already belongs to.
    AddMembership { group_tenant: TenantRef, target_tenants: Vec<TenantRef> },
    /// Remove a user from a group.
    RemoveMembership { group_tenant: TenantRef },
}

/// The decision table: the minimum tier each operation asks for.
pub open spec fn spec_authorize(actor: &LoggedInUser, op: &AuthOperation) -> bool {
    actor.user.is_superuser || match op {
        AuthOperation::ReadUser { actor_is_target, target_tenants } => *actor_is_target
            || actor.spec_is_in_these_tenants(target_tenants@),
        AuthOperation::WriteUser { actor_is_target, target_tenants } => *actor_is_target || (
        actor.tenant_info.is_tenant_admin && actor.spec_is_in_these_tenants(target_tenants@)),
        AuthOperation::DeleteUser => false,
        AuthOperation::CreateUser => false,
        AuthOperation::CreateTenant => false,
        AuthOperation::ReadTenant { tenant } => actor.spec_is_in_tenant(*tenant),
        AuthOperation::ReadTenantAdmins { tenant } => actor.spec_is_admin_in_tenant(*tenant),
        AuthOperation::ModifyTenantUsers { tenant: _ } => false,
        AuthOperation::AdministerTenant { tenant } => actor.spec_is_admin_in_tenant(*tenant),
        AuthOperation::ReadGroup { group, group_tenant } => actor.spec_is_admin_in_tenant(
            *group_tenant,
        ) || actor.spec_is_in_group(*group),
        AuthOperation::ModifyGroup { group_tenant } => actor.spec_is_admin_in_tenant(
            *group_tenant,
        ),
        AuthOperation::AddMembership { group_tenant, target_tenants } => actor.spec_is_admin_in_tenant(
            *group_tenant,
        ) && actor.spec_is_in_these_tenants(target_tenants@),
        AuthOperation::RemoveMembership { group_tenant } => actor.spec_is_admin_in_tenant(
            *group_tenant,
        ),
    }
}

/// Decide an operation for an actor: the one consolidated permission
/// check every endpoint goes through.
pub fn authorize(actor: &LoggedInUser, op: &AuthOperation) -> (allow: bool)
    ensures
        allow == spec_authorize(actor, op),
{
    if actor.user.is_superuser {
        return true;
    }
    match op {
        AuthOperation::ReadUser { actor_is_target, target_tenants } => *actor_is_target
            || actor.is_in_these_tenants(target_tenants),
        AuthOperation::WriteUser { actor_is_target, target_tenants } => *actor_is_target || (
        actor.tenant_info.is_tenant_admin && actor.is_in_these_tenants(target_tenants)),
        AuthOperation::DeleteUser => false,
        AuthOperation::CreateUser => false,
        AuthOperation::CreateTenant => false,
        AuthOperation::ReadTenant { tenant } => actor.is_in_tenant(tenant),
        AuthOperation::ReadTenantAdmins { tenant } => actor.is_admin_in_tenant(tenant),
        AuthOperation::ModifyTenantUsers { tenant: _ } => false,
        AuthOperation::AdministerTenant { tenant } => actor.is_admin_in_tenant(tenant),
        AuthOperation::ReadGroup { group, group_tenant } => actor.is_admin_in_tenant(group_tenant)
            || actor.is_in_group(group),
        AuthOperation::ModifyGroup { group_tenant } => actor.is_admin_in_tenant(group_tenant),
        AuthOperation::AddMembership { group_tenant, target_tenants } => actor.is_admin_in_tenant(
            group_tenant,
        ) && actor.is_in_these_tenants(target_tenants),
        AuthOperation::RemoveMembership { group_tenant } => actor.is_admin_in_tenant(group_tenant),
    }
}

/// The actor may read the target user: self, superuser, or a shared
/// tenant.
pub open spec fn spec_can_read_user(db: &AuthDb, actor: &LoggedInUser, target_id: u64) -> bool {
    ||| actor.user.is_superuser
    ||| active_user_ref_resolves(db.users@, actor.user.user_ref, target_id)
    ||| user_in_tenant(
        db.tenants@,
        db.groups@,
        db.memberships@,
        target_id,
        actor.tenant_info.tenant_ref,
    )
}

/// The actor may change the target user: self, superuser, or an
/// administrator of a tenant the target already belongs to.
pub open spec fn spec_can_write_user(db: &AuthDb, actor: &LoggedInUser, target_id: u64) -> bool {
    ||| actor.user.is_superuser
    ||| active_user_ref_resolves(db.users@, actor.user.user_ref, target_id)
    ||| (actor.tenant_info.is_tenant_admin && user_in_tenant(
        db.tenants@,
        db.groups@,
        db.memberships@,
        target_id,
        actor.tenant_info.tenant_ref,
    ))
}

/// Whether the target user is the actor's own active row.
pub fn actor_is_user(db: &AuthDb, actor: &LoggedInUser, target_id: u64) -> (r: bool)
    requires
        db.wf(),
    ensures
        r == active_user_ref_resolves(db.users@, actor.user.user_ref, target_id),
{
    match db.find_active_user_by_ref(&actor.user.user_ref) {
        Some(i) => {
            proof {
                if db.users@[i as int].id != target_id {
                    assert forall|w: int|
                        0 <= w < db.users@.len() && (#[trigger] db.users@[w]).is_active()
                            && db.users@[w].user_ref == actor.user.user_ref implies db.users@[w].id
                        != target_id by {
                        assert(w == i);
                    }
                }
            }
            db.users[i].id == target_id
        },
        None => false,
    }
}

} // verus!
