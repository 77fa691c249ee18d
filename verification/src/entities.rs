//! The public entity views: external references, users, tenants, groups,
//! and the login context an authenticated actor carries.

use vstd::prelude::*;

verus! {

/// Stable, opaque external identifier of a user.  The code is a randomly
/// drawn token, distinct from the internal surrogate key.
#[derive(Clone, Copy, PartialEq, Eq, Structural, Hash, Debug)]
pub struct UserRef {
    pub code: u64,
}

/// Stable, opaque external identifier of a tenant.
#[derive(Clone, Copy, PartialEq, Eq, Structural, Hash, Debug)]
pub struct TenantRef {
    pub code: u64,
}

/// Stable, opaque external identifier of a group.
#[derive(Clone, Copy, PartialEq, Eq, Structural, Hash, Debug)]
pub struct GroupRef {
    pub code: u64,
}

/// Public view of a user; the password hash is never part of it.
#[derive(Clone, Debug)]
pub struct User {
    pub user_ref: UserRef,
    pub username: String,
    pub firstname: String,
    pub lastname: String,
    pub email: Option<String>,
    pub timezone: String,
    pub is_superuser: bool,
}

/// The view a user gets of their own account, including the active tenant.
#[derive(Clone, Debug)]
pub struct UserSelf {
    pub user_ref: UserRef,
    pub username: String,
    pub firstname: String,
    pub lastname: String,
    pub email: Option<String>,
    pub timezone: String,
    pub tenant_ref: TenantRef,
    pub tenant_name: String,
}

/// Public view of a tenant.
#[derive(Clone, Debug)]
pub struct Tenant {
    pub tenant_ref: TenantRef,
    pub name: String,
}

/// Public view of a normal (user-managed) group.  System-managed
/// supergroups and admingroups are never exposed through this view.
#[derive(Clone, Debug)]
pub struct Group {
    pub group_ref: GroupRef,
    pub name: String,
    pub tenant: TenantRef,
}

/// Tenant-scoped part of a login context: the active tenant, whether the
/// actor administers it, and the groups the actor belongs to within it.
#[derive(Clone, Debug)]
pub struct TenantLoginInfo {
    pub tenant_ref: TenantRef,
    pub tenant_name: String,
    pub is_tenant_admin: bool,
    pub groups: Vec<GroupRef>,
}

/// The resolved authorization-relevant view of an authenticated actor.
#[derive(Clone, Debug)]
pub struct LoggedInUser {
    pub user: User,
    pub tenant_info: TenantLoginInfo,
}

impl LoggedInUser {
    /// The actor's active tenant is the given one.
    pub open spec fn spec_is_in_tenant(&self, tenant: TenantRef) -> bool {
        self.tenant_info.tenant_ref == tenant
    }

    /// The actor administers the given tenant: it is the active tenant and
    /// the actor sits in its admingroup.
    pub open spec fn spec_is_admin_in_tenant(&self, tenant: TenantRef) -> bool {
        self.tenant_info.tenant_ref == tenant && self.tenant_info.is_tenant_admin
    }

    /// The actor belongs to the given group within the active tenant.
    pub open spec fn spec_is_in_group(&self, group: GroupRef) -> bool {
        self.tenant_info.groups@.contains(group)
    }

    /// The actor's active tenant occurs in the given list.
    pub open spec fn spec_is_in_these_tenants(&self, tenants: Seq<TenantRef>) -> bool {
        tenants.contains(self.tenant_info.tenant_ref)
    }

    pub fn is_in_tenant(&self, tenant: &TenantRef) -> (r: bool)
        ensures
            r == self.spec_is_in_tenant(*tenant),
    {
        self.tenant_info.tenant_ref == *tenant
    }

    pub fn is_admin_in_tenant(&self, tenant: &TenantRef) -> (r: bool)
        ensures
            r == self.spec_is_admin_in_tenant(*tenant),
    {
        self.tenant_info.tenant_ref == *tenant && self.tenant_info.is_tenant_admin
    }

    pub fn is_in_group(&self, group: &GroupRef) -> (r: bool)
        ensures
            r == self.spec_is_in_group(*group),
    {
        let mut i: usize = 0;
        while i < self.tenant_info.groups.len()
            invariant
                i <= self.tenant_info.groups@.len(),
                forall|j: int| 0 <= j < i ==> self.tenant_info.groups@[j] != *group,
            decreases self.tenant_info.groups@.len() - i,
        {
            if self.tenant_info.groups[i] == *group {
                return true;
            }
            i += 1;
        }
        false
    }

    pub fn is_in_these_tenants(&self, tenants: &Vec<TenantRef>) -> (r: bool)
        ensures
            r == self.spec_is_in_these_tenants(tenants@),
    {
        let mut i: usize = 0;
        while i < tenants.len()
            invariant
                i <= tenants@.len(),
                forall|j: int| 0 <= j < i ==> tenants@[j] != self.tenant_info.tenant_ref,
            decreases tenants@.len() - i,
        {
            if tenants[i] == self.tenant_info.tenant_ref {
                return true;
            }
            i += 1;
        }
        false
    }
}

} // verus!
