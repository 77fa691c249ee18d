//! Tenant operations as the service exposes them: permission check
//! first, then the lifecycle mutation or read.

use vstd::prelude::*;
use crate::auth::{authorize, AuthOperation};
use crate::entities::{Group, LoggedInUser, Tenant, TenantRef, User, UserRef};
use crate::groups::errors::GroupEndpointError;
use crate::groups::structures::GroupType;
use crate::store::{AuthDb, Membership};
use crate::tenants::error::{CreationError, TenantEndpointError};
use crate::tenants::internal;
use crate::tenants::structures::CreateTenant;
use crate::UserAuthError;

verus! {

/// Read a tenant; the actor must be a superuser or belong to it.
pub fn get_tenant(tenant_ref: TenantRef, actor: &LoggedInUser, db: &mut AuthDb) -> (r: Result<
    Tenant,
    UserAuthError,
>)
    requires
        old(db).wf(),
    ensures
        final(db).wf(),
        final(db).same_data(old(db)),
        match r {
            Ok(t) => (actor.user.is_superuser || actor.spec_is_in_tenant(tenant_ref)) && exists|
                i: int,
            |
                0 <= i < old(db).tenants@.len() && (#[trigger] old(db).tenants@[i]).tenant_ref
                    == tenant_ref && old(db).tenants@[i].tenant_ref == t.tenant_ref && old(db).tenants@[i].name@ == t.name@,
            Err(e) => (e matches UserAuthError::TenantEndpoint(te) && ((te is ReadingDenied
                && !(actor.user.is_superuser || actor.spec_is_in_tenant(tenant_ref))) || (
            te matches TenantEndpointError::TenantNonExistent(_) && !old(db).spec_tenant_ref_exists(tenant_ref)))),
        },
{
    if !authorize(actor, &AuthOperation::ReadTenant { tenant: tenant_ref }) {
        return Err(UserAuthError::TenantEndpoint(TenantEndpointError::ReadingDenied));
    }
    let tenant_id = internal::decode_tenant_ref(db, tenant_ref)?;
    proof {
        assert(db.spec_tenant_id_exists(tenant_id)) by {
            let w = choose|w: int|
                0 <= w < db.tenants@.len() && (#[trigger] db.tenants@[w]).tenant_ref == tenant_ref
                    && db.tenants@[w].id == tenant_id;
        }
    }
    let t = internal::get_tenant(tenant_id, db);
    proof {
        let w = choose|w: int|
            0 <= w < db.tenants@.len() && (#[trigger] db.tenants@[w]).id == tenant_id
                && db.tenants@[w].tenant_ref == t.tenant_ref && db.tenants@[w].name@ == t.name@;
        let v = choose|v: int|
            0 <= v < db.tenants@.len() && (#[trigger] db.tenants@[v]).tenant_ref == tenant_ref
                && db.tenants@[v].id == tenant_id;
        assert(w == v);
    }
    Ok(t)
}

/// List the tenant's users; the actor must be a superuser or belong to
/// it.
pub fn get_tenant_users(tenant_ref: TenantRef, actor: &LoggedInUser, db: &mut AuthDb) -> (r:
    Result<Vec<User>, UserAuthError>)
    requires
        old(db).wf(),
    ensures
        final(db).wf(),
        final(db).same_data(old(db)),
        r is Ok ==> (actor.user.is_superuser || actor.spec_is_in_tenant(tenant_ref)),
        match r {
            Err(UserAuthError::TenantEndpoint(TenantEndpointError::ReadingDenied)) => !(
            actor.user.is_superuser || actor.spec_is_in_tenant(tenant_ref)),
            _ => true,
        },
        (actor.user.is_superuser || actor.spec_is_in_tenant(tenant_ref)) && old(
            db,
        ).spec_tenant_ref_exists(tenant_ref) ==> r is Ok,
        match r {
            Ok(users) => exists|g: int|
                0 <= g < old(db).groups@.len() && (#[trigger] old(db).groups@[g]).group_type
                    is SuperGroup && crate::store::group_tenant_ref_is(
                    old(db).groups@,
                    old(db).tenants@,
                    old(db).groups@[g].id,
                    tenant_ref,
                ) && crate::groups::internal::users_view_of_group(
                    final(db),
                    old(db).groups@[g].id,
                    users@,
                ),
            Err(e) => (e matches UserAuthError::TenantEndpoint(te) && (te is ReadingDenied || (
            te matches TenantEndpointError::TenantNonExistent(_) && !old(db).spec_tenant_ref_exists(tenant_ref)))),
        },
{
    if !authorize(actor, &AuthOperation::ReadTenant { tenant: tenant_ref }) {
        return Err(UserAuthError::TenantEndpoint(TenantEndpointError::ReadingDenied));
    }
    let tenant_id = internal::decode_tenant_ref(db, tenant_ref)?;
    proof {
        assert(db.spec_tenant_id_exists(tenant_id)) by {
            let w = choose|w: int|
                0 <= w < db.tenants@.len() && (#[trigger] db.tenants@[w]).tenant_ref == tenant_ref
                    && db.tenants@[w].id == tenant_id;
        }
    }
    let sg = match internal::get_tenant_supergroup(tenant_id, db) {
        Ok(g) => g,
        Err(e) => {
            proof {
                assert(false);
            }
            return Err(e);
        },
    };
    let users = crate::groups::internal::get_users_in_group(sg, db);
    proof {
        let g = choose|g: int|
            0 <= g < db.groups@.len() && (#[trigger] db.groups@[g]).tenant_id == tenant_id
                && db.groups@[g].group_type is SuperGroup && db.groups@[g].id == sg;
        let t = choose|t: int|
            0 <= t < db.tenants@.len() && (#[trigger] db.tenants@[t]).tenant_ref == tenant_ref
                && db.tenants@[t].id == tenant_id;
    }
    Ok(users)
}

/// List the tenant's administrators; the actor must be a superuser or an
/// administrator of the tenant.
pub fn get_tenant_admins(tenant_ref: TenantRef, actor: &LoggedInUser, db: &mut AuthDb) -> (r:
    Result<Vec<User>, UserAuthError>)
    requires
        old(db).wf(),
    ensures
        final(db).wf(),
        final(db).same_data(old(db)),
        r is Ok ==> (actor.user.is_superuser || actor.spec_is_admin_in_tenant(tenant_ref)),
        match r {
            Err(UserAuthError::TenantEndpoint(TenantEndpointError::ReadingDenied)) => !(
            actor.user.is_superuser || actor.spec_is_admin_in_tenant(tenant_ref)),
            _ => true,
        },
        (actor.user.is_superuser || actor.spec_is_admin_in_tenant(tenant_ref)) && old(
            db,
        ).spec_tenant_ref_exists(tenant_ref) ==> r is Ok,
        match r {
            Ok(users) => exists|g: int|
                0 <= g < old(db).groups@.len() && (#[trigger] old(db).groups@[g]).group_type
                    is AdminGroup && crate::store::group_tenant_ref_is(
                    old(db).groups@,
                    old(db).tenants@,
                    old(db).groups@[g].id,
                    tenant_ref,
                ) && crate::groups::internal::users_view_of_group(
                    final(db),
                    old(db).groups@[g].id,
                    users@,
                ),
            Err(e) => (e matches UserAuthError::TenantEndpoint(te) && (te is ReadingDenied || (
            te matches TenantEndpointError::TenantNonExistent(_) && !old(db).spec_tenant_ref_exists(tenant_ref)))),
        },
{
    if !authorize(actor, &AuthOperation::ReadTenantAdmins { tenant: tenant_ref }) {
        return Err(UserAuthError::TenantEndpoint(TenantEndpointError::ReadingDenied));
    }
    let tenant_id = internal::decode_tenant_ref(db, tenant_ref)?;
    proof {
        assert(db.spec_tenant_id_exists(tenant_id)) by {
            let w = choose|w: int|
                0 <= w < db.tenants@.len() && (#[trigger] db.tenants@[w]).tenant_ref == tenant_ref
                    && db.tenants@[w].id == tenant_id;
        }
    }
    let ag = match internal::get_tenant_admingroup(tenant_id, db) {
        Ok(g) => g,
        Err(e) => {
            proof {
                assert(false);
            }
            return Err(e);
        },
    };
    let users = crate::groups::internal::get_users_in_group(ag, db);
    proof {
        let g = choose|g: int|
            0 <= g < db.groups@.len() && (#[trigger] db.groups@[g]).tenant_id == tenant_id
                && db.groups@[g].group_type is AdminGroup && db.groups@[g].id == ag;
        let t = choose|t: int|
            0 <= t < db.tenants@.len() && (#[trigger] db.tenants@[t]).tenant_ref == tenant_ref
                && db.tenants@[t].id == tenant_id;
    }
    Ok(users)
}

/// List the tenant's user-visible groups; the actor must be a superuser
/// or an administrator of the tenant.
pub fn get_tenant_groups(tenant_ref: TenantRef, actor: &LoggedInUser, db: &mut AuthDb) -> (r:
    Result<Vec<Group>, UserAuthError>)
    requires
        old(db).wf(),
    ensures
        final(db).wf(),
        final(db).same_data(old(db)),
        r is Ok ==> (actor.user.is_superuser || actor.spec_is_admin_in_tenant(tenant_ref)),
        match r {
            Err(UserAuthError::TenantEndpoint(TenantEndpointError::ReadingDenied)) => !(
            actor.user.is_superuser || actor.spec_is_admin_in_tenant(tenant_ref)),
            _ => true,
        },
        (actor.user.is_superuser || actor.spec_is_admin_in_tenant(tenant_ref)) && old(
            db,
        ).spec_tenant_ref_exists(tenant_ref) ==> r is Ok,
        match r {
            Ok(groups) => exists|t: int|
                0 <= t < old(db).tenants@.len() && (#[trigger] old(db).tenants@[t]).tenant_ref
                    == tenant_ref && internal::lists_tenant_normal_groups(
                    old(db).groups@,
                    old(db).tenants@[t].id,
                    tenant_ref,
                    groups@,
                ),
            Err(e) => (e matches UserAuthError::TenantEndpoint(te) && (te is ReadingDenied || (
            te matches TenantEndpointError::TenantNonExistent(_) && !old(db).spec_tenant_ref_exists(tenant_ref)))),
        },
{
    if !authorize(actor, &AuthOperation::AdministerTenant { tenant: tenant_ref }) {
        return Err(UserAuthError::TenantEndpoint(TenantEndpointError::ReadingDenied));
    }
    let tenant_id = internal::decode_tenant_ref(db, tenant_ref)?;
    let groups = internal::get_tenant_non_special_groups(tenant_id, &tenant_ref, db);
    proof {
        let t = choose|t: int|
            0 <= t < db.tenants@.len() && (#[trigger] db.tenants@[t]).tenant_ref == tenant_ref
                && db.tenants@[t].id == tenant_id;
    }
    Ok(groups)
}

/// Create a tenant with its system groups and superuser; only a
/// superuser may create tenants.
pub fn create_tenant(tenant: CreateTenant, actor: &LoggedInUser, hash_id: u16, db: &mut AuthDb)
    -> (r: Result<(TenantRef, u64, UserRef), UserAuthError>)
    requires
        old(db).wf(),
        old(db).next_tenant_id < u64::MAX,
        old(db).next_group_id < u64::MAX - 1,
        old(db).next_user_id < u64::MAX,
    ensures
        final(db).wf(),
        r is Err ==> final(db).same_data(old(db)),
        !actor.user.is_superuser ==> (r matches Err(e) && e matches
            UserAuthError::TenantEndpoint(te) && te matches TenantEndpointError::Creation(c) && c
            is Denied),
        match r {
            Err(UserAuthError::TenantEndpoint(TenantEndpointError::Creation(CreationError::Denied))) => !actor.user.is_superuser,
            _ => true,
        },
        actor.user.is_superuser && (tenant.superuser is Some <==> tenant.superuser_id is Some)
            ==> (r matches Err(e) && e matches UserAuthError::TenantEndpoint(te) && te matches
            TenantEndpointError::Creation(c) && c is MissingSuperuser),
        match r {
            Ok((tr, tid, ur)) => actor.user.is_superuser && internal::tenant_created_ok(
                old(db),
                final(db),
                &tenant,
                hash_id,
                tr,
                tid,
                ur,
            ),
            Err(_) => true,
        },
{
    if !authorize(actor, &AuthOperation::CreateTenant) {
        return Err(
            UserAuthError::TenantEndpoint(TenantEndpointError::Creation(CreationError::Denied)),
        );
    }
    internal::create_tenant(tenant, hash_id, db)
}

/// Attach a user to a tenant: membership of the tenant's supergroup.
/// Only a superuser may modify tenant membership this way.
#[verifier::rlimit(100)]
pub fn add_user_to_tenant(
    tenant_ref: TenantRef,
    user_ref: UserRef,
    actor: &LoggedInUser,
    db: &mut AuthDb,
) -> (r: Result<(), UserAuthError>)
    requires
        old(db).wf(),
    ensures
        final(db).wf(),
        r is Err ==> final(db).same_data(old(db)),
        !actor.user.is_superuser ==> (r matches Err(e) && e matches
            UserAuthError::TenantEndpoint(te) && te is ModificationDenied),
        match r {
            Err(UserAuthError::TenantEndpoint(TenantEndpointError::ModificationDenied)) => !actor.user.is_superuser,
            _ => true,
        },
        match r {
            Err(UserAuthError::UserEndpoint(ue)) => ue is UserNonExistent && !old(
                db,
            ).spec_active_user_ref_exists(user_ref),
            _ => true,
        },
        (actor.user.is_superuser && exists|uid: u64, g: int|
            0 <= g < old(db).groups@.len() && #[trigger] crate::store::active_user_ref_resolves(
                old(db).users@,
                user_ref,
                uid,
            ) && (#[trigger] old(db).groups@[g]).group_type is SuperGroup
                && crate::store::group_tenant_ref_is(
                old(db).groups@,
                old(db).tenants@,
                old(db).groups@[g].id,
                tenant_ref,
            ) && !old(db).spec_has_membership(uid, old(db).groups@[g].id)) ==> r is Ok,
        (actor.user.is_superuser && exists|uid: u64, g: int|
            0 <= g < old(db).groups@.len() && #[trigger] crate::store::active_user_ref_resolves(
                old(db).users@,
                user_ref,
                uid,
            ) && (#[trigger] old(db).groups@[g]).group_type is SuperGroup
                && crate::store::group_tenant_ref_is(
                old(db).groups@,
                old(db).tenants@,
                old(db).groups@[g].id,
                tenant_ref,
            ) && old(db).spec_has_membership(uid, old(db).groups@[g].id)) ==> (r matches Err(e)
            && e matches UserAuthError::GroupEndpoint(ge) && ge matches
            GroupEndpointError::UserAlreadyInGroup(_, _)),
        match r {
            Ok(_) => actor.user.is_superuser && exists|uid: u64, g: int|
                0 <= g < old(db).groups@.len() && #[trigger] crate::store::active_user_ref_resolves(
                    old(db).users@,
                    user_ref,
                    uid,
                ) && (#[trigger] old(db).groups@[g]).group_type is SuperGroup
                    && crate::store::group_tenant_ref_is(
                    old(db).groups@,
                    old(db).tenants@,
                    old(db).groups@[g].id,
                    tenant_ref,
                ) && final(db).memberships@ == old(db).memberships@.push(
                    Membership { user_id: uid, group_id: old(db).groups@[g].id },
                ),
            Err(_) => true,
        },
{
    if !authorize(actor, &AuthOperation::ModifyTenantUsers { tenant: tenant_ref }) {
        return Err(UserAuthError::TenantEndpoint(TenantEndpointError::ModificationDenied));
    }
    let tenant_id = match internal::decode_tenant_ref(db, tenant_ref) {
        Ok(id) => id,
        Err(e) => {
            proof {
                if exists|g: int|
                    0 <= g < old(db).groups@.len() && (#[trigger] old(db).groups@[g]).group_type
                        is SuperGroup && crate::store::group_tenant_ref_is(
                        old(db).groups@,
                        old(db).tenants@,
                        old(db).groups@[g].id,
                        tenant_ref,
                    ) {
                    let g = choose|g: int|
                        0 <= g < old(db).groups@.len() && (
                        #[trigger] old(db).groups@[g]).group_type is SuperGroup
                            && crate::store::group_tenant_ref_is(
                            old(db).groups@,
                            old(db).tenants@,
                            old(db).groups@[g].id,
                            tenant_ref,
                        );
                    let (a, b): (int, int) = choose|a: int, b: int|
                        0 <= a < old(db).groups@.len() && 0 <= b < old(db).tenants@.len() && (
                        #[trigger] old(db).groups@[a]).id == old(db).groups@[g].id && (
                        #[trigger] old(db).tenants@[b]).id == old(db).groups@[a].tenant_id && old(
                            db,
                        ).tenants@[b].tenant_ref == tenant_ref;
                    assert(false);
                }
            }
            return Err(e);
        },
    };
    let user_id = crate::users::internal::decode_user_ref(db, user_ref)?;
    proof {
        assert(db.spec_tenant_id_exists(tenant_id)) by {
            let w = choose|w: int|
                0 <= w < db.tenants@.len() && (#[trigger] db.tenants@[w]).tenant_ref == tenant_ref
                    && db.tenants@[w].id == tenant_id;
        }
    }
    let supergroup = match internal::get_tenant_supergroup(tenant_id, db) {
        Ok(g) => g,
        Err(e) => {
            proof {
                assert(false);
            }
            return Err(e);
        },
    };
    proof {
        assert forall|uid: u64|
            #[trigger] crate::store::active_user_ref_resolves(old(db).users@, user_ref, uid)
                implies uid == user_id by {
            crate::store::lemma_active_user_ref_functional(
                old(db).users@,
                user_ref,
                uid,
                user_id,
            );
        }
        assert forall|g: int|
            0 <= g < old(db).groups@.len() && (#[trigger] old(db).groups@[g]).group_type
                is SuperGroup && crate::store::group_tenant_ref_is(
                old(db).groups@,
                old(db).tenants@,
                old(db).groups@[g].id,
                tenant_ref,
            ) implies old(db).groups@[g].id == supergroup by {
            let (a, b): (int, int) = choose|a: int, b: int|
                0 <= a < old(db).groups@.len() && 0 <= b < old(db).tenants@.len() && (
                #[trigger] old(db).groups@[a]).id == old(db).groups@[g].id && (
                #[trigger] old(db).tenants@[b]).id == old(db).groups@[a].tenant_id && old(
                    db,
                ).tenants@[b].tenant_ref == tenant_ref;
            assert(a == g);
            let w = choose|w: int|
                0 <= w < db.tenants@.len() && (#[trigger] db.tenants@[w]).tenant_ref == tenant_ref
                    && db.tenants@[w].id == tenant_id;
            assert(b == w);
            let si = choose|si: int|
                0 <= si < db.groups@.len() && (#[trigger] db.groups@[si]).tenant_id == tenant_id
                    && db.groups@[si].group_type is SuperGroup && db.groups@[si].id == supergroup;
            assert(crate::store::unique_group_of_type(
                old(db).groups@,
                tenant_id,
                GroupType::SuperGroup,
            ));
            assert(g == si);
        }
    }
    proof {
        assert(db.spec_user_id_exists(user_id)) by {
            let w = choose|w: int|
                0 <= w < db.users@.len() && (#[trigger] db.users@[w]).is_active()
                    && db.users@[w].user_ref == user_ref && db.users@[w].id == user_id;
        }
        assert(db.spec_group_id_exists(supergroup)) by {
            let g = choose|g: int|
                0 <= g < db.groups@.len() && (#[trigger] db.groups@[g]).tenant_id == tenant_id
                    && db.groups@[g].group_type is SuperGroup && db.groups@[g].id == supergroup;
        }
    }
    crate::groups::internal::add_user_to_group(supergroup, user_id, db)?;
    proof {
        let g = choose|g: int|
            0 <= g < db.groups@.len() && (#[trigger] db.groups@[g]).tenant_id == tenant_id
                && db.groups@[g].group_type is SuperGroup && db.groups@[g].id == supergroup;
        let t = choose|t: int|
            0 <= t < db.tenants@.len() && (#[trigger] db.tenants@[t]).tenant_ref == tenant_ref
                && db.tenants@[t].id == tenant_id;
    }
    Ok(())
}

/// Detach a user from a tenant: remove the supergroup membership.  Only a
/// superuser may modify tenant membership this way.
#[verifier::rlimit(100)]
pub fn delete_user_from_tenant(
    tenant_ref: TenantRef,
    user_ref: UserRef,
    actor: &LoggedInUser,
    db: &mut AuthDb,
) -> (r: Result<(), UserAuthError>)
    requires
        old(db).wf(),
    ensures
        final(db).wf(),
        r is Err ==> final(db).same_data(old(db)),
        !actor.user.is_superuser ==> (r matches Err(e) && e matches
            UserAuthError::TenantEndpoint(te) && te is ModificationDenied),
        match r {
            Err(UserAuthError::TenantEndpoint(TenantEndpointError::ModificationDenied)) => !(actor.user.is_superuser),
            _ => true,
        },
        match r {
            Err(UserAuthError::UserEndpoint(ue)) => ue is UserNonExistent && !old(
                db,
            ).spec_active_user_ref_exists(user_ref),
            _ => true,
        },
        ((actor.user.is_superuser) && exists|uid: u64, g: int|
            0 <= g < old(db).groups@.len() && #[trigger] crate::store::active_user_ref_resolves(
                old(db).users@,
                user_ref,
                uid,
            ) && (#[trigger] old(db).groups@[g]).group_type is SuperGroup
                && crate::store::group_tenant_ref_is(
                old(db).groups@,
                old(db).tenants@,
                old(db).groups@[g].id,
                tenant_ref,
            ) && old(db).spec_has_membership(uid, old(db).groups@[g].id)) ==> r is Ok,
        ((actor.user.is_superuser) && exists|uid: u64, g: int|
            0 <= g < old(db).groups@.len() && #[trigger] crate::store::active_user_ref_resolves(
                old(db).users@,
                user_ref,
                uid,
            ) && (#[trigger] old(db).groups@[g]).group_type is SuperGroup
                && crate::store::group_tenant_ref_is(
                old(db).groups@,
                old(db).tenants@,
                old(db).groups@[g].id,
                tenant_ref,
            ) && !old(db).spec_has_membership(uid, old(db).groups@[g].id)) ==> (r matches Err(e)
            && e matches UserAuthError::GroupEndpoint(ge) && ge matches
            GroupEndpointError::UserNotInGroup(_, _)),
        match r {
            Ok(_) => actor.user.is_superuser && exists|uid: u64, g: int|
                0 <= g < old(db).groups@.len() && #[trigger] crate::store::active_user_ref_resolves(
                    old(db).users@,
                    user_ref,
                    uid,
                ) && (#[trigger] old(db).groups@[g]).group_type is SuperGroup
                    && crate::store::group_tenant_ref_is(
                    old(db).groups@,
                    old(db).tenants@,
                    old(db).groups@[g].id,
                    tenant_ref,
                ) && !final(db).spec_has_membership(uid, old(db).groups@[g].id) && final(db).memberships@.len() == old(db).memberships@.len() - 1,
            Err(_) => true,
        },
{
    if !authorize(actor, &AuthOperation::ModifyTenantUsers { tenant: tenant_ref }) {
        return Err(UserAuthError::TenantEndpoint(TenantEndpointError::ModificationDenied));
    }
    let tenant_id = match internal::decode_tenant_ref(db, tenant_ref) {
        Ok(id) => id,
        Err(e) => {
            proof {
                if exists|g: int|
                    0 <= g < old(db).groups@.len() && (#[trigger] old(db).groups@[g]).group_type
                        is SuperGroup && crate::store::group_tenant_ref_is(
                        old(db).groups@,
                        old(db).tenants@,
                        old(db).groups@[g].id,
                        tenant_ref,
                    ) {
                    let g = choose|g: int|
                        0 <= g < old(db).groups@.len() && (
                        #[trigger] old(db).groups@[g]).group_type is SuperGroup
                            && crate::store::group_tenant_ref_is(
                            old(db).groups@,
                            old(db).tenants@,
                            old(db).groups@[g].id,
                            tenant_ref,
                        );
                    let (a, b): (int, int) = choose|a: int, b: int|
                        0 <= a < old(db).groups@.len() && 0 <= b < old(db).tenants@.len() && (
                        #[trigger] old(db).groups@[a]).id == old(db).groups@[g].id && (
                        #[trigger] old(db).tenants@[b]).id == old(db).groups@[a].tenant_id && old(
                            db,
                        ).tenants@[b].tenant_ref == tenant_ref;
                    assert(false);
                }
            }
            return Err(e);
        },
    };
    let user_id = crate::users::internal::decode_user_ref(db, user_ref)?;
    proof {
        assert(db.spec_tenant_id_exists(tenant_id)) by {
            let w = choose|w: int|
                0 <= w < db.tenants@.len() && (#[trigger] db.tenants@[w]).tenant_ref == tenant_ref
                    && db.tenants@[w].id == tenant_id;
        }
    }
    let supergroup = match internal::get_tenant_supergroup(tenant_id, db) {
        Ok(g) => g,
        Err(e) => {
            proof {
                assert(false);
            }
            return Err(e);
        },
    };
    proof {
        assert forall|uid: u64|
            #[trigger] crate::store::active_user_ref_resolves(old(db).users@, user_ref, uid)
                implies uid == user_id by {
            crate::store::lemma_active_user_ref_functional(
                old(db).users@,
                user_ref,
                uid,
                user_id,
            );
        }
        assert forall|g: int|
            0 <= g < old(db).groups@.len() && (#[trigger] old(db).groups@[g]).group_type
                is SuperGroup && crate::store::group_tenant_ref_is(
                old(db).groups@,
                old(db).tenants@,
                old(db).groups@[g].id,
                tenant_ref,
            ) implies old(db).groups@[g].id == supergroup by {
            let (a, b): (int, int) = choose|a: int, b: int|
                0 <= a < old(db).groups@.len() && 0 <= b < old(db).tenants@.len() && (
                #[trigger] old(db).groups@[a]).id == old(db).groups@[g].id && (
                #[trigger] old(db).tenants@[b]).id == old(db).groups@[a].tenant_id && old(
                    db,
                ).tenants@[b].tenant_ref == tenant_ref;
            assert(a == g);
            let w = choose|w: int|
                0 <= w < db.tenants@.len() && (#[trigger] db.tenants@[w]).tenant_ref == tenant_ref
                    && db.tenants@[w].id == tenant_id;
            assert(b == w);
            let si = choose|si: int|
                0 <= si < db.groups@.len() && (#[trigger] db.groups@[si]).tenant_id == tenant_id
                    && db.groups@[si].group_type is SuperGroup && db.groups@[si].id == supergroup;
            assert(crate::store::unique_group_of_type(
                old(db).groups@,
                tenant_id,
                GroupType::SuperGroup,
            ));
            assert(g == si);
        }
    }
    crate::groups::internal::remove_user_from_group(supergroup, user_id, db)?;
    proof {
        let g = choose|g: int|
            0 <= g < db.groups@.len() && (#[trigger] db.groups@[g]).tenant_id == tenant_id
                && db.groups@[g].group_type is SuperGroup && db.groups@[g].id == supergroup;
        let t = choose|t: int|
            0 <= t < db.tenants@.len() && (#[trigger] db.tenants@[t]).tenant_ref == tenant_ref
                && db.tenants@[t].id == tenant_id;
        assert(!db.spec_has_membership(user_id, supergroup));
    }
    Ok(())
}

/// Promote a user to tenant administrator: membership of the tenant's
/// admingroup.  A superuser or an administrator of the tenant may do
/// this.
#[verifier::rlimit(100)]
pub fn make_user_tenant_admin(
    tenant_ref: TenantRef,
    user_ref: UserRef,
    actor: &LoggedInUser,
    db: &mut AuthDb,
) -> (r: Result<(), UserAuthError>)
    requires
        old(db).wf(),
    ensures
        final(db).wf(),
        r is Err ==> final(db).same_data(old(db)),
        !(actor.user.is_superuser || actor.spec_is_admin_in_tenant(tenant_ref)) ==> (r matches Err(
            e,
        ) && e matches UserAuthError::TenantEndpoint(te) && te is ModificationDenied),
        match r {
            Err(UserAuthError::TenantEndpoint(TenantEndpointError::ModificationDenied)) => !(actor.user.is_superuser || actor.spec_is_admin_in_tenant(tenant_ref)),
            _ => true,
        },
        match r {
            Err(UserAuthError::UserEndpoint(ue)) => ue is UserNonExistent && !old(
                db,
            ).spec_active_user_ref_exists(user_ref),
            _ => true,
        },
        ((actor.user.is_superuser || actor.spec_is_admin_in_tenant(tenant_ref)) && exists|uid: u64, g: int|
            0 <= g < old(db).groups@.len() && #[trigger] crate::store::active_user_ref_resolves(
                old(db).users@,
                user_ref,
                uid,
            ) && (#[trigger] old(db).groups@[g]).group_type is AdminGroup
                && crate::store::group_tenant_ref_is(
                old(db).groups@,
                old(db).tenants@,
                old(db).groups@[g].id,
                tenant_ref,
            ) && !old(db).spec_has_membership(uid, old(db).groups@[g].id)) ==> r is Ok,
        ((actor.user.is_superuser || actor.spec_is_admin_in_tenant(tenant_ref)) && exists|uid: u64, g: int|
            0 <= g < old(db).groups@.len() && #[trigger] crate::store::active_user_ref_resolves(
                old(db).users@,
                user_ref,
                uid,
            ) && (#[trigger] old(db).groups@[g]).group_type is AdminGroup
                && crate::store::group_tenant_ref_is(
                old(db).groups@,
                old(db).tenants@,
                old(db).groups@[g].id,
                tenant_ref,
            ) && old(db).spec_has_membership(uid, old(db).groups@[g].id)) ==> (r matches Err(e)
            && e matches UserAuthError::GroupEndpoint(ge) && ge matches
            GroupEndpointError::UserAlreadyInGroup(_, _)),
        match r {
            Ok(_) => (actor.user.is_superuser || actor.spec_is_admin_in_tenant(tenant_ref))
                && exists|uid: u64, g: int|
                0 <= g < old(db).groups@.len() && #[trigger] crate::store::active_user_ref_resolves(
                    old(db).users@,
                    user_ref,
                    uid,
                ) && (#[trigger] old(db).groups@[g]).group_type is AdminGroup
                    && crate::store::group_tenant_ref_is(
                    old(db).groups@,
                    old(db).tenants@,
                    old(db).groups@[g].id,
                    tenant_ref,
                ) && final(db).memberships@ == old(db).memberships@.push(
                    Membership { user_id: uid, group_id: old(db).groups@[g].id },
                ),
            Err(_) => true,
        },
{
    if !authorize(actor, &AuthOperation::AdministerTenant { tenant: tenant_ref }) {
        return Err(UserAuthError::TenantEndpoint(TenantEndpointError::ModificationDenied));
    }
    let tenant_id = match internal::decode_tenant_ref(db, tenant_ref) {
        Ok(id) => id,
        Err(e) => {
            proof {
                if exists|g: int|
                    0 <= g < old(db).groups@.len() && (#[trigger] old(db).groups@[g]).group_type
                        is AdminGroup && crate::store::group_tenant_ref_is(
                        old(db).groups@,
                        old(db).tenants@,
                        old(db).groups@[g].id,
                        tenant_ref,
                    ) {
                    let g = choose|g: int|
                        0 <= g < old(db).groups@.len() && (
                        #[trigger] old(db).groups@[g]).group_type is AdminGroup
                            && crate::store::group_tenant_ref_is(
                            old(db).groups@,
                            old(db).tenants@,
                            old(db).groups@[g].id,
                            tenant_ref,
                        );
                    let (a, b): (int, int) = choose|a: int, b: int|
                        0 <= a < old(db).groups@.len() && 0 <= b < old(db).tenants@.len() && (
                        #[trigger] old(db).groups@[a]).id == old(db).groups@[g].id && (
                        #[trigger] old(db).tenants@[b]).id == old(db).groups@[a].tenant_id && old(
                            db,
                        ).tenants@[b].tenant_ref == tenant_ref;
                    assert(false);
                }
            }
            return Err(e);
        },
    };
    let user_id = crate::users::internal::decode_user_ref(db, user_ref)?;
    proof {
        assert(db.spec_tenant_id_exists(tenant_id)) by {
            let w = choose|w: int|
                0 <= w < db.tenants@.len() && (#[trigger] db.tenants@[w]).tenant_ref == tenant_ref
                    && db.tenants@[w].id == tenant_id;
        }
    }
    let admingroup = match internal::get_tenant_admingroup(tenant_id, db) {
        Ok(g) => g,
        Err(e) => {
            proof {
                assert(false);
            }
            return Err(e);
        },
    };
    proof {
        assert forall|uid: u64|
            #[trigger] crate::store::active_user_ref_resolves(old(db).users@, user_ref, uid)
                implies uid == user_id by {
            crate::store::lemma_active_user_ref_functional(
                old(db).users@,
                user_ref,
                uid,
                user_id,
            );
        }
        assert forall|g: int|
            0 <= g < old(db).groups@.len() && (#[trigger] old(db).groups@[g]).group_type
                is AdminGroup && crate::store::group_tenant_ref_is(
                old(db).groups@,
                old(db).tenants@,
                old(db).groups@[g].id,
                tenant_ref,
            ) implies old(db).groups@[g].id == admingroup by {
            let (a, b): (int, int) = choose|a: int, b: int|
                0 <= a < old(db).groups@.len() && 0 <= b < old(db).tenants@.len() && (
                #[trigger] old(db).groups@[a]).id == old(db).groups@[g].id && (
                #[trigger] old(db).tenants@[b]).id == old(db).groups@[a].tenant_id && old(
                    db,
                ).tenants@[b].tenant_ref == tenant_ref;
            assert(a == g);
            let w = choose|w: int|
                0 <= w < db.tenants@.len() && (#[trigger] db.tenants@[w]).tenant_ref == tenant_ref
                    && db.tenants@[w].id == tenant_id;
            assert(b == w);
            let si = choose|si: int|
                0 <= si < db.groups@.len() && (#[trigger] db.groups@[si]).tenant_id == tenant_id
                    && db.groups@[si].group_type is AdminGroup && db.groups@[si].id == admingroup;
            assert(crate::store::unique_group_of_type(
                old(db).groups@,
                tenant_id,
                GroupType::AdminGroup,
            ));
            assert(g == si);
        }
    }
    proof {
        assert(db.spec_user_id_exists(user_id)) by {
            let w = choose|w: int|
                0 <= w < db.users@.len() && (#[trigger] db.users@[w]).is_active()
                    && db.users@[w].user_ref == user_ref && db.users@[w].id == user_id;
        }
        assert(db.spec_group_id_exists(admingroup)) by {
            let g = choose|g: int|
                0 <= g < db.groups@.len() && (#[trigger] db.groups@[g]).tenant_id == tenant_id
                    && db.groups@[g].group_type is AdminGroup && db.groups@[g].id == admingroup;
        }
    }
    crate::groups::internal::add_user_to_group(admingroup, user_id, db)?;
    proof {
        let g = choose|g: int|
            0 <= g < db.groups@.len() && (#[trigger] db.groups@[g]).tenant_id == tenant_id
                && db.groups@[g].group_type is AdminGroup && db.groups@[g].id == admingroup;
        let t = choose|t: int|
            0 <= t < db.tenants@.len() && (#[trigger] db.tenants@[t]).tenant_ref == tenant_ref
                && db.tenants@[t].id == tenant_id;
    }
    Ok(())
}

/// Demote a tenant administrator: remove the admingroup membership.  A
/// superuser or an administrator of the tenant may do this.
#[verifier::rlimit(100)]
pub fn demote_tenant_admin(
    tenant_ref: TenantRef,
    user_ref: UserRef,
    actor: &LoggedInUser,
    db: &mut AuthDb,
) -> (r: Result<(), UserAuthError>)
    requires
        old(db).wf(),
    ensures
        final(db).wf(),
        r is Err ==> final(db).same_data(old(db)),
        !(actor.user.is_superuser || actor.spec_is_admin_in_tenant(tenant_ref)) ==> (r matches Err(
            e,
        ) && e matches UserAuthError::TenantEndpoint(te) && te is ModificationDenied),
        match r {
            Err(UserAuthError::TenantEndpoint(TenantEndpointError::ModificationDenied)) => !(actor.user.is_superuser || actor.spec_is_admin_in_tenant(tenant_ref)),
            _ => true,
        },
        match r {
            Err(UserAuthError::UserEndpoint(ue)) => ue is UserNonExistent && !old(
                db,
            ).spec_active_user_ref_exists(user_ref),
            _ => true,
        },
        ((actor.user.is_superuser || actor.spec_is_admin_in_tenant(tenant_ref)) && exists|uid: u64, g: int|
            0 <= g < old(db).groups@.len() && #[trigger] crate::store::active_user_ref_resolves(
                old(db).users@,
                user_ref,
                uid,
            ) && (#[trigger] old(db).groups@[g]).group_type is AdminGroup
                && crate::store::group_tenant_ref_is(
                old(db).groups@,
                old(db).tenants@,
                old(db).groups@[g].id,
                tenant_ref,
            ) && old(db).spec_has_membership(uid, old(db).groups@[g].id)) ==> r is Ok,
        ((actor.user.is_superuser || actor.spec_is_admin_in_tenant(tenant_ref)) && exists|uid: u64, g: int|
            0 <= g < old(db).groups@.len() && #[trigger] crate::store::active_user_ref_resolves(
                old(db).users@,
                user_ref,
                uid,
            ) && (#[trigger] old(db).groups@[g]).group_type is AdminGroup
                && crate::store::group_tenant_ref_is(
                old(db).groups@,
                old(db).tenants@,
                old(db).groups@[g].id,
                tenant_ref,
            ) && !old(db).spec_has_membership(uid, old(db).groups@[g].id)) ==> (r matches Err(e)
            && e matches UserAuthError::GroupEndpoint(ge) && ge matches
            GroupEndpointError::UserNotInGroup(_, _)),
        match r {
            Ok(_) => (actor.user.is_superuser || actor.spec_is_admin_in_tenant(tenant_ref))
                && exists|uid: u64, g: int|
                0 <= g < old(db).groups@.len() && #[trigger] crate::store::active_user_ref_resolves(
                    old(db).users@,
                    user_ref,
                    uid,
                ) && (#[trigger] old(db).groups@[g]).group_type is AdminGroup
                    && crate::store::group_tenant_ref_is(
                    old(db).groups@,
                    old(db).tenants@,
                    old(db).groups@[g].id,
                    tenant_ref,
                ) && !final(db).spec_has_membership(uid, old(db).groups@[g].id) && final(db).memberships@.len() == old(db).memberships@.len() - 1,
            Err(_) => true,
        },
{
    if !authorize(actor, &AuthOperation::AdministerTenant { tenant: tenant_ref }) {
        return Err(UserAuthError::TenantEndpoint(TenantEndpointError::ModificationDenied));
    }
    let tenant_id = match internal::decode_tenant_ref(db, tenant_ref) {
        Ok(id) => id,
        Err(e) => {
            proof {
                if exists|g: int|
                    0 <= g < old(db).groups@.len() && (#[trigger] old(db).groups@[g]).group_type
                        is AdminGroup && crate::store::group_tenant_ref_is(
                        old(db).groups@,
                        old(db).tenants@,
                        old(db).groups@[g].id,
                        tenant_ref,
                    ) {
                    let g = choose|g: int|
                        0 <= g < old(db).groups@.len() && (
                        #[trigger] old(db).groups@[g]).group_type is AdminGroup
                            && crate::store::group_tenant_ref_is(
                            old(db).groups@,
                            old(db).tenants@,
                            old(db).groups@[g].id,
                            tenant_ref,
                        );
                    let (a, b): (int, int) = choose|a: int, b: int|
                        0 <= a < old(db).groups@.len() && 0 <= b < old(db).tenants@.len() && (
                        #[trigger] old(db).groups@[a]).id == old(db).groups@[g].id && (
                        #[trigger] old(db).tenants@[b]).id == old(db).groups@[a].tenant_id && old(
                            db,
                        ).tenants@[b].tenant_ref == tenant_ref;
                    assert(false);
                }
            }
            return Err(e);
        },
    };
    let user_id = crate::users::internal::decode_user_ref(db, user_ref)?;
    proof {
        assert(db.spec_tenant_id_exists(tenant_id)) by {
            let w = choose|w: int|
                0 <= w < db.tenants@.len() && (#[trigger] db.tenants@[w]).tenant_ref == tenant_ref
                    && db.tenants@[w].id == tenant_id;
        }
    }
    let admingroup = match internal::get_tenant_admingroup(tenant_id, db) {
        Ok(g) => g,
        Err(e) => {
            proof {
                assert(false);
            }
            return Err(e);
        },
    };
    proof {
        assert forall|uid: u64|
            #[trigger] crate::store::active_user_ref_resolves(old(db).users@, user_ref, uid)
                implies uid == user_id by {
            crate::store::lemma_active_user_ref_functional(
                old(db).users@,
                user_ref,
                uid,
                user_id,
            );
        }
        assert forall|g: int|
            0 <= g < old(db).groups@.len() && (#[trigger] old(db).groups@[g]).group_type
                is AdminGroup && crate::store::group_tenant_ref_is(
                old(db).groups@,
                old(db).tenants@,
                old(db).groups@[g].id,
                tenant_ref,
            ) implies old(db).groups@[g].id == admingroup by {
            let (a, b): (int, int) = choose|a: int, b: int|
                0 <= a < old(db).groups@.len() && 0 <= b < old(db).tenants@.len() && (
                #[trigger] old(db).groups@[a]).id == old(db).groups@[g].id && (
                #[trigger] old(db).tenants@[b]).id == old(db).groups@[a].tenant_id && old(
                    db,
                ).tenants@[b].tenant_ref == tenant_ref;
            assert(a == g);
            let w = choose|w: int|
                0 <= w < db.tenants@.len() && (#[trigger] db.tenants@[w]).tenant_ref == tenant_ref
                    && db.tenants@[w].id == tenant_id;
            assert(b == w);
            let si = choose|si: int|
                0 <= si < db.groups@.len() && (#[trigger] db.groups@[si]).tenant_id == tenant_id
                    && db.groups@[si].group_type is AdminGroup && db.groups@[si].id == admingroup;
            assert(crate::store::unique_group_of_type(
                old(db).groups@,
                tenant_id,
                GroupType::AdminGroup,
            ));
            assert(g == si);
        }
    }
    crate::groups::internal::remove_user_from_group(admingroup, user_id, db)?;
    proof {
        let g = choose|g: int|
            0 <= g < db.groups@.len() && (#[trigger] db.groups@[g]).tenant_id == tenant_id
                && db.groups@[g].group_type is AdminGroup && db.groups@[g].id == admingroup;
        let t = choose|t: int|
            0 <= t < db.tenants@.len() && (#[trigger] db.tenants@[t]).tenant_ref == tenant_ref
                && db.tenants@[t].id == tenant_id;
        assert(!db.spec_has_membership(user_id, admingroup));
    }
    Ok(())
}

} // verus!
