//! Group operations as the service exposes them: permission check first,
//! then the group read or mutation.

use vstd::prelude::*;
use crate::auth::{authorize, AuthOperation};
use crate::entities::{Group, GroupRef, LoggedInUser, TenantRef, User, UserRef};
use crate::groups::errors::GroupEndpointError;
use crate::groups::internal;
use crate::groups::structures::{CreateGroup, GroupPatch};
use crate::store::{AuthDb, Membership};
use crate::UserAuthError;

verus! {

/// The actor may read the group: superuser, administrator of the owning
/// tenant, or member of the group.
pub open spec fn spec_can_read_group(
    db: &AuthDb,
    actor: &LoggedInUser,
    gid: u64,
    group_ref: GroupRef,
) -> bool {
    ||| actor.user.is_superuser
    ||| exists|tr: TenantRef|
        #[trigger] crate::store::group_tenant_ref_is(db.groups@, db.tenants@, gid, tr)
            && actor.spec_is_admin_in_tenant(tr)
    ||| actor.spec_is_in_group(group_ref)
}

/// The actor may mutate the group: superuser or administrator of the
/// owning tenant.
pub open spec fn spec_can_modify_group(db: &AuthDb, actor: &LoggedInUser, gid: u64) -> bool {
    ||| actor.user.is_superuser
    ||| exists|tr: TenantRef|
        #[trigger] crate::store::group_tenant_ref_is(db.groups@, db.tenants@, gid, tr)
            && actor.spec_is_admin_in_tenant(tr)
}

/// The actor may attach the user to the group: superuser, or an
/// administrator of the group's owning tenant whose own active tenant
/// already holds the target user — a write across tenant boundaries is
/// denied even for an administrator.
pub open spec fn spec_can_add_membership(
    db: &AuthDb,
    actor: &LoggedInUser,
    gid: u64,
    uid: u64,
) -> bool {
    ||| actor.user.is_superuser
    ||| ((exists|tr: TenantRef|
        #[trigger] crate::store::group_tenant_ref_is(db.groups@, db.tenants@, gid, tr)
            && actor.spec_is_admin_in_tenant(tr)) && crate::store::user_in_tenant(
        db.tenants@,
        db.groups@,
        db.memberships@,
        uid,
        actor.tenant_info.tenant_ref,
    ))
}

/// Read a normal group by external reference; supergroups and
/// admingroups are reported as non-existent whatever the caller's tier.
pub fn get_group(group_ref: GroupRef, actor: &LoggedInUser, db: &mut AuthDb) -> (r: Result<
    Group,
    UserAuthError,
>)
    requires
        old(db).wf(),
    ensures
        final(db).wf(),
        final(db).same_data(old(db)),
        match r {
            Ok(g) => g.group_ref == group_ref && exists|i: int|
                0 <= i < old(db).groups@.len() && (#[trigger] old(db).groups@[i]).group_ref
                    == group_ref && old(db).groups@[i].group_type is Normal && old(db).groups@[i].name == Some(g.name) && spec_can_read_group(
                    old(db),
                    actor,
                    old(db).groups@[i].id,
                    group_ref,
                ),
            Err(e) => (e matches UserAuthError::GroupEndpoint(ge) && (ge is ReadingDenied || (ge
                is NonExistentGroup && !(exists|i: int|
                0 <= i < old(db).groups@.len() && (#[trigger] old(db).groups@[i]).group_ref
                    == group_ref && old(db).groups@[i].group_type is Normal)))),
        },
        match r {
            Err(UserAuthError::GroupEndpoint(GroupEndpointError::ReadingDenied)) => exists|
                gid: u64,
            |
                #[trigger] crate::store::group_ref_resolves(old(db).groups@, group_ref, gid)
                    && !spec_can_read_group(old(db), actor, gid, group_ref),
            _ => true,
        },
        (exists|i: int|
            0 <= i < old(db).groups@.len() && (#[trigger] old(db).groups@[i]).group_ref
                == group_ref && old(db).groups@[i].group_type is Normal && spec_can_read_group(
                old(db),
                actor,
                old(db).groups@[i].id,
                group_ref,
            )) ==> r is Ok,
{
    let group_id = internal::decode_group_ref(db, group_ref)?;
    let group_tenant = internal::get_group_tenant_checked(db, group_id)?;
    proof {
        assert forall|gid: u64|
            #[trigger] crate::store::group_ref_resolves(old(db).groups@, group_ref, gid) implies
            gid == group_id by {
            crate::store::lemma_group_ref_functional(old(db).groups@, group_ref, gid, group_id);
        }
    }
    let allowed = authorize(
        actor,
        &AuthOperation::ReadGroup { group: group_ref, group_tenant },
    );
    proof {
        if exists|tr: TenantRef|
            #[trigger] crate::store::group_tenant_ref_is(db.groups@, db.tenants@, group_id, tr)
                && actor.spec_is_admin_in_tenant(tr) {
            let tr = choose|tr: TenantRef|
                #[trigger] crate::store::group_tenant_ref_is(
                    db.groups@,
                    db.tenants@,
                    group_id,
                    tr,
                ) && actor.spec_is_admin_in_tenant(tr);
            crate::store::lemma_group_tenant_ref_functional(
                db.groups@,
                db.tenants@,
                group_id,
                tr,
                group_tenant,
            );
        }
        assert(allowed == spec_can_read_group(old(db), actor, group_id, group_ref));
    }
    if !allowed {
        return Err(UserAuthError::GroupEndpoint(GroupEndpointError::ReadingDenied));
    }
    proof {
        if exists|i: int|
            0 <= i < old(db).groups@.len() && (#[trigger] old(db).groups@[i]).group_ref
                == group_ref && old(db).groups@[i].group_type is Normal {
            let i = choose|i: int|
                0 <= i < old(db).groups@.len() && (#[trigger] old(db).groups@[i]).group_ref
                    == group_ref && old(db).groups@[i].group_type is Normal;
            assert(crate::store::group_ref_resolves(
                old(db).groups@,
                group_ref,
                old(db).groups@[i].id,
            ));
            assert(internal::spec_visible_group(db, group_id));
        }
    }
    let g = internal::get_non_special_group(group_id, db)?;
    proof {
        let i = choose|i: int, j: int|
            0 <= i < db.groups@.len() && 0 <= j < db.tenants@.len() && (
            #[trigger] db.groups@[i]).id == group_id && db.groups@[i].group_type is Normal
                && db.groups@[i].group_ref == g.group_ref && db.groups@[i].name == Some(g.name)
                && (#[trigger] db.tenants@[j]).id == db.groups@[i].tenant_id
                && db.tenants@[j].tenant_ref == g.tenant;
        let v = choose|v: int|
            0 <= v < db.groups@.len() && (#[trigger] db.groups@[v]).group_ref == group_ref
                && db.groups@[v].id == group_id;
        assert(i.0 == v);
    }
    Ok(g)
}

/// List the active members of a normal group.
pub fn get_users_in_group(group_ref: GroupRef, actor: &LoggedInUser, db: &mut AuthDb) -> (r:
    Result<Vec<User>, UserAuthError>)
    requires
        old(db).wf(),
    ensures
        final(db).wf(),
        final(db).same_data(old(db)),
        match r {
            Ok(users) => exists|i: int|
                0 <= i < old(db).groups@.len() && (#[trigger] old(db).groups@[i]).group_ref
                    == group_ref && old(db).groups@[i].group_type is Normal
                    && internal::users_view_of_group(final(db), old(db).groups@[i].id, users@)
                    && spec_can_read_group(old(db), actor, old(db).groups@[i].id, group_ref),
            Err(e) => (e matches UserAuthError::GroupEndpoint(ge) && (ge is ReadingDenied || ge
                is NonExistentGroup)),
        },
        match r {
            Err(UserAuthError::GroupEndpoint(GroupEndpointError::ReadingDenied)) => exists|
                gid: u64,
            |
                #[trigger] crate::store::group_ref_resolves(old(db).groups@, group_ref, gid)
                    && !spec_can_read_group(old(db), actor, gid, group_ref),
            _ => true,
        },
        (exists|i: int|
            0 <= i < old(db).groups@.len() && (#[trigger] old(db).groups@[i]).group_ref
                == group_ref && old(db).groups@[i].group_type is Normal && spec_can_read_group(
                old(db),
                actor,
                old(db).groups@[i].id,
                group_ref,
            )) ==> r is Ok,
{
    let group_id = internal::decode_group_ref(db, group_ref)?;
    let group_tenant = internal::get_group_tenant_checked(db, group_id)?;
    proof {
        assert forall|gid: u64|
            #[trigger] crate::store::group_ref_resolves(old(db).groups@, group_ref, gid) implies
            gid == group_id by {
            crate::store::lemma_group_ref_functional(old(db).groups@, group_ref, gid, group_id);
        }
    }
    let allowed = authorize(
        actor,
        &AuthOperation::ReadGroup { group: group_ref, group_tenant },
    );
    proof {
        if exists|tr: TenantRef|
            #[trigger] crate::store::group_tenant_ref_is(db.groups@, db.tenants@, group_id, tr)
                && actor.spec_is_admin_in_tenant(tr) {
            let tr = choose|tr: TenantRef|
                #[trigger] crate::store::group_tenant_ref_is(
                    db.groups@,
                    db.tenants@,
                    group_id,
                    tr,
                ) && actor.spec_is_admin_in_tenant(tr);
            crate::store::lemma_group_tenant_ref_functional(
                db.groups@,
                db.tenants@,
                group_id,
                tr,
                group_tenant,
            );
        }
        assert(allowed == spec_can_read_group(old(db), actor, group_id, group_ref));
    }
    if !allowed {
        return Err(UserAuthError::GroupEndpoint(GroupEndpointError::ReadingDenied));
    }
    proof {
        if exists|i: int|
            0 <= i < old(db).groups@.len() && (#[trigger] old(db).groups@[i]).group_ref
                == group_ref && old(db).groups@[i].group_type is Normal {
            let i = choose|i: int|
                0 <= i < old(db).groups@.len() && (#[trigger] old(db).groups@[i]).group_ref
                    == group_ref && old(db).groups@[i].group_type is Normal;
            assert(crate::store::group_ref_resolves(
                old(db).groups@,
                group_ref,
                old(db).groups@[i].id,
            ));
            assert(internal::spec_visible_group(db, group_id));
        }
    }
    let _ = internal::get_non_special_group(group_id, db)?;
    let users = internal::get_users_in_group(group_id, db);
    proof {
        let iv = choose|i: int, j: int|
            0 <= i < db.groups@.len() && 0 <= j < db.tenants@.len() && (
            #[trigger] db.groups@[i]).id == group_id && db.groups@[i].group_type is Normal && (
            #[trigger] db.tenants@[j]).id == db.groups@[i].tenant_id;
        let v = choose|v: int|
            0 <= v < db.groups@.len() && (#[trigger] db.groups@[v]).group_ref == group_ref
                && db.groups@[v].id == group_id;
        assert(iv.0 == v);
    }
    Ok(users)
}

/// Create a normal group under a tenant; the actor must be a superuser
/// or an administrator of that tenant.
pub fn create_group(group: CreateGroup, actor: &LoggedInUser, db: &mut AuthDb) -> (r: Result<
    (GroupRef, u64),
    UserAuthError,
>)
    requires
        old(db).wf(),
        old(db).next_group_id < u64::MAX,
    ensures
        final(db).wf(),
        r is Err ==> final(db).same_data(old(db)),
        !(actor.user.is_superuser || actor.spec_is_admin_in_tenant(group.tenant)) ==> (r matches
            Err(e) && e matches UserAuthError::GroupEndpoint(ge) && ge is CreationDenied),
        match r {
            Ok((gr, gid)) => (actor.user.is_superuser || actor.spec_is_admin_in_tenant(
                group.tenant,
            )) && crate::groups::structures::spec_valid_group_name(group.name@) && exists|t: int|
                0 <= t < old(db).tenants@.len() && (#[trigger] old(db).tenants@[t]).tenant_ref
                    == group.tenant && final(db).groups@ == old(db).groups@.push(
                    crate::store::GroupRow {
                        id: gid,
                        group_ref: gr,
                        name: Some(group.name),
                        group_type: crate::groups::structures::GroupType::Normal,
                        tenant_id: old(db).tenants@[t].id,
                    },
                ),
            Err(_) => true,
        },
        match r {
            Err(UserAuthError::GroupEndpoint(GroupEndpointError::CreationDenied)) => !(
            actor.user.is_superuser || actor.spec_is_admin_in_tenant(group.tenant)),
            _ => true,
        },
        (actor.user.is_superuser || actor.spec_is_admin_in_tenant(group.tenant))
            && !crate::groups::structures::spec_valid_group_name(group.name@) ==> (r matches Err(
            e,
        ) && e matches UserAuthError::GroupEndpoint(ge) && ge matches
            GroupEndpointError::InvalidField(_)),
        (actor.user.is_superuser || actor.spec_is_admin_in_tenant(group.tenant))
            && crate::groups::structures::spec_valid_group_name(group.name@) && !old(
            db,
        ).spec_tenant_ref_exists(group.tenant) ==> (r matches Err(e) && e matches
            UserAuthError::TenantEndpoint(te) && te matches crate::tenants::error::TenantEndpointError::TenantNonExistent(
                tr,
            ) && tr == group.tenant),
{
    if !(actor.user.is_superuser || actor.is_admin_in_tenant(&group.tenant)) {
        return Err(UserAuthError::GroupEndpoint(GroupEndpointError::CreationDenied));
    }
    internal::create_group(group, db)
}

/// Add a user to a normal group.  Besides the superuser/admin tier, the
/// target user must already belong to the actor's tenant: a write across
/// tenant boundaries is denied even for an administrator.
#[verifier::rlimit(100)]
pub fn add_user_to_group(
    group_ref: GroupRef,
    user_ref: UserRef,
    actor: &LoggedInUser,
    db: &mut AuthDb,
) -> (r: Result<(), UserAuthError>)
    requires
        old(db).wf(),
    ensures
        final(db).wf(),
        r is Err ==> final(db).same_data(old(db)),
        match r {
            Ok(_) => exists|uid: u64, gid: u64|
                #[trigger] crate::store::active_user_ref_resolves(old(db).users@, user_ref, uid)
                    && #[trigger] crate::store::group_ref_resolves(old(db).groups@, group_ref, gid)
                    && spec_can_add_membership(old(db), actor, gid, uid) && !old(db).spec_has_membership(uid, gid) && final(db).memberships@ == old(db).memberships@.push(Membership { user_id: uid, group_id: gid }),
            Err(e) => (e matches UserAuthError::UserEndpoint(ue) ==> ue is UserNonExistent) && (
            e matches UserAuthError::GroupEndpoint(ge) ==> (ge is NonExistentGroup || ge
                is ModificationDenied || ge matches GroupEndpointError::UserAlreadyInGroup(_, _))),
        },
        match r {
            Err(UserAuthError::GroupEndpoint(GroupEndpointError::ModificationDenied)) => exists|
                uid: u64,
                gid: u64,
            |
                #[trigger] crate::store::active_user_ref_resolves(old(db).users@, user_ref, uid)
                    && #[trigger] crate::store::group_ref_resolves(old(db).groups@, group_ref, gid)
                    && !spec_can_add_membership(old(db), actor, gid, uid),
            _ => true,
        },
        (exists|uid: u64, gid: u64|
            #[trigger] crate::store::active_user_ref_resolves(old(db).users@, user_ref, uid)
                && #[trigger] crate::store::group_ref_resolves(old(db).groups@, group_ref, gid)
                && spec_can_add_membership(old(db), actor, gid, uid) && !old(
                db,
            ).spec_has_membership(uid, gid)) ==> r is Ok,
        (exists|uid: u64, gid: u64|
            #[trigger] crate::store::active_user_ref_resolves(old(db).users@, user_ref, uid)
                && #[trigger] crate::store::group_ref_resolves(old(db).groups@, group_ref, gid)
                && spec_can_add_membership(old(db), actor, gid, uid) && old(
                db,
            ).spec_has_membership(uid, gid)) ==> (r matches Err(e) && e matches
            UserAuthError::GroupEndpoint(ge) && ge matches GroupEndpointError::UserAlreadyInGroup(
                _,
                _,
            )),
{
    let user_id = crate::users::internal::decode_user_ref(db, user_ref)?;
    let group_id = internal::decode_group_ref(db, group_ref)?;
    let group_tenant = internal::get_group_tenant_checked(db, group_id)?;
    proof {
        assert forall|uid: u64|
            #[trigger] crate::store::active_user_ref_resolves(old(db).users@, user_ref, uid)
                implies uid == user_id by {
            crate::store::lemma_active_user_ref_functional(
                old(db).users@,
                user_ref,
                uid,
                user_id,
            );
        }
        assert forall|gid: u64|
            #[trigger] crate::store::group_ref_resolves(old(db).groups@, group_ref, gid) implies
            gid == group_id by {
            crate::store::lemma_group_ref_functional(old(db).groups@, group_ref, gid, group_id);
        }
    }
    let target_tenants = crate::tenants::internal::get_user_tenant_refs(user_id, db);
    let allowed = authorize(
        actor,
        &AuthOperation::AddMembership { group_tenant, target_tenants },
    );
    proof {
        if actor.spec_is_in_these_tenants(target_tenants@) {
            let k = choose|k: int|
                0 <= k < target_tenants@.len() && target_tenants@[k]
                    == actor.tenant_info.tenant_ref;
        }
        if crate::store::user_in_tenant(
            db.tenants@,
            db.groups@,
            db.memberships@,
            user_id,
            actor.tenant_info.tenant_ref,
        ) {
            assert(target_tenants@.contains(actor.tenant_info.tenant_ref));
        }
        if exists|tr: TenantRef|
            #[trigger] crate::store::group_tenant_ref_is(db.groups@, db.tenants@, group_id, tr)
                && actor.spec_is_admin_in_tenant(tr) {
            let tr = choose|tr: TenantRef|
                #[trigger] crate::store::group_tenant_ref_is(
                    db.groups@,
                    db.tenants@,
                    group_id,
                    tr,
                ) && actor.spec_is_admin_in_tenant(tr);
            crate::store::lemma_group_tenant_ref_functional(
                db.groups@,
                db.tenants@,
                group_id,
                tr,
                group_tenant,
            );
        }
        assert(allowed == spec_can_add_membership(old(db), actor, group_id, user_id));
    }
    if !allowed {
        return Err(UserAuthError::GroupEndpoint(GroupEndpointError::ModificationDenied));
    }
    proof {
        assert(db.spec_user_id_exists(user_id)) by {
            let w = choose|w: int|
                0 <= w < db.users@.len() && (#[trigger] db.users@[w]).is_active()
                    && db.users@[w].user_ref == user_ref && db.users@[w].id == user_id;
        }
        assert(db.spec_group_id_exists(group_id)) by {
            let w = choose|w: int|
                0 <= w < db.groups@.len() && (#[trigger] db.groups@[w]).group_ref == group_ref
                    && db.groups@[w].id == group_id;
        }
    }
    internal::add_user_to_group(group_id, user_id, db)?;
    Ok(())
}

/// Remove a user from a group; superuser or administrator of the owning
/// tenant.
pub fn remove_user_from_group(
    group_ref: GroupRef,
    user_ref: UserRef,
    actor: &LoggedInUser,
    db: &mut AuthDb,
) -> (r: Result<(), UserAuthError>)
    requires
        old(db).wf(),
    ensures
        final(db).wf(),
        r is Err ==> final(db).same_data(old(db)),
        match r {
            Ok(_) => exists|uid: u64, gid: u64|
                #[trigger] crate::store::active_user_ref_resolves(old(db).users@, user_ref, uid)
                    && #[trigger] crate::store::group_ref_resolves(old(db).groups@, group_ref, gid)
                    && old(db).spec_has_membership(uid, gid) && !final(db).spec_has_membership(
                    uid,
                    gid,
                ) && final(db).memberships@.len() == old(db).memberships@.len() - 1,
            Err(e) => (e matches UserAuthError::UserEndpoint(ue) ==> ue is UserNonExistent) && (
            e matches UserAuthError::GroupEndpoint(ge) ==> (ge is NonExistentGroup || ge
                is ModificationDenied || ge matches GroupEndpointError::UserNotInGroup(_, _))),
        },
        match r {
            Err(UserAuthError::GroupEndpoint(GroupEndpointError::ModificationDenied)) => exists|
                uid: u64,
                gid: u64,
            |
                #[trigger] crate::store::active_user_ref_resolves(old(db).users@, user_ref, uid)
                    && #[trigger] crate::store::group_ref_resolves(old(db).groups@, group_ref, gid)
                    && !spec_can_modify_group(old(db), actor, gid),
            _ => true,
        },
        (exists|uid: u64, gid: u64|
            #[trigger] crate::store::active_user_ref_resolves(old(db).users@, user_ref, uid)
                && #[trigger] crate::store::group_ref_resolves(old(db).groups@, group_ref, gid)
                && spec_can_modify_group(old(db), actor, gid) && old(db).spec_has_membership(
                uid,
                gid,
            )) ==> r is Ok,
        (exists|uid: u64, gid: u64|
            #[trigger] crate::store::active_user_ref_resolves(old(db).users@, user_ref, uid)
                && #[trigger] crate::store::group_ref_resolves(old(db).groups@, group_ref, gid)
                && spec_can_modify_group(old(db), actor, gid) && !old(db).spec_has_membership(
                uid,
                gid,
            )) ==> (r matches Err(e) && e matches UserAuthError::GroupEndpoint(ge) && ge matches
            GroupEndpointError::UserNotInGroup(_, _)),
{
    let user_id = crate::users::internal::decode_user_ref(db, user_ref)?;
    let group_id = internal::decode_group_ref(db, group_ref)?;
    let group_tenant = internal::get_group_tenant_checked(db, group_id)?;
    proof {
        assert forall|uid: u64|
            #[trigger] crate::store::active_user_ref_resolves(old(db).users@, user_ref, uid)
                implies uid == user_id by {
            crate::store::lemma_active_user_ref_functional(
                old(db).users@,
                user_ref,
                uid,
                user_id,
            );
        }
        assert forall|gid: u64|
            #[trigger] crate::store::group_ref_resolves(old(db).groups@, group_ref, gid) implies
            gid == group_id by {
            crate::store::lemma_group_ref_functional(old(db).groups@, group_ref, gid, group_id);
        }
    }
    let allowed = authorize(actor, &AuthOperation::RemoveMembership { group_tenant });
    proof {
        if exists|tr: TenantRef|
            #[trigger] crate::store::group_tenant_ref_is(db.groups@, db.tenants@, group_id, tr)
                && actor.spec_is_admin_in_tenant(tr) {
            let tr = choose|tr: TenantRef|
                #[trigger] crate::store::group_tenant_ref_is(
                    db.groups@,
                    db.tenants@,
                    group_id,
                    tr,
                ) && actor.spec_is_admin_in_tenant(tr);
            crate::store::lemma_group_tenant_ref_functional(
                db.groups@,
                db.tenants@,
                group_id,
                tr,
                group_tenant,
            );
        }
        assert(allowed == spec_can_modify_group(old(db), actor, group_id));
    }
    if !allowed {
        return Err(UserAuthError::GroupEndpoint(GroupEndpointError::ModificationDenied));
    }
    internal::remove_user_from_group(group_id, user_id, db)?;
    Ok(())
}

/// Rename a normal group; superuser or administrator of the owning
/// tenant.  A patch that names the tenant is refused: the owning tenant
/// of a group can never change.
#[verifier::rlimit(100)]
pub fn patch_group(
    group_ref: GroupRef,
    changes: &GroupPatch,
    actor: &LoggedInUser,
    db: &mut AuthDb,
) -> (r: Result<(), UserAuthError>)
    requires
        old(db).wf(),
    ensures
        final(db).wf(),
        r is Err ==> final(db).same_data(old(db)),
        final(db).users@ == old(db).users@,
        final(db).tenants@ == old(db).tenants@,
        final(db).memberships@ == old(db).memberships@,
        changes.tenant_present ==> (r matches Err(e) && (e matches UserAuthError::GroupEndpoint(ge)
            && (ge matches GroupEndpointError::InvalidField(_) || ge is NonExistentGroup || ge
            is ModificationDenied))),
        match r {
            Ok(_) => !changes.tenant_present && final(db).groups@.len() == old(db).groups@.len()
                && exists|gid: u64|
                #[trigger] crate::store::group_ref_resolves(old(db).groups@, group_ref, gid)
                    && spec_can_modify_group(old(db), actor, gid),
            Err(_) => true,
        },
        match r {
            Err(UserAuthError::GroupEndpoint(GroupEndpointError::ModificationDenied)) => exists|
                gid: u64,
            |
                #[trigger] crate::store::group_ref_resolves(old(db).groups@, group_ref, gid)
                    && !spec_can_modify_group(old(db), actor, gid),
            _ => true,
        },
        (!changes.tenant_present && exists|i: int|
            0 <= i < old(db).groups@.len() && (#[trigger] old(db).groups@[i]).group_ref
                == group_ref && old(db).groups@[i].group_type is Normal && spec_can_modify_group(
                old(db),
                actor,
                old(db).groups@[i].id,
            ) && crate::groups::structures::spec_valid_group_name(
                crate::groups::structures::spec_patched_group_name(
                    changes.name,
                    old(db).groups@[i].name,
                ),
            )) ==> r is Ok,
{
    let group_id = internal::decode_group_ref(db, group_ref)?;
    let group_tenant = internal::get_group_tenant_checked(db, group_id)?;
    proof {
        assert forall|gid: u64|
            #[trigger] crate::store::group_ref_resolves(old(db).groups@, group_ref, gid) implies
            gid == group_id by {
            crate::store::lemma_group_ref_functional(old(db).groups@, group_ref, gid, group_id);
        }
    }
    let allowed = authorize(actor, &AuthOperation::ModifyGroup { group_tenant });
    proof {
        if exists|tr: TenantRef|
            #[trigger] crate::store::group_tenant_ref_is(db.groups@, db.tenants@, group_id, tr)
                && actor.spec_is_admin_in_tenant(tr) {
            let tr = choose|tr: TenantRef|
                #[trigger] crate::store::group_tenant_ref_is(
                    db.groups@,
                    db.tenants@,
                    group_id,
                    tr,
                ) && actor.spec_is_admin_in_tenant(tr);
            crate::store::lemma_group_tenant_ref_functional(
                db.groups@,
                db.tenants@,
                group_id,
                tr,
                group_tenant,
            );
        }
        assert(allowed == spec_can_modify_group(old(db), actor, group_id));
    }
    if !allowed {
        return Err(UserAuthError::GroupEndpoint(GroupEndpointError::ModificationDenied));
    }
    let ghost pre = *db;
    let r = internal::patch_group(group_id, changes, db);
    proof {
        if !changes.tenant_present && exists|i: int|
            0 <= i < old(db).groups@.len() && (#[trigger] old(db).groups@[i]).group_ref
                == group_ref && old(db).groups@[i].group_type is Normal
                && crate::groups::structures::spec_valid_group_name(
                crate::groups::structures::spec_patched_group_name(
                    changes.name,
                    old(db).groups@[i].name,
                ),
            ) {
            let i = choose|i: int|
                0 <= i < old(db).groups@.len() && (#[trigger] old(db).groups@[i]).group_ref
                    == group_ref && old(db).groups@[i].group_type is Normal
                    && crate::groups::structures::spec_valid_group_name(
                    crate::groups::structures::spec_patched_group_name(
                        changes.name,
                        old(db).groups@[i].name,
                    ),
                );
            assert(crate::store::group_ref_resolves(
                old(db).groups@,
                group_ref,
                old(db).groups@[i].id,
            ));
            assert(old(db).groups@[i].id == group_id);
            assert forall|j: int|
                0 <= j < pre.groups@.len() && (#[trigger] pre.groups@[j]).id == group_id
                    && pre.groups@[j].group_type is Normal implies
                crate::groups::structures::spec_valid_group_name(
                crate::groups::structures::spec_patched_group_name(
                    changes.name,
                    pre.groups@[j].name,
                ),
            ) by {
                assert(pre.groups@[j] == old(db).groups@[i]);
            }
            assert(internal::spec_visible_group(&pre, group_id));
        }
    }
    r
}

/// Delete a normal group and its membership edges; superuser or
/// administrator of the owning tenant.
#[verifier::rlimit(100)]
pub fn delete_group(group_ref: GroupRef, actor: &LoggedInUser, db: &mut AuthDb) -> (r: Result<
    (),
    UserAuthError,
>)
    requires
        old(db).wf(),
    ensures
        final(db).wf(),
        r is Err ==> final(db).same_data(old(db)),
        final(db).users@ == old(db).users@,
        final(db).tenants@ == old(db).tenants@,
        match r {
            Ok(_) => exists|gid: u64|
                #[trigger] crate::store::group_ref_resolves(old(db).groups@, group_ref, gid)
                    && internal::spec_visible_group(old(db), gid) && !final(db).spec_group_id_exists(gid) && (forall|m: Membership|
                    #[trigger] final(db).memberships@.contains(m) <==> (old(db).memberships@.contains(m) && m.group_id != gid)),
            Err(e) => (e matches UserAuthError::GroupEndpoint(ge) && (ge is NonExistentGroup || ge
                is DeletionDenied)),
        },
        match r {
            Err(UserAuthError::GroupEndpoint(GroupEndpointError::DeletionDenied)) => exists|
                gid: u64,
            |
                #[trigger] crate::store::group_ref_resolves(old(db).groups@, group_ref, gid)
                    && !spec_can_modify_group(old(db), actor, gid),
            _ => true,
        },
        (exists|i: int|
            0 <= i < old(db).groups@.len() && (#[trigger] old(db).groups@[i]).group_ref
                == group_ref && old(db).groups@[i].group_type is Normal && spec_can_modify_group(
                old(db),
                actor,
                old(db).groups@[i].id,
            )) ==> r is Ok,
{
    let group_id = internal::decode_group_ref(db, group_ref)?;
    let group_tenant = internal::get_group_tenant_checked(db, group_id)?;
    proof {
        assert forall|gid: u64|
            #[trigger] crate::store::group_ref_resolves(old(db).groups@, group_ref, gid) implies
            gid == group_id by {
            crate::store::lemma_group_ref_functional(old(db).groups@, group_ref, gid, group_id);
        }
    }
    let allowed = authorize(actor, &AuthOperation::ModifyGroup { group_tenant });
    proof {
        if exists|tr: TenantRef|
            #[trigger] crate::store::group_tenant_ref_is(db.groups@, db.tenants@, group_id, tr)
                && actor.spec_is_admin_in_tenant(tr) {
            let tr = choose|tr: TenantRef|
                #[trigger] crate::store::group_tenant_ref_is(
                    db.groups@,
                    db.tenants@,
                    group_id,
                    tr,
                ) && actor.spec_is_admin_in_tenant(tr);
            crate::store::lemma_group_tenant_ref_functional(
                db.groups@,
                db.tenants@,
                group_id,
                tr,
                group_tenant,
            );
        }
        assert(allowed == spec_can_modify_group(old(db), actor, group_id));
        if exists|i: int|
            0 <= i < old(db).groups@.len() && (#[trigger] old(db).groups@[i]).group_ref
                == group_ref && old(db).groups@[i].group_type is Normal {
            let i = choose|i: int|
                0 <= i < old(db).groups@.len() && (#[trigger] old(db).groups@[i]).group_ref
                    == group_ref && old(db).groups@[i].group_type is Normal;
            assert(crate::store::group_ref_resolves(
                old(db).groups@,
                group_ref,
                old(db).groups@[i].id,
            ));
            assert(internal::spec_visible_group(old(db), group_id));
        }
    }
    if !allowed {
        return Err(UserAuthError::GroupEndpoint(GroupEndpointError::DeletionDenied));
    }
    match internal::delete_group(group_id, db) {
        Ok(_) => Ok(()),
        Err(e) => Err(e),
    }
}

} // verus!
