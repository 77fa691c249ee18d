//! Group queries, membership mutation, and the group lifecycle.

use vstd::prelude::*;
use crate::entities::{Group, GroupRef, TenantRef, User, UserRef};
use crate::groups::errors::GroupEndpointError;
use crate::groups::structures::{
    spec_valid_group_name, validate_create_group, CreateGroup, GroupPatch, GroupType, RawGroup,
};
use crate::store::{
    active_member, group_ref_resolves, group_tenant_ref_is, member_of_tenant_group, AuthDb,
    Membership,
};
use crate::tenants::error::TenantEndpointError;
use crate::users::structures::spec_opt_string_eq;
use crate::UserAuthError;

verus! {

/// Resolve an external group reference to its internal key, through the
/// bounded memoization cache.
pub fn decode_group_ref(db: &mut AuthDb, reference: GroupRef) -> (r: Result<u64, UserAuthError>)
    requires
        old(db).wf(),
    ensures
        final(db).wf(),
        final(db).same_data(old(db)),
        match r {
            Ok(id) => old(db).spec_group_ref_resolves_to(reference, id),
            Err(e) => !old(db).spec_group_ref_exists(reference) && (e matches
                UserAuthError::GroupEndpoint(ge) && ge is NonExistentGroup),
        },
{
    match db.group_decode_cache.lookup(reference.code) {
        Some(id) => {
            proof {
                assert(group_ref_resolves(db.groups@, GroupRef { code: reference.code }, id));
            }
            Ok(id)
        },
        None => {
            match db.find_group_by_ref(&reference) {
                Some(i) => {
                    let id = db.groups[i].id;
                    db.group_decode_cache.insert(reference.code, id);
                    proof {
                        assert forall|k: int|
                            0 <= k < db.group_decode_cache.entries@.len()
                                implies group_ref_resolves(
                            db.groups@,
                            GroupRef { code: (#[trigger] db.group_decode_cache.entries@[k]).key },
                            db.group_decode_cache.entries@[k].val,
                        ) by {
                            let e = db.group_decode_cache.entries@[k];
                            if e == (crate::resolver::CacheEntry {
                                key: reference.code,
                                val: id,
                            }) {
                                assert(db.groups@[i as int].group_ref == (GroupRef {
                                    code: reference.code,
                                }));
                            } else {
                                assert(old(db).group_decode_cache.spec_maps(e.key, e.val));
                                let w = choose|w: int|
                                    0 <= w < old(db).group_decode_cache.entries@.len() && old(
                                        db,
                                    ).group_decode_cache.entries@[w]
                                        == (crate::resolver::CacheEntry {
                                        key: e.key,
                                        val: e.val,
                                    });
                                assert(group_ref_resolves(
                                    db.groups@,
                                    GroupRef { code: e.key },
                                    e.val,
                                ));
                            }
                        }
                    }
                    Ok(id)
                },
                None => Err(UserAuthError::GroupEndpoint(GroupEndpointError::NonExistentGroup)),
            }
        },
    }
}

/// External reference of the tenant that owns the group; the key must
/// name a stored group.
pub fn get_group_tenant(db: &AuthDb, group_id: u64) -> (r: TenantRef)
    requires
        db.wf(),
        db.spec_group_id_exists(group_id),
    ensures
        group_tenant_ref_is(db.groups@, db.tenants@, group_id, r),
{
    let i = match db.find_group_by_id(group_id) {
        Some(i) => i,
        None => {
            proof {
                let w = choose|w: int| 0 <= w < db.groups@.len() && db.groups@[w].id == group_id;
                assert(false);
            }
            0
        },
    };
    proof {
        assert(crate::store::tenant_id_in(db.tenants@, db.groups@[i as int].tenant_id));
    }
    let t = match db.find_tenant_by_id(db.groups[i].tenant_id) {
        Some(t) => t,
        None => {
            proof {
                let w = choose|w: int|
                    0 <= w < db.tenants@.len() && db.tenants@[w].id == db.groups@[
                        i as int
                    ].tenant_id;
                assert(false);
            }
            0
        },
    };
    db.tenants[t].tenant_ref
}

/// External reference of the owning tenant, failing for an unknown
/// group key.
pub fn get_group_tenant_checked(db: &AuthDb, group_id: u64) -> (r: Result<
    TenantRef,
    UserAuthError,
>)
    requires
        db.wf(),
    ensures
        match r {
            Ok(tr) => group_tenant_ref_is(db.groups@, db.tenants@, group_id, tr),
            Err(e) => !db.spec_group_id_exists(group_id) && (e matches
                UserAuthError::GroupEndpoint(ge) && ge is NonExistentGroup),
        },
{
    match db.find_group_by_id(group_id) {
        Some(_) => Ok(get_group_tenant(db, group_id)),
        None => Err(UserAuthError::GroupEndpoint(GroupEndpointError::NonExistentGroup)),
    }
}

/// The stored group behind the key, any type.
pub fn get_group(id: u64, db: &AuthDb) -> (r: Result<RawGroup, UserAuthError>)
    requires
        db.wf(),
    ensures
        match r {
            Ok(g) => exists|i: int, j: int|
                0 <= i < db.groups@.len() && 0 <= j < db.tenants@.len() && (
                #[trigger] db.groups@[i]).id == id && db.groups@[i].group_ref == g.group_ref
                    && db.groups@[i].group_type == g.group_type && spec_opt_string_eq(
                    db.groups@[i].name,
                    g.name,
                ) && (#[trigger] db.tenants@[j]).id == db.groups@[i].tenant_id
                    && db.tenants@[j].tenant_ref == g.tenant,
            Err(e) => !db.spec_group_id_exists(id) && (e matches UserAuthError::GroupEndpoint(ge)
                && ge is NonExistentGroup),
        },
{
    let i = match db.find_group_by_id(id) {
        Some(i) => i,
        None => {
            return Err(UserAuthError::GroupEndpoint(GroupEndpointError::NonExistentGroup));
        },
    };
    proof {
        assert(crate::store::tenant_id_in(db.tenants@, db.groups@[i as int].tenant_id));
    }
    let t = match db.find_tenant_by_id(db.groups[i].tenant_id) {
        Some(t) => t,
        None => {
            proof {
                let w = choose|w: int|
                    0 <= w < db.tenants@.len() && db.tenants@[w].id == db.groups@[
                        i as int
                    ].tenant_id;
                assert(false);
            }
            0
        },
    };
    let name = match &db.groups[i].name {
        Some(n) => Some(n.clone()),
        None => None,
    };
    Ok(
        RawGroup {
            group_ref: db.groups[i].group_ref,
            group_type: db.groups[i].group_type,
            name,
            tenant: db.tenants[t].tenant_ref,
        },
    )
}

/// A group is visible to generic access exactly when it is stored and
/// user-managed; supergroups and admingroups are hidden.
pub open spec fn spec_visible_group(db: &AuthDb, id: u64) -> bool {
    exists|i: int|
        0 <= i < db.groups@.len() && (#[trigger] db.groups@[i]).id == id && db.groups@[i].group_type
            is Normal
}

/// The group behind the key, as its public view — but only a normal
/// group; the system-managed groups are reported as non-existent,
/// whatever the caller's tier.
pub fn get_non_special_group(id: u64, db: &AuthDb) -> (r: Result<Group, UserAuthError>)
    requires
        db.wf(),
    ensures
        match r {
            Ok(g) => exists|i: int, j: int|
                0 <= i < db.groups@.len() && 0 <= j < db.tenants@.len() && (
                #[trigger] db.groups@[i]).id == id && db.groups@[i].group_type is Normal
                    && db.groups@[i].group_ref == g.group_ref && db.groups@[i].name == Some(g.name)
                    && (#[trigger] db.tenants@[j]).id == db.groups@[i].tenant_id
                    && db.tenants@[j].tenant_ref == g.tenant,
            Err(e) => !spec_visible_group(db, id) && (e matches UserAuthError::GroupEndpoint(ge)
                && ge is NonExistentGroup),
        },
{
    let i = match db.find_group_by_id(id) {
        Some(i) => i,
        None => {
            return Err(UserAuthError::GroupEndpoint(GroupEndpointError::NonExistentGroup));
        },
    };
    let normal = db.groups[i].group_type == GroupType::Normal;
    if !normal {
        proof {
            assert forall|w: int|
                0 <= w < db.groups@.len() && (#[trigger] db.groups@[w]).id == id implies
                !(db.groups@[w].group_type is Normal) by {
                assert(w == i);
            }
        }
        return Err(UserAuthError::GroupEndpoint(GroupEndpointError::NonExistentGroup));
    }
    proof {
        assert(crate::store::tenant_id_in(db.tenants@, db.groups@[i as int].tenant_id));
    }
    let t = match db.find_tenant_by_id(db.groups[i].tenant_id) {
        Some(t) => t,
        None => {
            proof {
                let w = choose|w: int|
                    0 <= w < db.tenants@.len() && db.tenants@[w].id == db.groups@[
                        i as int
                    ].tenant_id;
                assert(false);
            }
            0
        },
    };
    let name = match &db.groups[i].name {
        Some(n) => n.clone(),
        None => {
            proof {
                assert(false);
            }
            String::new()
        },
    };
    Ok(Group { group_ref: db.groups[i].group_ref, name, tenant: db.tenants[t].tenant_ref })
}

/// Add the user to the group.  A duplicate edge is refused and leaves the
/// store unchanged; otherwise exactly the one edge is inserted.
pub fn add_user_to_group(group_id: u64, user_id: u64, db: &mut AuthDb) -> (r: Result<
    (),
    UserAuthError,
>)
    requires
        old(db).wf(),
        old(db).spec_user_id_exists(user_id),
        old(db).spec_group_id_exists(group_id),
    ensures
        final(db).wf(),
        match r {
            Ok(_) => !old(db).spec_has_membership(user_id, group_id) && final(db).memberships@
                == old(db).memberships@.push(Membership { user_id, group_id }),
            Err(e) => old(db).spec_has_membership(user_id, group_id) && *final(db) == *old(db) && (
            e matches UserAuthError::GroupEndpoint(ge) && ge matches GroupEndpointError::UserAlreadyInGroup(u, g)
                && u == user_id && g == group_id),
        },
        final(db).users@ == old(db).users@,
        final(db).tenants@ == old(db).tenants@,
        final(db).groups@ == old(db).groups@,
        final(db).next_user_id == old(db).next_user_id,
        final(db).next_tenant_id == old(db).next_tenant_id,
        final(db).next_group_id == old(db).next_group_id,
{
    if db.has_membership(user_id, group_id) {
        return Err(
            UserAuthError::GroupEndpoint(
                GroupEndpointError::UserAlreadyInGroup(user_id, group_id),
            ),
        );
    }
    db.insert_membership(user_id, group_id);
    Ok(())
}

/// Remove the user from the group.  An absent edge is refused and leaves
/// the store unchanged; otherwise exactly the one edge is deleted.
pub fn remove_user_from_group(group_id: u64, user_id: u64, db: &mut AuthDb) -> (r: Result<
    (),
    UserAuthError,
>)
    requires
        old(db).wf(),
    ensures
        final(db).wf(),
        match r {
            Ok(_) => old(db).spec_has_membership(user_id, group_id) && final(db).memberships@.len() == old(db).memberships@.len() - 1 && forall|m: Membership|
                #[trigger] final(db).memberships@.contains(m) <==> (old(
                    db,
                ).memberships@.contains(m) && m != (Membership { user_id, group_id })),
            Err(e) => !old(db).spec_has_membership(user_id, group_id) && *final(db) == *old(db) && (
            e matches UserAuthError::GroupEndpoint(ge) && ge matches GroupEndpointError::UserNotInGroup(u, g)
                && u == user_id && g == group_id),
        },
        final(db).users@ == old(db).users@,
        final(db).tenants@ == old(db).tenants@,
        final(db).groups@ == old(db).groups@,
        final(db).next_user_id == old(db).next_user_id,
        final(db).next_tenant_id == old(db).next_tenant_id,
        final(db).next_group_id == old(db).next_group_id,
{
    if !db.has_membership(user_id, group_id) {
        return Err(
            UserAuthError::GroupEndpoint(GroupEndpointError::UserNotInGroup(user_id, group_id)),
        );
    }
    db.remove_membership(user_id, group_id);
    Ok(())
}

/// Internal keys of the active users in the group.
pub fn get_user_ids_in_group(group_id: u64, db: &AuthDb) -> (r: Vec<u64>)
    requires
        db.wf(),
    ensures
        forall|k: int| 0 <= k < r@.len() ==> active_member(
            db.users@,
            db.memberships@,
            #[trigger] r@[k],
            group_id,
        ),
        forall|uid: u64|
            active_member(db.users@, db.memberships@, uid, group_id) ==> r@.contains(uid),
{
    let mut out: Vec<u64> = Vec::new();
    let mut i: usize = 0;
    #[verifier::loop_isolation(false)]
    while i < db.users.len()
        invariant
            i <= db.users@.len(),
            forall|k: int| 0 <= k < out@.len() ==> active_member(
                db.users@,
                db.memberships@,
                #[trigger] out@[k],
                group_id,
            ),
            forall|w: int|
                0 <= w < i && (#[trigger] db.users@[w]).is_active() && db.memberships@.contains(
                    Membership { user_id: db.users@[w].id, group_id },
                ) ==> out@.contains(db.users@[w].id),
        decreases db.users@.len() - i,
    {
        let ghost out0 = out@;
        if db.users[i].status == crate::store::LifecycleStatus::Active && db.has_membership(
            db.users[i].id,
            group_id,
        ) {
            out.push(db.users[i].id);
        }
        proof {
            assert forall|w: int|
                0 <= w < i + 1 && (#[trigger] db.users@[w]).is_active()
                    && db.memberships@.contains(
                    Membership { user_id: db.users@[w].id, group_id },
                ) implies out@.contains(db.users@[w].id) by {
                if w < i {
                    let k = choose|k: int| 0 <= k < out0.len() && out0[k] == db.users@[w].id;
                    assert(out@[k] == db.users@[w].id);
                } else {
                    assert(out@[out@.len() - 1] == db.users@[w].id);
                }
            }
        }
        i += 1;
    }
    proof {
        assert forall|uid: u64|
            active_member(db.users@, db.memberships@, uid, group_id) implies out@.contains(
            uid,
        ) by {
            let w = choose|w: int|
                0 <= w < db.users@.len() && (#[trigger] db.users@[w]).is_active()
                    && db.users@[w].id == uid;
        }
    }
    out
}

/// `views` lists exactly the public views of the group's active members:
/// one entry per member, every profile field mirroring its row.
pub open spec fn users_view_of_group(db: &AuthDb, group_id: u64, views: Seq<User>) -> bool {
    &&& forall|k: int|
        #![trigger views[k]]
        0 <= k < views.len() ==> exists|i: int|
            0 <= i < db.users@.len() && (#[trigger] db.users@[i]).is_active()
                && db.memberships@.contains(
                Membership { user_id: db.users@[i].id, group_id },
            ) && crate::users::internal::user_view_matches_row(db.users@[i], views[k])
    &&& forall|i: int|
        0 <= i < db.users@.len() && (#[trigger] db.users@[i]).is_active()
            && db.memberships@.contains(Membership { user_id: db.users@[i].id, group_id })
            ==> exists|k: int|
            0 <= k < views.len() && (#[trigger] views[k]).user_ref == db.users@[i].user_ref
    &&& forall|k1: int, k2: int|
        0 <= k1 < k2 < views.len() ==> (#[trigger] views[k1]).user_ref != (
        #[trigger] views[k2]).user_ref
}

/// The public views of the active users in the group.
pub fn get_users_in_group(group_id: u64, db: &AuthDb) -> (r: Vec<User>)
    requires
        db.wf(),
    ensures
        users_view_of_group(db, group_id, r@),
{
    let mut out: Vec<User> = Vec::new();
    let ghost mut wit: Seq<int> = Seq::empty();
    let mut i: usize = 0;
    #[verifier::loop_isolation(false)]
    while i < db.users.len()
        invariant
            i <= db.users@.len(),
            wit.len() == out@.len(),
            forall|k: int|
                0 <= k < out@.len() ==> 0 <= #[trigger] wit[k] < i
                    && db.users@[wit[k]].is_active() && db.memberships@.contains(
                    Membership { user_id: db.users@[wit[k]].id, group_id },
                ) && crate::users::internal::user_view_matches_row(db.users@[wit[k]], out@[k]),
            forall|k1: int, k2: int| 0 <= k1 < k2 < out@.len() ==> wit[k1] < wit[k2],
            forall|w: int|
                0 <= w < i && (#[trigger] db.users@[w]).is_active() && db.memberships@.contains(
                    Membership { user_id: db.users@[w].id, group_id },
                ) ==> exists|k: int|
                    0 <= k < out@.len() && (#[trigger] out@[k]).user_ref
                        == db.users@[w].user_ref,
        decreases db.users@.len() - i,
    {
        let ghost out0 = out@;
        if db.users[i].status == crate::store::LifecycleStatus::Active && db.has_membership(
            db.users[i].id,
            group_id,
        ) {
            let email = match &db.users[i].email {
                Some(e) => Some(e.clone()),
                None => None,
            };
            out.push(
                User {
                    user_ref: db.users[i].user_ref,
                    username: db.users[i].username.clone(),
                    firstname: db.users[i].firstname.clone(),
                    lastname: db.users[i].lastname.clone(),
                    email,
                    timezone: db.users[i].timezone.clone(),
                    is_superuser: db.users[i].is_superuser,
                },
            );
            proof {
                wit = wit.push(i as int);
            }
        }
        proof {
            assert forall|w: int|
                0 <= w < i + 1 && (#[trigger] db.users@[w]).is_active()
                    && db.memberships@.contains(
                    Membership { user_id: db.users@[w].id, group_id },
                ) implies exists|k: int|
                0 <= k < out@.len() && (#[trigger] out@[k]).user_ref
                    == db.users@[w].user_ref by {
                if w < i {
                    let k = choose|k: int|
                        0 <= k < out0.len() && (#[trigger] out0[k]).user_ref
                            == db.users@[w].user_ref;
                    assert(out@[k].user_ref == db.users@[w].user_ref);
                } else {
                    assert(out@[out@.len() - 1].user_ref == db.users@[w].user_ref);
                }
            }
        }
        i += 1;
    }
    proof {
        assert forall|k: int| #![trigger out@[k]] 0 <= k < out@.len() implies exists|w: int|
            0 <= w < db.users@.len() && (#[trigger] db.users@[w]).is_active()
                && db.memberships@.contains(
                Membership { user_id: db.users@[w].id, group_id },
            ) && crate::users::internal::user_view_matches_row(db.users@[w], out@[k]) by {
            assert(db.users@[wit[k]].is_active() && db.memberships@.contains(
                Membership { user_id: db.users@[wit[k]].id, group_id },
            ) && crate::users::internal::user_view_matches_row(db.users@[wit[k]], out@[k]));
        }
        // Rows at distinct indices carry distinct references, so no
        // member is listed twice.
        assert forall|k1: int, k2: int| 0 <= k1 < k2 < out@.len() implies (
        #[trigger] out@[k1]).user_ref != (#[trigger] out@[k2]).user_ref by {
            assert(db.users@[wit[k1]].user_ref != db.users@[wit[k2]].user_ref);
        }
    }
    out
}

/// External references of the groups of the given tenant that the user
/// belongs to, any type.
pub fn get_user_group_refs(user_id: u64, tenant_id: u64, db: &AuthDb) -> (r: Vec<GroupRef>)
    requires
        db.wf(),
    ensures
        forall|k: int|
            0 <= k < r@.len() ==> member_of_tenant_group(
                db.groups@,
                db.memberships@,
                user_id,
                tenant_id,
                #[trigger] r@[k],
            ),
        forall|gr: GroupRef|
            member_of_tenant_group(db.groups@, db.memberships@, user_id, tenant_id, gr)
                ==> r@.contains(gr),
{
    let mut out: Vec<GroupRef> = Vec::new();
    let mut g: usize = 0;
    #[verifier::loop_isolation(false)]
    while g < db.groups.len()
        invariant
            g <= db.groups@.len(),
            forall|k: int|
                0 <= k < out@.len() ==> member_of_tenant_group(
                    db.groups@,
                    db.memberships@,
                    user_id,
                    tenant_id,
                    #[trigger] out@[k],
                ),
            forall|w: int|
                0 <= w < g && (#[trigger] db.groups@[w]).tenant_id == tenant_id
                    && db.memberships@.contains(
                    Membership { user_id, group_id: db.groups@[w].id },
                ) ==> out@.contains(db.groups@[w].group_ref),
        decreases db.groups@.len() - g,
    {
        let ghost out0 = out@;
        if db.groups[g].tenant_id == tenant_id && db.has_membership(user_id, db.groups[g].id) {
            out.push(db.groups[g].group_ref);
            proof {
                assert(member_of_tenant_group(
                    db.groups@,
                    db.memberships@,
                    user_id,
                    tenant_id,
                    db.groups@[g as int].group_ref,
                )) by {
                    assert(db.groups@[g as int].tenant_id == tenant_id
                        && db.memberships@.contains(
                        Membership { user_id, group_id: db.groups@[g as int].id },
                    ));
                }
            }
        }
        proof {
            assert forall|w: int|
                0 <= w < g + 1 && (#[trigger] db.groups@[w]).tenant_id == tenant_id
                    && db.memberships@.contains(
                    Membership { user_id, group_id: db.groups@[w].id },
                ) implies out@.contains(db.groups@[w].group_ref) by {
                if w < g {
                    let k = choose|k: int|
                        0 <= k < out0.len() && out0[k] == db.groups@[w].group_ref;
                    assert(out@[k] == db.groups@[w].group_ref);
                } else {
                    assert(out@[out@.len() - 1] == db.groups@[w].group_ref);
                }
            }
        }
        g += 1;
    }
    proof {
        assert forall|gr: GroupRef|
            member_of_tenant_group(db.groups@, db.memberships@, user_id, tenant_id, gr) implies
            out@.contains(gr) by {
            let w = choose|w: int|
                0 <= w < db.groups@.len() && (#[trigger] db.groups@[w]).tenant_id == tenant_id
                    && db.groups@[w].group_ref == gr && db.memberships@.contains(
                    Membership { user_id, group_id: db.groups@[w].id },
                );
        }
    }
    out
}

/// Create a normal group under an existing tenant, with a validated name
/// and a freshly drawn unique reference.  Any failure leaves the store's
/// relations unchanged.
pub fn create_group(group: CreateGroup, db: &mut AuthDb) -> (r: Result<
    (GroupRef, u64),
    UserAuthError,
>)
    requires
        old(db).wf(),
        old(db).next_group_id < u64::MAX,
    ensures
        final(db).wf(),
        match r {
            Ok((gr, gid)) => spec_valid_group_name(group.name@) && old(db).spec_tenant_ref_exists(
                group.tenant,
            ) && gid == old(db).next_group_id && exists|t: int|
                0 <= t < old(db).tenants@.len() && (#[trigger] old(db).tenants@[t]).tenant_ref
                    == group.tenant && final(db).groups@ == old(db).groups@.push(
                    crate::store::GroupRow {
                        id: gid,
                        group_ref: gr,
                        name: Some(group.name),
                        group_type: GroupType::Normal,
                        tenant_id: old(db).tenants@[t].id,
                    },
                ),
            Err(e) => final(db).same_data(old(db)) && (e matches UserAuthError::GroupEndpoint(ge)
                ==> ((ge matches GroupEndpointError::InvalidField(_) && !spec_valid_group_name(
                group.name@,
            )) || ge is ReferenceExhausted)) && (e matches UserAuthError::TenantEndpoint(te)
                ==> (te matches TenantEndpointError::TenantNonExistent(tr) && tr == group.tenant
                && !old(db).spec_tenant_ref_exists(group.tenant))),
        },
        r is Err ==> final(db).same_data(old(db)),
        !spec_valid_group_name(group.name@) ==> (r matches Err(e) && e matches
            UserAuthError::GroupEndpoint(ge) && ge matches GroupEndpointError::InvalidField(_)),
        spec_valid_group_name(group.name@) && !old(db).spec_tenant_ref_exists(group.tenant) ==> (
        r matches Err(e) && e matches UserAuthError::TenantEndpoint(te) && te matches
            TenantEndpointError::TenantNonExistent(tr) && tr == group.tenant),
{
    if let Err(msg) = validate_create_group(&group) {
        return Err(UserAuthError::GroupEndpoint(GroupEndpointError::InvalidField(msg)));
    }
    let tenant_id = crate::tenants::internal::decode_tenant_ref(db, group.tenant)?;
    let group_ref = match crate::refgen::gen_unique_group_ref(db) {
        Some(gr) => gr,
        None => {
            return Err(UserAuthError::GroupEndpoint(GroupEndpointError::ReferenceExhausted));
        },
    };
    proof {
        let w = choose|w: int|
            0 <= w < db.tenants@.len() && (#[trigger] db.tenants@[w]).tenant_ref == group.tenant
                && db.tenants@[w].id == tenant_id;
    }
    let gid = db.insert_normal_group(group_ref, group.name, tenant_id);
    Ok((group_ref, gid))
}

/// Patch a normal group: only the name may change; a patch that names the
/// tenant is refused, as is an invalid name.  Any failure leaves the
/// store's relations unchanged.
pub fn patch_group(gid: u64, changes: &GroupPatch, db: &mut AuthDb) -> (r: Result<
    (),
    UserAuthError,
>)
    requires
        old(db).wf(),
    ensures
        final(db).wf(),
        final(db).users@ == old(db).users@,
        final(db).tenants@ == old(db).tenants@,
        final(db).memberships@ == old(db).memberships@,
        match r {
            Ok(_) => spec_visible_group(old(db), gid) && !changes.tenant_present && final(db).groups@.len() == old(db).groups@.len() && (forall|j: int|
                0 <= j < old(db).groups@.len() ==> #[trigger] final(db).groups@[j] == (if old(
                    db,
                ).groups@[j].id == gid && changes.name is Some {
                    crate::store::GroupRow {
                        name: Some(changes.name->0),
                        ..old(db).groups@[j]
                    }
                } else {
                    old(db).groups@[j]
                })),
            Err(e) => final(db).same_data(old(db)) && (e matches UserAuthError::GroupEndpoint(ge)
                && ((ge is NonExistentGroup && !spec_visible_group(old(db), gid)) || (
            ge matches GroupEndpointError::InvalidField(_) && spec_visible_group(old(db), gid)))),
        },
        match r {
            Err(UserAuthError::GroupEndpoint(GroupEndpointError::InvalidField(_))) => (
            changes.tenant_present || exists|i: int|
                0 <= i < old(db).groups@.len() && (#[trigger] old(db).groups@[i]).id == gid && old(
                    db,
                ).groups@[i].group_type is Normal && !spec_valid_group_name(
                    crate::groups::structures::spec_patched_group_name(
                        changes.name,
                        old(db).groups@[i].name,
                    ),
                )),
            _ => true,
        },
        (spec_visible_group(old(db), gid) && !changes.tenant_present && (forall|i: int|
            0 <= i < old(db).groups@.len() && (#[trigger] old(db).groups@[i]).id == gid && old(
                db,
            ).groups@[i].group_type is Normal ==> spec_valid_group_name(
                crate::groups::structures::spec_patched_group_name(
                    changes.name,
                    old(db).groups@[i].name,
                ),
            ))) ==> r is Ok,
{
    let current = get_non_special_group(gid, db)?;
    let ghost gw = choose|a: int, b: int|
        0 <= a < db.groups@.len() && 0 <= b < db.tenants@.len() && (#[trigger] db.groups@[a]).id
            == gid && db.groups@[a].group_type is Normal && db.groups@[a].group_ref
            == current.group_ref && db.groups@[a].name == Some(current.name) && (
        #[trigger] db.tenants@[b]).id == db.groups@[a].tenant_id && db.tenants@[b].tenant_ref
            == current.tenant;
    proof {
        assert forall|i: int|
            0 <= i < db.groups@.len() && (#[trigger] db.groups@[i]).id == gid implies i
            == gw.0 by {}
    }
    if changes.tenant_present {
        return Err(
            UserAuthError::GroupEndpoint(
                GroupEndpointError::InvalidField("Cannot change group tenant id!"),
            ),
        );
    }
    let new_name = match &changes.name {
        Some(n) => n.clone(),
        None => current.name,
    };
    let candidate = CreateGroup { name: new_name, tenant: current.tenant };
    proof {
        assert(candidate.name@ == crate::groups::structures::spec_patched_group_name(
            changes.name,
            db.groups@[gw.0].name,
        ));
    }
    if let Err(msg) = validate_create_group(&candidate) {
        return Err(UserAuthError::GroupEndpoint(GroupEndpointError::InvalidField(msg)));
    }
    match &changes.name {
        Some(_) => {
            db.update_group_name(gid, candidate.name);
        },
        None => (),
    }
    Ok(())
}

/// Delete a normal group together with its membership edges; the
/// system-managed groups are refused as non-existent.  Any failure leaves
/// the store's relations unchanged.
pub fn delete_group(gid: u64, db: &mut AuthDb) -> (r: Result<(), UserAuthError>)
    requires
        old(db).wf(),
    ensures
        final(db).wf(),
        final(db).users@ == old(db).users@,
        final(db).tenants@ == old(db).tenants@,
        match r {
            Ok(_) => spec_visible_group(old(db), gid) && !final(db).spec_group_id_exists(gid) && (
            forall|m: Membership|
                #[trigger] final(db).memberships@.contains(m) <==> (old(
                    db,
                ).memberships@.contains(m) && m.group_id != gid)) && (forall|gid2: u64|
                #[trigger] crate::store::group_id_in(old(db).groups@, gid2) && gid2 != gid
                    ==> crate::store::group_id_in(final(db).groups@, gid2)),
            Err(e) => final(db).same_data(old(db)) && !spec_visible_group(old(db), gid) && (
            e matches UserAuthError::GroupEndpoint(ge) && ge is NonExistentGroup),
        },
{
    let _ = get_non_special_group(gid, db)?;
    db.remove_group(gid);
    Ok(())
}

} // verus!
