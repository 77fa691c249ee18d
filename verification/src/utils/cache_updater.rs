//! Reassembly of a login context after a mutation, for the upstream
//! session store.  The service pushes the result to the token service
//! after its own transaction committed; a failed push never rolls the
//! local mutation back, it only surfaces as a partial-success condition.

use vstd::prelude::*;
use crate::entities::{LoggedInUser, TenantLoginInfo, TenantRef, UserRef};
use crate::store::AuthDb;
use crate::users::internal;
use crate::UserAuthError;

verus! {

/// Rebuild the login context of a user within a tenant from the current
/// store: fresh profile, fresh group list, fresh admin flag.
pub fn build_login_info(user_ref: UserRef, tenant_ref: TenantRef, db: &mut AuthDb) -> (r: Result<
    LoggedInUser,
    UserAuthError,
>)
    requires
        old(db).wf(),
    ensures
        final(db).wf(),
        final(db).same_data(old(db)),
        match r {
            Ok(info) => info.user.user_ref == user_ref && info.tenant_info.tenant_ref == tenant_ref
                && exists|i: int|
                0 <= i < old(db).users@.len() && (#[trigger] old(db).users@[i]).is_active() && old(
                    db,
                ).users@[i].user_ref == user_ref && internal::user_view_matches_row(
                    old(db).users@[i],
                    info.user,
                ) && (exists|g: int, t: int|
                    0 <= g < old(db).groups@.len() && 0 <= t < old(db).tenants@.len() && (
                    #[trigger] old(db).groups@[g]).group_type is AdminGroup && (
                    #[trigger] old(db).tenants@[t]).tenant_ref == tenant_ref && old(
                        db,
                    ).tenants@[t].id == old(db).groups@[g].tenant_id
                        && info.tenant_info.is_tenant_admin == info.tenant_info.groups@.contains(
                        old(db).groups@[g].group_ref,
                    )) && (exists|t: int|
                    0 <= t < old(db).tenants@.len() && (#[trigger] old(db).tenants@[t]).tenant_ref
                        == tenant_ref && (forall|gr: crate::entities::GroupRef|
                        #[trigger] crate::store::member_of_tenant_group(
                            old(db).groups@,
                            old(db).memberships@,
                            old(db).users@[i].id,
                            old(db).tenants@[t].id,
                            gr,
                        ) <==> info.tenant_info.groups@.contains(gr))),
            Err(e) => (e matches UserAuthError::UserEndpoint(ue) ==> (ue is UserNonExistent
                && !old(db).spec_active_user_ref_exists(user_ref))) && (e matches
                UserAuthError::TenantEndpoint(te) ==> (te matches
                crate::tenants::error::TenantEndpointError::TenantNonExistent(tr) && tr
                == tenant_ref && !old(db).spec_tenant_ref_exists(tenant_ref))),
        },
        old(db).spec_tenant_ref_exists(tenant_ref) && old(db).spec_active_user_ref_exists(user_ref)
            ==> r is Ok,
{
    let tenant_id = crate::tenants::internal::decode_tenant_ref(db, tenant_ref)?;
    let user_id = internal::decode_user_ref(db, user_ref)?;
    let user = match internal::get_user(user_id, db) {
        Ok(u) => u,
        Err(e) => {
            proof {
                let w = choose|w: int|
                    0 <= w < db.users@.len() && (#[trigger] db.users@[w]).is_active()
                        && db.users@[w].user_ref == user_ref && db.users@[w].id == user_id;
                assert(false);
            }
            return Err(e);
        },
    };
    proof {
        assert(db.spec_tenant_id_exists(tenant_id)) by {
            let w = choose|w: int|
                0 <= w < db.tenants@.len() && (#[trigger] db.tenants@[w]).tenant_ref == tenant_ref
                    && db.tenants@[w].id == tenant_id;
        }
    }
    let user_groups = crate::groups::internal::get_user_group_refs(user_id, tenant_id, db);
    let tenant_admingroup = match crate::tenants::internal::get_tenant_admingroup_ref(
        tenant_id,
        db,
    ) {
        Ok(g) => g,
        Err(e) => {
            proof {
                assert(false);
            }
            return Err(e);
        },
    };
    let is_tenant_admin = contains_group(&user_groups, &tenant_admingroup);
    let tenant_name = crate::tenants::internal::get_tenant(tenant_id, db).name;
    let info = LoggedInUser {
        user,
        tenant_info: TenantLoginInfo {
            tenant_ref,
            tenant_name,
            is_tenant_admin,
            groups: user_groups,
        },
    };
    proof {
        let g = choose|g: int|
            0 <= g < db.groups@.len() && (#[trigger] db.groups@[g]).tenant_id == tenant_id
                && db.groups@[g].group_type is AdminGroup && db.groups@[g].group_ref
                == tenant_admingroup;
        let t = choose|t: int|
            0 <= t < db.tenants@.len() && (#[trigger] db.tenants@[t]).tenant_ref == tenant_ref
                && db.tenants@[t].id == tenant_id;
        let i1 = choose|i: int|
            0 <= i < db.users@.len() && (#[trigger] db.users@[i]).is_active()
                && db.users@[i].user_ref == user_ref && db.users@[i].id == user_id;
        let i2 = choose|i: int|
            0 <= i < db.users@.len() && (#[trigger] db.users@[i]).is_active() && db.users@[i].id
                == user_id && internal::user_view_matches_row(db.users@[i], info.user);
        assert(i1 == i2);
        // The fresh group list holds exactly the user's groups of the
        // tenant.
        assert forall|gr: crate::entities::GroupRef|
            #[trigger] crate::store::member_of_tenant_group(
                db.groups@,
                db.memberships@,
                user_id,
                db.tenants@[t].id,
                gr,
            ) <==> info.tenant_info.groups@.contains(gr) by {
            if crate::store::member_of_tenant_group(
                db.groups@,
                db.memberships@,
                user_id,
                db.tenants@[t].id,
                gr,
            ) {
                assert(info.tenant_info.groups@.contains(gr));
            }
            if info.tenant_info.groups@.contains(gr) {
                let k = choose|k: int|
                    0 <= k < info.tenant_info.groups@.len() && info.tenant_info.groups@[k] == gr;
                assert(crate::store::member_of_tenant_group(
                    db.groups@,
                    db.memberships@,
                    user_id,
                    tenant_id,
                    gr,
                ));
            }
        }
    }
    Ok(info)
}

/// Whether the list of group references holds the given one.
fn contains_group(list: &Vec<crate::entities::GroupRef>, g: &crate::entities::GroupRef) -> (r:
    bool)
    ensures
        r == list@.contains(*g),
{
    let mut i: usize = 0;
    #[verifier::loop_isolation(false)]
    while i < list.len()
        invariant
            i <= list@.len(),
            forall|j: int| 0 <= j < i ==> list@[j] != *g,
        decreases list@.len() - i,
    {
        if list[i] == *g {
            return true;
        }
        i += 1;
    }
    false
}

} // verus!
