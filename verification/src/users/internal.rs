//! User directory: reference resolution, CRUD with soft delete, and the
//! permission checks over users.

use vstd::prelude::*;
use crate::auth::{authorize, AuthOperation};
use crate::entities::{LoggedInUser, User, UserRef};
use crate::store::{active_user_ref_resolves, active_username_in, AuthDb, LifecycleStatus, UserRow};
use crate::users::error::UserEndpointError;
use crate::users::structures::{
    merge_user, spec_merged_user, spec_patched_str, spec_valid_user, validate_create_user,
    CreateUser, UserPatch,
};
use crate::utils::hashing::{hash_password, spec_password_matches};
use crate::UserAuthError;

verus! {

/// Resolve an external user reference to its internal key, through the
/// bounded memoization cache.  Soft-deleted users never resolve, even if
/// the row persists: a deletion invalidates the cached translation.
pub fn decode_user_ref(db: &mut AuthDb, reference: UserRef) -> (r: Result<u64, UserAuthError>)
    requires
        old(db).wf(),
    ensures
        final(db).wf(),
        final(db).same_data(old(db)),
        match r {
            Ok(id) => old(db).spec_active_user_ref_resolves_to(reference, id),
            Err(e) => !old(db).spec_active_user_ref_exists(reference) && (e matches
                UserAuthError::UserEndpoint(ue) && ue is UserNonExistent),
        },
{
    match db.user_decode_cache.lookup(reference.code) {
        Some(id) => {
            proof {
                assert(active_user_ref_resolves(
                    db.users@,
                    UserRef { code: reference.code },
                    id,
                ));
            }
            Ok(id)
        },
        None => {
            match db.find_active_user_by_ref(&reference) {
                Some(i) => {
                    let id = db.users[i].id;
                    db.user_decode_cache.insert(reference.code, id);
                    proof {
                        assert forall|k: int|
                            0 <= k < db.user_decode_cache.entries@.len()
                                implies active_user_ref_resolves(
                            db.users@,
                            UserRef { code: (#[trigger] db.user_decode_cache.entries@[k]).key },
                            db.user_decode_cache.entries@[k].val,
                        ) by {
                            let e = db.user_decode_cache.entries@[k];
                            if e == (crate::resolver::CacheEntry {
                                key: reference.code,
                                val: id,
                            }) {
                                assert(db.users@[i as int].user_ref == (UserRef {
                                    code: reference.code,
                                }));
                            } else {
                                assert(old(db).user_decode_cache.spec_maps(e.key, e.val));
                                let w = choose|w: int|
                                    0 <= w < old(db).user_decode_cache.entries@.len() && old(db).user_decode_cache.entries@[w]
                                        == (crate::resolver::CacheEntry {
                                        key: e.key,
                                        val: e.val,
                                    });
                                assert(active_user_ref_resolves(
                                    db.users@,
                                    UserRef { code: e.key },
                                    e.val,
                                ));
                            }
                        }
                    }
                    Ok(id)
                },
                None => Err(UserAuthError::UserEndpoint(UserEndpointError::UserNonExistent)),
            }
        },
    }
}

/// Whether the actor may read the target user's data: self, superuser,
/// or a shared tenant.
pub fn has_read_perm(db: &AuthDb, actor: &LoggedInUser, target_id: u64) -> (r: Result<
    (),
    UserAuthError,
>)
    requires
        db.wf(),
    ensures
        match r {
            Ok(_) => crate::auth::spec_can_read_user(db, actor, target_id),
            Err(e) => !crate::auth::spec_can_read_user(db, actor, target_id) && (e matches
                UserAuthError::UserEndpoint(ue) && ue is ReadingDenied),
        },
{
    let actor_is_target = crate::auth::actor_is_user(db, actor, target_id);
    let target_tenants = crate::tenants::internal::get_user_tenant_refs(target_id, db);
    if authorize(
        actor,
        &AuthOperation::ReadUser { actor_is_target, target_tenants },
    ) {
        Ok(())
    } else {
        Err(UserAuthError::UserEndpoint(UserEndpointError::ReadingDenied))
    }
}

/// Whether the actor may change the target user's data: self, superuser,
/// or an administrator of a tenant the target belongs to.
pub fn has_write_perm(db: &AuthDb, actor: &LoggedInUser, target_id: u64) -> (r: Result<
    (),
    UserAuthError,
>)
    requires
        db.wf(),
    ensures
        match r {
            Ok(_) => crate::auth::spec_can_write_user(db, actor, target_id),
            Err(e) => !crate::auth::spec_can_write_user(db, actor, target_id) && (e matches
                UserAuthError::UserEndpoint(ue) && ue is ModificationDenied),
        },
{
    let actor_is_target = crate::auth::actor_is_user(db, actor, target_id);
    let target_tenants = crate::tenants::internal::get_user_tenant_refs(target_id, db);
    if authorize(
        actor,
        &AuthOperation::WriteUser { actor_is_target, target_tenants },
    ) {
        Ok(())
    } else {
        Err(UserAuthError::UserEndpoint(UserEndpointError::ModificationDenied))
    }
}

/// Soft-delete the user: the row persists with status `Deleted`, the
/// external reference stops resolving.  Unknown keys are a no-op.
pub fn delete_user(db: &mut AuthDb, user_id: u64)
    requires
        old(db).wf(),
    ensures
        final(db).wf(),
        !final(db).spec_active_user_id_exists(user_id),
        final(db).users@.len() == old(db).users@.len(),
        forall|j: int|
            0 <= j < old(db).users@.len() ==> #[trigger] final(db).users@[j] == (if old(db).users@[j].id == user_id {
                UserRow { status: LifecycleStatus::Deleted, ..old(db).users@[j] }
            } else {
                old(db).users@[j]
            }),
        final(db).tenants@ == old(db).tenants@,
        final(db).groups@ == old(db).groups@,
        final(db).memberships@ == old(db).memberships@,
        final(db).next_user_id == old(db).next_user_id,
        final(db).next_tenant_id == old(db).next_tenant_id,
        final(db).next_group_id == old(db).next_group_id,
{
    match db.find_user_by_id(user_id) {
        Some(_) => {
            db.mark_user_deleted(user_id);
        },
        None => (),
    }
}

/// Whether some active user carries the username.
pub fn is_username_taken(username: &String, db: &AuthDb) -> (r: bool)
    ensures
        r == db.spec_active_username_exists(username@),
{
    db.find_active_user_by_username(username).is_some()
}

/// The public view a stored user row corresponds to.
pub open spec fn user_view_matches_row(row: UserRow, u: User) -> bool {
    &&& u.user_ref == row.user_ref
    &&& u.username@ == row.username@
    &&& u.firstname@ == row.firstname@
    &&& u.lastname@ == row.lastname@
    &&& crate::users::structures::spec_opt_string_eq(u.email, row.email)
    &&& u.timezone@ == row.timezone@
    &&& u.is_superuser == row.is_superuser
}

/// The creation-shaped profile a stored row corresponds to.  The
/// password field carries the stored hash, which no profile rule or
/// comparison reads: validity and profile equality are password-blind.
pub open spec fn spec_row_payload(row: UserRow) -> CreateUser {
    CreateUser {
        username: row.username,
        password: row.password,
        firstname: row.firstname,
        lastname: row.lastname,
        email: row.email,
        timezone: row.timezone,
    }
}

/// The patch applies cleanly to the user `id`: it names no password, the
/// row is active, the merged profile passes validation, and a changed
/// username collides with no other active user.  On such inputs the
/// patch succeeds.
pub open spec fn spec_patch_would_apply(db: &AuthDb, id: u64, changes: &UserPatch) -> bool {
    &&& !changes.password_present
    &&& exists|j: int|
        0 <= j < db.users@.len() && (#[trigger] db.users@[j]).is_active() && db.users@[j].id == id
            && spec_valid_user(&spec_merged_user(&spec_row_payload(db.users@[j]), changes)) && (
        spec_patched_str(changes.username, db.users@[j].username@) == db.users@[j].username@
            || !active_username_in(
            db.users@,
            spec_patched_str(changes.username, db.users@[j].username@),
        ))
}

/// Exactly the profile fields of the row keyed `id` changed, each to its
/// merged value; key, reference, credentials, lifecycle status and the
/// superuser flag are untouched, and every other row is unchanged.
pub open spec fn spec_patch_applied(
    pre: Seq<UserRow>,
    post: Seq<UserRow>,
    id: u64,
    changes: &UserPatch,
) -> bool {
    &&& post.len() == pre.len()
    &&& forall|j: int| 0 <= j < pre.len() && (#[trigger] pre[j]).id != id ==> post[j] == pre[j]
    &&& forall|j: int|
        0 <= j < pre.len() && (#[trigger] pre[j]).id == id ==> {
            let o = pre[j];
            let n = post[j];
            &&& n.id == o.id
            &&& n.user_ref == o.user_ref
            &&& n.status == o.status
            &&& n.password@ == o.password@
            &&& n.password_hash_id == o.password_hash_id
            &&& n.is_superuser == o.is_superuser
            &&& n.username@ == spec_patched_str(changes.username, o.username@)
            &&& n.firstname@ == spec_patched_str(changes.firstname, o.firstname@)
            &&& n.lastname@ == spec_patched_str(changes.lastname, o.lastname@)
            &&& n.timezone@ == spec_patched_str(changes.timezone, o.timezone@)
            &&& crate::users::structures::spec_patched_email_eq(changes.email, o.email, n.email)
        }
}

/// Merging the patch over the active row `id` yields a profile that
/// passes validation.
pub open spec fn spec_patch_valid_for(db: &AuthDb, id: u64, changes: &UserPatch) -> bool {
    forall|j: int|
        0 <= j < db.users@.len() && (#[trigger] db.users@[j]).is_active() && db.users@[j].id == id
            ==> spec_valid_user(&spec_merged_user(&spec_row_payload(db.users@[j]), changes))
}

/// Merging a patch over the view-shaped profile of a row and over the
/// row itself agree field for field, so validity transfers.
proof fn lemma_merged_matches_row(row: UserRow, current: CreateUser, changes: &UserPatch)
    requires
        current.username@ == row.username@,
        current.firstname@ == row.firstname@,
        current.lastname@ == row.lastname@,
        crate::users::structures::spec_opt_string_eq(current.email, row.email),
        current.timezone@ == row.timezone@,
    ensures
        spec_valid_user(&spec_merged_user(&current, changes)) == spec_valid_user(
            &spec_merged_user(&spec_row_payload(row), changes),
        ),
        spec_merged_user(&current, changes).username@ == spec_patched_str(
            changes.username,
            row.username@,
        ),
{
    let m1 = spec_merged_user(&current, changes);
    let m2 = spec_merged_user(&spec_row_payload(row), changes);
    assert(m1.username@ == m2.username@);
    assert(m1.firstname@ == m2.firstname@);
    assert(m1.lastname@ == m2.lastname@);
    assert(m1.timezone@ == m2.timezone@);
    if changes.email is None {
        assert(crate::users::structures::spec_opt_string_eq(m1.email, m2.email));
    }
    assert(spec_valid_user(&m1) == spec_valid_user(&m2)) by {
        if m1.email is Some {
            assert(m2.email is Some && m1.email->0@ == m2.email->0@);
        }
        if m2.email is Some {
            assert(m1.email is Some && m1.email->0@ == m2.email->0@);
        }
    }
}

/// The public view of an active user, by internal key; no permission
/// check.  Soft-deleted users are invisible to this read.
pub fn get_user(user_id: u64, db: &AuthDb) -> (r: Result<User, UserAuthError>)
    ensures
        match r {
            Ok(u) => exists|i: int|
                0 <= i < db.users@.len() && (#[trigger] db.users@[i]).is_active()
                    && db.users@[i].id == user_id && user_view_matches_row(db.users@[i], u),
            Err(e) => !db.spec_active_user_id_exists(user_id) && (e matches
                UserAuthError::UserEndpoint(ue) && ue is UserNonExistent),
        },
{
    let mut i: usize = 0;
    #[verifier::loop_isolation(false)]
    while i < db.users.len()
        invariant
            i <= db.users@.len(),
            forall|j: int|
                0 <= j < i ==> !((#[trigger] db.users@[j]).is_active() && db.users@[j].id
                    == user_id),
        decreases db.users@.len() - i,
    {
        if db.users[i].status == LifecycleStatus::Active && db.users[i].id == user_id {
            let email = match &db.users[i].email {
                Some(e) => Some(e.clone()),
                None => None,
            };
            return Ok(
                User {
                    user_ref: db.users[i].user_ref,
                    username: db.users[i].username.clone(),
                    firstname: db.users[i].firstname.clone(),
                    lastname: db.users[i].lastname.clone(),
                    email,
                    timezone: db.users[i].timezone.clone(),
                    is_superuser: db.users[i].is_superuser,
                },
            );
        }
        i += 1;
    }
    Err(UserAuthError::UserEndpoint(UserEndpointError::UserNonExistent))
}

/// The lifecycle status of the row behind the key, whatever it is; the
/// row of a soft-deleted user persists and reports `Deleted` here.
pub fn get_user_status(user_id: u64, db: &AuthDb) -> (r: Option<LifecycleStatus>)
    ensures
        match r {
            Some(st) => exists|i: int|
                0 <= i < db.users@.len() && (#[trigger] db.users@[i]).id == user_id
                    && db.users@[i].status == st,
            None => !db.spec_user_id_exists(user_id),
        },
{
    match db.find_user_by_id(user_id) {
        Some(i) => Some(db.users[i].status),
        None => None,
    }
}

/// Security info of an active user, by username: internal key, stored
/// password hash, and hash algorithm.
pub fn get_user_sec_info(username: &String, db: &AuthDb) -> (r: Result<
    (u64, String, u16),
    UserAuthError,
>)
    ensures
        match r {
            Ok((id, hash, hash_id)) => exists|i: int|
                0 <= i < db.users@.len() && (#[trigger] db.users@[i]).is_active()
                    && db.users@[i].username@ == username@ && db.users@[i].id == id
                    && db.users@[i].password@ == hash@ && db.users@[i].password_hash_id == hash_id,
            Err(e) => !db.spec_active_username_exists(username@) && (e matches
                UserAuthError::UserEndpoint(ue) && ue is UserNonExistent),
        },
{
    match db.find_active_user_by_username(username) {
        Some(i) => Ok((db.users[i].id, db.users[i].password.clone(), db.users[i].password_hash_id)),
        None => Err(UserAuthError::UserEndpoint(UserEndpointError::UserNonExistent)),
    }
}

/// Replace the stored password hash and algorithm of the user.  Unknown
/// keys are a no-op.
pub fn update_password(user_id: u64, new_hash: String, hash_id: u16, db: &mut AuthDb)
    requires
        old(db).wf(),
    ensures
        final(db).wf(),
        final(db).users@.len() == old(db).users@.len(),
        forall|j: int|
            0 <= j < old(db).users@.len() ==> #[trigger] final(db).users@[j] == (if old(db).users@[j].id == user_id {
                UserRow { password: new_hash, password_hash_id: hash_id, ..old(db).users@[j] }
            } else {
                old(db).users@[j]
            }),
        final(db).tenants@ == old(db).tenants@,
        final(db).groups@ == old(db).groups@,
        final(db).memberships@ == old(db).memberships@,
        final(db).next_user_id == old(db).next_user_id,
        final(db).next_tenant_id == old(db).next_tenant_id,
        final(db).next_group_id == old(db).next_group_id,
{
    match db.find_user_by_id(user_id) {
        Some(_) => {
            db.update_user_password(user_id, new_hash, hash_id);
        },
        None => (),
    }
}

/// The fresh user row the payload produces on success: active, not a
/// superuser, with a hash that matches the plaintext password.
pub open spec fn created_user_row_ok(
    row: UserRow,
    user: CreateUser,
    hash_id: u16,
    id: u64,
) -> bool {
    &&& row.id == id
    &&& row.username == user.username
    &&& row.firstname == user.firstname
    &&& row.lastname == user.lastname
    &&& row.email == user.email
    &&& row.timezone == user.timezone
    &&& row.password_hash_id == hash_id
    &&& spec_password_matches(user.password@, row.password@, hash_id)
    &&& row.status is Active
    &&& !row.is_superuser
}

/// Create an active user: hash the password, refuse a taken username,
/// draw a unique reference, insert the row.  Any failure leaves the
/// store's relations unchanged; no permission check, no field
/// validation.
pub fn create_user(user: CreateUser, hash_id: u16, db: &mut AuthDb) -> (r: Result<
    (User, u64),
    UserAuthError,
>)
    requires
        old(db).wf(),
        old(db).next_user_id < u64::MAX,
    ensures
        final(db).wf(),
        match r {
            Ok((u, id)) => !old(db).spec_active_username_exists(user.username@) && id == old(db).next_user_id && final(db).users@.len() == old(db).users@.len() + 1 && (forall|j: int|
                0 <= j < old(db).users@.len() ==> #[trigger] final(db).users@[j] == old(db).users@[j]) && created_user_row_ok(
                final(db).users@[old(db).users@.len() as int],
                user,
                hash_id,
                id,
            ) && final(db).users@[old(db).users@.len() as int].user_ref == u.user_ref
                && user_view_matches_row(final(db).users@[old(db).users@.len() as int], u)
                && !old(db).spec_user_ref_exists(u.user_ref) && final(db).next_user_id == old(db).next_user_id + 1,
            Err(e) => final(db).same_data(old(db)) && (e matches UserAuthError::UserEndpoint(ue)
                && ((ue is UsernameTaken && old(db).spec_active_username_exists(user.username@))
                || ue is Hashing || ue is ReferenceExhausted)),
        },
        r is Err ==> final(db).same_data(old(db)),
        final(db).tenants@ == old(db).tenants@,
        final(db).groups@ == old(db).groups@,
        final(db).memberships@ == old(db).memberships@,
        final(db).next_tenant_id == old(db).next_tenant_id,
        final(db).next_group_id == old(db).next_group_id,
        hash_id > 1 && !old(db).spec_active_username_exists(user.username@) ==> (r matches Err(e)
            && e matches UserAuthError::UserEndpoint(ue) && ue is Hashing),
        old(db).spec_active_username_exists(user.username@) ==> (r matches Err(e) && e matches
            UserAuthError::UserEndpoint(ue) && ue is UsernameTaken),
{
    if is_username_taken(&user.username, db) {
        return Err(UserAuthError::UserEndpoint(UserEndpointError::UsernameTaken));
    }
    let hashed = match hash_password(user.password.as_str(), hash_id) {
        Ok(h) => h,
        Err(e) => {
            return Err(UserAuthError::UserEndpoint(UserEndpointError::Hashing(e)));
        },
    };
    let user_ref = match crate::refgen::gen_unique_user_ref(db) {
        Some(u) => u,
        None => {
            return Err(UserAuthError::UserEndpoint(UserEndpointError::ReferenceExhausted));
        },
    };
    let view = User {
        user_ref,
        username: user.username.clone(),
        firstname: user.firstname.clone(),
        lastname: user.lastname.clone(),
        email: crate::users::structures::opt_string_clone(&user.email),
        timezone: user.timezone.clone(),
        is_superuser: false,
    };
    let id = db.insert_user(
        user_ref,
        user.username,
        hashed,
        hash_id,
        user.firstname,
        user.lastname,
        user.email,
        user.timezone,
        false,
    );
    Ok((view, id))
}

/// Patch a user's profile.  A patch that names the password is always
/// refused; the merged profile is re-validated; a no-op patch succeeds
/// without a write; a username collision is refused.  Any failure leaves
/// the store's relations unchanged; no permission check.
pub fn patch_user(id: u64, changes: &UserPatch, db: &mut AuthDb) -> (r: Result<(), UserAuthError>)
    requires
        old(db).wf(),
    ensures
        final(db).wf(),
        final(db).tenants@ == old(db).tenants@,
        final(db).groups@ == old(db).groups@,
        final(db).memberships@ == old(db).memberships@,
        final(db).next_user_id == old(db).next_user_id,
        final(db).next_tenant_id == old(db).next_tenant_id,
        final(db).next_group_id == old(db).next_group_id,
        changes.password_present ==> (r matches Err(e) && e matches UserAuthError::UserEndpoint(ue)
            && ue matches UserEndpointError::UseOtherEndpoint(_) && final(db).same_data(old(db))),
        match r {
            Err(UserAuthError::UserEndpoint(UserEndpointError::UseOtherEndpoint(s))) => (
            changes.password_present && s@ == "/users/self/change_password"@),
            _ => true,
        },
        spec_patch_would_apply(old(db), id, changes) ==> r is Ok,
        (!changes.password_present && exists|j: int|
            0 <= j < old(db).users@.len() && (#[trigger] old(db).users@[j]).is_active() && old(
                db,
            ).users@[j].id == id && spec_valid_user(
                &spec_merged_user(&spec_row_payload(old(db).users@[j]), changes),
            ) && spec_patched_str(changes.username, old(db).users@[j].username@) != old(
                db,
            ).users@[j].username@ && active_username_in(
                old(db).users@,
                spec_patched_str(changes.username, old(db).users@[j].username@),
            )) ==> (r matches Err(e) && e matches UserAuthError::UserEndpoint(ue) && ue
            is UsernameTaken),
        match r {
            Err(UserAuthError::UserEndpoint(UserEndpointError::UsernameTaken)) => !spec_patch_would_apply(
                old(db),
                id,
                changes,
            ),
            _ => true,
        },
        match r {
            Ok(_) => !changes.password_present && old(db).spec_active_user_id_exists(id)
                && spec_patch_valid_for(old(db), id, changes) && spec_patch_applied(
                old(db).users@,
                final(db).users@,
                id,
                changes,
            ),
            Err(e) => final(db).same_data(old(db)) && (e matches UserAuthError::UserEndpoint(ue)
                && (ue matches UserEndpointError::UseOtherEndpoint(_) || (ue is UserNonExistent
                && !old(db).spec_active_user_id_exists(id)) || ue matches
                UserEndpointError::InvalidField(_) || ue is UsernameTaken)),
        },
{
    if changes.password_present {
        return Err(
            UserAuthError::UserEndpoint(
                UserEndpointError::UseOtherEndpoint("/users/self/change_password"),
            ),
        );
    }
    let current_view = match get_user(id, db) {
        Ok(v) => v,
        Err(e) => {
            proof {
                if spec_patch_would_apply(old(db), id, changes) {
                    let j = choose|j: int|
                        0 <= j < db.users@.len() && (#[trigger] db.users@[j]).is_active()
                            && db.users@[j].id == id;
                    assert(db.spec_active_user_id_exists(id));
                }
            }
            return Err(e);
        },
    };
    let ghost vi = choose|i: int|
        0 <= i < db.users@.len() && (#[trigger] db.users@[i]).is_active() && db.users@[i].id == id
            && user_view_matches_row(db.users@[i], current_view);
    let current = CreateUser::from_user(current_view);
    let merged = merge_user(&current, changes);
    proof {
        lemma_merged_matches_row(db.users@[vi], current, changes);
        // The active row carrying `id` is unique, so every quantified
        // clause over it speaks of the row the view came from.
        assert forall|j: int|
            0 <= j < db.users@.len() && (#[trigger] db.users@[j]).is_active() && db.users@[j].id
                == id implies j == vi by {}
    }
    if let Err(f) = validate_create_user(&merged) {
        return Err(UserAuthError::UserEndpoint(UserEndpointError::InvalidField(f)));
    }
    if current.same_profile(&merged) {
        return Ok(());
    }
    let username_changed = !(current.username == merged.username);
    if username_changed && is_username_taken(&merged.username, db) {
        return Err(UserAuthError::UserEndpoint(UserEndpointError::UsernameTaken));
    }
    proof {
        let w = choose|w: int|
            0 <= w < db.users@.len() && (#[trigger] db.users@[w]).is_active() && db.users@[w].id
                == id;
        if !username_changed {
            assert forall|j: int|
                0 <= j < db.users@.len() && (#[trigger] db.users@[j]).is_active()
                    && db.users@[j].id != id implies db.users@[j].username@
                != merged.username@ by {
                assert(db.users@[w].username@ == current.username@);
            }
        }
    }
    db.update_user_profile(id, merged.username, merged.firstname, merged.lastname, merged.email,
        merged.timezone);
    Ok(())
}

} // verus!
