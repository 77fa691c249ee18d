//! User operations as the service exposes them: permission check first,
//! then the directory mutation or read.

use vstd::prelude::*;
use crate::auth::{authorize, AuthOperation};
use crate::entities::{
    GroupRef, LoggedInUser, TenantLoginInfo, TenantRef, User, UserRef, UserSelf,
};
use crate::store::{AuthDb, Membership};
use crate::users::error::UserEndpointError;
use crate::users::internal;
use crate::tenants::error::TenantEndpointError;
use crate::users::structures::{validate_create_user, CreateUser, UserPatch};
use crate::utils::hashing::{spec_password_matches, verify_password};
use crate::UserAuthError;

verus! {

/// Credentials presented at login.
pub struct LoginData {
    pub password: String,
}

/// Read a user by external reference; the actor must be the user, a
/// superuser, or share a tenant with the user.
pub fn get_user(user_ref: UserRef, actor: &LoggedInUser, db: &mut AuthDb) -> (r: Result<
    User,
    UserAuthError,
>)
    requires
        old(db).wf(),
    ensures
        final(db).wf(),
        final(db).same_data(old(db)),
        match r {
            Ok(u) => exists|i: int|
                0 <= i < old(db).users@.len() && (#[trigger] old(db).users@[i]).is_active() && old(db).users@[i].user_ref == user_ref && internal::user_view_matches_row(
                    old(db).users@[i],
                    u,
                ) && crate::auth::spec_can_read_user(old(db), actor, old(db).users@[i].id),
            Err(e) => (e matches UserAuthError::UserEndpoint(ue) && ((ue is UserNonExistent
                && !old(db).spec_active_user_ref_exists(user_ref)) || ue is ReadingDenied)),
        },
        match r {
            Err(UserAuthError::UserEndpoint(UserEndpointError::ReadingDenied)) => exists|uid: u64|
                #[trigger] crate::store::active_user_ref_resolves(old(db).users@, user_ref, uid)
                    && !crate::auth::spec_can_read_user(old(db), actor, uid),
            _ => true,
        },
        (exists|uid: u64|
            #[trigger] crate::store::active_user_ref_resolves(old(db).users@, user_ref, uid)
                && crate::auth::spec_can_read_user(old(db), actor, uid)) ==> r is Ok,
{
    let user_id = internal::decode_user_ref(db, user_ref)?;
    proof {
        if exists|uid: u64|
            #[trigger] crate::store::active_user_ref_resolves(old(db).users@, user_ref, uid) {
            let uid = choose|uid: u64|
                #[trigger] crate::store::active_user_ref_resolves(old(db).users@, user_ref, uid);
            crate::store::lemma_active_user_ref_functional(
                old(db).users@,
                user_ref,
                uid,
                user_id,
            );
        }
    }
    internal::has_read_perm(db, actor, user_id)?;
    let u = match internal::get_user(user_id, db) {
        Ok(u) => u,
        Err(e) => {
            proof {
                let w = choose|w: int|
                    0 <= w < db.users@.len() && (#[trigger] db.users@[w]).is_active()
                        && db.users@[w].user_ref == user_ref && db.users@[w].id == user_id;
                assert(false);
            }
            return Err(e);
        },
    };
    proof {
        let w = choose|w: int|
            0 <= w < db.users@.len() && (#[trigger] db.users@[w]).is_active() && db.users@[w].id
                == user_id && internal::user_view_matches_row(db.users@[w], u);
        let v = choose|v: int|
            0 <= v < db.users@.len() && (#[trigger] db.users@[v]).is_active()
                && db.users@[v].user_ref == user_ref && db.users@[v].id == user_id;
        assert(w == v);
    }
    Ok(u)
}

/// The actor's own view of their account, active tenant included.
pub fn get_self(actor: &LoggedInUser) -> (r: UserSelf)
    ensures
        r.user_ref == actor.user.user_ref,
        r.username@ == actor.user.username@,
        r.firstname@ == actor.user.firstname@,
        r.lastname@ == actor.user.lastname@,
        crate::users::structures::spec_opt_string_eq(r.email, actor.user.email),
        r.timezone@ == actor.user.timezone@,
        r.tenant_ref == actor.tenant_info.tenant_ref,
        r.tenant_name@ == actor.tenant_info.tenant_name@,
{
    UserSelf {
        user_ref: actor.user.user_ref,
        username: actor.user.username.clone(),
        firstname: actor.user.firstname.clone(),
        lastname: actor.user.lastname.clone(),
        email: crate::users::structures::opt_string_clone(&actor.user.email),
        timezone: actor.user.timezone.clone(),
        tenant_ref: actor.tenant_info.tenant_ref,
        tenant_name: actor.tenant_info.tenant_name.clone(),
    }
}

/// Create a user, optionally attaching it to a tenant's supergroup in the
/// same transaction.  Only a superuser may create users; the payload is
/// validated before any mutation.
pub fn create_user(
    user: CreateUser,
    tenant: Option<TenantRef>,
    actor: &LoggedInUser,
    hash_id: u16,
    db: &mut AuthDb,
) -> (r: Result<User, UserAuthError>)
    requires
        old(db).wf(),
        old(db).next_user_id < u64::MAX,
    ensures
        final(db).wf(),
        r is Err ==> final(db).same_data(old(db)),
        !actor.user.is_superuser ==> (r matches Err(e) && e matches UserAuthError::UserEndpoint(ue)
            && ue is CreationDenied),
        match r {
            Ok(u) => actor.user.is_superuser && crate::users::structures::spec_valid_user(&user)
                && final(db).spec_active_user_ref_exists(u.user_ref) && !old(db).spec_active_username_exists(user.username@) && u.username@ == user.username@ && (
            tenant matches Some(tr) ==> exists|uid: u64, g: int|
                0 <= g < final(db).groups@.len() && #[trigger] crate::store::active_user_ref_resolves(
                    final(db).users@,
                    u.user_ref,
                    uid,
                ) && (#[trigger] final(db).groups@[g]).group_type is SuperGroup && old(db).spec_tenant_ref_resolves_to(tr, final(db).groups@[g].tenant_id) && final(db).spec_has_membership(uid, final(db).groups@[g].id)),
            Err(_) => true,
        },
{
    if !authorize(actor, &AuthOperation::CreateUser) {
        return Err(UserAuthError::UserEndpoint(UserEndpointError::CreationDenied));
    }
    if let Err(f) = validate_create_user(&user) {
        return Err(UserAuthError::UserEndpoint(UserEndpointError::InvalidField(f)));
    }
    match tenant {
        Some(tenant_ref) => {
            let tenant_id = crate::tenants::internal::decode_tenant_ref(db, tenant_ref)?;
            proof {
                assert(db.spec_tenant_id_exists(tenant_id)) by {
                    let w = choose|w: int|
                        0 <= w < db.tenants@.len() && (#[trigger] db.tenants@[w]).tenant_ref
                            == tenant_ref && db.tenants@[w].id == tenant_id;
                }
            }
            let supergroup_id = crate::tenants::internal::get_tenant_supergroup(tenant_id, db)?;
            let ghost mid = *db;
            let (view, user_id) = internal::create_user(user, hash_id, db)?;
            proof {
                assert(db.spec_user_id_exists(user_id)) by {
                    assert(db.users@[mid.users@.len() as int].id == user_id);
                }
                assert(db.spec_group_id_exists(supergroup_id)) by {
                    let g = choose|g: int|
                        0 <= g < db.groups@.len() && (#[trigger] db.groups@[g]).tenant_id
                            == tenant_id && db.groups@[g].group_type is SuperGroup
                            && db.groups@[g].id == supergroup_id;
                }
                // The fresh user cannot already sit in any group.
                assert(!db.spec_has_membership(user_id, supergroup_id)) by {
                    if db.memberships@.contains(
                        Membership { user_id, group_id: supergroup_id },
                    ) {
                        let k = choose|k: int|
                            0 <= k < db.memberships@.len() && db.memberships@[k] == (Membership {
                                user_id,
                                group_id: supergroup_id,
                            });
                        assert(crate::store::user_id_in(mid.users@, user_id));
                        let w = choose|w: int|
                            0 <= w < mid.users@.len() && (#[trigger] mid.users@[w]).id == user_id;
                    }
                }
            }
            db.insert_membership(user_id, supergroup_id);
            proof {
                let g = choose|g: int|
                    0 <= g < db.groups@.len() && (#[trigger] db.groups@[g]).tenant_id == tenant_id
                        && db.groups@[g].group_type is SuperGroup && db.groups@[g].id
                        == supergroup_id;
                assert(crate::store::active_user_ref_resolves(
                    db.users@,
                    view.user_ref,
                    user_id,
                )) by {
                    assert(db.users@[mid.users@.len() as int].user_ref == view.user_ref);
                }
                assert(db.memberships@[db.memberships@.len() - 1] == (Membership {
                    user_id,
                    group_id: supergroup_id,
                }));
                assert(db.spec_active_user_ref_exists(view.user_ref)) by {
                    assert(db.users@[mid.users@.len() as int].user_ref == view.user_ref);
                }
            }
            Ok(view)
        },
        None => {
            let ghost mid = *db;
            let (view, _user_id) = internal::create_user(user, hash_id, db)?;
            proof {
                assert(db.spec_active_user_ref_exists(view.user_ref)) by {
                    assert(db.users@[mid.users@.len() as int].user_ref == view.user_ref);
                }
            }
            Ok(view)
        },
    }
}

/// Soft-delete a user by external reference; only a superuser may delete.
/// The row persists, but the reference stops resolving at once.
pub fn delete_user(user_ref: UserRef, actor: &LoggedInUser, db: &mut AuthDb) -> (r: Result<
    (),
    UserAuthError,
>)
    requires
        old(db).wf(),
    ensures
        final(db).wf(),
        r is Err ==> final(db).same_data(old(db)),
        !actor.user.is_superuser ==> (r matches Err(e) && e matches UserAuthError::UserEndpoint(ue)
            && ue is DeletionDenied),
        match r {
            Ok(_) => actor.user.is_superuser && old(db).spec_active_user_ref_exists(user_ref)
                && !final(db).spec_active_user_ref_exists(user_ref) && final(db).users@.len()
                == old(db).users@.len() && final(db).memberships@ == old(db).memberships@,
            Err(e) => (e matches UserAuthError::UserEndpoint(ue) && (ue is DeletionDenied || (ue
                is UserNonExistent && !old(db).spec_active_user_ref_exists(user_ref)))),
        },
        actor.user.is_superuser && old(db).spec_active_user_ref_exists(user_ref) ==> r is Ok,
        match r {
            Err(UserAuthError::UserEndpoint(UserEndpointError::DeletionDenied)) => !actor.user.is_superuser,
            _ => true,
        },
{
    if !authorize(actor, &AuthOperation::DeleteUser) {
        return Err(UserAuthError::UserEndpoint(UserEndpointError::DeletionDenied));
    }
    let ghost pre = *db;
    let user_id = internal::decode_user_ref(db, user_ref)?;
    internal::delete_user(db, user_id);
    proof {
        assert forall|j: int|
            0 <= j < db.users@.len() && (#[trigger] db.users@[j]).is_active() implies
            db.users@[j].user_ref != user_ref by {
            let w = choose|w: int|
                0 <= w < pre.users@.len() && (#[trigger] pre.users@[w]).is_active()
                    && pre.users@[w].user_ref == user_ref && pre.users@[w].id == user_id;
            if j == w {
                assert(db.users@[j].id == user_id);
            } else {
                assert(pre.users@[j].user_ref != pre.users@[w].user_ref);
                assert(db.users@[j].user_ref == pre.users@[j].user_ref);
            }
        }
    }
    Ok(())
}

/// Patch a user's profile by external reference; the actor needs write
/// permission over the user, and a patch that names the password is
/// always refused.
pub fn patch_user(user_ref: UserRef, changes: &UserPatch, actor: &LoggedInUser, db: &mut AuthDb)
    -> (r: Result<(), UserAuthError>)
    requires
        old(db).wf(),
    ensures
        final(db).wf(),
        r is Err ==> final(db).same_data(old(db)),
        final(db).tenants@ == old(db).tenants@,
        final(db).groups@ == old(db).groups@,
        final(db).memberships@ == old(db).memberships@,
        match r {
            Ok(_) => !changes.password_present && exists|uid: u64|
                #[trigger] crate::store::active_user_ref_resolves(old(db).users@, user_ref, uid)
                    && crate::auth::spec_can_write_user(old(db), actor, uid)
                    && internal::spec_patch_applied(
                    old(db).users@,
                    final(db).users@,
                    uid,
                    changes,
                ),
            Err(_) => true,
        },
        match r {
            Err(UserAuthError::UserEndpoint(UserEndpointError::ModificationDenied)) => exists|
                uid: u64,
            |
                #[trigger] crate::store::active_user_ref_resolves(old(db).users@, user_ref, uid)
                    && !crate::auth::spec_can_write_user(old(db), actor, uid),
            _ => true,
        },
        (exists|uid: u64|
            #[trigger] crate::store::active_user_ref_resolves(old(db).users@, user_ref, uid)
                && crate::auth::spec_can_write_user(old(db), actor, uid)
                && internal::spec_patch_would_apply(old(db), uid, changes)) ==> r is Ok,
{
    let user_id = internal::decode_user_ref(db, user_ref)?;
    proof {
        if exists|uid: u64|
            #[trigger] crate::store::active_user_ref_resolves(old(db).users@, user_ref, uid) {
            let uid = choose|uid: u64|
                #[trigger] crate::store::active_user_ref_resolves(old(db).users@, user_ref, uid);
            crate::store::lemma_active_user_ref_functional(
                old(db).users@,
                user_ref,
                uid,
                user_id,
            );
        }
    }
    internal::has_write_perm(db, actor, user_id)?;
    internal::patch_user(user_id, changes, db)
}

/// Patch the actor's own profile.
pub fn patch_self(changes: &UserPatch, actor: &LoggedInUser, db: &mut AuthDb) -> (r: Result<
    (),
    UserAuthError,
>)
    requires
        old(db).wf(),
    ensures
        final(db).wf(),
        r is Err ==> final(db).same_data(old(db)),
        final(db).tenants@ == old(db).tenants@,
        final(db).groups@ == old(db).groups@,
        final(db).memberships@ == old(db).memberships@,
        match r {
            Ok(_) => !changes.password_present && exists|uid: u64|
                #[trigger] crate::store::active_user_ref_resolves(
                    old(db).users@,
                    actor.user.user_ref,
                    uid,
                ) && internal::spec_patch_applied(old(db).users@, final(db).users@, uid, changes),
            Err(_) => true,
        },
        (exists|uid: u64|
            #[trigger] crate::store::active_user_ref_resolves(
                old(db).users@,
                actor.user.user_ref,
                uid,
            ) && internal::spec_patch_would_apply(old(db), uid, changes)) ==> r is Ok,
{
    let r = patch_user(actor.user.user_ref, changes, actor, db);
    proof {
        if exists|uid: u64|
            #[trigger] crate::store::active_user_ref_resolves(
                old(db).users@,
                actor.user.user_ref,
                uid,
            ) && internal::spec_patch_would_apply(old(db), uid, changes) {
            let uid = choose|uid: u64|
                #[trigger] crate::store::active_user_ref_resolves(
                    old(db).users@,
                    actor.user.user_ref,
                    uid,
                ) && internal::spec_patch_would_apply(old(db), uid, changes);
            assert(crate::auth::spec_can_write_user(old(db), actor, uid));
        }
    }
    r
}

/// Check a username/password pair against the stored credentials and
/// hand back the user's internal key.
pub fn check_password(username: &String, password: &str, db: &AuthDb) -> (r: Result<
    u64,
    UserAuthError,
>)
    requires
        db.wf(),
    ensures
        (exists|i: int|
            0 <= i < db.users@.len() && (#[trigger] db.users@[i]).is_active()
                && db.users@[i].username@ == username@ && spec_password_matches(
                password@,
                db.users@[i].password@,
                db.users@[i].password_hash_id,
            ) && (db.users@[i].password_hash_id == 1 ==> vstd::utf8::encode_utf8(password@).len()
                <= u32::MAX)) ==> r is Ok,
        (exists|i: int|
            0 <= i < db.users@.len() && (#[trigger] db.users@[i]).is_active()
                && db.users@[i].username@ == username@ && !spec_password_matches(
                password@,
                db.users@[i].password@,
                db.users@[i].password_hash_id,
            ) && (db.users@[i].password_hash_id == 0 || (db.users@[i].password_hash_id == 1
                && crate::utils::hashing::argon2_processable(db.users@[i].password@)
                && vstd::utf8::encode_utf8(password@).len() <= u32::MAX))) ==> (r matches Err(e)
            && e matches UserAuthError::UserEndpoint(ue) && ue is IncorrectPassword),
        match r {
            Ok(id) => exists|i: int|
                0 <= i < db.users@.len() && (#[trigger] db.users@[i]).is_active()
                    && db.users@[i].username@ == username@ && db.users@[i].id == id
                    && spec_password_matches(
                    password@,
                    db.users@[i].password@,
                    db.users@[i].password_hash_id,
                ),
            Err(e) => (e matches UserAuthError::UserEndpoint(ue) && ((ue is UserNonExistent
                && !db.spec_active_username_exists(username@)) || ue is IncorrectPassword || ue
                matches UserEndpointError::Hashing(_))),
        },
{
    let (user_id, hash, hash_id) = internal::get_user_sec_info(username, db)?;
    proof {
        // The active row carrying this username is unique, so the facts
        // the premises state of "some matching row" hold of this one.
        let w = choose|w: int|
            0 <= w < db.users@.len() && (#[trigger] db.users@[w]).is_active()
                && db.users@[w].username@ == username@ && db.users@[w].id == user_id
                && db.users@[w].password@ == hash@ && db.users@[w].password_hash_id == hash_id;
        assert forall|i: int|
            0 <= i < db.users@.len() && (#[trigger] db.users@[i]).is_active()
                && db.users@[i].username@ == username@ implies i == w by {}
    }
    match verify_password(password, hash.as_str(), hash_id) {
        Ok(true) => Ok(user_id),
        Ok(false) => Err(UserAuthError::UserEndpoint(UserEndpointError::IncorrectPassword)),
        Err(e) => Err(UserAuthError::UserEndpoint(UserEndpointError::Hashing(e))),
    }
}

/// What a successful login hands back: the user's own row matched the
/// password, the active tenant resolves, membership of the tenant's
/// admingroup decides the admin flag, a non-superuser actually belongs
/// to the tenant, the group list covers every group of the tenant the
/// user sits in, and a superuser carries the tenant's two system groups
/// even without stored membership rows.
pub open spec fn login_ok(db: &AuthDb, username: Seq<char>, password: Seq<char>, info: LoggedInUser) -> bool {
    &&& exists|i: int, t: int|
        0 <= i < db.users@.len() && 0 <= t < db.tenants@.len() && (
        #[trigger] db.users@[i]).is_active() && db.users@[i].username@ == username
            && spec_password_matches(
            password,
            db.users@[i].password@,
            db.users@[i].password_hash_id,
        ) && internal::user_view_matches_row(db.users@[i], info.user) && (
        #[trigger] db.tenants@[t]).tenant_ref == info.tenant_info.tenant_ref && (
        !info.user.is_superuser ==> crate::store::user_in_tenant(
            db.tenants@,
            db.groups@,
            db.memberships@,
            db.users@[i].id,
            info.tenant_info.tenant_ref,
        )) && (forall|gr: GroupRef|
            #[trigger] crate::store::member_of_tenant_group(
                db.groups@,
                db.memberships@,
                db.users@[i].id,
                db.tenants@[t].id,
                gr,
            ) ==> info.tenant_info.groups@.contains(gr)) && (info.user.is_superuser ==> ((exists|
            g: int,
        |
            0 <= g < db.groups@.len() && (#[trigger] db.groups@[g]).tenant_id == db.tenants@[t].id
                && db.groups@[g].group_type is SuperGroup && info.tenant_info.groups@.contains(
                db.groups@[g].group_ref,
            )) && (exists|g: int|
            0 <= g < db.groups@.len() && (#[trigger] db.groups@[g]).tenant_id == db.tenants@[t].id
                && db.groups@[g].group_type is AdminGroup && info.tenant_info.groups@.contains(
                db.groups@[g].group_ref,
            ))))
    &&& db.spec_tenant_ref_exists(info.tenant_info.tenant_ref)
    &&& exists|g: int, t: int|
        0 <= g < db.groups@.len() && 0 <= t < db.tenants@.len() && (
        #[trigger] db.groups@[g]).group_type is AdminGroup && (#[trigger] db.tenants@[t]).tenant_ref
            == info.tenant_info.tenant_ref && db.tenants@[t].id == db.groups@[g].tenant_id
            && info.tenant_info.is_tenant_admin == info.tenant_info.groups@.contains(
            db.groups@[g].group_ref,
        )
}

/// The row at index `i` is the active user these credentials name and
/// match, with the password short enough for every configured hash
/// algorithm to process.
pub open spec fn spec_login_passes(db: &AuthDb, username: Seq<char>, password: Seq<char>, i: int) -> bool {
    &&& 0 <= i < db.users@.len()
    &&& db.users@[i].is_active()
    &&& db.users@[i].username@ == username
    &&& spec_password_matches(password, db.users@[i].password@, db.users@[i].password_hash_id)
    &&& (db.users@[i].password_hash_id == 1 ==> vstd::utf8::encode_utf8(password).len()
        <= u32::MAX)
}

/// Log a user in: check the password, pick and validate the active
/// tenant, assemble the login context.  Superusers gain the tenant's
/// supergroup and admingroup even without stored membership rows.
#[verifier::rlimit(100)]
pub fn login(
    username: String,
    login_data: &LoginData,
    tenant: Option<TenantRef>,
    db: &mut AuthDb,
) -> (r: Result<LoggedInUser, UserAuthError>)
    requires
        old(db).wf(),
    ensures
        final(db).wf(),
        final(db).same_data(old(db)),
        match r {
            Ok(info) => login_ok(final(db), username@, login_data.password@, info) && (
            tenant matches Some(t0) ==> info.tenant_info.tenant_ref == t0),
            Err(e) => (e matches UserAuthError::UserEndpoint(ue) ==> (ue is UserNonExistent || ue
                is IncorrectPassword || ue matches UserEndpointError::Hashing(_))) && (e matches
                UserAuthError::TenantEndpoint(te) ==> (te matches TenantEndpointError::TenantNonExistent(_)
                || te matches TenantEndpointError::TenantNotAuthorized(_) || te
                is TenantRequired)),
        },
        (exists|i: int|
            #[trigger] spec_login_passes(old(db), username@, login_data.password@, i) && !old(
                db,
            ).users@[i].is_superuser && tenant is Some && !crate::store::user_in_tenant(
                old(db).tenants@,
                old(db).groups@,
                old(db).memberships@,
                old(db).users@[i].id,
                tenant->0,
            )) ==> (r matches Err(e) && e matches UserAuthError::TenantEndpoint(te) && te matches
            TenantEndpointError::TenantNotAuthorized(t2) && tenant == Some(t2)),
        (exists|i: int, tr1: TenantRef, tr2: TenantRef|
            spec_login_passes(old(db), username@, login_data.password@, i) && !old(
                db,
            ).users@[i].is_superuser && tenant is None && tr1 != tr2
                && #[trigger] crate::store::user_in_tenant(
                old(db).tenants@,
                old(db).groups@,
                old(db).memberships@,
                old(db).users@[i].id,
                tr1,
            ) && #[trigger] crate::store::user_in_tenant(
                old(db).tenants@,
                old(db).groups@,
                old(db).memberships@,
                old(db).users@[i].id,
                tr2,
            )) ==> (r matches Err(e) && e matches UserAuthError::TenantEndpoint(te) && te
            is TenantRequired),
        (exists|i: int|
            #[trigger] spec_login_passes(old(db), username@, login_data.password@, i) && tenant
                is Some && (old(db).users@[i].is_superuser ==> old(db).spec_tenant_ref_exists(
                tenant->0,
            )) && (!old(db).users@[i].is_superuser ==> crate::store::user_in_tenant(
                old(db).tenants@,
                old(db).groups@,
                old(db).memberships@,
                old(db).users@[i].id,
                tenant->0,
            ))) ==> r is Ok,
{
    let user_id = match check_password(&username, login_data.password.as_str(), db) {
        Ok(id) => id,
        Err(e) => {
            proof {
                if exists|i: int|
                    #[trigger] spec_login_passes(old(db), username@, login_data.password@, i) {
                    let i = choose|i: int|
                        #[trigger] spec_login_passes(old(db), username@, login_data.password@, i);
                    assert(false);
                }
            }
            return Err(e);
        },
    };
    let user = match internal::get_user(user_id, db) {
        Ok(u) => u,
        Err(e) => {
            proof {
                let w = choose|w: int|
                    0 <= w < db.users@.len() && (#[trigger] db.users@[w]).is_active()
                        && db.users@[w].username@ == username@ && db.users@[w].id == user_id;
                assert(false);
            }
            return Err(e);
        },
    };
    let ghost ci = choose|i: int|
        0 <= i < db.users@.len() && (#[trigger] db.users@[i]).is_active() && db.users@[i].username@
            == username@ && db.users@[i].id == user_id && spec_password_matches(
            login_data.password@,
            db.users@[i].password@,
            db.users@[i].password_hash_id,
        );
    proof {
        let v = choose|i: int|
            0 <= i < db.users@.len() && (#[trigger] db.users@[i]).is_active() && db.users@[i].id
                == user_id && internal::user_view_matches_row(db.users@[i], user);
        assert(v == ci);
        assert(user.is_superuser == db.users@[ci].is_superuser);
        assert forall|i: int| #[trigger]
            spec_login_passes(old(db), username@, login_data.password@, i) implies i == ci by {}
    }
    let mut tenant_ref: Option<TenantRef> = tenant;
    if !user.is_superuser {
        let user_tenants = crate::tenants::internal::get_user_tenant_refs(user_id, db);
        match &tenant_ref {
            Some(t_ref) => {
                if !contains_tenant_ref(&user_tenants, t_ref) {
                    return Err(
                        UserAuthError::TenantEndpoint(
                            TenantEndpointError::TenantNotAuthorized(*t_ref),
                        ),
                    );
                }
                proof {
                    let k = choose|k: int|
                        0 <= k < user_tenants@.len() && user_tenants@[k] == *t_ref;
                }
            },
            None => {
                if user_tenants.len() > 1 {
                    return Err(
                        UserAuthError::TenantEndpoint(TenantEndpointError::TenantRequired),
                    );
                }
                if user_tenants.len() == 1 {
                    tenant_ref = Some(user_tenants[0]);
                }
                proof {
                    // At most one tenant holds this user: any two are the
                    // same element of the singleton (or empty) list.
                    assert forall|tr1: TenantRef, tr2: TenantRef|
                        #[trigger] crate::store::user_in_tenant(
                            db.tenants@,
                            db.groups@,
                            db.memberships@,
                            user_id,
                            tr1,
                        ) && #[trigger] crate::store::user_in_tenant(
                            db.tenants@,
                            db.groups@,
                            db.memberships@,
                            user_id,
                            tr2,
                        ) implies tr1 == tr2 by {
                        assert(user_tenants@.contains(tr1));
                        assert(user_tenants@.contains(tr2));
                        let k1 = choose|k: int|
                            0 <= k < user_tenants@.len() && user_tenants@[k] == tr1;
                        let k2 = choose|k: int|
                            0 <= k < user_tenants@.len() && user_tenants@[k] == tr2;
                        assert(k1 == 0 && k2 == 0);
                    }
                }
            },
        }
    }
    let tenant_ref = match tenant_ref {
        Some(t) => t,
        None => {
            return Err(UserAuthError::TenantEndpoint(TenantEndpointError::TenantRequired));
        },
    };
    let tenant_id = match crate::tenants::internal::decode_tenant_ref(db, tenant_ref) {
        Ok(id) => id,
        Err(e) => {
            proof {
                if exists|i: int|
                    #[trigger] spec_login_passes(old(db), username@, login_data.password@, i)
                        && tenant is Some && (old(db).users@[i].is_superuser ==> old(
                        db,
                    ).spec_tenant_ref_exists(tenant->0)) && (!old(db).users@[i].is_superuser
                        ==> crate::store::user_in_tenant(
                        old(db).tenants@,
                        old(db).groups@,
                        old(db).memberships@,
                        old(db).users@[i].id,
                        tenant->0,
                    )) {
                    let i = choose|i: int|
                        #[trigger] spec_login_passes(old(db), username@, login_data.password@, i)
                            && tenant is Some && (old(db).users@[i].is_superuser ==> old(
                            db,
                        ).spec_tenant_ref_exists(tenant->0)) && (!old(db).users@[i].is_superuser
                            ==> crate::store::user_in_tenant(
                            old(db).tenants@,
                            old(db).groups@,
                            old(db).memberships@,
                            old(db).users@[i].id,
                            tenant->0,
                        ));
                    if !old(db).users@[i].is_superuser {
                        let (g, tt): (int, int) = choose|g: int, tt: int|
                            0 <= g < old(db).groups@.len() && 0 <= tt < old(db).tenants@.len()
                                && (#[trigger] old(db).groups@[g]).group_type is SuperGroup && (
                            #[trigger] old(db).tenants@[tt]).id == old(db).groups@[g].tenant_id
                                && old(db).tenants@[tt].tenant_ref == tenant->0 && old(
                                db,
                            ).memberships@.contains(
                                crate::store::Membership {
                                    user_id: old(db).users@[i].id,
                                    group_id: old(db).groups@[g].id,
                                },
                            );
                        assert(old(db).spec_tenant_ref_exists(tenant->0));
                    }
                    assert(false);
                }
            }
            return Err(e);
        },
    };
    proof {
        assert(db.spec_tenant_id_exists(tenant_id)) by {
            let w = choose|w: int|
                0 <= w < db.tenants@.len() && (#[trigger] db.tenants@[w]).tenant_ref == tenant_ref
                    && db.tenants@[w].id == tenant_id;
        }
    }
    let mut user_groups = crate::groups::internal::get_user_group_refs(user_id, tenant_id, db);
    let ghost base_groups = user_groups@;
    let tenant_admingroup = match crate::tenants::internal::get_tenant_admingroup_ref(
        tenant_id,
        db,
    ) {
        Ok(g) => g,
        Err(e) => {
            proof {
                assert(false);
            }
            return Err(e);
        },
    };
    if user.is_superuser {
        let ghost g0 = user_groups@;
        if !contains_group_ref(&user_groups, &tenant_admingroup) {
            user_groups.push(tenant_admingroup);
        }
        proof {
            assert(user_groups@.contains(tenant_admingroup)) by {
                if g0.contains(tenant_admingroup) {
                    let k = choose|k: int| 0 <= k < g0.len() && g0[k] == tenant_admingroup;
                    assert(user_groups@[k] == tenant_admingroup);
                } else {
                    assert(user_groups@[user_groups@.len() - 1] == tenant_admingroup);
                }
            }
        }
        let tenant_supergroup = match crate::tenants::internal::get_tenant_supergroup_ref(
            tenant_id,
            db,
        ) {
            Ok(g) => g,
            Err(e) => {
                proof {
                    assert(false);
                }
                return Err(e);
            },
        };
        let ghost g1 = user_groups@;
        if !contains_group_ref(&user_groups, &tenant_supergroup) {
            user_groups.push(tenant_supergroup);
        }
        proof {
            assert(user_groups@.contains(tenant_supergroup)) by {
                if g1.contains(tenant_supergroup) {
                    let k = choose|k: int| 0 <= k < g1.len() && g1[k] == tenant_supergroup;
                    assert(user_groups@[k] == tenant_supergroup);
                } else {
                    assert(user_groups@[user_groups@.len() - 1] == tenant_supergroup);
                }
            }
            assert(user_groups@.contains(tenant_admingroup)) by {
                let k = choose|k: int| 0 <= k < g1.len() && g1[k] == tenant_admingroup;
                assert(user_groups@[k] == tenant_admingroup);
            }
            // Both system-group references of the tenant are in the list.
            assert(exists|g: int|
                0 <= g < db.groups@.len() && (#[trigger] db.groups@[g]).tenant_id == tenant_id
                    && db.groups@[g].group_type is SuperGroup && user_groups@.contains(
                    db.groups@[g].group_ref,
                )) by {
                let gs = choose|g: int|
                    0 <= g < db.groups@.len() && (#[trigger] db.groups@[g]).tenant_id == tenant_id
                        && db.groups@[g].group_type is SuperGroup && db.groups@[g].group_ref
                        == tenant_supergroup;
                assert(user_groups@.contains(db.groups@[gs].group_ref));
            }
            assert(exists|g: int|
                0 <= g < db.groups@.len() && (#[trigger] db.groups@[g]).tenant_id == tenant_id
                    && db.groups@[g].group_type is AdminGroup && user_groups@.contains(
                    db.groups@[g].group_ref,
                )) by {
                let ga = choose|g: int|
                    0 <= g < db.groups@.len() && (#[trigger] db.groups@[g]).tenant_id == tenant_id
                        && db.groups@[g].group_type is AdminGroup && db.groups@[g].group_ref
                        == tenant_admingroup;
                assert(user_groups@.contains(db.groups@[ga].group_ref));
            }
        }
    }
    let is_tenant_admin = contains_group_ref(&user_groups, &tenant_admingroup);
    let tenant_name = crate::tenants::internal::get_tenant(tenant_id, db).name;
    let info = LoggedInUser {
        user,
        tenant_info: TenantLoginInfo {
            tenant_ref,
            tenant_name,
            is_tenant_admin,
            groups: user_groups,
        },
    };
    proof {
        let g = choose|g: int|
            0 <= g < db.groups@.len() && (#[trigger] db.groups@[g]).tenant_id == tenant_id
                && db.groups@[g].group_type is AdminGroup && db.groups@[g].group_ref
                == tenant_admingroup;
        let t = choose|t: int|
            0 <= t < db.tenants@.len() && (#[trigger] db.tenants@[t]).tenant_ref == tenant_ref
                && db.tenants@[t].id == tenant_id;
        let i1 = choose|i: int|
            0 <= i < db.users@.len() && (#[trigger] db.users@[i]).is_active()
                && db.users@[i].username@ == username@ && db.users@[i].id == user_id
                && spec_password_matches(
                login_data.password@,
                db.users@[i].password@,
                db.users@[i].password_hash_id,
            );
        let i2 = choose|i: int|
            0 <= i < db.users@.len() && (#[trigger] db.users@[i]).is_active() && db.users@[i].id
                == user_id && internal::user_view_matches_row(db.users@[i], info.user);
        assert(i1 == i2);
        // Everything the base list held is still in the final list.
        assert forall|x: GroupRef| base_groups.contains(x) implies
            info.tenant_info.groups@.contains(x) by {
            let k = choose|k: int| 0 <= k < base_groups.len() && base_groups[k] == x;
            assert(info.tenant_info.groups@[k] == x);
        }
        // Every group of the tenant the user sits in is therefore listed.
        assert forall|gr: GroupRef|
            #[trigger] crate::store::member_of_tenant_group(
                db.groups@,
                db.memberships@,
                user_id,
                tenant_id,
                gr,
            ) implies info.tenant_info.groups@.contains(gr) by {
            assert(base_groups.contains(gr));
        }
    }
    Ok(info)
}

/// The character is a decimal digit.
pub open spec fn spec_is_digit(c: char) -> bool {
    '0' as u32 <= c as u32 && c as u32 <= '9' as u32
}

pub open spec fn spec_all_digits(s: Seq<char>) -> bool {
    forall|k: int| 0 <= k < s.len() ==> spec_is_digit(#[trigger] s[k])
}

/// The number a sequence of decimal digits denotes.
pub open spec fn spec_dec_value(s: Seq<char>) -> nat
    decreases s.len(),
{
    if s.len() == 0 {
        0
    } else {
        spec_dec_value(s.drop_last()) * 10 + (s.last() as u32 - '0' as u32) as nat
    }
}

/// A longer digit string never denotes a smaller number.
proof fn lemma_dec_value_prefix_le(s: Seq<char>, m: int)
    requires
        0 <= m <= s.len(),
    ensures
        spec_dec_value(s.subrange(0, m)) <= spec_dec_value(s),
    decreases s.len() - m,
{
    if m < s.len() {
        lemma_dec_value_prefix_le(s, m + 1);
        assert(s.subrange(0, m + 1).drop_last() =~= s.subrange(0, m));
    } else {
        assert(s.subrange(0, m) =~= s);
    }
}

pub open spec fn spec_has_colon(s: Seq<char>) -> bool {
    exists|k: int| 0 <= k < s.len() && s[k] == ':'
}

/// `cut` is the identifier's first colon and `seg_end` closes the tenant
/// segment: the next colon, or the end of the string.
pub open spec fn spec_split_points(s: Seq<char>, cut: int, seg_end: int) -> bool {
    &&& 0 <= cut < s.len()
    &&& s[cut] == ':'
    &&& (forall|j: int| 0 <= j < cut ==> s[j] != ':')
    &&& cut < seg_end <= s.len()
    &&& (seg_end == s.len() || s[seg_end] == ':')
    &&& (forall|j: int| cut < j < seg_end ==> s[j] != ':')
}

/// The username a combined identifier carries: everything before the
/// first colon, or the whole string without one.
pub open spec fn spec_username_part(s: Seq<char>) -> Seq<char> {
    if spec_has_colon(s) {
        s.subrange(
            0,
            choose|k: int|
                0 <= k < s.len() && s[k] == ':' && (forall|j: int| 0 <= j < k ==> s[j] != ':'),
        )
    } else {
        s
    }
}

/// Index of the first colon at or after `from`, or the length.
fn find_colon(s: &str, from: usize) -> (r: usize)
    requires
        from <= s@.len(),
    ensures
        from <= r <= s@.len(),
        r < s@.len() ==> s@[r as int] == ':',
        forall|j: int| from <= j < r ==> s@[j] != ':',
{
    let n = s.unicode_len();
    let mut i: usize = from;
    while i < n
        invariant
            from <= i <= n,
            n == s@.len(),
            forall|j: int| from <= j < i ==> s@[j] != ':',
        decreases n - i,
    {
        if s.get_char(i) == ':' {
            return i;
        }
        i += 1;
    }
    n
}

/// Split a combined login identifier `username:tenant_ref`.  Without a
/// colon the whole string is the username; with one, the decimal digits
/// between the first colon and the next one (or the end) name the
/// tenant, and any other segment is a malformed tenant reference.
pub fn parse_login_identifier(long: &str) -> (r: Result<
    (String, Option<TenantRef>),
    UserAuthError,
>)
    ensures
        !spec_has_colon(long@) ==> (r matches Ok((name, t)) && name@ == long@ && t is None),
        r matches Ok((name, t)) ==> name@ == spec_username_part(long@),
        forall|cut: int, seg_end: int|
            #[trigger] spec_split_points(long@, cut, seg_end) ==> {
                let seg = long@.subrange(cut + 1, seg_end);
                &&& (seg.len() > 0 && spec_all_digits(seg) && spec_dec_value(seg) <= u64::MAX
                    ==> (r matches Ok((name, t)) && name@ == long@.subrange(0, cut) && t == Some(
                    TenantRef { code: spec_dec_value(seg) as u64 },
                )))
                &&& (!(seg.len() > 0 && spec_all_digits(seg) && spec_dec_value(seg) <= u64::MAX)
                    ==> (r matches Err(e) && e matches UserAuthError::TenantEndpoint(te)
                    && te matches TenantEndpointError::MalformedTenantRef(m) && m@ == seg))
            },
{
    let n = long.unicode_len();
    let cut = find_colon(long, 0);
    if cut == n {
        proof {
            assert(!spec_has_colon(long@));
        }
        return Ok((long.to_owned(), None));
    }
    let seg_end = find_colon(long, cut + 1);
    proof {
        assert forall|c2: int, e2: int| #[trigger]
            spec_split_points(long@, c2, e2) implies c2 == cut && e2 == seg_end by {
            if c2 < cut {
                assert(long@[c2] != ':');
            }
            if cut < c2 {
                assert(long@[cut as int] != ':');
            }
            if e2 < seg_end {
                assert(long@[e2] != ':');
            }
            if seg_end < e2 {
                assert(long@[seg_end as int] != ':');
            }
        }
        assert(spec_split_points(long@, cut as int, seg_end as int));
    }
    let seg = long.substring_char(cut + 1, seg_end);
    let seg_len = seg_end - (cut + 1);
    if seg_len == 0 {
        return Err(
            UserAuthError::TenantEndpoint(TenantEndpointError::MalformedTenantRef(seg.to_owned())),
        );
    }
    let mut code: u64 = 0;
    let mut p: usize = 0;
    #[verifier::loop_isolation(false)]
    while p < seg_len
        invariant
            p <= seg_len,
            seg@ == long@.subrange(cut as int + 1, seg_end as int),
            seg@.len() == seg_len,
            spec_all_digits(seg@.subrange(0, p as int)),
            code == spec_dec_value(seg@.subrange(0, p as int)),
        decreases seg_len - p,
    {
        let c = seg.get_char(p);
        let d = c as u32;
        if d < 48 || d > 57 {
            proof {
                assert(!spec_is_digit(seg@[p as int]));
            }
            return Err(
                UserAuthError::TenantEndpoint(
                    TenantEndpointError::MalformedTenantRef(seg.to_owned()),
                ),
            );
        }
        let dv = (d - 48) as u64;
        if code > (u64::MAX - dv) / 10 {
            proof {
                assert(seg@.subrange(0, p as int + 1).drop_last() =~= seg@.subrange(0, p as int));
                assert(spec_dec_value(seg@.subrange(0, p as int + 1)) > u64::MAX);
                lemma_dec_value_prefix_le(seg@, p as int + 1);
            }
            return Err(
                UserAuthError::TenantEndpoint(
                    TenantEndpointError::MalformedTenantRef(seg.to_owned()),
                ),
            );
        }
        code = code * 10 + dv;
        proof {
            assert(seg@.subrange(0, p as int + 1).drop_last() =~= seg@.subrange(0, p as int));
        }
        p += 1;
    }
    proof {
        assert(seg@.subrange(0, seg_len as int) =~= seg@);
        // The first colon is unique, so the username part is exactly the
        // prefix this split cut off.
        assert(spec_has_colon(long@));
        let k0 = choose|k: int|
            0 <= k < long@.len() && long@[k] == ':' && (forall|j: int|
                0 <= j < k ==> long@[j] != ':');
        if k0 < cut {
            assert(long@[k0] != ':');
        }
        if cut < k0 {
            assert(long@[cut as int] != ':');
        }
        assert(spec_username_part(long@) == long@.subrange(0, cut as int));
    }
    Ok((long.substring_char(0, cut).to_owned(), Some(TenantRef { code })))
}

/// Log in with a combined identifier: a `username:tenant_ref` suffix
/// selects the tenant and overrides the query parameter; a bare username
/// uses the query parameter.
pub fn login_with_identifier(
    long_username: &str,
    login_data: &LoginData,
    tenant: Option<TenantRef>,
    db: &mut AuthDb,
) -> (r: Result<LoggedInUser, UserAuthError>)
    requires
        old(db).wf(),
    ensures
        final(db).wf(),
        final(db).same_data(old(db)),
        r matches Ok(info) ==> login_ok(
            final(db),
            spec_username_part(long_username@),
            login_data.password@,
            info,
        ),
        forall|cut: int, seg_end: int|
            #[trigger] spec_split_points(long_username@, cut, seg_end) ==> {
                let seg = long_username@.subrange(cut + 1, seg_end);
                !(seg.len() > 0 && spec_all_digits(seg) && spec_dec_value(seg) <= u64::MAX) ==> (
                r matches Err(e) && e matches UserAuthError::TenantEndpoint(te) && te matches
                    TenantEndpointError::MalformedTenantRef(m) && m@ == seg)
            },
{
    let (username, parsed) = match parse_login_identifier(long_username) {
        Ok(p) => p,
        Err(e) => {
            return Err(e);
        },
    };
    let effective = match parsed {
        Some(t) => Some(t),
        None => tenant,
    };
    login(username, login_data, effective, db)
}

/// Whether the list of tenant references holds the given one.
fn contains_tenant_ref(list: &Vec<TenantRef>, t: &TenantRef) -> (r: bool)
    ensures
        r == list@.contains(*t),
{
    let mut i: usize = 0;
    #[verifier::loop_isolation(false)]
    while i < list.len()
        invariant
            i <= list@.len(),
            forall|j: int| 0 <= j < i ==> list@[j] != *t,
        decreases list@.len() - i,
    {
        if list[i] == *t {
            return true;
        }
        i += 1;
    }
    false
}

/// Whether the list of group references holds the given one.
fn contains_group_ref(list: &Vec<GroupRef>, g: &GroupRef) -> (r: bool)
    ensures
        r == list@.contains(*g),
{
    let mut i: usize = 0;
    #[verifier::loop_isolation(false)]
    while i < list.len()
        invariant
            i <= list@.len(),
            forall|j: int| 0 <= j < i ==> list@[j] != *g,
        decreases list@.len() - i,
    {
        if list[i] == *g {
            return true;
        }
        i += 1;
    }
    false
}

} // verus!
