//! End-to-end exercises of the identity core: tenant bootstrap, the
//! permission tiers, membership rules, soft deletion and reference
//! resolution.

use user_auth::auth::{authorize, AuthOperation};
use user_auth::entities::{GroupRef, LoggedInUser, TenantLoginInfo, TenantRef, User, UserRef};
use user_auth::groups;
use user_auth::groups::errors::GroupEndpointError;
use user_auth::store::{AuthDb, LifecycleStatus};
use user_auth::tenants;
use user_auth::tenants::error::TenantEndpointError;
use user_auth::tenants::structures::CreateTenant;
use user_auth::users;
use user_auth::users::error::UserEndpointError;
use user_auth::users::structures::{CreateUser, UserPatch};
use user_auth::Status;
use user_auth::UserAuthError;

const PLAIN_HASH: u16 = 0;

fn payload(username: &str, password: &str) -> CreateUser {
    CreateUser {
        username: username.to_string(),
        password: password.to_string(),
        firstname: "A".to_string(),
        lastname: "B".to_string(),
        email: None,
        timezone: "UTC".to_string(),
    }
}

fn superuser_actor() -> LoggedInUser {
    LoggedInUser {
        user: User {
            user_ref: UserRef { code: 0 },
            username: "system".to_string(),
            firstname: "Sys".to_string(),
            lastname: "Tem".to_string(),
            email: None,
            timezone: "UTC".to_string(),
            is_superuser: true,
        },
        tenant_info: TenantLoginInfo {
            tenant_ref: TenantRef { code: 0 },
            tenant_name: String::new(),
            is_tenant_admin: false,
            groups: Vec::new(),
        },
    }
}

/// Bootstrap a tenant named Acme whose superuser is `root` with password
/// `x`, and hand back (tenant_ref, tenant_id, root_ref).
fn acme(db: &mut AuthDb) -> (TenantRef, u64, UserRef) {
    let tenant = CreateTenant {
        name: "Acme".to_string(),
        superuser: Some(payload("root", "x")),
        superuser_id: None,
    };
    tenants::endpoints::create_tenant(tenant, &superuser_actor(), PLAIN_HASH, db)
        .expect("tenant creation must succeed")
}

fn login(db: &mut AuthDb, username: &str, password: &str, tenant: Option<TenantRef>) -> Result<LoggedInUser, UserAuthError> {
    let data = users::endpoints::LoginData { password: password.to_string() };
    users::endpoints::login(username.to_string(), &data, tenant, db)
}

#[test]
fn tenant_bootstrap_creates_both_system_groups() {
    let mut db = AuthDb::new();
    let (tref, tid, root_ref) = acme(&mut db);
    let sg = tenants::internal::get_tenant_supergroup(tid, &db).expect("supergroup");
    let ag = tenants::internal::get_tenant_admingroup(tid, &db).expect("admingroup");
    assert_ne!(sg, ag);

    let members = tenants::internal::get_tenant_users(tid, &db).expect("users");
    assert_eq!(members.len(), 1);
    assert_eq!(members[0].username, "root");
    assert_eq!(members[0].user_ref, root_ref);

    let admins = tenants::internal::get_tenant_admins(tid, &db).expect("admins");
    assert_eq!(admins.len(), 1);
    assert_eq!(admins[0].user_ref, root_ref);

    let t = tenants::endpoints::get_tenant(tref, &superuser_actor(), &mut db).expect("tenant");
    assert_eq!(t.name, "Acme");
}

#[test]
fn tenant_creation_needs_a_superuser_spec() {
    let mut db = AuthDb::new();
    let tenant = CreateTenant {
        name: "NoOne".to_string(),
        superuser: None,
        superuser_id: None,
    };
    let r = tenants::endpoints::create_tenant(tenant, &superuser_actor(), PLAIN_HASH, &mut db);
    match r {
        Err(UserAuthError::TenantEndpoint(TenantEndpointError::Creation(c))) => {
            assert_eq!(c.err_code(), 0x0101);
            assert!(matches!(c.status(), Status::BadRequest));
        },
        _ => panic!("expected MissingSuperuser"),
    }
}

#[test]
fn tenant_creation_denied_for_non_superuser() {
    let mut db = AuthDb::new();
    let (tref, _tid, _root) = acme(&mut db);
    let root = login(&mut db, "root", "x", Some(tref)).expect("login root");
    let tenant = CreateTenant {
        name: "Sideline".to_string(),
        superuser: Some(payload("eve", "pw")),
        superuser_id: None,
    };
    let r = tenants::endpoints::create_tenant(tenant, &root, PLAIN_HASH, &mut db);
    assert!(matches!(
        r,
        Err(UserAuthError::TenantEndpoint(TenantEndpointError::Creation(
            tenants::error::CreationError::Denied
        )))
    ));
}

#[test]
fn login_picks_the_single_tenant_and_flags_admins() {
    let mut db = AuthDb::new();
    let (tref, _tid, _root) = acme(&mut db);
    let root = login(&mut db, "root", "x", None).expect("login without tenant");
    assert_eq!(root.tenant_info.tenant_ref, tref);
    assert!(root.tenant_info.is_tenant_admin);
    assert_eq!(root.tenant_info.tenant_name, "Acme");
    assert!(!root.user.is_superuser);
}

#[test]
fn login_rejects_wrong_password_and_unknown_user() {
    let mut db = AuthDb::new();
    let (tref, _tid, _root) = acme(&mut db);
    assert!(matches!(
        login(&mut db, "root", "wrong", Some(tref)),
        Err(UserAuthError::UserEndpoint(UserEndpointError::IncorrectPassword))
    ));
    assert!(matches!(
        login(&mut db, "nobody", "x", Some(tref)),
        Err(UserAuthError::UserEndpoint(UserEndpointError::UserNonExistent))
    ));
}

#[test]
fn login_rejects_a_tenant_the_user_does_not_belong_to() {
    let mut db = AuthDb::new();
    let (_aref, _atid, _root) = acme(&mut db);
    let other = CreateTenant {
        name: "Globex".to_string(),
        superuser: Some(payload("gex", "pw")),
        superuser_id: None,
    };
    let (gref, _gtid, _gex) =
        tenants::endpoints::create_tenant(other, &superuser_actor(), PLAIN_HASH, &mut db)
            .expect("second tenant");
    assert!(matches!(
        login(&mut db, "root", "x", Some(gref)),
        Err(UserAuthError::TenantEndpoint(TenantEndpointError::TenantNotAuthorized(_)))
    ));
}

#[test]
fn group_creation_denied_for_plain_member() {
    let mut db = AuthDb::new();
    let (tref, _tid, _root) = acme(&mut db);
    let bob = payload("bob", "pw");
    users::endpoints::create_user(bob, Some(tref), &superuser_actor(), PLAIN_HASH, &mut db)
        .expect("create bob");
    let bob_ctx = login(&mut db, "bob", "pw", Some(tref)).expect("login bob");
    assert!(!bob_ctx.tenant_info.is_tenant_admin);

    let group = groups::structures::CreateGroup { name: "Eng".to_string(), tenant: tref };
    let r = groups::endpoints::create_group(group, &bob_ctx, &mut db);
    match r {
        Err(UserAuthError::GroupEndpoint(e)) => {
            assert!(matches!(e, GroupEndpointError::CreationDenied));
            assert!(matches!(e.status(), Status::Forbidden));
        },
        _ => panic!("expected CreationDenied"),
    }
}

#[test]
fn membership_add_twice_conflicts_and_count_stays_one() {
    let mut db = AuthDb::new();
    let (tref, _tid, _root) = acme(&mut db);
    users::endpoints::create_user(payload("bob", "pw"), Some(tref), &superuser_actor(), PLAIN_HASH, &mut db)
        .expect("create bob");
    let root = login(&mut db, "root", "x", Some(tref)).expect("login root");
    let group = groups::structures::CreateGroup { name: "Eng".to_string(), tenant: tref };
    let (eng_ref, eng_id) = groups::endpoints::create_group(group, &root, &mut db).expect("Eng");

    let bob_ref = users::endpoints::login(
        "bob".to_string(),
        &users::endpoints::LoginData { password: "pw".to_string() },
        Some(tref),
        &mut db,
    )
    .expect("bob login")
    .user
    .user_ref;

    let first = groups::endpoints::add_user_to_group(eng_ref, bob_ref, &root, &mut db);
    assert!(first.is_ok());
    let second = groups::endpoints::add_user_to_group(eng_ref, bob_ref, &root, &mut db);
    match second {
        Err(UserAuthError::GroupEndpoint(e)) => {
            assert!(matches!(e, GroupEndpointError::UserAlreadyInGroup(_, _)));
            assert_eq!(e.user_message(), "User already in group");
        },
        _ => panic!("expected UserAlreadyInGroup"),
    }

    let ids = groups::internal::get_user_ids_in_group(eng_id, &db);
    let bob_id = user_auth::users::internal::decode_user_ref(&mut db, bob_ref).expect("bob id");
    assert_eq!(ids.iter().filter(|i| **i == bob_id).count(), 1);
}

#[test]
fn removing_an_absent_membership_fails_and_changes_nothing() {
    let mut db = AuthDb::new();
    let (tref, _tid, _root) = acme(&mut db);
    users::endpoints::create_user(payload("bob", "pw"), Some(tref), &superuser_actor(), PLAIN_HASH, &mut db)
        .expect("create bob");
    let root = login(&mut db, "root", "x", Some(tref)).expect("login root");
    let group = groups::structures::CreateGroup { name: "Eng".to_string(), tenant: tref };
    let (eng_ref, eng_id) = groups::endpoints::create_group(group, &root, &mut db).expect("Eng");
    let bob_ctx = login(&mut db, "bob", "pw", Some(tref)).expect("login bob");
    let before = groups::internal::get_user_ids_in_group(eng_id, &db);

    let r = groups::endpoints::remove_user_from_group(eng_ref, bob_ctx.user.user_ref, &root, &mut db);
    match r {
        Err(UserAuthError::GroupEndpoint(e)) => {
            assert!(matches!(e, GroupEndpointError::UserNotInGroup(_, _)));
        },
        _ => panic!("expected UserNotInGroup"),
    }
    let after = groups::internal::get_user_ids_in_group(eng_id, &db);
    assert_eq!(before, after);
}

#[test]
fn soft_deleted_user_stops_resolving_but_row_persists() {
    let mut db = AuthDb::new();
    let (tref, _tid, _root) = acme(&mut db);
    let bob = users::endpoints::create_user(
        payload("bob", "pw"),
        Some(tref),
        &superuser_actor(),
        PLAIN_HASH,
        &mut db,
    )
    .expect("create bob");
    // Resolve once so the translation sits in the memoization cache.
    let bob_id = users::internal::decode_user_ref(&mut db, bob.user_ref).expect("resolves");

    users::endpoints::delete_user(bob.user_ref, &superuser_actor(), &mut db).expect("delete");

    // The cached translation must not leak through after the deletion.
    assert!(matches!(
        users::internal::decode_user_ref(&mut db, bob.user_ref),
        Err(UserAuthError::UserEndpoint(UserEndpointError::UserNonExistent))
    ));
    // Directory reads no longer see the user ...
    assert!(users::internal::get_user(bob_id, &db).is_err());
    // ... but the row itself persists, now marked deleted.
    assert!(matches!(
        users::internal::get_user_status(bob_id, &db),
        Some(LifecycleStatus::Deleted)
    ));
}

#[test]
fn system_groups_are_hidden_from_generic_access() {
    let mut db = AuthDb::new();
    let (tref, tid, _root) = acme(&mut db);
    let sg_ref = tenants::internal::get_tenant_supergroup_ref(tid, &db).expect("sg ref");
    let root = login(&mut db, "root", "x", Some(tref)).expect("login root");

    // Reading, even as superuser, reports the group as non-existent.
    assert!(matches!(
        groups::endpoints::get_group(sg_ref, &superuser_actor(), &mut db),
        Err(UserAuthError::GroupEndpoint(GroupEndpointError::NonExistentGroup))
    ));
    // So does patching, whatever the tier.
    let patch = groups::structures::GroupPatch { name: Some("X".to_string()), tenant_present: false };
    assert!(matches!(
        groups::endpoints::patch_group(sg_ref, &patch, &root, &mut db),
        Err(UserAuthError::GroupEndpoint(GroupEndpointError::NonExistentGroup))
    ));
}

#[test]
fn patch_user_with_password_field_is_always_rejected() {
    let mut db = AuthDb::new();
    let (tref, _tid, _root) = acme(&mut db);
    users::endpoints::create_user(payload("bob", "pw"), Some(tref), &superuser_actor(), PLAIN_HASH, &mut db)
        .expect("create bob");
    let bob_ctx = login(&mut db, "bob", "pw", Some(tref)).expect("login bob");

    let mut patch = UserPatch::empty();
    patch.password_present = true;
    let r = users::endpoints::patch_self(&patch, &bob_ctx, &mut db);
    match r {
        Err(UserAuthError::UserEndpoint(UserEndpointError::UseOtherEndpoint(ep))) => {
            assert_eq!(ep, "/users/self/change_password");
        },
        _ => panic!("expected UseOtherEndpoint"),
    }
    // Nothing was applied: the old password still logs in.
    assert!(login(&mut db, "bob", "pw", Some(tref)).is_ok());
}

#[test]
fn patch_user_merges_and_rejects_collisions() {
    let mut db = AuthDb::new();
    let (tref, _tid, _root) = acme(&mut db);
    users::endpoints::create_user(payload("bob", "pw"), Some(tref), &superuser_actor(), PLAIN_HASH, &mut db)
        .expect("create bob");
    let bob_ctx = login(&mut db, "bob", "pw", Some(tref)).expect("login bob");

    // An empty patch is a silent no-op.
    assert!(users::endpoints::patch_self(&UserPatch::empty(), &bob_ctx, &mut db).is_ok());

    // Renaming to a taken username conflicts.
    let mut patch = UserPatch::empty();
    patch.username = Some("root".to_string());
    assert!(matches!(
        users::endpoints::patch_self(&patch, &bob_ctx, &mut db),
        Err(UserAuthError::UserEndpoint(UserEndpointError::UsernameTaken))
    ));

    // A clean rename goes through and is visible afterwards.
    let mut patch = UserPatch::empty();
    patch.firstname = Some("Robert".to_string());
    assert!(users::endpoints::patch_self(&patch, &bob_ctx, &mut db).is_ok());
    let refreshed = login(&mut db, "bob", "pw", Some(tref)).expect("login again");
    assert_eq!(refreshed.user.firstname, "Robert");
}

#[test]
fn patch_group_cannot_change_the_owning_tenant() {
    let mut db = AuthDb::new();
    let (tref, _tid, _root) = acme(&mut db);
    let root = login(&mut db, "root", "x", Some(tref)).expect("login root");
    let group = groups::structures::CreateGroup { name: "Eng".to_string(), tenant: tref };
    let (eng_ref, _eng_id) = groups::endpoints::create_group(group, &root, &mut db).expect("Eng");

    let patch = groups::structures::GroupPatch { name: None, tenant_present: true };
    match groups::endpoints::patch_group(eng_ref, &patch, &root, &mut db) {
        Err(UserAuthError::GroupEndpoint(GroupEndpointError::InvalidField(msg))) => {
            assert_eq!(msg, "Cannot change group tenant id!");
        },
        _ => panic!("expected InvalidField"),
    }

    // Renaming stays possible.
    let patch = groups::structures::GroupPatch { name: Some("Core".to_string()), tenant_present: false };
    assert!(groups::endpoints::patch_group(eng_ref, &patch, &root, &mut db).is_ok());
    let g = groups::endpoints::get_group(eng_ref, &root, &mut db).expect("read back");
    assert_eq!(g.name, "Core");
}

#[test]
fn tenant_reference_round_trip() {
    let mut db = AuthDb::new();
    let (tref, _tid, _root) = acme(&mut db);
    let tid = tenants::internal::decode_tenant_ref(&mut db, tref).expect("decode");
    let back = tenants::internal::encode_tenant_ref(&mut db, tid);
    assert_eq!(back, tref);
}

#[test]
fn cross_tenant_membership_is_denied() {
    let mut db = AuthDb::new();
    let (aref, _atid, _root) = acme(&mut db);
    let globex = CreateTenant {
        name: "Globex".to_string(),
        superuser: Some(payload("gex", "pw")),
        superuser_id: None,
    };
    let (bref, _btid, _gex) =
        tenants::endpoints::create_tenant(globex, &superuser_actor(), PLAIN_HASH, &mut db)
            .expect("Globex");
    // bob belongs only to Globex.
    let bob = users::endpoints::create_user(
        payload("bob", "pw"),
        Some(bref),
        &superuser_actor(),
        PLAIN_HASH,
        &mut db,
    )
    .expect("create bob");

    // Acme's admin tries to pull bob into an Acme group.
    let root = login(&mut db, "root", "x", Some(aref)).expect("login root");
    let group = groups::structures::CreateGroup { name: "Eng".to_string(), tenant: aref };
    let (eng_ref, _eng_id) = groups::endpoints::create_group(group, &root, &mut db).expect("Eng");
    assert!(matches!(
        groups::endpoints::add_user_to_group(eng_ref, bob.user_ref, &root, &mut db),
        Err(UserAuthError::GroupEndpoint(GroupEndpointError::ModificationDenied))
    ));
}

#[test]
fn deleting_a_group_cascades_its_memberships() {
    let mut db = AuthDb::new();
    let (tref, _tid, _root) = acme(&mut db);
    users::endpoints::create_user(payload("bob", "pw"), Some(tref), &superuser_actor(), PLAIN_HASH, &mut db)
        .expect("create bob");
    let root = login(&mut db, "root", "x", Some(tref)).expect("login root");
    let group = groups::structures::CreateGroup { name: "Eng".to_string(), tenant: tref };
    let (eng_ref, _eng_id) = groups::endpoints::create_group(group, &root, &mut db).expect("Eng");
    let bob_ctx = login(&mut db, "bob", "pw", Some(tref)).expect("login bob");
    groups::endpoints::add_user_to_group(eng_ref, bob_ctx.user.user_ref, &root, &mut db)
        .expect("add bob");

    groups::endpoints::delete_group(eng_ref, &root, &mut db).expect("delete Eng");
    assert!(matches!(
        groups::endpoints::get_group(eng_ref, &root, &mut db),
        Err(UserAuthError::GroupEndpoint(GroupEndpointError::NonExistentGroup))
    ));
}

#[test]
fn user_deletion_is_superuser_only() {
    let mut db = AuthDb::new();
    let (tref, _tid, _root) = acme(&mut db);
    let bob = users::endpoints::create_user(
        payload("bob", "pw"),
        Some(tref),
        &superuser_actor(),
        PLAIN_HASH,
        &mut db,
    )
    .expect("create bob");
    let root = login(&mut db, "root", "x", Some(tref)).expect("login root");
    // Even the tenant admin may not delete users.
    assert!(matches!(
        users::endpoints::delete_user(bob.user_ref, &root, &mut db),
        Err(UserAuthError::UserEndpoint(UserEndpointError::DeletionDenied))
    ));
}

#[test]
fn authorization_table_spot_checks() {
    let mut su = superuser_actor();
    assert!(authorize(&su, &AuthOperation::CreateTenant));
    assert!(authorize(&su, &AuthOperation::DeleteUser));
    su.user.is_superuser = false;
    assert!(!authorize(&su, &AuthOperation::CreateTenant));
    assert!(!authorize(&su, &AuthOperation::DeleteUser));

    let member = LoggedInUser {
        user: User {
            user_ref: UserRef { code: 7 },
            username: "m".to_string(),
            firstname: "M".to_string(),
            lastname: "M".to_string(),
            email: None,
            timezone: "UTC".to_string(),
            is_superuser: false,
        },
        tenant_info: TenantLoginInfo {
            tenant_ref: TenantRef { code: 11 },
            tenant_name: "T".to_string(),
            is_tenant_admin: false,
            groups: vec![GroupRef { code: 21 }],
        },
    };
    // Reading one's own tenant is allowed, others are not.
    assert!(authorize(&member, &AuthOperation::ReadTenant { tenant: TenantRef { code: 11 } }));
    assert!(!authorize(&member, &AuthOperation::ReadTenant { tenant: TenantRef { code: 12 } }));
    // Group reads need admin, membership, or superuser.
    assert!(authorize(&member, &AuthOperation::ReadGroup {
        group: GroupRef { code: 21 },
        group_tenant: TenantRef { code: 11 },
    }));
    assert!(!authorize(&member, &AuthOperation::ReadGroup {
        group: GroupRef { code: 22 },
        group_tenant: TenantRef { code: 11 },
    }));
    // A plain member may not modify groups of their own tenant.
    assert!(!authorize(&member, &AuthOperation::ModifyGroup { group_tenant: TenantRef { code: 11 } }));
}

#[test]
fn error_codes_and_statuses_are_stable() {
    assert_eq!(UserAuthError::err_prefix(), 0x0001);
    let e = UserAuthError::from_user(UserEndpointError::UsernameTaken);
    assert_eq!(e.err_code(), 0x0005);
    assert!(matches!(e.status(), Status::Conflict));
    let e = UserAuthError::from_tenant(TenantEndpointError::TenantRequired);
    assert_eq!(e.err_code(), 0x0113);
    assert!(matches!(e.status(), Status::BadRequest));
    let e = UserAuthError::from_group(GroupEndpointError::NonExistentGroup);
    assert_eq!(e.err_code(), 0x0200);
    assert!(matches!(e.status(), Status::NotFound));
    assert_eq!(e.user_message(), "Group does not exist");
}

#[test]
fn tenant_reads_are_denied_to_outsiders() {
    let mut db = AuthDb::new();
    let (aref, _atid, _root) = acme(&mut db);
    let globex = CreateTenant {
        name: "Globex".to_string(),
        superuser: Some(payload("gex", "pw")),
        superuser_id: None,
    };
    let (bref, _btid, _gex) =
        tenants::endpoints::create_tenant(globex, &superuser_actor(), PLAIN_HASH, &mut db)
            .expect("Globex");
    let gex = login(&mut db, "gex", "pw", Some(bref)).expect("login gex");
    assert!(matches!(
        tenants::endpoints::get_tenant(aref, &gex, &mut db),
        Err(UserAuthError::TenantEndpoint(TenantEndpointError::ReadingDenied))
    ));
    assert!(matches!(
        tenants::endpoints::get_tenant_users(aref, &gex, &mut db),
        Err(UserAuthError::TenantEndpoint(TenantEndpointError::ReadingDenied))
    ));
}

#[test]
fn members_read_each_other_but_do_not_write() {
    let mut db = AuthDb::new();
    let (tref, _tid, _root) = acme(&mut db);
    users::endpoints::create_user(payload("bob", "pw"), Some(tref), &superuser_actor(), PLAIN_HASH, &mut db)
        .expect("create bob");
    let carol = users::endpoints::create_user(
        payload("carol", "pw"),
        Some(tref),
        &superuser_actor(),
        PLAIN_HASH,
        &mut db,
    )
    .expect("create carol");
    let bob_ctx = login(&mut db, "bob", "pw", Some(tref)).expect("login bob");

    // A plain member may read a co-tenant ...
    let read = users::endpoints::get_user(carol.user_ref, &bob_ctx, &mut db);
    assert!(read.is_ok());
    assert_eq!(read.unwrap().username, "carol");

    // ... but may not change them.
    let mut patch = UserPatch::empty();
    patch.firstname = Some("Carla".to_string());
    assert!(matches!(
        users::endpoints::patch_user(carol.user_ref, &patch, &bob_ctx, &mut db),
        Err(UserAuthError::UserEndpoint(UserEndpointError::ModificationDenied))
    ));
}

#[test]
fn get_self_mirrors_the_login_context() {
    let mut db = AuthDb::new();
    let (tref, _tid, _root) = acme(&mut db);
    let root = login(&mut db, "root", "x", Some(tref)).expect("login root");
    let me = users::endpoints::get_self(&root);
    assert_eq!(me.username, "root");
    assert_eq!(me.tenant_name, "Acme");
    assert_eq!(me.tenant_ref, tref);
}

#[test]
fn membership_errors_use_conflict_and_not_found_statuses() {
    let e = UserAuthError::from_group(GroupEndpointError::UserAlreadyInGroup(1, 2));
    assert_eq!(e.err_code(), 0x0201);
    assert!(matches!(e.status(), Status::Conflict));
    let e = UserAuthError::from_group(GroupEndpointError::UserNotInGroup(1, 2));
    assert_eq!(e.err_code(), 0x0203);
    assert!(matches!(e.status(), Status::NotFound));
}

#[test]
fn tenant_creation_rejects_both_superuser_forms() {
    let mut db = AuthDb::new();
    let tenant = CreateTenant {
        name: "TwoHeads".to_string(),
        superuser: Some(payload("root", "x")),
        superuser_id: Some(UserRef { code: 7 }),
    };
    let r = tenants::endpoints::create_tenant(tenant, &superuser_actor(), PLAIN_HASH, &mut db);
    match r {
        Err(UserAuthError::TenantEndpoint(TenantEndpointError::Creation(c))) => {
            assert_eq!(c.err_code(), 0x0101);
        },
        _ => panic!("expected MissingSuperuser when both forms are given"),
    }
    assert_eq!(db.tenants.len(), 0);
    assert_eq!(db.users.len(), 0);
}

#[test]
fn login_identifier_suffix_selects_the_tenant() {
    let mut db = AuthDb::new();
    let (tref, _tid, _root) = acme(&mut db);
    let long = format!("root:{}", tref.code);
    let data = users::endpoints::LoginData { password: "x".to_string() };
    let info = users::endpoints::login_with_identifier(&long, &data, None, &mut db)
        .expect("combined identifier login");
    assert_eq!(info.tenant_info.tenant_ref, tref);
    assert_eq!(info.user.username, "root");
}

#[test]
fn login_identifier_with_garbage_suffix_is_malformed() {
    let mut db = AuthDb::new();
    let (_tref, _tid, _root) = acme(&mut db);
    let data = users::endpoints::LoginData { password: "x".to_string() };
    match users::endpoints::login_with_identifier("root:xyz", &data, None, &mut db) {
        Err(UserAuthError::TenantEndpoint(TenantEndpointError::MalformedTenantRef(m))) => {
            assert_eq!(m, "xyz");
        },
        _ => panic!("expected a malformed tenant reference"),
    }
    match users::endpoints::login_with_identifier("root:", &data, None, &mut db) {
        Err(UserAuthError::TenantEndpoint(TenantEndpointError::MalformedTenantRef(m))) => {
            assert_eq!(m, "");
        },
        _ => panic!("expected a malformed tenant reference for an empty segment"),
    }
}

#[test]
fn empty_patch_on_a_user_succeeds_silently() {
    let mut db = AuthDb::new();
    let (tref, _tid, _root) = acme(&mut db);
    let bob =
        users::endpoints::create_user(payload("bob", "pw"), Some(tref), &superuser_actor(), PLAIN_HASH, &mut db)
            .expect("create bob");
    let users_before = db.users.len();
    let r = users::endpoints::patch_user(bob.user_ref, &UserPatch::empty(), &superuser_actor(), &mut db);
    assert!(r.is_ok());
    assert_eq!(db.users.len(), users_before);
    let again = users::endpoints::get_user(bob.user_ref, &superuser_actor(), &mut db).expect("read back");
    assert_eq!(again.username, "bob");
    assert_eq!(again.firstname, "A");
}
