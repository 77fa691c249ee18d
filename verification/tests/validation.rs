//! Field validation and the external credential hasher, exercised
//! through the public operations.

use user_auth::entities::{TenantLoginInfo, TenantRef, User, UserRef};
use user_auth::entities::LoggedInUser;
use user_auth::store::AuthDb;
use user_auth::tenants;
use user_auth::tenants::structures::CreateTenant;
use user_auth::users;
use user_auth::users::error::{InvalidField, UserEndpointError};
use user_auth::users::structures::{validate_create_user, CreateUser};
use user_auth::groups::structures::{validate_create_group, CreateGroup};
use user_auth::utils::hashing::{hash_password, verify_password};
use user_auth::UserAuthError;

const ARGON_HASH: u16 = 1;

fn payload(username: &str, password: &str) -> CreateUser {
    CreateUser {
        username: username.to_string(),
        password: password.to_string(),
        firstname: "A".to_string(),
        lastname: "B".to_string(),
        email: None,
        timezone: "UTC".to_string(),
    }
}

fn superuser_actor() -> LoggedInUser {
    LoggedInUser {
        user: User {
            user_ref: UserRef { code: 0 },
            username: "system".to_string(),
            firstname: "Sys".to_string(),
            lastname: "Tem".to_string(),
            email: None,
            timezone: "UTC".to_string(),
            is_superuser: true,
        },
        tenant_info: TenantLoginInfo {
            tenant_ref: TenantRef { code: 0 },
            tenant_name: String::new(),
            is_tenant_admin: false,
            groups: Vec::new(),
        },
    }
}

#[test]
fn user_payload_field_rules() {
    let mut p = payload("bob", "pw");
    p.firstname = String::new();
    assert!(matches!(validate_create_user(&p), Err(InvalidField::Empty("firstname"))));

    let mut p = payload("bob", "pw");
    p.lastname = "x".repeat(46);
    assert!(matches!(
        validate_create_user(&p),
        Err(InvalidField::TooLong { field: "lastname", max: 45 })
    ));

    let mut p = payload("averylongusername17", "pw");
    p.username = "averylongusername".to_string();
    assert!(matches!(
        validate_create_user(&p),
        Err(InvalidField::TooLong { field: "username", max: 16 })
    ));

    let mut p = payload("bob", "pw");
    p.email = Some("e".repeat(46));
    assert!(matches!(
        validate_create_user(&p),
        Err(InvalidField::TooLong { field: "email", max: 45 })
    ));

    let ok = payload("bob", "pw");
    assert!(validate_create_user(&ok).is_ok());
}

#[test]
fn timezones_come_from_the_iana_database() {
    let mut p = payload("bob", "pw");
    p.timezone = "Not/AZone".to_string();
    assert!(matches!(validate_create_user(&p), Err(InvalidField::InvalidTimezone)));

    let mut p = payload("bob", "pw");
    p.timezone = "Europe/Berlin".to_string();
    assert!(validate_create_user(&p).is_ok());
}

#[test]
fn field_error_messages_name_the_field() {
    let e = InvalidField::TooLong { field: "firstname", max: 45 };
    assert_eq!(e.message(), "Field firstname is too long (max = 45)");
    let e = InvalidField::Empty("lastname");
    assert_eq!(e.message(), "Field cannot be empty: lastname");
    let e = InvalidField::InvalidTimezone;
    assert_eq!(e.message(), "Invalid timezone");
}

#[test]
fn duplicate_usernames_are_refused() {
    let mut db = AuthDb::new();
    let tenant = CreateTenant {
        name: "Acme".to_string(),
        superuser: Some(payload("root", "x")),
        superuser_id: None,
    };
    let (tref, _tid, _root) =
        tenants::endpoints::create_tenant(tenant, &superuser_actor(), 0, &mut db).expect("tenant");
    let r = users::endpoints::create_user(
        payload("root", "other"),
        Some(tref),
        &superuser_actor(),
        0,
        &mut db,
    );
    assert!(matches!(
        r,
        Err(UserAuthError::UserEndpoint(UserEndpointError::UsernameTaken))
    ));
}

#[test]
fn unknown_hash_algorithms_are_refused() {
    assert!(hash_password("secret", 7).is_err());
    assert!(verify_password("secret", "whatever", 7).is_err());
}

#[test]
fn plaintext_passthrough_algorithm() {
    let h = hash_password("secret", 0).expect("hash");
    assert_eq!(h, "secret");
    assert_eq!(verify_password("secret", &h, 0).expect("verify"), true);
    assert_eq!(verify_password("wrong", &h, 0).expect("verify"), false);
}

#[test]
fn argon2_round_trip_through_login() {
    let mut db = AuthDb::new();
    let tenant = CreateTenant {
        name: "Acme".to_string(),
        superuser: Some(payload("root", "hunter2")),
        superuser_id: None,
    };
    let (tref, _tid, _root) = tenants::endpoints::create_tenant(
        tenant,
        &superuser_actor(),
        ARGON_HASH,
        &mut db,
    )
    .expect("tenant with argon2 superuser");

    let data = users::endpoints::LoginData { password: "hunter2".to_string() };
    let ok = users::endpoints::login("root".to_string(), &data, Some(tref), &mut db);
    assert!(ok.is_ok(), "correct password must log in");

    let bad = users::endpoints::LoginData { password: "hunter3".to_string() };
    let r = users::endpoints::login("root".to_string(), &bad, Some(tref), &mut db);
    assert!(matches!(
        r,
        Err(UserAuthError::UserEndpoint(UserEndpointError::IncorrectPassword))
    ));
}

#[test]
fn argon2_hashes_are_salted_phc_strings() {
    let h1 = hash_password("secret", 1).expect("argon2 hash");
    let h2 = hash_password("secret", 1).expect("argon2 hash");
    assert!(h1.starts_with("$argon2"));
    // Fresh random salts: equal passwords still hash differently.
    assert_ne!(h1, h2);
    assert_eq!(verify_password("secret", &h1, 1).expect("verify"), true);
    assert_eq!(verify_password("wrong", &h1, 1).expect("verify"), false);
}

#[test]
fn oversized_firstname_is_blamed_exactly() {
    let user = CreateUser {
        username: "u".to_string(),
        password: "p".to_string(),
        firstname: "a".repeat(46),
        lastname: "b".to_string(),
        email: None,
        timezone: "UTC".to_string(),
    };
    match validate_create_user(&user) {
        Err(InvalidField::TooLong { field, max }) => {
            assert_eq!(field, "firstname");
            assert_eq!(max, 45);
        },
        _ => panic!("expected the firstname to be blamed"),
    }
}

#[test]
fn empty_group_name_gets_the_exact_message() {
    let group = CreateGroup { name: String::new(), tenant: TenantRef { code: 1 } };
    assert_eq!(validate_create_group(&group), Err("Group name cannot be empty"));
    let group = CreateGroup { name: "g".repeat(46), tenant: TenantRef { code: 1 } };
    assert_eq!(
        validate_create_group(&group),
        Err("Group name cannot be longer than 45 characters")
    );
}
