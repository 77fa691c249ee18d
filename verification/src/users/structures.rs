//! User payloads: the creation request, its validation rules, the raw
//! stored shape, and the patch a caller may apply to a user.

use vstd::prelude::*;
use vstd::string::StringExecFns;
use crate::entities::User;
use crate::users::error::InvalidField;
use crate::utils::timezone::{is_valid_timezone, recognized_timezone};

verus! {

/// Payload for creating a user.  The password is plaintext here and is
/// hashed before it is stored; it is never echoed back.
#[derive(Clone, Debug)]
pub struct CreateUser {
    pub username: String,
    pub password: String,
    pub firstname: String,
    pub lastname: String,
    pub email: Option<String>,
    pub timezone: String,
}

impl CreateUser {
    /// The creation payload a stored user corresponds to; the password is
    /// left empty, as it can never be read back.
    pub fn from_user(user: User) -> (r: CreateUser)
        ensures
            r.username == user.username,
            r.password@ == Seq::<char>::empty(),
            r.firstname == user.firstname,
            r.lastname == user.lastname,
            r.email == user.email,
            r.timezone == user.timezone,
    {
        CreateUser {
            username: user.username,
            password: String::new(),
            firstname: user.firstname,
            lastname: user.lastname,
            email: user.email,
            timezone: user.timezone,
        }
    }

    /// Field-wise equality, the password excluded.
    pub open spec fn spec_same_profile(&self, other: &CreateUser) -> bool {
        &&& self.username@ == other.username@
        &&& self.firstname@ == other.firstname@
        &&& self.lastname@ == other.lastname@
        &&& spec_opt_string_eq(self.email, other.email)
        &&& self.timezone@ == other.timezone@
    }

    /// Compare every profile field; the password is not part of the
    /// profile.
    pub fn same_profile(&self, other: &CreateUser) -> (r: bool)
        ensures
            r == self.spec_same_profile(other),
    {
        self.username == other.username && self.firstname == other.firstname && self.lastname
            == other.lastname && opt_string_eq(&self.email, &other.email) && self.timezone
            == other.timezone
    }
}

/// Equality of two optional strings, by their character sequences.
pub open spec fn spec_opt_string_eq(a: Option<String>, b: Option<String>) -> bool {
    match (a, b) {
        (Some(x), Some(y)) => x@ == y@,
        (None, None) => true,
        _ => false,
    }
}

pub fn opt_string_eq(a: &Option<String>, b: &Option<String>) -> (r: bool)
    ensures
        r == spec_opt_string_eq(*a, *b),
{
    match a {
        Some(x) => match b {
            Some(y) => *x == *y,
            None => false,
        },
        None => b.is_none(),
    }
}

/// The validation rules of a user payload: name fields non-empty and at
/// most 45 bytes, username non-empty and at most 16 bytes, an email of at
/// most 45 bytes, and a recognized timezone.
pub open spec fn spec_valid_user(u: &CreateUser) -> bool {
    &&& 0 < vstd::utf8::encode_utf8(u.firstname@).len() <= 45
    &&& 0 < vstd::utf8::encode_utf8(u.lastname@).len() <= 45
    &&& 0 < vstd::utf8::encode_utf8(u.username@).len() <= 16
    &&& (u.email matches Some(e) ==> vstd::utf8::encode_utf8(e@).len() <= 45)
    &&& recognized_timezone(u.timezone@)
}

/// Hold a user payload against the validation rules, reporting the first
/// offending field.
pub fn validate_create_user(user: &CreateUser) -> (r: Result<(), InvalidField>)
    ensures
        r is Ok <==> spec_valid_user(user),
        ({
            let fl = vstd::utf8::encode_utf8(user.firstname@).len();
            let ll = vstd::utf8::encode_utf8(user.lastname@).len();
            let ul = vstd::utf8::encode_utf8(user.username@).len();
            let fok = 0 < fl <= 45;
            let lok = 0 < ll <= 45;
            let uok = 0 < ul <= 16;
            let eok = (user.email matches Some(e) ==> vstd::utf8::encode_utf8(e@).len() <= 45);
            &&& (fl > 45 ==> (r matches Err(f) && f matches InvalidField::TooLong { field, max }
                && field@ == "firstname"@ && max == 45))
            &&& (fl == 0 ==> (r matches Err(f) && f matches InvalidField::Empty(field) && field@
                == "firstname"@))
            &&& (fok && ll > 45 ==> (r matches Err(f) && f matches InvalidField::TooLong {
                field,
                max,
            } && field@ == "lastname"@ && max == 45))
            &&& (fok && ll == 0 ==> (r matches Err(f) && f matches InvalidField::Empty(field)
                && field@ == "lastname"@))
            &&& (fok && lok && ul > 16 ==> (r matches Err(f) && f matches InvalidField::TooLong {
                field,
                max,
            } && field@ == "username"@ && max == 16))
            &&& (fok && lok && ul == 0 ==> (r matches Err(f) && f matches InvalidField::Empty(
                field,
            ) && field@ == "username"@))
            &&& (fok && lok && uok && !eok ==> (r matches Err(f) && f matches
                InvalidField::TooLong { field, max } && field@ == "email"@ && max == 45))
            &&& (fok && lok && uok && eok && !recognized_timezone(user.timezone@) ==> (r matches
                Err(f) && f is InvalidTimezone))
        }),
{
    if user.firstname.as_str().as_bytes().len() > 45 {
        return Err(InvalidField::TooLong { field: "firstname", max: 45 });
    }
    if user.firstname.as_str().as_bytes().len() == 0 {
        return Err(InvalidField::Empty("firstname"));
    }
    if user.lastname.as_str().as_bytes().len() > 45 {
        return Err(InvalidField::TooLong { field: "lastname", max: 45 });
    }
    if user.lastname.as_str().as_bytes().len() == 0 {
        return Err(InvalidField::Empty("lastname"));
    }
    if user.username.as_str().as_bytes().len() > 16 {
        return Err(InvalidField::TooLong { field: "username", max: 16 });
    }
    if user.username.as_str().as_bytes().len() == 0 {
        return Err(InvalidField::Empty("username"));
    }
    if let Some(email) = &user.email {
        if email.as_str().as_bytes().len() > 45 {
            return Err(InvalidField::TooLong { field: "email", max: 45 });
        }
    }
    if !is_valid_timezone(user.timezone.as_str()) {
        return Err(InvalidField::InvalidTimezone);
    }
    Ok(())
}

/// A user row as the store keeps it, hash and flags included.
pub struct RawUser {
    pub id: u64,
    pub username: String,
    pub password: String,
    pub password_hash_id: u16,
    pub firstname: String,
    pub lastname: String,
    pub email: String,
    pub timezone: String,
    pub is_deleted: u8,
    pub is_superuser: u8,
}

/// A partial update of a user.  Absent fields keep their stored value;
/// `password_present` records that the caller tried to change the
/// password, which the patch endpoint always rejects.
#[derive(Clone, Debug)]
pub struct UserPatch {
    pub username: Option<String>,
    pub firstname: Option<String>,
    pub lastname: Option<String>,
    pub email: Option<Option<String>>,
    pub timezone: Option<String>,
    pub password_present: bool,
}

impl UserPatch {
    /// A patch that changes nothing.
    pub fn empty() -> (r: UserPatch)
        ensures
            r.username is None,
            r.firstname is None,
            r.lastname is None,
            r.email is None,
            r.timezone is None,
            !r.password_present,
    {
        UserPatch {
            username: None,
            firstname: None,
            lastname: None,
            email: None,
            timezone: None,
            password_present: false,
        }
    }
}

/// The merge of a patch over a current payload: present fields replace
/// stored ones, absent fields keep them.
pub open spec fn spec_merged_user(current: &CreateUser, patch: &UserPatch) -> CreateUser {
    CreateUser {
        username: if patch.username is Some {
            patch.username->0
        } else {
            current.username
        },
        password: current.password,
        firstname: if patch.firstname is Some {
            patch.firstname->0
        } else {
            current.firstname
        },
        lastname: if patch.lastname is Some {
            patch.lastname->0
        } else {
            current.lastname
        },
        email: if patch.email is Some {
            patch.email->0
        } else {
            current.email
        },
        timezone: if patch.timezone is Some {
            patch.timezone->0
        } else {
            current.timezone
        },
    }
}

/// The character sequence a patched string field ends up with: the
/// patch's value when present, the stored one otherwise.
pub open spec fn spec_patched_str(field: Option<String>, cur: Seq<char>) -> Seq<char> {
    if field is Some {
        field->0@
    } else {
        cur
    }
}

/// The optional string a patched email field ends up with, compared by
/// character sequences.
pub open spec fn spec_patched_email_eq(
    field: Option<Option<String>>,
    cur: Option<String>,
    result: Option<String>,
) -> bool {
    if field is Some {
        spec_opt_string_eq(result, field->0)
    } else {
        spec_opt_string_eq(result, cur)
    }
}

/// Merge a patch over the current payload.
pub fn merge_user(current: &CreateUser, patch: &UserPatch) -> (r: CreateUser)
    ensures
        r == spec_merged_user(current, patch),
{
    CreateUser {
        username: match &patch.username {
            Some(v) => v.clone(),
            None => current.username.clone(),
        },
        password: current.password.clone(),
        firstname: match &patch.firstname {
            Some(v) => v.clone(),
            None => current.firstname.clone(),
        },
        lastname: match &patch.lastname {
            Some(v) => v.clone(),
            None => current.lastname.clone(),
        },
        email: match &patch.email {
            Some(v) => opt_string_clone(v),
            None => opt_string_clone(&current.email),
        },
        timezone: match &patch.timezone {
            Some(v) => v.clone(),
            None => current.timezone.clone(),
        },
    }
}

/// Clone an optional string.
pub fn opt_string_clone(s: &Option<String>) -> (r: Option<String>)
    ensures
        r == *s,
{
    match s {
        Some(v) => Some(v.clone()),
        None => None,
    }
}

} // verus!
