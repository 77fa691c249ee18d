//! Identity and access-control core of a multi-tenant platform.
//!
//! The crate manages users, tenants and groups over an in-memory relational
//! store, resolves stable external references to internal surrogate keys
//! through a bounded memoization cache, and decides whether a caller may read
//! or mutate a given entity.  Every tenant owns exactly one supergroup
//! (membership means "belongs to the tenant") and one admingroup (membership
//! means "administers the tenant"); the store invariant keeps that pairing
//! intact across all mutations.

use vstd::prelude::*;

pub mod auth;
pub mod entities;
pub mod groups;
pub mod laws;
pub mod refgen;
pub mod resolver;
pub mod store_mut;
pub mod store;
pub mod tenants;
pub mod users;
pub mod utils;

verus! {

/// HTTP-like status attached to every error, mirroring the codes the
/// service reports to its clients.
#[derive(Clone, Copy, PartialEq, Eq, Structural, Debug)]
pub enum Status {
    BadRequest,
    Forbidden,
    NotFound,
    Conflict,
    InternalServerError,
    BadGateway,
    NoContent,
}

/// Service configuration: which password hash algorithm newly created
/// users get, and where the password-reset flow points.
pub struct UserAuthConf {
    pub default_password_hash_id: u16,
    pub password_reset_template_filename: String,
    pub password_reset_uri: String,
}

/// The union of every endpoint error the service reports.
#[derive(Debug)]
pub enum UserAuthError {
    UserEndpoint(crate::users::error::UserEndpointError),
    TenantEndpoint(crate::tenants::error::TenantEndpointError),
    GroupEndpoint(crate::groups::errors::GroupEndpointError),
}

impl UserAuthError {
    pub fn from_user(e: crate::users::error::UserEndpointError) -> (r: UserAuthError)
        ensures
            r == UserAuthError::UserEndpoint(e),
    {
        UserAuthError::UserEndpoint(e)
    }

    pub fn from_tenant(e: crate::tenants::error::TenantEndpointError) -> (r: UserAuthError)
        ensures
            r == UserAuthError::TenantEndpoint(e),
    {
        UserAuthError::TenantEndpoint(e)
    }

    pub fn from_group(e: crate::groups::errors::GroupEndpointError) -> (r: UserAuthError)
        ensures
            r == UserAuthError::GroupEndpoint(e),
    {
        UserAuthError::GroupEndpoint(e)
    }

    pub open spec fn spec_err_code(&self) -> u16 {
        match self {
            UserAuthError::UserEndpoint(e) => e.spec_err_code(),
            UserAuthError::TenantEndpoint(e) => e.spec_err_code(),
            UserAuthError::GroupEndpoint(e) => e.spec_err_code(),
        }
    }

    pub open spec fn spec_status(&self) -> Status {
        match self {
            UserAuthError::UserEndpoint(e) => e.spec_status(),
            UserAuthError::TenantEndpoint(e) => e.spec_status(),
            UserAuthError::GroupEndpoint(e) => e.spec_status(),
        }
    }

    pub fn err_code(&self) -> (r: u16)
        ensures
            r == self.spec_err_code(),
    {
        match self {
            UserAuthError::UserEndpoint(e) => e.err_code(),
            UserAuthError::TenantEndpoint(e) => e.err_code(),
            UserAuthError::GroupEndpoint(e) => e.err_code(),
        }
    }

    pub fn status(&self) -> (r: Status)
        ensures
            r == self.spec_status(),
    {
        match self {
            UserAuthError::UserEndpoint(e) => e.status(),
            UserAuthError::TenantEndpoint(e) => e.status(),
            UserAuthError::GroupEndpoint(e) => e.status(),
        }
    }

    pub fn user_message(&self) -> String {
        match self {
            UserAuthError::UserEndpoint(e) => e.user_message(),
            UserAuthError::TenantEndpoint(e) => e.user_message(),
            UserAuthError::GroupEndpoint(e) => e.user_message(),
        }
    }

    pub fn detailed_message(&self) -> String {
        match self {
            UserAuthError::UserEndpoint(e) => e.detailed_message(),
            UserAuthError::TenantEndpoint(e) => e.detailed_message(),
            UserAuthError::GroupEndpoint(e) => e.detailed_message(),
        }
    }

    /// The service-wide error code prefix.
    pub fn err_prefix() -> (r: u16)
        ensures
            r == 0x0001,
    {
        0x0001
    }
}

} // verus!
