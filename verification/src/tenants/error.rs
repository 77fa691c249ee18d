//! Errors of the tenant endpoints, with stable numeric codes.

use vstd::prelude::*;
use vstd::string::StringExecFns;
use crate::entities::TenantRef;
use crate::Status;

verus! {

/// Errors of tenant creation.
#[derive(Debug)]
pub enum CreationError {
    Denied,
    MissingSuperuser,
}

impl CreationError {
    pub open spec fn spec_err_code(&self) -> u16 {
        match self {
            CreationError::Denied => 0x0100,
            CreationError::MissingSuperuser => 0x0101,
        }
    }

    pub open spec fn spec_status(&self) -> Status {
        match self {
            CreationError::Denied => Status::Forbidden,
            CreationError::MissingSuperuser => Status::BadRequest,
        }
    }

    pub fn err_code(&self) -> (r: u16)
        ensures
            r == self.spec_err_code(),
    {
        match self {
            CreationError::Denied => 0x0100,
            CreationError::MissingSuperuser => 0x0101,
        }
    }

    pub fn status(&self) -> (r: Status)
        ensures
            r == self.spec_status(),
    {
        match self {
            CreationError::Denied => Status::Forbidden,
            CreationError::MissingSuperuser => Status::BadRequest,
        }
    }

    pub fn user_message(&self) -> String {
        match self {
            CreationError::Denied => String::from_str("Permission denied"),
            CreationError::MissingSuperuser => String::from_str(
                "Please specify either `superuser` or `superuser_id`",
            ),
        }
    }

    pub fn detailed_message(&self) -> String {
        match self {
            CreationError::Denied => String::from_str("Tenant creation denied"),
            CreationError::MissingSuperuser => String::from_str(
                "Missing superuser in creation request",
            ),
        }
    }
}

/// Errors of the tenant endpoints.
#[derive(Debug)]
pub enum TenantEndpointError {
    Creation(CreationError),
    MalformedTenantRef(String),
    TenantNonExistent(TenantRef),
    TenantNotAuthorized(TenantRef),
    TenantRequired,
    SupergroupNotFound(u64),
    AdminGroupNotFound(u64),
    ReadingDenied,
    ModificationDenied,
    /// No unique external reference could be drawn; internal.
    ReferenceExhausted,
}

impl TenantEndpointError {
    pub open spec fn spec_err_code(&self) -> u16 {
        match self {
            TenantEndpointError::Creation(e) => e.spec_err_code(),
            TenantEndpointError::MalformedTenantRef(_) => 0x0110,
            TenantEndpointError::TenantNonExistent(_) => 0x0111,
            TenantEndpointError::TenantNotAuthorized(_) => 0x0112,
            TenantEndpointError::TenantRequired => 0x0113,
            TenantEndpointError::SupergroupNotFound(_) => 0x0114,
            TenantEndpointError::AdminGroupNotFound(_) => 0x0115,
            TenantEndpointError::ReadingDenied => 0x0116,
            TenantEndpointError::ModificationDenied => 0x0117,
            TenantEndpointError::ReferenceExhausted => 0x0118,
        }
    }

    pub open spec fn spec_status(&self) -> Status {
        match self {
            TenantEndpointError::Creation(e) => e.spec_status(),
            TenantEndpointError::MalformedTenantRef(_) => Status::NotFound,
            TenantEndpointError::TenantNonExistent(_) => Status::NotFound,
            TenantEndpointError::TenantNotAuthorized(_) => Status::Forbidden,
            TenantEndpointError::TenantRequired => Status::BadRequest,
            TenantEndpointError::SupergroupNotFound(_) => Status::InternalServerError,
            TenantEndpointError::AdminGroupNotFound(_) => Status::InternalServerError,
            TenantEndpointError::ReadingDenied => Status::Forbidden,
            TenantEndpointError::ModificationDenied => Status::Forbidden,
            TenantEndpointError::ReferenceExhausted => Status::InternalServerError,
        }
    }

    pub fn err_code(&self) -> (r: u16)
        ensures
            r == self.spec_err_code(),
    {
        match self {
            TenantEndpointError::Creation(e) => e.err_code(),
            TenantEndpointError::MalformedTenantRef(_) => 0x0110,
            TenantEndpointError::TenantNonExistent(_) => 0x0111,
            TenantEndpointError::TenantNotAuthorized(_) => 0x0112,
            TenantEndpointError::TenantRequired => 0x0113,
            TenantEndpointError::SupergroupNotFound(_) => 0x0114,
            TenantEndpointError::AdminGroupNotFound(_) => 0x0115,
            TenantEndpointError::ReadingDenied => 0x0116,
            TenantEndpointError::ModificationDenied => 0x0117,
            TenantEndpointError::ReferenceExhausted => 0x0118,
        }
    }

    pub fn status(&self) -> (r: Status)
        ensures
            r == self.spec_status(),
    {
        match self {
            TenantEndpointError::Creation(e) => e.status(),
            TenantEndpointError::MalformedTenantRef(_) => Status::NotFound,
            TenantEndpointError::TenantNonExistent(_) => Status::NotFound,
            TenantEndpointError::TenantNotAuthorized(_) => Status::Forbidden,
            TenantEndpointError::TenantRequired => Status::BadRequest,
            TenantEndpointError::SupergroupNotFound(_) => Status::InternalServerError,
            TenantEndpointError::AdminGroupNotFound(_) => Status::InternalServerError,
            TenantEndpointError::ReadingDenied => Status::Forbidden,
            TenantEndpointError::ModificationDenied => Status::Forbidden,
            TenantEndpointError::ReferenceExhausted => Status::InternalServerError,
        }
    }

    pub fn user_message(&self) -> String {
        match self {
            TenantEndpointError::Creation(e) => e.user_message(),
            TenantEndpointError::MalformedTenantRef(r) => String::from_str(
                "Malformed tenant reference [",
            ).concat(r.as_str()).concat("]."),
            TenantEndpointError::TenantNonExistent(_) => String::from_str(
                "Tenant does not exist",
            ),
            TenantEndpointError::TenantNotAuthorized(_) => String::from_str(
                "Tenant not authorized",
            ),
            TenantEndpointError::TenantRequired => String::from_str("Tenant reference required"),
            TenantEndpointError::SupergroupNotFound(_) => String::new(),
            TenantEndpointError::AdminGroupNotFound(_) => String::new(),
            TenantEndpointError::ReadingDenied => String::from_str("Permission denied"),
            TenantEndpointError::ModificationDenied => String::from_str("Permission denied"),
            TenantEndpointError::ReferenceExhausted => String::from_str("Internal error"),
        }
    }

    pub fn detailed_message(&self) -> String {
        match self {
            TenantEndpointError::Creation(e) => e.detailed_message(),
            TenantEndpointError::MalformedTenantRef(r) => String::from_str(
                "Malformed tenant reference [",
            ).concat(r.as_str()).concat("]."),
            TenantEndpointError::TenantNonExistent(tr) => String::from_str("Tenant [").concat(
                tr.code.to_string().as_str(),
            ).concat("] does not exist."),
            TenantEndpointError::TenantNotAuthorized(tr) => String::from_str("Tenant [").concat(
                tr.code.to_string().as_str(),
            ).concat("] not authorized for this user."),
            TenantEndpointError::TenantRequired => String::from_str(
                "Tenant reference not provided - required for this user.",
            ),
            TenantEndpointError::SupergroupNotFound(tid) => String::from_str(
                "Supergroup [internal=",
            ).concat(tid.to_string().as_str()).concat("] not found"),
            TenantEndpointError::AdminGroupNotFound(tid) => String::from_str(
                "Admingroup not found for tenant [",
            ).concat(tid.to_string().as_str()).concat("]"),
            TenantEndpointError::ReadingDenied => String::from_str(
                "Permission denied: reading tenant information",
            ),
            TenantEndpointError::ModificationDenied => String::from_str(
                "Permission denied: changing tenant information",
            ),
            TenantEndpointError::ReferenceExhausted => String::from_str(
                "Could not draw a unique external reference",
            ),
        }
    }
}

} // verus!
