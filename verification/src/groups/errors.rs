//! Errors of the group endpoints, with stable numeric codes.

use vstd::prelude::*;
use vstd::string::StringExecFns;
use crate::Status;

verus! {

/// Errors of the group endpoints.  The two membership variants carry the
/// internal user and group keys involved.
#[derive(Debug)]
pub enum GroupEndpointError {
    NonExistentGroup,
    InvalidField(&'static str),
    UserAlreadyInGroup(u64, u64),
    UserNotInGroup(u64, u64),
    ReadingDenied,
    ModificationDenied,
    CreationDenied,
    DeletionDenied,
    /// No unique external reference could be drawn; internal.
    ReferenceExhausted,
}

impl GroupEndpointError {
    pub open spec fn spec_err_code(&self) -> u16 {
        match self {
            GroupEndpointError::NonExistentGroup => 0x0200,
            GroupEndpointError::UserAlreadyInGroup(_, _) => 0x0201,
            GroupEndpointError::InvalidField(_) => 0x0202,
            GroupEndpointError::UserNotInGroup(_, _) => 0x0203,
            GroupEndpointError::ReadingDenied => 0x0204,
            GroupEndpointError::ModificationDenied => 0x0205,
            GroupEndpointError::CreationDenied => 0x0206,
            GroupEndpointError::DeletionDenied => 0x0207,
            GroupEndpointError::ReferenceExhausted => 0x0208,
        }
    }

    pub open spec fn spec_status(&self) -> Status {
        match self {
            GroupEndpointError::NonExistentGroup => Status::NotFound,
            GroupEndpointError::UserAlreadyInGroup(_, _) => Status::Conflict,
            GroupEndpointError::UserNotInGroup(_, _) => Status::NotFound,
            GroupEndpointError::InvalidField(_) => Status::BadRequest,
            GroupEndpointError::ReadingDenied => Status::Forbidden,
            GroupEndpointError::ModificationDenied => Status::Forbidden,
            GroupEndpointError::CreationDenied => Status::Forbidden,
            GroupEndpointError::DeletionDenied => Status::Forbidden,
            GroupEndpointError::ReferenceExhausted => Status::InternalServerError,
        }
    }

    pub fn err_code(&self) -> (r: u16)
        ensures
            r == self.spec_err_code(),
    {
        match self {
            GroupEndpointError::NonExistentGroup => 0x0200,
            GroupEndpointError::UserAlreadyInGroup(_, _) => 0x0201,
            GroupEndpointError::InvalidField(_) => 0x0202,
            GroupEndpointError::UserNotInGroup(_, _) => 0x0203,
            GroupEndpointError::ReadingDenied => 0x0204,
            GroupEndpointError::ModificationDenied => 0x0205,
            GroupEndpointError::CreationDenied => 0x0206,
            GroupEndpointError::DeletionDenied => 0x0207,
            GroupEndpointError::ReferenceExhausted => 0x0208,
        }
    }

    pub fn status(&self) -> (r: Status)
        ensures
            r == self.spec_status(),
    {
        match self {
            GroupEndpointError::NonExistentGroup => Status::NotFound,
            GroupEndpointError::UserAlreadyInGroup(_, _) => Status::Conflict,
            GroupEndpointError::UserNotInGroup(_, _) => Status::NotFound,
            GroupEndpointError::InvalidField(_) => Status::BadRequest,
            GroupEndpointError::ReadingDenied => Status::Forbidden,
            GroupEndpointError::ModificationDenied => Status::Forbidden,
            GroupEndpointError::CreationDenied => Status::Forbidden,
            GroupEndpointError::DeletionDenied => Status::Forbidden,
            GroupEndpointError::ReferenceExhausted => Status::InternalServerError,
        }
    }

    pub fn user_message(&self) -> String {
        match self {
            GroupEndpointError::NonExistentGroup => String::from_str("Group does not exist"),
            GroupEndpointError::UserAlreadyInGroup(_, _) => String::from_str(
                "User already in group",
            ),
            GroupEndpointError::UserNotInGroup(_, _) => String::from_str("User not in group"),
            GroupEndpointError::InvalidField(msg) => String::from_str("Invalid field: ").concat(
                msg,
            ),
            GroupEndpointError::ReadingDenied => String::from_str(
                "Reading group information denied",
            ),
            GroupEndpointError::ModificationDenied => String::from_str(
                "Changing group information denied",
            ),
            GroupEndpointError::CreationDenied => String::from_str("Creating group denied"),
            GroupEndpointError::DeletionDenied => String::from_str("Deleting group denied"),
            GroupEndpointError::ReferenceExhausted => String::from_str("Internal error"),
        }
    }

    pub fn detailed_message(&self) -> String {
        match self {
            GroupEndpointError::NonExistentGroup => String::from_str("Group does not exist"),
            GroupEndpointError::UserAlreadyInGroup(uid, gid) => String::from_str(
                "User [",
            ).concat(uid.to_string().as_str()).concat("] already in group [").concat(
                gid.to_string().as_str(),
            ).concat("]"),
            GroupEndpointError::UserNotInGroup(uid, gid) => String::from_str("User [").concat(
                uid.to_string().as_str(),
            ).concat("] not in group [").concat(gid.to_string().as_str()).concat("]"),
            GroupEndpointError::InvalidField(msg) => String::from_str(
                "Invalid field provided: ",
            ).concat(msg),
            GroupEndpointError::ReadingDenied => String::from_str(
                "Reading group information denied",
            ),
            GroupEndpointError::ModificationDenied => String::from_str(
                "Changing group information denied",
            ),
            GroupEndpointError::CreationDenied => String::from_str("Creating group denied"),
            GroupEndpointError::DeletionDenied => String::from_str("Deleting group denied"),
            GroupEndpointError::ReferenceExhausted => String::from_str(
                "Could not draw a unique external reference",
            ),
        }
    }
}

} // verus!
