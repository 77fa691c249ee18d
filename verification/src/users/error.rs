//! Errors of the user endpoints, with stable numeric codes.

use vstd::prelude::*;
use vstd::string::StringExecFns;
use crate::Status;

verus! {

/// Reason a user payload was rejected.
#[derive(Debug)]
pub enum InvalidField {
    TooLong { field: &'static str, max: usize },
    TooShort { field: &'static str, min: usize },
    Empty(&'static str),
    InvalidTimezone,
}

impl InvalidField {
    /// The user-facing description of the rejected field.
    pub fn message(&self) -> String {
        match self {
            InvalidField::TooLong { field, max } => String::from_str("Field ").concat(
                field,
            ).concat(" is too long (max = ").concat(max.to_string().as_str()).concat(")"),
            InvalidField::TooShort { field, min } => String::from_str("Field ").concat(
                field,
            ).concat(" is too short (min = ").concat(min.to_string().as_str()).concat(")"),
            InvalidField::Empty(field) => String::from_str("Field cannot be empty: ").concat(
                field,
            ),
            InvalidField::InvalidTimezone => String::from_str("Invalid timezone"),
        }
    }
}

/// Errors of the user endpoints.
#[derive(Debug)]
pub enum UserEndpointError {
    ReadingDenied,
    ModificationDenied,
    UserNonExistent,
    IncorrectPassword,
    CreationDenied,
    DeletionDenied,
    UsernameTaken,
    InvalidField(InvalidField),
    NoEmailForPasswordReset,
    FailedToSendEmail,
    InvalidOrExpiredPasswordResetToken(String),
    UseOtherEndpoint(&'static str),
    /// The credential hasher failed; internal, never client-caused.
    Hashing(crate::utils::hashing::HashError),
    /// No unique external reference could be drawn; internal.
    ReferenceExhausted,
}

impl UserEndpointError {
    pub open spec fn spec_err_code(&self) -> u16 {
        match self {
            UserEndpointError::ReadingDenied => 0x0000,
            UserEndpointError::ModificationDenied => 0x0001,
            UserEndpointError::UserNonExistent => 0x0002,
            UserEndpointError::IncorrectPassword => 0x0003,
            UserEndpointError::CreationDenied => 0x0004,
            UserEndpointError::UsernameTaken => 0x0005,
            UserEndpointError::InvalidField(_) => 0x0006,
            UserEndpointError::NoEmailForPasswordReset => 0x0007,
            UserEndpointError::FailedToSendEmail => 0x0008,
            UserEndpointError::InvalidOrExpiredPasswordResetToken(_) => 0x0009,
            UserEndpointError::UseOtherEndpoint(_) => 0x000A,
            UserEndpointError::DeletionDenied => 0x000B,
            UserEndpointError::Hashing(_) => 0x000C,
            UserEndpointError::ReferenceExhausted => 0x000D,
        }
    }

    pub open spec fn spec_status(&self) -> Status {
        match self {
            UserEndpointError::ReadingDenied => Status::Forbidden,
            UserEndpointError::ModificationDenied => Status::Forbidden,
            UserEndpointError::UserNonExistent => Status::NotFound,
            UserEndpointError::IncorrectPassword => Status::Forbidden,
            UserEndpointError::CreationDenied => Status::Forbidden,
            UserEndpointError::UsernameTaken => Status::Conflict,
            UserEndpointError::InvalidField(_) => Status::BadRequest,
            UserEndpointError::NoEmailForPasswordReset => Status::BadRequest,
            UserEndpointError::FailedToSendEmail => Status::BadGateway,
            UserEndpointError::InvalidOrExpiredPasswordResetToken(_) => Status::BadRequest,
            UserEndpointError::UseOtherEndpoint(_) => Status::BadRequest,
            UserEndpointError::DeletionDenied => Status::Forbidden,
            UserEndpointError::Hashing(_) => Status::InternalServerError,
            UserEndpointError::ReferenceExhausted => Status::InternalServerError,
        }
    }

    pub fn err_code(&self) -> (r: u16)
        ensures
            r == self.spec_err_code(),
    {
        match self {
            UserEndpointError::ReadingDenied => 0x0000,
            UserEndpointError::ModificationDenied => 0x0001,
            UserEndpointError::UserNonExistent => 0x0002,
            UserEndpointError::IncorrectPassword => 0x0003,
            UserEndpointError::CreationDenied => 0x0004,
            UserEndpointError::UsernameTaken => 0x0005,
            UserEndpointError::InvalidField(_) => 0x0006,
            UserEndpointError::NoEmailForPasswordReset => 0x0007,
            UserEndpointError::FailedToSendEmail => 0x0008,
            UserEndpointError::InvalidOrExpiredPasswordResetToken(_) => 0x0009,
            UserEndpointError::UseOtherEndpoint(_) => 0x000A,
            UserEndpointError::DeletionDenied => 0x000B,
            UserEndpointError::Hashing(_) => 0x000C,
            UserEndpointError::ReferenceExhausted => 0x000D,
        }
    }

    pub fn status(&self) -> (r: Status)
        ensures
            r == self.spec_status(),
    {
        match self {
            UserEndpointError::ReadingDenied => Status::Forbidden,
            UserEndpointError::ModificationDenied => Status::Forbidden,
            UserEndpointError::UserNonExistent => Status::NotFound,
            UserEndpointError::IncorrectPassword => Status::Forbidden,
            UserEndpointError::CreationDenied => Status::Forbidden,
            UserEndpointError::UsernameTaken => Status::Conflict,
            UserEndpointError::InvalidField(_) => Status::BadRequest,
            UserEndpointError::NoEmailForPasswordReset => Status::BadRequest,
            UserEndpointError::FailedToSendEmail => Status::BadGateway,
            UserEndpointError::InvalidOrExpiredPasswordResetToken(_) => Status::BadRequest,
            UserEndpointError::UseOtherEndpoint(_) => Status::BadRequest,
            UserEndpointError::DeletionDenied => Status::Forbidden,
            UserEndpointError::Hashing(_) => Status::InternalServerError,
            UserEndpointError::ReferenceExhausted => Status::InternalServerError,
        }
    }

    pub fn user_message(&self) -> String {
        match self {
            UserEndpointError::ReadingDenied => String::from_str("Permission denied"),
            UserEndpointError::ModificationDenied => String::from_str("Permission denied"),
            UserEndpointError::UserNonExistent => String::from_str("User does not exist"),
            UserEndpointError::IncorrectPassword => String::from_str("Password is incorrect"),
            UserEndpointError::CreationDenied => String::from_str("Permission denied"),
            UserEndpointError::UsernameTaken => String::from_str("Username is taken"),
            UserEndpointError::InvalidField(invalid_field) => invalid_field.message(),
            UserEndpointError::NoEmailForPasswordReset => String::from_str(
                "No email address for user.",
            ),
            UserEndpointError::FailedToSendEmail => String::from_str("Failed to send email."),
            UserEndpointError::InvalidOrExpiredPasswordResetToken(token) => String::from_str(
                "Invalid or expired password reset token [",
            ).concat(token.as_str()).concat("]."),
            UserEndpointError::UseOtherEndpoint(endpoint) => String::from_str(
                "Please use ",
            ).concat(endpoint).concat(" instead"),
            UserEndpointError::DeletionDenied => String::from_str("Permission denied"),
            UserEndpointError::Hashing(_) => String::from_str("Internal error"),
            UserEndpointError::ReferenceExhausted => String::from_str("Internal error"),
        }
    }

    pub fn detailed_message(&self) -> String {
        match self {
            UserEndpointError::ReadingDenied => String::from_str("Reading user info denied"),
            UserEndpointError::ModificationDenied => String::from_str("Writing user info denied"),
            UserEndpointError::UserNonExistent => String::from_str("User does not exist"),
            UserEndpointError::IncorrectPassword => String::from_str("Password is incorrect"),
            UserEndpointError::CreationDenied => String::from_str("Creating user denied"),
            UserEndpointError::UsernameTaken => String::from_str("Username is taken"),
            UserEndpointError::InvalidField(invalid_field) => invalid_field.message(),
            UserEndpointError::NoEmailForPasswordReset => String::from_str(
                "No email address for user.",
            ),
            UserEndpointError::FailedToSendEmail => String::from_str("Failed to send email."),
            UserEndpointError::InvalidOrExpiredPasswordResetToken(token) => String::from_str(
                "Invalid or expired password reset token [",
            ).concat(token.as_str()).concat("]."),
            UserEndpointError::UseOtherEndpoint(endpoint) => String::from_str("Use ").concat(
                endpoint,
            ).concat(" instead"),
            UserEndpointError::DeletionDenied => String::from_str("Deleting user denied"),
            UserEndpointError::Hashing(_) => String::from_str("Password hashing failure"),
            UserEndpointError::ReferenceExhausted => String::from_str(
                "Could not draw a unique external reference",
            ),
        }
    }
}

} // verus!
