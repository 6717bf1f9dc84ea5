//! The failures of the account operations.

use vstd::prelude::*;
use crate::errors::{ErrorKind, FieldError};

verus! {

/// What can go wrong for the caller of an account operation.
#[derive(Clone, Copy, Debug, PartialEq, Eq, Structural)]
pub enum UserError {
    /// The username is unknown or the password does not match. Which of
    /// the two is not told.
    InvalidUsernameOrPassword,
    /// The caller has no right over the target.
    Unauthorized,
    /// The credential is missing, malformed, wrongly signed or expired.
    Unauthenticated,
}

impl UserError {
    /// The kind under which the failure is reported.
    pub open spec fn kind(self) -> ErrorKind {
        match self {
            UserError::InvalidUsernameOrPassword => ErrorKind::InvalidCredentials,
            UserError::Unauthorized => ErrorKind::Unauthorized,
            UserError::Unauthenticated => ErrorKind::Unauthenticated,
        }
    }

    /// Builds the error a caller receives.
    pub fn into_field_error(self) -> (r: FieldError)
        ensures
            r.kind == self.kind(),
            r.message@ == self.kind().spec_message(),
            r.code@ == self.kind().spec_code(),
    {
        match self {
            UserError::InvalidUsernameOrPassword => ErrorKind::InvalidCredentials.into_field_error(),
            UserError::Unauthorized => ErrorKind::Unauthorized.into_field_error(),
            UserError::Unauthenticated => ErrorKind::Unauthenticated.into_field_error(),
        }
    }
}

} // verus!
