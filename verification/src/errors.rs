//! The error taxonomy that crosses the boundary of the core.

use vstd::prelude::*;

verus! {

/// The kinds of failure a caller can observe.
#[derive(Clone, Copy, Debug, PartialEq, Eq, Structural)]
pub enum ErrorKind {
    /// The credential is missing, malformed, wrongly signed or expired.
    Unauthenticated,
    /// The caller is known but has no right over the target.
    Unauthorized,
    /// A referenced account, article or username does not exist.
    NotFound,
    /// A uniqueness rule would be broken.
    Conflict,
    /// Login failed; which of the two fields was wrong is not told.
    InvalidCredentials,
    /// The store failed in a way the caller cannot act on.
    Internal,
}

/// What a caller receives on failure: the kind, a message and a stable code.
#[derive(Debug)]
pub struct FieldError {
    pub kind: ErrorKind,
    pub message: String,
    pub code: String,
}

/// The failures of the store layer.
#[derive(Clone, Copy, Debug, PartialEq, Eq, Structural)]
pub enum DbError {
    /// No row matches.
    NotFound,
    /// A row with the same key or unique column exists already.
    UniqueViolation,
    /// The offset or the limit of a page is negative.
    InvalidWindow,
    /// The id sequence of a table has no value left.
    SequenceExhausted,
}

impl ErrorKind {
    /// The message shown for a kind.
    pub open spec fn spec_message(self) -> Seq<char> {
        match self {
            ErrorKind::Unauthenticated => "Unauthenticated"@,
            ErrorKind::Unauthorized => "Unauthorized"@,
            ErrorKind::NotFound => "Not found"@,
            ErrorKind::Conflict => "Conflict"@,
            ErrorKind::InvalidCredentials => "Invalid username or password"@,
            ErrorKind::Internal => "Internal Server Error"@,
        }
    }

    /// The code attached to a kind.
    pub open spec fn spec_code(self) -> Seq<char> {
        match self {
            ErrorKind::Unauthenticated => "unauthenticated"@,
            ErrorKind::Unauthorized => "unauthorized"@,
            ErrorKind::NotFound => "not.found"@,
            ErrorKind::Conflict => "conflict"@,
            ErrorKind::InvalidCredentials => "invalid.username.or.password"@,
            ErrorKind::Internal => "internal.server.error"@,
        }
    }

    /// The kind under which a store failure is reported.
    pub open spec fn of_db(e: DbError) -> ErrorKind {
        match e {
            DbError::NotFound => ErrorKind::NotFound,
            DbError::UniqueViolation => ErrorKind::Conflict,
            DbError::InvalidWindow => ErrorKind::Internal,
            DbError::SequenceExhausted => ErrorKind::Internal,
        }
    }

    /// The message shown for the kind.
    pub fn message(self) -> (r: String)
        ensures
            r@ == self.spec_message(),
    {
        match self {
            ErrorKind::Unauthenticated => "Unauthenticated".to_owned(),
            ErrorKind::Unauthorized => "Unauthorized".to_owned(),
            ErrorKind::NotFound => "Not found".to_owned(),
            ErrorKind::Conflict => "Conflict".to_owned(),
            ErrorKind::InvalidCredentials => "Invalid username or password".to_owned(),
            ErrorKind::Internal => "Internal Server Error".to_owned(),
        }
    }

    /// The code attached to the kind.
    pub fn code(self) -> (r: String)
        ensures
            r@ == self.spec_code(),
    {
        match self {
            ErrorKind::Unauthenticated => "unauthenticated".to_owned(),
            ErrorKind::Unauthorized => "unauthorized".to_owned(),
            ErrorKind::NotFound => "not.found".to_owned(),
            ErrorKind::Conflict => "conflict".to_owned(),
            ErrorKind::InvalidCredentials => "invalid.username.or.password".to_owned(),
            ErrorKind::Internal => "internal.server.error".to_owned(),
        }
    }

    /// Builds the error a caller receives for this kind.
    pub fn into_field_error(self) -> (r: FieldError)
        ensures
            r.kind == self,
            r.message@ == self.spec_message(),
            r.code@ == self.spec_code(),
    {
        FieldError { kind: self, message: self.message(), code: self.code() }
    }
}

impl FieldError {
    /// Reports a store failure: a missing row as `NotFound`, a uniqueness
    /// violation as `Conflict`, anything else as `Internal`. No detail of the
    /// store's failure is carried over.
    pub fn from_db(e: DbError) -> (r: FieldError)
        ensures
            r.kind == ErrorKind::of_db(e),
            r.message@ == r.kind.spec_message(),
            r.code@ == r.kind.spec_code(),
    {
        let kind = match e {
            DbError::NotFound => ErrorKind::NotFound,
            DbError::UniqueViolation => ErrorKind::Conflict,
            DbError::InvalidWindow => ErrorKind::Internal,
            DbError::SequenceExhausted => ErrorKind::Internal,
        };
        kind.into_field_error()
    }
}


/// The result is the failure that `kind` is reported as.
pub open spec fn fails_with<T>(r: Result<T, FieldError>, kind: ErrorKind) -> bool {
    &&& r is Err
    &&& r->Err_0.kind == kind
    &&& r->Err_0.message@ == kind.spec_message()
    &&& r->Err_0.code@ == kind.spec_code()
}

} // verus!
