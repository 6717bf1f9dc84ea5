//! The failures of the article operations.

use vstd::prelude::*;
use crate::errors::{ErrorKind, FieldError};

verus! {

/// What can go wrong for the caller of an article operation.
#[derive(Clone, Copy, Debug, PartialEq, Eq, Structural)]
pub enum ArticleError {
    /// No article has the slug.
    NotFound,
}

impl ArticleError {
    /// The code attached to the failure.
    pub open spec fn spec_code(self) -> Seq<char> {
        match self {
            ArticleError::NotFound => "article.not.found"@,
        }
    }

    /// Builds the error a caller receives.
    pub fn into_field_error(self) -> (r: FieldError)
        ensures
            r.kind == ErrorKind::NotFound,
            r.message@ == ErrorKind::NotFound.spec_message(),
            r.code@ == self.spec_code(),
    {
        match self {
            ArticleError::NotFound => FieldError {
                kind: ErrorKind::NotFound,
                message: ErrorKind::NotFound.message(),
                code: "article.not.found".to_owned(),
            },
        }
    }
}

} // verus!
