//! The roots of the operations and the context each operation runs in.

use vstd::prelude::*;
use crate::article::resolvers::{ArticleMutation, ArticleQuery};
use crate::db::Store;

verus! {

/// What an operation runs in: the store, and the bearer token of the
/// caller where one was sent.
#[derive(Debug)]
pub struct Context {
    pub store: Store,
    pub token: Option<String>,
}

/// The root of the read operations.
#[derive(Clone, Copy, Debug, PartialEq, Eq, Structural)]
pub struct QueryRoot;

/// The root of the write operations.
#[derive(Clone, Copy, Debug, PartialEq, Eq, Structural)]
pub struct MutationRoot;

/// The read operations on accounts.
#[derive(Clone, Copy, Debug, PartialEq, Eq, Structural)]
pub struct UsersQuery;

/// The write operations on accounts.
#[derive(Clone, Copy, Debug, PartialEq, Eq, Structural)]
pub struct UsersMutation;

impl QueryRoot {
    /// The read operations on accounts.
    pub fn users() -> (r: UsersQuery)
        ensures
            r == UsersQuery,
    {
        UsersQuery {  }
    }

    /// The read operations on articles.
    pub fn articles() -> (r: ArticleQuery)
        ensures
            r == ArticleQuery,
    {
        ArticleQuery {  }
    }
}

impl MutationRoot {
    /// The write operations on accounts.
    pub fn users() -> (r: UsersMutation)
        ensures
            r == UsersMutation,
    {
        UsersMutation {  }
    }

    /// The write operations on articles.
    pub fn articles() -> (r: ArticleMutation)
        ensures
            r == ArticleMutation,
    {
        ArticleMutation {  }
    }
}

} // verus!
