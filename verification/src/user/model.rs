//! What a caller sees of an account.

use vstd::prelude::*;

verus! {

/// A user of the app, with the token that names the account.
#[derive(Debug)]
pub struct User {
    pub email: String,
    pub username: String,
    pub bio: Option<String>,
    pub image: Option<String>,
    pub token: String,
}

/// The profile of a user, as another account sees it.
#[derive(Debug)]
pub struct Profile {
    pub username: String,
    pub bio: Option<String>,
    pub image: Option<String>,
    /// Whether the viewer actively follows the account.
    pub following: bool,
}

} // verus!
