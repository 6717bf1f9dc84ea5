//! Accounts: credentials, identity tokens and the follow graph.

pub mod auth;
pub mod db;
pub mod errors;
pub mod model;
pub mod resolvers;
