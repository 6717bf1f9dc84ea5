//! Content-and-identity core of a social blogging service.
//!
//! The crate holds the relational data of the service (accounts, articles,
//! tags, follow and favorite edges) in a [`db::Store`], and the operations on
//! it: registration and login, the follow graph, article creation with tag
//! upsert, filtered listings and the personalised feed. Every operation is
//! verified against a contract over the store's tables.

pub mod errors;

pub mod edges;
pub mod changes;
pub mod clock;
pub mod db;
pub mod laws;
pub mod rows;
pub mod schema;
pub mod user;
pub mod article;
