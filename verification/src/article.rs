//! Articles, their tags and favorites, listings and the feed.

pub mod db;
pub mod errors;
pub mod model;
pub mod resolvers;
