//! A short-link redirector's core: an expiring cache in front of a durable
//! store of short keys and the long URLs they stand for.

pub mod cache;
pub mod errors;
pub mod handlers;
pub mod history;
pub mod janitor;
pub mod url_store;
pub mod views;
