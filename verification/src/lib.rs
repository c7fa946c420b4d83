//! A URL-shortening mapping engine: short tokens for long URIs, a bounded
//! first-in-first-out cache over a durable table of records, and the
//! read / insert / delete rules that keep the two consistent.

pub mod actor;
pub mod alphabet;
pub mod cache;
pub mod config;
pub mod encoding;
pub mod error;
pub mod laws;
pub mod model;
pub mod params;
pub mod store;
pub mod transport;
