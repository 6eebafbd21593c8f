//! Access-control core of a read-only OPDS catalog server.
//!
//! The library decides, for each incoming request, whether the request may
//! bypass credential checking because its path matches a configured public
//! glob pattern, and otherwise verifies HTTP Basic-Auth credentials against
//! a store of salted password hashes.

pub mod authorized;
pub mod config;
pub mod format;
pub mod hash;
pub mod pattern;
mod text;
