//! Queries on the index.

pub mod asset;
pub mod buffer;
pub mod class;
pub mod config;
pub mod cursor;
pub mod dispatch;
pub mod file;
pub mod goto;
pub mod locate;
pub mod lookup;
pub mod module;
pub mod occurrences;
pub mod search;
pub mod sql;
pub mod usage;
