//! Indexing and query logic for Unreal Engine projects.

pub mod bytes;
pub mod cli;
pub mod db;
pub mod diagnostics;
pub mod edit;
pub mod grammar;
pub mod hash;
pub mod ids;
pub mod laws;
pub mod order;
pub mod parser;
pub mod paths;
pub mod pattern;
pub mod query;
pub mod refresh;
pub mod server;
pub mod spacing;
pub mod syntax;
pub mod text;
pub mod types;
pub mod uasset;
