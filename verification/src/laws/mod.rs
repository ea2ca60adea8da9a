//! What holds of the library as a whole.

pub mod assets;
pub mod buffer;
pub mod config;
pub mod cursor;
pub mod diagnostics;
pub mod edits;
pub mod goto;
pub mod parser;
pub mod paths;
pub mod queries;
pub mod refresh;
pub mod server;
pub mod store;
pub mod syntax;
pub mod texts;
pub mod usages;
