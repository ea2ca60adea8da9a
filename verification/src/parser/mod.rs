//! Parsers of source files.

pub mod cpp;
pub mod symbols;
