//! Refreshing the index of a project.

pub mod dependencies;
pub mod build_cs;
pub mod project;
pub mod files;
pub mod rows;
