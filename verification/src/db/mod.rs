//! The index of a project.

pub mod project_path;
pub mod store;
