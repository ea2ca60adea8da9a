//! Edits of project files.

pub mod layout;
pub mod target;
pub mod uproject;
