//! The long-running index server.

pub mod utils;
pub mod frame;
pub mod rpc;
pub mod state;
pub mod asset;
pub mod graph;
pub mod watcher;
pub mod lifecycle;
