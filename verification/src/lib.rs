//! The decision core of an asynchronous supervision bridge.

pub mod acceptance;
pub mod clock;
pub mod events;
pub mod executor;
pub mod ids;
pub mod laws;
pub mod mcp;
pub mod middleware;
pub mod models;
pub mod observe;
pub mod paths;
pub mod ranges;
pub mod registry;
pub mod service;
pub mod session;
pub mod text;
pub mod worktree;
