//! Permission broker for local computer use.

pub mod authority;
pub mod backend;
pub mod identifier;
pub mod ipc;
pub mod json;
pub mod laws;
pub mod mcp;
pub mod model;
pub mod number;
pub mod path;
pub mod picture;
pub mod policy;
pub mod table;
pub mod text;
pub mod ui;
