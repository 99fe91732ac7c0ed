//! What the operations of the library are for, stated of their calls: each law holds of every
//! result that a call may give.

pub mod captures;
pub mod control;
pub mod controls;
pub mod copies;
pub mod displays;
pub mod handles;
pub mod input;
pub mod isolated;
pub mod launching;
pub mod panel;
pub mod paths;
pub mod permits;
pub mod pictures;
pub mod previews;
pub mod processes;
pub mod requests;
pub mod sending;
pub mod sequences;
pub mod sessions;
pub mod starting;
pub mod streams;
pub mod takeover;
pub mod texts;
pub mod typing;
pub mod values;
pub mod watching;
