//! The small part of the background-session protocol that a process without a
//! session multiplexer needs: it still owns detached sessions itself.

pub mod auth;
pub mod catalog;
pub mod laws;
pub mod paths;
pub mod protocol;
