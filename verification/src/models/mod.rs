//! Rows as they are stored, and the shapes handed back to callers.

pub mod project;
pub mod session;
pub mod user;
