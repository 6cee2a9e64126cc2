//! The operations on the tables, one module for each kind of row.

pub mod project_service;
pub mod session_service;
pub mod user_service;
