//! Verified core of a personal time tracker: identities and their credentials,
//! projects, timed work sessions, and the record of who is signed in.
//!
//! The tables live in a [`db::Database`] value; every operation is a function
//! on that value with a contract over its view, so that the rules of the
//! session timer and of sign-in are proved rather than tested.

//!
//! - [`models`]: the rows of each table and the shapes handed back to callers.
//! - [`db`]: the tables themselves, and what the storage enforces of them.
//! - [`services`]: the operations on identities, projects and sessions.
//! - [`state`]: who is signed in, as the running process knows it.
//! - [`commands`]: the operations as whoever is signed in calls them.
//! - [`credential`], [`clock`], [`avatar`]: password hashing, the time, and
//!   file names for avatars, each around a call into another crate.
//! - [`text`]: comparing, ordering and normalizing text.
//! - [`error`]: the failures an operation can report.
//! - [`theorems`]: what holds of the storage whatever is done to it.

pub mod avatar;
pub mod clock;
pub mod commands;
pub mod credential;
pub mod db;
pub mod error;
pub mod models;
pub mod services;
pub mod state;
pub mod text;
pub mod theorems;
