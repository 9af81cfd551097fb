//! Session lifecycle of a text-console login manager.
//!
//! The library holds the decisions of a login: which terminal the session
//! runs on, which host session and seat it belongs to, which environment
//! variables it owns, what the accounting record of the login holds, and in
//! which order the steps of a launch and of its teardown are taken. Every
//! effect on the host is described as a plain value; the program around the
//! library performs it.

pub mod accounting;
pub mod environment;
pub mod host;
pub mod identity;
pub mod launch;
pub mod prompt;
pub mod seat;
pub mod text;
pub mod tty;
