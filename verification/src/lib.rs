//! Protocol core of a minimal file-upload service.
//!
//! A client names a destination path relative to a server-controlled root
//! directory and then streams the file in length-prefixed chunks, each of
//! which the server acknowledges with a single byte. This crate holds the
//! part of the service that decides: the wire framing, the path-safety
//! rules, and the per-connection state machine. It performs no I/O. A
//! driver asks the machine what to do next, does it, and reports the result
//! back as an event.

pub mod config;
pub mod driver;
pub mod error;
pub mod frame;
pub mod handler;
pub mod name;
pub mod path;
pub mod receiver;
pub mod response;
pub mod session;
