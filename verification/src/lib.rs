//! Supervision of one sandboxed application session.
//!
//! A session is one launch of the sandbox front-end. The supervisor registers
//! it in a directory shared by all sessions of the user, waits for the
//! launcher and then for the sandboxed workload, which may outlive the
//! launcher, and terminates the shared helper daemons when no other session
//! is left. This library holds what is decided on the way, each decision with
//! its contract; to spawn, to wait, to read and to signal is left to the
//! caller.
//!
//! - [`flatpaksession`]: the session, which answers each report of its caller
//!   with the next action to take.
//! - [`protocol`]: what holds of every run of a session.
//! - [`locator`]: the sandbox instance that belongs to a launcher, and the
//!   workload's process id in its descriptor.
//! - [`registry`]: the registry of active sessions, and who is the last.
//! - [`util`]: processes by executable name, their paths, and their probes.
//! - [`path`], [`text`]: paths and decimal numbers as text.
//! - [`json`]: the boundary to the JSON parser.
//! - [`error`]: the two kinds of failure.

pub mod error;
pub mod flatpaksession;
pub mod json;
pub mod locator;
pub mod path;
pub mod protocol;
pub mod registry;
pub mod text;
pub mod util;
