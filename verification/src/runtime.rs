//! A minimal table of sessions by id.

pub mod session_runtime;
