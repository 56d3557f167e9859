//! What the client's commands do to the registry, and what they make due.

pub mod client_event;
pub mod session;
