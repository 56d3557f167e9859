//! Core of an interactive assistant backend: session registry, stream
//! decoding, history transcoding and the tool-call loop.

use vstd::prelude::*;

pub mod anthropic_stream;
pub mod commands;
pub mod config;
pub mod events;
pub mod history;
pub mod json;
pub mod keyed;
pub mod log_rules;
pub mod openai_stream;
pub mod providers;
pub mod reply;
pub mod runner;
pub mod runtime;
pub mod sse;
pub mod state;
pub mod stream;
pub mod text;
pub mod tool_defs;
pub mod tools;
pub mod turn;
pub mod wire;

verus! {

/// Liveness probe: always answers `"pong"`.
pub fn ping() -> (r: &'static str)
    ensures
        r@ == "pong"@,
{
    "pong"
}

} // verus!
