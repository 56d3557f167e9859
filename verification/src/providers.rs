//! Model providers: their kinds, settings and request shapes.

pub mod adapter;
pub mod anthropic;
pub mod openai;
pub mod registry;
