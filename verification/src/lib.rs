//! A verified core for an AI gateway.

pub mod clock;
pub mod conversion;
pub mod http;
pub mod json;
pub mod laws;
pub mod llm;
pub mod store;
pub mod target;
pub mod text;
