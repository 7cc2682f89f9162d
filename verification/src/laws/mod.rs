//! What the library promises as a whole, stated of what goes in and what comes out.

pub mod chat;
pub mod detection;
pub mod documents;
pub mod endpoints;
pub mod errors;
pub mod frames;
pub mod messages;
pub mod policies;
pub mod probing;
pub mod reports;
pub mod responses;
pub mod streams;
