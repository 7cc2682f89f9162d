//! Conversions between the protocols of clients and of upstreams.

pub mod chat;
pub mod error_body;
pub mod lifecycle;
pub mod markers;
pub mod messages;
pub mod metering;
pub mod response_lifecycle;
pub mod responses;
pub mod web_search;
