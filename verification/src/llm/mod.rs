//! Requests to language models: server tools, policies and the choice of an endpoint.

pub mod policy;
pub mod selection;
pub mod web_search;
