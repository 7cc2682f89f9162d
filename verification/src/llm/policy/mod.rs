//! Policies on requests to language models.

pub mod dimensions;
pub mod usage_report;
pub mod web_search;
