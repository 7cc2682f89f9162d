//! State that outlives a request.

pub mod selection_state;
