//! Policies on HTTP traffic and the health of its backends.

pub mod capacity;
pub mod health_prober;
pub mod retry;
pub mod sticky;
