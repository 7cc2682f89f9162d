//! The capacity policy: how much an endpoint takes on before it counts as full.

use std::time::Duration;

use vstd::prelude::*;

verus! {

/// The caps of an endpoint.
#[derive(Debug, Clone)]
pub struct Policy {
    /// The most requests in flight at one time.
    pub inflight_cap: Option<i32>,
    /// The tokens that the endpoint may be asked for in a minute.
    pub tpm_per_minute: Option<i64>,
    /// How long a refused caller is held off.
    pub cooldown: Option<Duration>,
}

impl Default for Policy {
    fn default() -> (res: Policy)
        ensures
            res.inflight_cap is None,
            res.tpm_per_minute is None,
            res.cooldown is None,
    {
        Policy { inflight_cap: None, tpm_per_minute: None, cooldown: None }
    }
}

} // verus!
