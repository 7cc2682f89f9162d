//! The sticky policy: callers keep their backend for as long as it may still know them.

use std::time::Duration;

use vstd::prelude::*;

verus! {

/// How callers are pinned.
#[derive(Debug, Clone)]
pub struct Policy {
    /// The expression that gives a caller's key.
    pub key: Option<String>,
    /// How long a pin lasts after its last use.
    pub ttl: Option<Duration>,
}

/// The sticky policy as it is configured.
pub struct LocalSticky {
    pub key: Option<String>,
    pub ttl: Option<Duration>,
}

impl Default for Policy {
    fn default() -> (res: Policy)
        ensures
            res.key is None,
            res.ttl is None,
    {
        Policy { key: None, ttl: None }
    }
}

impl Default for LocalSticky {
    fn default() -> (res: LocalSticky)
        ensures
            res.key is None,
            res.ttl is None,
    {
        LocalSticky { key: None, ttl: None }
    }
}

impl From<LocalSticky> for Policy {
    fn from(local: LocalSticky) -> (res: Policy) {
        Policy { key: local.key, ttl: local.ttl }
    }
}

impl vstd::std_specs::convert::FromSpecImpl<LocalSticky> for Policy {
    open spec fn obeys_from_spec() -> bool {
        true
    }

    open spec fn from_spec(local: LocalSticky) -> Policy {
        Policy { key: local.key, ttl: local.ttl }
    }
}

} // verus!
