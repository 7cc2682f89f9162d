//! The retry policy: how often a request is tried, and for which answers.

use std::time::Duration;

use vstd::prelude::*;

verus! {

/// The retry policy as it is configured: what may be left out is optional.
pub struct RawPolicy {
    pub attempts: Option<u8>,
    pub backoff: Option<Duration>,
    pub codes: Vec<u16>,
    pub max_replay_bytes: Option<usize>,
    pub precondition: Option<String>,
    pub condition: Option<String>,
}

/// How requests are retried.
#[derive(Debug, Clone)]
pub struct Policy {
    /// The number of attempts, the first one included. Never zero.
    pub attempts: u8,
    /// The time between two attempts.
    pub backoff: Option<Duration>,
    /// The status codes for which a request is retried.
    pub codes: Vec<u16>,
    /// The most bytes of a request's body that are kept for another attempt.
    pub max_replay_bytes: usize,
    /// An expression on the request: where it is false nothing is retried.
    pub precondition: Option<String>,
    /// An expression on the answer: where it is true the request is retried.
    pub condition: Option<String>,
}

/// Why a configured policy is refused.
#[derive(Debug, Clone, Copy, PartialEq, Eq, Structural)]
pub enum PolicyError {
    /// No attempt at all was asked for.
    ZeroAttempts,
    /// This is no HTTP status code.
    InvalidStatusCode(u16),
}

/// Whether a number is an HTTP status code.
pub open spec fn is_status_code(code: u16) -> bool {
    100 <= code <= 999
}

/// `http::StatusCode::from_u16` takes the numbers from 100 to 999, and `as_u16` gives them back.
#[verifier::external_body]
fn status_code(code: u16) -> (res: Option<u16>)
    ensures
        res == (if is_status_code(code) {
            Some(code)
        } else {
            None
        }),
{
    match ::http::StatusCode::from_u16(code) {
        Ok(status) => Some(status.as_u16()),
        Err(_) => None,
    }
}

/// Whether all numbers of a list are HTTP status codes.
pub open spec fn all_status_codes(codes: Seq<u16>) -> bool {
    forall|i: int| 0 <= i < codes.len() ==> is_status_code(#[trigger] codes[i])
}

/// Whether `code` is the first number of a list that is no HTTP status code.
pub open spec fn first_bad_code(codes: Seq<u16>, code: u16) -> bool {
    exists|i: int|
        0 <= i < codes.len() && #[trigger] codes[i] == code && !is_status_code(code)
            && all_status_codes(codes.take(i))
}

/// Reads a list of status codes. The first number that is none is refused.
pub fn de_codes(raw: Vec<u16>) -> (res: Result<Vec<u16>, PolicyError>)
    ensures
        match res {
            Ok(codes) => codes@ == raw@ && all_status_codes(raw@),
            Err(error) => match error {
                PolicyError::InvalidStatusCode(code) => first_bad_code(raw@, code),
                PolicyError::ZeroAttempts => false,
            },
        },
        res is Ok <==> all_status_codes(raw@),
{
    let mut codes: Vec<u16> = Vec::new();
    for i in 0..raw.len()
        invariant
            codes@ == raw@.take(i as int),
            all_status_codes(raw@.take(i as int)),
    {
        match status_code(raw[i]) {
            Some(code) => {
                codes.push(code);
                assert(raw@.take(i + 1) =~= raw@.take(i as int).push(code));
            },
            None => {
                assert(!is_status_code(raw@[i as int]));
                return Err(PolicyError::InvalidStatusCode(raw[i]));
            },
        }
    }
    assert(raw@.take(raw@.len() as int) == raw@);
    Ok(codes)
}

/// The number of attempts where none is configured.
pub fn default_attempts() -> (res: u8)
    ensures
        res == 1,
{
    1
}

/// The bytes of a body that are kept where nothing is configured: 64 KiB.
pub fn default_max_replay_bytes() -> (res: usize)
    ensures
        res == 65536,
{
    64 * 1024
}

/// The bytes of a body that are kept: zero stands for the default.
pub open spec fn replay_bytes(raw: usize) -> usize {
    if raw == 0 {
        65536
    } else {
        raw
    }
}

/// Reads the bytes of a body that are kept. Zero stands for the default.
pub fn de_max_replay_bytes(raw: usize) -> (res: usize)
    ensures
        res == replay_bytes(raw),
{
    if raw == 0 {
        default_max_replay_bytes()
    } else {
        raw
    }
}

impl RawPolicy {
    /// Whether a configured policy can be read.
    pub open spec fn is_readable(self) -> bool {
        self.attempts != Some(0u8) && all_status_codes(self.codes@)
    }

    /// Whether a policy is the one that is configured.
    pub open spec fn gives(self, policy: Policy) -> bool {
        &&& policy.attempts == (match self.attempts {
            Some(n) => n,
            None => 1,
        })
        &&& policy.backoff == self.backoff
        &&& policy.codes@ == self.codes@
        &&& policy.max_replay_bytes == replay_bytes(
            match self.max_replay_bytes {
                Some(n) => n,
                None => 0,
            },
        )
        &&& policy.precondition == self.precondition
        &&& policy.condition == self.condition
    }
}

impl Policy {
    /// A policy that makes at least one attempt, goes by status codes only, and keeps some of a
    /// request's body.
    pub open spec fn well_formed(self) -> bool {
        &&& self.attempts >= 1
        &&& all_status_codes(self.codes@)
        &&& self.max_replay_bytes > 0
    }

    /// Reads a configured policy.
    pub fn from_raw(raw: RawPolicy) -> (res: Result<Policy, PolicyError>)
        ensures
            match res {
                Ok(policy) => {
                    &&& policy.well_formed()
                    &&& policy.attempts == (match raw.attempts {
                        Some(n) => n,
                        None => 1,
                    })
                    &&& policy.backoff == raw.backoff
                    &&& policy.codes@ == raw.codes@
                    &&& policy.max_replay_bytes == replay_bytes(
                        match raw.max_replay_bytes {
                            Some(n) => n,
                            None => 0,
                        },
                    )
                    &&& policy.precondition == raw.precondition
                    &&& policy.condition == raw.condition
                    &&& raw.gives(policy)
                },
                Err(PolicyError::ZeroAttempts) => raw.attempts == Some(0u8),
                Err(PolicyError::InvalidStatusCode(code)) => raw.attempts != Some(0u8)
                    && first_bad_code(raw.codes@, code),
            },
            res is Ok <==> raw.attempts != Some(0u8) && all_status_codes(raw.codes@),
            res is Ok <==> raw.is_readable(),
    {
        let attempts: u8 = match raw.attempts {
            Some(n) => n,
            None => default_attempts(),
        };
        if attempts == 0 {
            return Err(PolicyError::ZeroAttempts);
        }
        let codes: Vec<u16> = match de_codes(raw.codes) {
            Ok(codes) => codes,
            Err(error) => return Err(error),
        };
        let max_replay_bytes: usize = match raw.max_replay_bytes {
            Some(n) => de_max_replay_bytes(n),
            None => default_max_replay_bytes(),
        };
        Ok(
            Policy {
                attempts,
                backoff: raw.backoff,
                codes,
                max_replay_bytes,
                precondition: raw.precondition,
                condition: raw.condition,
            },
        )
    }

    /// The expressions of the policy: the one on the request, then the one on the answer.
    pub open spec fn expression_texts(self) -> Seq<Seq<char>> {
        let before = match self.precondition {
            Some(text) => seq![text@],
            None => Seq::empty(),
        };
        match self.condition {
            Some(text) => before.push(text@),
            None => before,
        }
    }

    /// The expressions of the policy: the one on the request, then the one on the answer.
    pub fn expressions(&self) -> (res: Vec<&str>)
        ensures
            res@.map_values(|t: &str| t@) == self.expression_texts(),
    {
        let mut out: Vec<&str> = Vec::new();
        if let Some(text) = &self.precondition {
            out.push(text.as_str());
        }
        if let Some(text) = &self.condition {
            out.push(text.as_str());
        }
        assert(out@.map_values(|t: &str| t@) =~= self.expression_texts());
        out
    }
}

/// A limit of zero, like one that is left out, never turns retries off: some of the body is
/// always kept, and both stand for the same limit.
pub proof fn law_zero_is_the_default_limit(raw: usize)
    ensures
        replay_bytes(raw) > 0,
        replay_bytes(0) == 65536,
        raw > 0 ==> replay_bytes(raw) == raw,
{
}

/// At most one number of a list is its first that is no status code.
pub proof fn law_first_bad_code_is_unique(codes: Seq<u16>, one: u16, other: u16)
    requires
        first_bad_code(codes, one),
        first_bad_code(codes, other),
    ensures
        one == other,
{
    let i = choose|i: int|
        0 <= i < codes.len() && #[trigger] codes[i] == one && !is_status_code(one)
            && all_status_codes(codes.take(i));
    let j = choose|j: int|
        0 <= j < codes.len() && #[trigger] codes[j] == other && !is_status_code(other)
            && all_status_codes(codes.take(j));
    if i < j {
        assert(is_status_code(codes.take(j)[i]));
    }
    if j < i {
        assert(is_status_code(codes.take(i)[j]));
    }
}

} // verus!
