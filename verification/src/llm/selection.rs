//! The choice of an endpoint: the bias of sticky callers and of full endpoints, and consistent
//! hashing.

use std::collections::hash_map::DefaultHasher;
use std::hash::Hash;

use vstd::prelude::*;
use vstd::std_specs::hash::DefaultHasherAdditionalSpecFns;

use crate::clock::Moment;
use crate::http::capacity::Policy as CapacityPolicy;
use crate::store::selection_state::{SelectionState, SelectionView};
use crate::text::str_eq;

verus! {

/// Who asks, and for how much.
#[derive(Debug, Clone, Copy)]
pub struct SelectionContext<'a> {
    /// The caller's key, where callers are pinned.
    pub key: Option<&'a str>,
    /// The size of the request, where endpoints have a token budget.
    pub input_tokens: Option<u32>,
    /// Whether callers without a pin are spread by consistent hashing.
    pub consistent_hash: bool,
}

impl<'a> SelectionContext<'a> {
    /// No caller and no size: nothing biases the choice.
    pub fn none() -> (res: SelectionContext<'a>)
        ensures
            res.key is None,
            res.input_tokens is None,
            !res.consistent_hash,
    {
        SelectionContext { key: None, input_tokens: None, consistent_hash: false }
    }
}

/// What is known of an endpoint's load.
#[derive(Debug, Clone, Copy, PartialEq, Eq)]
pub struct EndpointInfo {
    /// Requests in flight.
    pub pending_requests: usize,
}

impl EndpointInfo {
    /// The number of requests in flight.
    pub fn pending_requests_count(&self) -> (res: usize)
        ensures
            res == self.pending_requests,
    {
        self.pending_requests
    }
}

/// The bias of an endpoint, in tenths: the caller is pinned to it and it is not full.
pub const PINNED_UNDER_CAP: u32 = 20;

/// The bias of an endpoint, in tenths: the caller is pinned to it, but it is full.
pub const PINNED_OVER_CAP: u32 = 12;

/// The bias of an endpoint, in tenths: the caller is not pinned to it, and it is not full.
pub const UNPINNED_UNDER_CAP: u32 = 10;

/// The bias of an endpoint, in tenths: the caller is not pinned to it, and it is full.
pub const UNPINNED_OVER_CAP: u32 = 5;

/// What an optional state of selection says.
pub open spec fn opt_state(state: Option<&SelectionState>) -> Option<SelectionView> {
    match state {
        Some(s) => Some(s@),
        None => None,
    }
}

/// The caller's key as a text.
pub open spec fn key_of(ctx: SelectionContext) -> Option<Seq<char>> {
    match ctx.key {
        Some(key) => Some(key@),
        None => None,
    }
}

/// Whether a caller is pinned to an endpoint, by a pin that has not ended.
pub open spec fn pinned_to(
    endpoint_name: Seq<char>,
    key: Option<Seq<char>>,
    state: Option<SelectionView>,
    now: Moment,
) -> bool {
    match (key, state) {
        (Some(k), Some(s)) => s.pins.contains_key(k) && !s.pins[k].expired(now)
            && s.pins[k].backend_name == endpoint_name,
        _ => false,
    }
}

/// Whether a caller is pinned to an endpoint.
pub fn is_pinned(
    endpoint_name: &str,
    ctx: &SelectionContext<'_>,
    selection_state: Option<&SelectionState>,
    now: Moment,
) -> (res: bool)
    ensures
        res == pinned_to(endpoint_name@, key_of(*ctx), opt_state(selection_state), now),
{
    let key: &str = match ctx.key {
        Some(key) => key,
        None => return false,
    };
    let state: &SelectionState = match selection_state {
        Some(state) => state,
        None => return false,
    };
    match state.pin(key) {
        Some(entry) => !entry.is_expired(now) && str_eq(entry.backend_name.as_str(), endpoint_name),
        None => false,
    }
}

/// Whether as many requests are in flight as the cap allows.
pub open spec fn inflight_full(pending: usize, cap: Option<i32>) -> bool {
    match cap {
        Some(c) => #[verifier::truncate]
        (pending as i32) >= c,
        None => false,
    }
}

/// Whether a request would go over the token budget of an endpoint. An endpoint without a
/// counter has its whole budget.
pub open spec fn budget_full(
    endpoint_name: Seq<char>,
    input_tokens: Option<u32>,
    cap: Option<i64>,
    state: Option<SelectionView>,
    now: Moment,
) -> bool {
    match (cap, state, input_tokens) {
        (Some(c), Some(s), Some(tokens)) => s.tpm.contains_key(endpoint_name) && {
            let counter = s.tpm[endpoint_name];
            !counter.stale(now) && counter.total_with(tokens as u64) > #[verifier::truncate]
            (c as u64)
        },
        _ => false,
    }
}

/// Whether an endpoint is full for a request.
pub open spec fn over_capacity(
    endpoint_name: Seq<char>,
    info: EndpointInfo,
    input_tokens: Option<u32>,
    capacity: Option<&CapacityPolicy>,
    state: Option<SelectionView>,
    now: Moment,
) -> bool {
    match capacity {
        Some(cap) => inflight_full(info.pending_requests, cap.inflight_cap) || budget_full(
            endpoint_name,
            input_tokens,
            cap.tpm_per_minute,
            state,
            now,
        ),
        None => false,
    }
}

/// Whether an endpoint is full for a request; nothing is debited.
pub fn is_over_capacity(
    endpoint_name: &str,
    info: &EndpointInfo,
    ctx: &SelectionContext<'_>,
    capacity: Option<&CapacityPolicy>,
    selection_state: Option<&SelectionState>,
    now: Moment,
) -> (res: bool)
    ensures
        res == over_capacity(
            endpoint_name@,
            *info,
            ctx.input_tokens,
            capacity,
            opt_state(selection_state),
            now,
        ),
{
    let cap: &CapacityPolicy = match capacity {
        Some(cap) => cap,
        None => return false,
    };
    let inflight_over = match cap.inflight_cap {
        Some(c) => #[verifier::truncate]
        (info.pending_requests_count() as i32) >= c,
        None => false,
    };
    let tpm_over = match (cap.tpm_per_minute, selection_state, ctx.input_tokens) {
        (Some(tpm_cap), Some(state), Some(tokens)) => match state.counter(endpoint_name) {
            Some(counter) => counter.check(
                tokens as u64,
                #[verifier::truncate]
                (tpm_cap as u64),
                now,
            ),
            None => false,
        },
        _ => false,
    };
    inflight_over || tpm_over
}

/// The bias of an endpoint, in tenths.
pub open spec fn bias(pinned: bool, over_cap: bool) -> u32 {
    match (pinned, over_cap) {
        (true, false) => PINNED_UNDER_CAP,
        (true, true) => PINNED_OVER_CAP,
        (false, false) => UNPINNED_UNDER_CAP,
        (false, true) => UNPINNED_OVER_CAP,
    }
}

/// The factor, in tenths, by which the raw score of an endpoint is multiplied for a request.
pub fn score_bias(
    endpoint_name: &str,
    info: &EndpointInfo,
    ctx: &SelectionContext<'_>,
    selection_state: Option<&SelectionState>,
    capacity: Option<&CapacityPolicy>,
    now: Moment,
) -> (res: u32)
    ensures
        res == bias(
            pinned_to(endpoint_name@, key_of(*ctx), opt_state(selection_state), now),
            over_capacity(
                endpoint_name@,
                *info,
                ctx.input_tokens,
                capacity,
                opt_state(selection_state),
                now,
            ),
        ),
{
    let pinned = is_pinned(endpoint_name, ctx, selection_state, now);
    let over_cap = is_over_capacity(endpoint_name, info, ctx, capacity, selection_state, now);
    match (pinned, over_cap) {
        (true, false) => PINNED_UNDER_CAP,
        (true, true) => PINNED_OVER_CAP,
        (false, false) => UNPINNED_UNDER_CAP,
        (false, true) => UNPINNED_OVER_CAP,
    }
}

/// Without a policy nothing biases the choice: the raw score stands.
pub proof fn law_no_policy_is_neutral(
    endpoint_name: Seq<char>,
    info: EndpointInfo,
    key: Option<Seq<char>>,
    input_tokens: Option<u32>,
    now: Moment,
)
    ensures
        bias(
            pinned_to(endpoint_name, key, None, now),
            over_capacity(endpoint_name, info, input_tokens, None, None, now),
        ) == 10,
{
}

/// A pin always raises the bias of an endpoint and a full endpoint always has a lower one, so
/// the four biases are ordered: pinned, pinned but full, neither, full.
pub proof fn law_biases_are_ordered()
    ensures
        bias(true, false) > bias(true, true),
        bias(true, true) > bias(false, false),
        bias(false, false) > bias(false, true),
{
}

/// A caller is pinned to at most one endpoint at a time.
pub proof fn law_one_pin_per_caller(
    one: Seq<char>,
    other: Seq<char>,
    key: Option<Seq<char>>,
    state: Option<SelectionView>,
    now: Moment,
)
    requires
        pinned_to(one, key, state, now),
        pinned_to(other, key, state, now),
    ensures
        one == other,
{
}

/// A pin that has ended stays so.
pub proof fn law_ended_pins_stay_ended(
    endpoint_name: Seq<char>,
    key: Option<Seq<char>>,
    state: Option<SelectionView>,
    now: Moment,
    later: Moment,
)
    requires
        now.nanos <= later.nanos,
        pinned_to(endpoint_name, key, state, later),
    ensures
        pinned_to(endpoint_name, key, state, now),
{
}

/// What `str::hash` writes into a hasher.
pub uninterp spec fn hash_writes(text: Seq<char>) -> Seq<Seq<u8>>;

/// `str::hash` feeds a text into a hasher; the text alone determines what is written.
#[verifier::external_body]
fn hash_text(text: &str, hasher: &mut DefaultHasher)
    ensures
        final(hasher)@ == old(hasher)@ + hash_writes(text@),
{
    text.hash(hasher);
}

/// The weight of an endpoint for a key: the hash of the key and the endpoint's name.
pub open spec fn weight(key: Seq<char>, name: Seq<char>) -> u64 {
    DefaultHasher::spec_finish(hash_writes(key) + hash_writes(name))
}

/// The endpoint of the greatest weight; of several the last one.
pub open spec fn heaviest(key: Seq<char>, names: Seq<Seq<char>>) -> Option<Seq<char>>
    decreases names.len(),
{
    if names.len() == 0 {
        None
    } else {
        match heaviest(key, names.drop_last()) {
            Some(best) => if weight(key, names.last()) >= weight(key, best) {
                Some(names.last())
            } else {
                Some(best)
            },
            None => Some(names.last()),
        }
    }
}

/// The names of a list of endpoints.
pub open spec fn names_view(names: Seq<&str>) -> Seq<Seq<char>> {
    names.map_values(|n: &str| n@)
}

fn endpoint_weight(key: &str, name: &str) -> (res: u64)
    ensures
        res == weight(key@, name@),
{
    let mut hasher = DefaultHasher::new();
    hash_text(key, &mut hasher);
    hash_text(name, &mut hasher);
    assert(hasher@ =~= hash_writes(key@) + hash_writes(name@));
    std::hash::Hasher::finish(&hasher)
}

/// Chooses an endpoint by rendezvous hashing: the one of the greatest weight for the key.
pub fn consistent_select<'a>(key: &str, endpoints: &[&'a str]) -> (res: Option<&'a str>)
    ensures
        match res {
            Some(name) => heaviest(key@, names_view(endpoints@)) == Some(name@),
            None => endpoints@.len() == 0,
        },
{
    let mut best: Option<(&'a str, u64)> = None;
    let ghost names = names_view(endpoints@);
    for i in 0..endpoints.len()
        invariant
            names == names_view(endpoints@),
            match best {
                Some((name, heft)) => heaviest(key@, names.take(i as int)) == Some(name@) && heft
                    == weight(key@, name@),
                None => i == 0,
            },
    {
        assert(names.take(i + 1).drop_last() == names.take(i as int));
        let name: &'a str = endpoints[i];
        let heft: u64 = endpoint_weight(key, name);
        let wins = match best {
            Some((_, most)) => heft >= most,
            None => true,
        };
        if wins {
            best = Some((name, heft));
        }
    }
    assert(names.take(names.len() as int) == names);
    match best {
        Some((name, _)) => Some(name),
        None => None,
    }
}

/// Whether the endpoint at `k` is the last of the greatest weight.
spec fn wins_at(key: Seq<char>, names: Seq<Seq<char>>, k: int) -> bool {
    &&& 0 <= k < names.len()
    &&& forall|j: int|
        0 <= j < names.len() ==> weight(key, #[trigger] names[j]) <= weight(key, names[k])
    &&& forall|j: int|
        k < j < names.len() ==> weight(key, #[trigger] names[j]) < weight(key, names[k])
}

proof fn lemma_winner(key: Seq<char>, names: Seq<Seq<char>>, k: int)
    requires
        wins_at(key, names, k),
    ensures
        heaviest(key, names) == Some(names[k]),
    decreases names.len(),
{
    let shorter = names.drop_last();
    let last = names.len() - 1;
    if k < last {
        assert forall|j: int| 0 <= j < shorter.len() implies weight(key, #[trigger] shorter[j])
            <= weight(key, shorter[k]) by {
            assert(shorter[j] == names[j]);
        }
        assert forall|j: int| k < j < shorter.len() implies weight(key, #[trigger] shorter[j])
            < weight(key, shorter[k]) by {
            assert(shorter[j] == names[j]);
        }
        lemma_winner(key, shorter, k);
        assert(weight(key, names[last]) < weight(key, names[k]));
    } else if shorter.len() > 0 {
        let other = lemma_has_winner(key, shorter);
        lemma_winner(key, shorter, other);
        assert(weight(key, names[other]) <= weight(key, names[k]));
    }
}

proof fn lemma_has_winner(key: Seq<char>, names: Seq<Seq<char>>) -> (k: int)
    requires
        names.len() > 0,
    ensures
        wins_at(key, names, k),
    decreases names.len(),
{
    let last = names.len() - 1;
    let shorter = names.drop_last();
    if shorter.len() == 0 {
        last
    } else {
        let best = lemma_has_winner(key, shorter);
        assert forall|j: int| 0 <= j < last implies weight(key, #[trigger] names[j]) <= weight(
            key,
            names[best],
        ) by {
            assert(shorter[j] == names[j]);
        }
        assert forall|j: int| best < j < last implies weight(key, #[trigger] names[j]) < weight(
            key,
            names[best],
        ) by {
            assert(shorter[j] == names[j]);
        }
        if weight(key, names[last]) >= weight(key, names[best]) {
            last
        } else {
            best
        }
    }
}

/// The chosen endpoint is one of those offered, and none of them weighs more.
pub proof fn law_choice_is_the_heaviest(key: Seq<char>, names: Seq<Seq<char>>)
    requires
        names.len() > 0,
    ensures
        heaviest(key, names) is Some,
        names.contains(heaviest(key, names)->0),
        forall|j: int|
            0 <= j < names.len() ==> weight(key, #[trigger] names[j]) <= weight(
                key,
                heaviest(key, names)->0,
            ),
{
    let k = lemma_has_winner(key, names);
    lemma_winner(key, names, k);
}

/// Removing an endpoint moves only the keys that were on it.
pub proof fn law_removal_moves_only_its_own_keys(key: Seq<char>, names: Seq<Seq<char>>, i: int)
    requires
        0 <= i < names.len(),
        heaviest(key, names) != Some(names[i]),
    ensures
        heaviest(key, names.remove(i)) == heaviest(key, names),
{
    let k = lemma_has_winner(key, names);
    lemma_winner(key, names, k);
    let fewer = names.remove(i);
    let at = if k < i {
        k
    } else {
        k - 1
    };
    assert(k != i);
    assert(fewer[at] == names[k]);
    assert forall|j: int| 0 <= j < fewer.len() implies weight(key, #[trigger] fewer[j]) <= weight(
        key,
        fewer[at],
    ) by {
        assert(fewer[j] == if j < i {
            names[j]
        } else {
            names[j + 1]
        });
    }
    assert forall|j: int| at < j < fewer.len() implies weight(key, #[trigger] fewer[j]) < weight(
        key,
        fewer[at],
    ) by {
        assert(fewer[j] == if j < i {
            names[j]
        } else {
            names[j + 1]
        });
    }
    lemma_winner(key, fewer, at);
}

/// Adding an endpoint moves keys to it and nowhere else.
pub proof fn law_addition_moves_keys_only_to_it(
    key: Seq<char>,
    names: Seq<Seq<char>>,
    i: int,
    added: Seq<char>,
)
    requires
        0 <= i <= names.len(),
    ensures
        heaviest(key, names.insert(i, added)) == Some(added) || heaviest(key, names.insert(i, added))
            == heaviest(key, names),
{
    let more = names.insert(i, added);
    if heaviest(key, more) != Some(more[i]) {
        law_removal_moves_only_its_own_keys(key, more, i);
        assert(more.remove(i) =~= names);
    }
}

/// The order in which endpoints are offered does not matter, as long as no two of them weigh
/// the same: the same endpoints give the same choice.
pub proof fn law_order_does_not_matter(key: Seq<char>, names: Seq<Seq<char>>, others: Seq<Seq<char>>)
    requires
        forall|n: Seq<char>| names.contains(n) <==> others.contains(n),
        forall|a: Seq<char>, b: Seq<char>|
            names.contains(a) && names.contains(b) && weight(key, a) == weight(key, b) ==> a == b,
    ensures
        heaviest(key, names) == heaviest(key, others),
{
    if names.len() == 0 {
        if others.len() > 0 {
            assert(others.contains(others[0]));
            assert(names.contains(others[0]));
        }
    } else {
        assert(names.contains(names[0]));
        assert(others.contains(names[0]));
        law_choice_is_the_heaviest(key, names);
        law_choice_is_the_heaviest(key, others);
        let one = heaviest(key, names)->0;
        let other = heaviest(key, others)->0;
        assert(others.contains(one) && names.contains(other));
    }
}

} // verus!
