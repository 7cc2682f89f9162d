//! What the choice of an endpoint promises.

use std::collections::hash_map::DefaultHasher;

use vstd::prelude::*;
use vstd::std_specs::hash::DefaultHasherAdditionalSpecFns;

use crate::clock::Moment;
use crate::http::capacity::Policy as CapacityPolicy;
use crate::llm::selection;
use crate::llm::selection::{EndpointInfo, SelectionContext};
use crate::store::selection_state::{PinEntry, PinView, SelectionState, SelectionView, TpmCounter};

verus! {

/// Whether a request goes over the token cap of an endpoint: its minute is not over yet, and what
/// was debited in it and the request make more than the cap.
pub open spec fn exceeds_budget(
    counters: Map<Seq<char>, TpmCounter>,
    endpoint_name: Seq<char>,
    tokens: u32,
    cap: i64,
    now: Moment,
) -> bool {
    &&& counters.contains_key(endpoint_name)
    &&& now.nanos < counters[endpoint_name].window_start_nanos + 60_000_000_000
    &&& counters[endpoint_name].debited + tokens > cap
}

/// An endpoint with as many requests in flight as its cap allows is full, whatever its token
/// budget is.
pub proof fn law_inflight_cap_stands_alone(
    endpoint_name: Seq<char>,
    info: EndpointInfo,
    input_tokens: Option<u32>,
    capacity: &CapacityPolicy,
    state: Option<SelectionView>,
    now: Moment,
)
    requires
        capacity.inflight_cap is Some,
        capacity.inflight_cap->0 <= info.pending_requests <= i32::MAX,
    ensures
        selection::over_capacity(endpoint_name, info, input_tokens, Some(capacity), state, now),
{
}

/// An endpoint whose token cap a request exceeds is full for it, whatever its cap of requests in
/// flight is.
pub proof fn law_token_cap_stands_alone(
    endpoint_name: Seq<char>,
    info: EndpointInfo,
    tokens: u32,
    capacity: &CapacityPolicy,
    state: SelectionView,
    now: Moment,
)
    requires
        capacity.tpm_per_minute is Some,
        0 <= capacity.tpm_per_minute->0,
        exceeds_budget(state.tpm, endpoint_name, tokens, capacity.tpm_per_minute->0, now),
    ensures
        selection::over_capacity(
            endpoint_name,
            info,
            Some(tokens),
            Some(capacity),
            Some(state),
            now,
        ),
{
}

/// An endpoint that is full has reached its cap of requests in flight, or the request exceeds its
/// token cap: nothing else makes it full.
pub proof fn law_full_means_a_cap_is_reached(
    endpoint_name: Seq<char>,
    info: EndpointInfo,
    input_tokens: Option<u32>,
    capacity: Option<&CapacityPolicy>,
    state: Option<SelectionView>,
    now: Moment,
)
    requires
        selection::over_capacity(endpoint_name, info, input_tokens, capacity, state, now),
        info.pending_requests <= i32::MAX,
        capacity is Some && capacity->0.tpm_per_minute is Some ==> capacity->0.tpm_per_minute->0 >= 0,
    ensures
        capacity is Some,
        ({
            ||| capacity->0.inflight_cap is Some && info.pending_requests
                >= capacity->0.inflight_cap->0
            ||| {
                &&& capacity->0.tpm_per_minute is Some
                &&& state is Some
                &&& input_tokens is Some
                &&& exceeds_budget(
                    state->0.tpm,
                    endpoint_name,
                    input_tokens->0,
                    capacity->0.tpm_per_minute->0,
                    now,
                )
            }
        }),
{
}

/// A larger request never fits where a smaller one does not, and more requests in flight never
/// make room.
pub proof fn law_more_load_is_never_less_full(
    endpoint_name: Seq<char>,
    info: EndpointInfo,
    more: EndpointInfo,
    tokens: u32,
    more_tokens: u32,
    capacity: Option<&CapacityPolicy>,
    state: Option<SelectionView>,
    now: Moment,
)
    requires
        info.pending_requests <= more.pending_requests <= i32::MAX,
        tokens <= more_tokens,
        selection::over_capacity(endpoint_name, info, Some(tokens), capacity, state, now),
    ensures
        selection::over_capacity(endpoint_name, more, Some(more_tokens), capacity, state, now),
{
}

/// A caller is pinned to the backend of its pin until the moment at which the pin ends, and to no
/// other; a caller without a key or without a pin is pinned to none.
pub proof fn law_a_pin_holds_until_it_ends(
    endpoint_name: Seq<char>,
    key: Seq<char>,
    state: SelectionView,
    pin: PinView,
    now: Moment,
)
    ensures
        state.pins.contains_key(key) && state.pins[key] == pin ==> (selection::pinned_to(
            endpoint_name,
            Some(key),
            Some(state),
            now,
        ) <==> now.nanos < pin.expires_at.nanos && pin.backend_name == endpoint_name),
        !state.pins.contains_key(key) ==> !selection::pinned_to(
            endpoint_name,
            Some(key),
            Some(state),
            now,
        ),
        !selection::pinned_to(endpoint_name, None, Some(state), now),
        !selection::pinned_to(endpoint_name, Some(key), None, now),
{
}

/// The factors, in tenths: a pin doubles the score, one on a full endpoint raises it by a fifth,
/// and a full endpoint without a pin has half.
pub proof fn law_factors_of_the_score(pinned: bool, full: bool)
    ensures
        pinned && !full ==> selection::bias(pinned, full) == 2 * 10,
        pinned && full ==> 5 * selection::bias(pinned, full) == 6 * 10,
        !pinned && !full ==> selection::bias(pinned, full) == 10,
        !pinned && full ==> 2 * selection::bias(pinned, full) == 10,
{
}

/// Of the endpoints of the greatest weight the last one is chosen: there is a place of it at
/// which nothing before weighs more and everything after weighs less.
pub proof fn law_last_of_the_heaviest_is_chosen(key: Seq<char>, names: Seq<Seq<char>>, k: int)
    requires
        0 <= k < names.len(),
        forall|j: int|
            0 <= j < k ==> selection::weight(key, #[trigger] names[j]) <= selection::weight(
                key,
                names[k],
            ),
        forall|j: int|
            k < j < names.len() ==> selection::weight(key, #[trigger] names[j]) < selection::weight(
                key,
                names[k],
            ),
    ensures
        selection::heaviest(key, names) == Some(names[k]),
    decreases names.len(),
{
    let n = names.len() - 1;
    let shorter = names.drop_last();
    if k < n {
        assert forall|j: int| 0 <= j < k implies selection::weight(key, #[trigger] shorter[j])
            <= selection::weight(key, shorter[k]) by {
            assert(shorter[j] == names[j]);
        }
        assert forall|j: int| k < j < shorter.len() implies selection::weight(
            key,
            #[trigger] shorter[j],
        ) < selection::weight(key, shorter[k]) by {
            assert(shorter[j] == names[j]);
        }
        law_last_of_the_heaviest_is_chosen(key, shorter, k);
        assert(selection::weight(key, names[n]) < selection::weight(key, names[k]));
    } else if n > 0 {
        selection::law_choice_is_the_heaviest(key, shorter);
        let best = selection::heaviest(key, shorter)->0;
        let j = choose|j: int| 0 <= j < shorter.len() && shorter[j] == best;
        assert(names[j] == best);
    }
}

/// Nothing is chosen exactly where nothing is offered.
pub proof fn law_nothing_offered_nothing_chosen(key: Seq<char>, names: Seq<Seq<char>>)
    ensures
        selection::heaviest(key, names) is None <==> names.len() == 0,
{
    if names.len() > 0 {
        selection::law_choice_is_the_heaviest(key, names);
    }
}

/// The weight of an endpoint is the hash of the key and then of its name.
pub proof fn law_weight_is_the_hash_of_key_and_name(key: Seq<char>, name: Seq<char>)
    ensures
        selection::weight(key, name) == DefaultHasher::spec_finish(
            selection::hash_writes(key) + selection::hash_writes(name),
        ),
{
}

/// The names of the endpoints are taken one by one, in their order.
pub proof fn law_endpoints_are_taken_one_by_one(names: Seq<&str>)
    ensures
        selection::names_view(names).len() == names.len(),
        forall|i: int|
            0 <= i < names.len() ==> #[trigger] selection::names_view(names)[i] == names[i]@,
{
}

/// A window of a token budget: it is over once sixty seconds have passed, and then everything in
/// it is forgotten.
pub proof fn law_a_window_lasts_sixty_seconds(counter: TpmCounter, now: Moment)
    ensures
        counter.stale(now) <==> now.nanos >= counter.window_start_nanos + 60_000_000_000,
        counter.stale(now) ==> counter.rolled(now).debited == 0 && counter.rolled(now).actual == 0
            && counter.rolled(now).window_start_nanos == now.nanos,
        !counter.stale(now) ==> counter.rolled(now) == counter,
{
}

/// A debit of a window adds up: what is accepted is the sum, where a `u64` can hold it, and
/// neither the window nor the recorded use is touched.
pub proof fn law_debits_add_up(counter: TpmCounter, tokens: u64, cap: u64, now: Moment)
    requires
        !counter.stale(now),
    ensures
        counter.debited + tokens <= u64::MAX ==> counter.total_with(tokens) == counter.debited
            + tokens,
        counter.debited + tokens > u64::MAX ==> counter.total_with(tokens) == u64::MAX,
        counter.debited + tokens <= cap ==> counter.after_debit(tokens, cap, now).debited
            == counter.debited + tokens,
        counter.debited + tokens > cap && cap < u64::MAX ==> counter.after_debit(tokens, cap, now)
            == counter,
        counter.after_debit(tokens, cap, now).actual == counter.actual,
        counter.after_debit(tokens, cap, now).window_start_nanos == counter.window_start_nanos,
{
}

/// A check refuses a request exactly where the window is not over and what was debited and the
/// request make more than the cap.
pub proof fn law_what_a_check_refuses(counter: TpmCounter, tokens: u64, cap: u64, now: Moment)
    ensures
        cap < u64::MAX ==> (counter.refuses(tokens, cap, now) <==> now.nanos
            < counter.window_start_nanos + 60_000_000_000 && counter.debited + tokens > cap),
        cap == u64::MAX ==> !counter.refuses(tokens, cap, now),
{
}

/// A settled request records what it used and releases its debit, as far as there is one.
pub proof fn law_settling_records_the_use(counter: TpmCounter, pre_debited: u64, actual_tokens: u64)
    ensures
        counter.actual + actual_tokens <= u64::MAX ==> counter.after_true_up(
            pre_debited,
            actual_tokens,
        ).actual == counter.actual + actual_tokens,
        pre_debited <= counter.debited ==> counter.after_true_up(
            pre_debited,
            actual_tokens,
        ).debited + pre_debited == counter.debited,
        pre_debited > counter.debited ==> counter.after_true_up(
            pre_debited,
            actual_tokens,
        ).debited == 0,
        counter.after_true_up(pre_debited, actual_tokens).window_start_nanos
            == counter.window_start_nanos,
        counter.actual + actual_tokens > u64::MAX ==> counter.after_true_up(
            pre_debited,
            actual_tokens,
        ).actual == counter.actual + actual_tokens - 0x1_0000_0000_0000_0000,
{
}

/// The key of a caller and the state of selection are those of the call.
pub proof fn law_key_and_state_are_those_of_the_call(ctx: SelectionContext, state: &SelectionState)
    ensures
        ctx.key is None <==> selection::key_of(ctx) is None,
        ctx.key is Some ==> selection::key_of(ctx)->0 == ctx.key->0@,
        selection::opt_state(Some(state)) == Some(state@),
        selection::opt_state(None) is None,
{
}

/// A pin says the backend and the moment that it holds, and it has ended once that moment has
/// come.
pub proof fn law_a_pin_says_what_it_holds(entry: PinEntry, now: Moment)
    ensures
        entry@.backend_name == entry.backend_name@,
        entry@.expires_at == entry.expires_at,
        entry@.expired(now) <==> now.nanos >= entry.expires_at.nanos,
{
}

/// A token cap is compared as a number without a sign, so that one below zero stands for one that
/// is far out of reach. A request of unknown size, and an endpoint whose tokens are not counted,
/// exceed no cap.
pub proof fn law_token_caps_are_compared_without_a_sign(
    endpoint_name: Seq<char>,
    tokens: u32,
    cap: i64,
    state: SelectionView,
    now: Moment,
)
    ensures
        cap < 0 && state.tpm.contains_key(endpoint_name) && !state.tpm[endpoint_name].stale(now) ==> (
        selection::budget_full(endpoint_name, Some(tokens), Some(cap), Some(state), now)
            <==> state.tpm[endpoint_name].total_with(tokens as u64) > cap + 0x1_0000_0000_0000_0000),
        !selection::budget_full(endpoint_name, None, Some(cap), Some(state), now),
        !selection::budget_full(endpoint_name, Some(tokens), None, Some(state), now),
        !selection::budget_full(endpoint_name, Some(tokens), Some(cap), None, now),
        !state.tpm.contains_key(endpoint_name) ==> !selection::budget_full(
            endpoint_name,
            Some(tokens),
            Some(cap),
            Some(state),
            now,
        ),
{
    assert(cap < 0 ==> cap as u64 == cap + 0x1_0000_0000_0000_0000) by (bit_vector);
}

/// Requests in flight are compared with a cap as 32-bit numbers of either sign.
pub proof fn law_requests_in_flight_are_compared_as_i32(pending: usize, cap: i32)
    ensures
        !selection::inflight_full(pending, None),
        ({
            let low = pending as int % 0x1_0000_0000;
            let signed = if low < 0x8000_0000 {
                low
            } else {
                low - 0x1_0000_0000
            };
            selection::inflight_full(pending, Some(cap)) <==> signed >= cap
        }),
{
    let p: u64 = pending as u64;
    let low: u64 = p % 0x1_0000_0000;
    assert(low < 0x8000_0000 ==> p as i32 == low as i64) by (bit_vector)
        requires
            low == p % 0x1_0000_0000,
    ;
    assert(low >= 0x8000_0000 && low < 0x1_0000_0000 ==> p as i32 == low as i64 - 0x1_0000_0000)
        by (bit_vector)
        requires
            low == p % 0x1_0000_0000,
    ;
}

} // verus!
