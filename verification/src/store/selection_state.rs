//! What the choice of an endpoint remembers: which backend a caller is pinned to, and how many
//! tokens each endpoint was asked for in the current minute.

use vstd::prelude::*;

use crate::clock::Moment;

verus! {

/// A caller's pin to a backend.
#[derive(Debug)]
pub struct PinEntry {
    pub backend_name: String,
    /// When the pin ends.
    pub expires_at: Moment,
}

/// What a pin says.
pub struct PinView {
    pub backend_name: Seq<char>,
    pub expires_at: Moment,
}

impl View for PinEntry {
    type V = PinView;

    open spec fn view(&self) -> PinView {
        PinView { backend_name: self.backend_name@, expires_at: self.expires_at }
    }
}

impl PinView {
    /// Whether the pin has ended.
    pub open spec fn expired(self, now: Moment) -> bool {
        now.nanos >= self.expires_at.nanos
    }
}

impl PinEntry {
    /// Whether the pin has ended.
    pub fn is_expired(&self, now: Moment) -> (res: bool)
        ensures
            res == self@.expired(now),
    {
        now.nanos >= self.expires_at.nanos
    }
}

/// The length of a budget window in nanoseconds: one minute.
pub const WINDOW_NANOS: u64 = 60_000_000_000;

/// The tokens that an endpoint was asked for in a window of one minute.
#[derive(Debug, Clone, Copy, PartialEq, Eq)]
pub struct TpmCounter {
    /// When the window began.
    pub window_start_nanos: u64,
    /// Tokens debited in advance and not yet trued up.
    pub debited: u64,
    /// Tokens that finished requests used.
    pub actual: u64,
}

impl TpmCounter {
    /// Whether the window is over: a minute has passed since it began.
    pub open spec fn stale(self, now: Moment) -> bool {
        now.nanos - self.window_start_nanos >= WINDOW_NANOS
    }

    /// The counter at `now`: a window that is over gives way to a new one.
    pub open spec fn rolled(self, now: Moment) -> TpmCounter {
        if self.stale(now) {
            TpmCounter { window_start_nanos: now.nanos, debited: 0, actual: 0 }
        } else {
            self
        }
    }

    /// The debit together with a request, as far as a `u64` can count it.
    pub open spec fn total_with(self, input_tokens: u64) -> u64 {
        if self.debited + input_tokens > u64::MAX {
            u64::MAX
        } else {
            (self.debited + input_tokens) as u64
        }
    }

    /// The counter after an attempt to debit a request.
    pub open spec fn after_debit(self, input_tokens: u64, cap: u64, now: Moment) -> TpmCounter {
        let fresh = self.rolled(now);
        if fresh.total_with(input_tokens) > cap {
            fresh
        } else {
            TpmCounter { debited: fresh.total_with(input_tokens), ..fresh }
        }
    }

    /// The counter after a request was settled.
    pub open spec fn after_true_up(self, pre_debited: u64, actual_tokens: u64) -> TpmCounter {
        TpmCounter {
            window_start_nanos: self.window_start_nanos,
            debited: if pre_debited <= self.debited {
                (self.debited - pre_debited) as u64
            } else {
                0
            },
            actual: self.actual.wrapping_add(actual_tokens),
        }
    }

    /// Whether a request would go over the cap.
    pub open spec fn refuses(self, input_tokens: u64, cap: u64, now: Moment) -> bool {
        !self.stale(now) && self.total_with(input_tokens) > cap
    }

    /// Starts a window.
    pub fn new(now: Moment) -> (res: TpmCounter)
        ensures
            res == (TpmCounter { window_start_nanos: now.nanos, debited: 0, actual: 0 }),
    {
        TpmCounter { window_start_nanos: now.nanos, debited: 0, actual: 0 }
    }

    /// Debits a request in advance, unless that goes over the cap. Gives the total with the
    /// request, and whether it is over the cap; a request that is over the cap uses up nothing.
    pub fn check_and_debit(&mut self, input_tokens: u64, cap: u64, now: Moment) -> (res: (u64, bool))
        ensures
            res.0 == old(self).rolled(now).total_with(input_tokens),
            res.1 == (res.0 > cap),
            *final(self) == old(self).after_debit(input_tokens, cap, now),
    {
        if now.nanos.saturating_sub(self.window_start_nanos) >= WINDOW_NANOS {
            self.debited = 0;
            self.actual = 0;
            self.window_start_nanos = now.nanos;
        }
        let total: u64 = self.debited.saturating_add(input_tokens);
        let over = total > cap;
        if !over {
            self.debited = total;
        }
        (total, over)
    }

    /// Whether a request would go over the cap; nothing is debited. A window that is over has
    /// its whole budget again.
    pub fn check(&self, input_tokens: u64, cap: u64, now: Moment) -> (res: bool)
        ensures
            res == (!self.stale(now) && self.total_with(input_tokens) > cap),
            res == self.refuses(input_tokens, cap, now),
    {
        if now.nanos.saturating_sub(self.window_start_nanos) >= WINDOW_NANOS {
            return false;
        }
        self.debited.saturating_add(input_tokens) > cap
    }

    /// Settles a finished request: its debit is released and what it used is recorded.
    pub fn trued_up(&mut self, pre_debited: u64, actual_tokens: u64)
        ensures
            *final(self) == old(self).after_true_up(pre_debited, actual_tokens),
    {
        self.actual = self.actual.wrapping_add(actual_tokens);
        let released: u64 = if pre_debited <= self.debited {
            pre_debited
        } else {
            self.debited
        };
        self.debited = self.debited - released;
    }
}

/// A debit that is accepted stays within the cap and never lowers what is debited: the total that
/// it gave is what is debited then. One that is refused uses up nothing.
pub proof fn law_debits_stay_within_the_cap(
    counter: TpmCounter,
    input_tokens: u64,
    cap: u64,
    now: Moment,
)
    ensures
        counter.rolled(now).total_with(input_tokens) <= cap ==> counter.after_debit(
            input_tokens,
            cap,
            now,
        ).debited <= cap,
        counter.rolled(now).total_with(input_tokens) <= cap ==> counter.after_debit(
            input_tokens,
            cap,
            now,
        ).debited == counter.rolled(now).total_with(input_tokens),
        counter.after_debit(input_tokens, cap, now).debited >= counter.rolled(now).debited,
        counter.rolled(now).total_with(input_tokens) > cap ==> counter.after_debit(
            input_tokens,
            cap,
            now,
        ) == counter.rolled(now),
{
}

/// A request that is debited and then settled leaves the budget as it was, whatever it used.
pub proof fn law_true_up_frees_the_debit(
    counter: TpmCounter,
    input_tokens: u64,
    actual_tokens: u64,
    cap: u64,
    now: Moment,
)
    requires
        counter.rolled(now).debited + input_tokens <= cap,
    ensures
        ({
            let settled = counter.after_debit(input_tokens, cap, now).after_true_up(
                input_tokens,
                actual_tokens,
            );
            &&& settled.debited == counter.rolled(now).debited
            &&& settled.window_start_nanos == counter.rolled(now).window_start_nanos
        }),
{
}

/// The check says what an attempt to debit would say, but for a request that is larger than the
/// whole budget of a window that has just begun anew.
pub proof fn law_check_foretells_the_debit(
    counter: TpmCounter,
    input_tokens: u64,
    cap: u64,
    now: Moment,
)
    requires
        !counter.stale(now) || input_tokens <= cap,
    ensures
        (!counter.stale(now) && counter.total_with(input_tokens) > cap) == (counter.rolled(
            now,
        ).total_with(input_tokens) > cap),
{
}

/// A window lasts a minute: the budget is whole again then, and not before.
pub proof fn law_budget_returns_after_a_minute(counter: TpmCounter, now: Moment)
    ensures
        now.nanos >= counter.window_start_nanos + WINDOW_NANOS ==> counter.rolled(now).debited == 0
            && counter.rolled(now).window_start_nanos == now.nanos,
        now.nanos < counter.window_start_nanos + WINDOW_NANOS ==> counter.rolled(now) == counter,
{
}

/// A concurrent map.
#[verifier::external_type_specification]
#[verifier::external_body]
#[verifier::reject_recursive_types(K)]
#[verifier::reject_recursive_types(V)]
#[verifier::reject_recursive_types(S)]
pub struct ExDashMap<K, V, S>(dashmap::DashMap<K, V, S>);

/// The map of pins: of each caller the backend's name, and when the pin ends.
pub type PinMap = dashmap::DashMap<String, (String, u64)>;

/// The map of counters: of each endpoint the start of the window, the debit, and the use.
pub type CounterMap = dashmap::DashMap<String, (u64, u64, u64)>;

/// What a map of pins holds.
pub uninterp spec fn pins_held(pins: PinMap) -> Map<Seq<char>, (Seq<char>, u64)>;

/// What a map of counters holds.
pub uninterp spec fn counters_held(counters: CounterMap) -> Map<Seq<char>, (u64, u64, u64)>;

/// `DashMap::new` makes an empty map.
#[verifier::external_body]
fn new_pins() -> (res: PinMap)
    ensures
        (pins_held(res) == Map::<Seq<char>, (Seq<char>, u64)>::empty()),
{
    dashmap::DashMap::new()
}

/// `DashMap::get` finds the value of a key, where the map has one.
#[verifier::external_body]
fn get_pin(pins: &PinMap, key: &str) -> (res: Option<(String, u64)>)
    ensures
        match res {
            Some(pin) => pins_held(*pins).contains_key(key@) && pins_held(*pins)[key@] == (
                pin.0@,
                pin.1,
            ),
            None => !pins_held(*pins).contains_key(key@),
        },
{
    match pins.get(key) {
        Some(found) => Some(found.value().clone()),
        None => None,
    }
}

/// `DashMap::insert` sets the value of a key, in place of an earlier one.
#[verifier::external_body]
fn insert_pin(pins: &mut PinMap, key: String, backend_name: String, expires_at: u64)
    ensures
        pins_held(*final(pins)) == pins_held(*old(pins)).insert(key@, (backend_name@, expires_at)),
{
    pins.insert(key, (backend_name, expires_at));
}

/// `DashMap::new` makes an empty map.
#[verifier::external_body]
fn new_counters() -> (res: CounterMap)
    ensures
        (counters_held(res) == Map::<Seq<char>, (u64, u64, u64)>::empty()),
{
    dashmap::DashMap::new()
}

/// `DashMap::get` finds the value of a key, where the map has one.
#[verifier::external_body]
fn get_counter(counters: &CounterMap, key: &str) -> (res: Option<(u64, u64, u64)>)
    ensures
        match res {
            Some(counter) => counters_held(*counters).contains_key(key@) && counters_held(
                *counters,
            )[key@] == counter,
            None => !counters_held(*counters).contains_key(key@),
        },
{
    match counters.get(key) {
        Some(found) => Some(*found.value()),
        None => None,
    }
}

/// `DashMap::insert` sets the value of a key, in place of an earlier one.
#[verifier::external_body]
fn insert_counter(counters: &mut CounterMap, key: String, counter: (u64, u64, u64))
    ensures
        counters_held(*final(counters)) == counters_held(*old(counters)).insert(key@, counter),
{
    counters.insert(key, counter);
}

/// The state that the choice of an endpoint goes by.
pub struct SelectionState {
    pins: PinMap,
    tpm: CounterMap,
}

/// What the state of selection says.
pub struct SelectionView {
    /// The pin of each caller that has one.
    pub pins: Map<Seq<char>, PinView>,
    /// The counter of each endpoint that has one.
    pub tpm: Map<Seq<char>, TpmCounter>,
}

impl View for SelectionState {
    type V = SelectionView;

    closed spec fn view(&self) -> SelectionView {
        SelectionView {
            pins: pins_held(self.pins).map_values(
                |pin: (Seq<char>, u64)|
                    PinView { backend_name: pin.0, expires_at: Moment { nanos: pin.1 } },
            ),
            tpm: counters_held(self.tpm).map_values(
                |counter: (u64, u64, u64)|
                    TpmCounter {
                        window_start_nanos: counter.0,
                        debited: counter.1,
                        actual: counter.2,
                    },
            ),
        }
    }
}

impl Default for SelectionState {
    fn default() -> (res: SelectionState)
        ensures
            (res@.pins == Map::<Seq<char>, PinView>::empty()),
            (res@.tpm == Map::<Seq<char>, TpmCounter>::empty()),
    {
        let res = SelectionState { pins: new_pins(), tpm: new_counters() };
        assert(res@.pins =~= Map::empty());
        assert(res@.tpm =~= Map::empty());
        res
    }
}

impl SelectionState {
    /// The pin of a caller.
    pub fn pin(&self, key: &str) -> (res: Option<PinEntry>)
        ensures
            match res {
                Some(entry) => self@.pins.contains_key(key@) && self@.pins[key@] == entry@,
                None => !self@.pins.contains_key(key@),
            },
    {
        match get_pin(&self.pins, key) {
            Some((backend_name, nanos)) => Some(
                PinEntry { backend_name, expires_at: Moment { nanos } },
            ),
            None => None,
        }
    }

    /// Pins a caller to a backend, in place of an earlier pin.
    pub fn set_pin(&mut self, key: String, entry: PinEntry)
        ensures
            final(self)@.pins == old(self)@.pins.insert(key@, entry@),
            final(self)@.tpm == old(self)@.tpm,
    {
        insert_pin(&mut self.pins, key, entry.backend_name, entry.expires_at.nanos);
        assert(self@.pins =~= old(self)@.pins.insert(key@, entry@));
    }

    /// The counter of an endpoint.
    pub fn counter(&self, endpoint_name: &str) -> (res: Option<TpmCounter>)
        ensures
            match res {
                Some(counter) => self@.tpm.contains_key(endpoint_name@)
                    && self@.tpm[endpoint_name@] == counter,
                None => !self@.tpm.contains_key(endpoint_name@),
            },
    {
        match get_counter(&self.tpm, endpoint_name) {
            Some((window_start_nanos, debited, actual)) => Some(
                TpmCounter { window_start_nanos, debited, actual },
            ),
            None => None,
        }
    }

    /// Sets the counter of an endpoint, in place of an earlier one.
    pub fn set_counter(&mut self, endpoint_name: String, counter: TpmCounter)
        ensures
            final(self)@.tpm == old(self)@.tpm.insert(endpoint_name@, counter),
            final(self)@.pins == old(self)@.pins,
    {
        insert_counter(
            &mut self.tpm,
            endpoint_name,
            (counter.window_start_nanos, counter.debited, counter.actual),
        );
        assert(self@.tpm =~= old(self)@.tpm.insert(endpoint_name@, counter));
    }
}

} // verus!
