//! Active health probes: which backends are probed, with what, and what an outcome means.
//!
//! A prober holds the generation of its backend. A reload of the backend moves the generation
//! on, and the prober then ends by itself.

use vstd::hash_map::StringHashMap;
use vstd::hash_set::StringHashSet;
use vstd::prelude::*;

use crate::json;
use crate::json::{object_of, Json, JsonView};
use crate::target;
use crate::target::{hostport, Target, TargetView};
use crate::text;

verus! {

/// The generation of each backend, and the backends that are being probed.
///
/// A backend keeps its place in the list of generations for good, so that a prober can go on
/// asking for the generation at its place.
pub struct ProberGenerationRegistry {
    slots: StringHashMap<usize>,
    generations: Vec<u64>,
    in_flight: StringHashSet,
}

/// What a registry says.
pub struct RegistryView {
    /// The place of each backend that was ever claimed.
    pub slots: Map<Seq<char>, usize>,
    /// The generation at each place.
    pub generations: Seq<u64>,
    /// The backends that are being probed.
    pub in_flight: Set<Seq<char>>,
}

impl RegistryView {
    /// Each backend has a place of its own, and a place has a number.
    pub open spec fn well_formed(self) -> bool {
        &&& self.generations.len() <= usize::MAX
        &&& forall|key: Seq<char>| #[trigger]
            self.slots.contains_key(key) ==> self.slots[key] < self.generations.len()
        &&& forall|one: Seq<char>, other: Seq<char>| #[trigger]
            self.slots.contains_key(one) && #[trigger] self.slots.contains_key(other)
                && self.slots[one] == self.slots[other] ==> one == other
    }

    /// The generation of a backend; none where it was never claimed.
    pub open spec fn generation_of(self, key: Seq<char>) -> Option<u64> {
        if self.slots.contains_key(key) {
            Some(self.generations[self.slots[key] as int])
        } else {
            None
        }
    }

    /// After a reload of a backend.
    pub open spec fn bumped(self, key: Seq<char>) -> RegistryView {
        match self.generation_of(key) {
            Some(generation) => RegistryView {
                generations: self.generations.update(
                    self.slots[key] as int,
                    generation.wrapping_add(1),
                ),
                ..self
            },
            None => self,
        }
    }

    /// After a prober of a backend started.
    pub open spec fn marked(self, key: Seq<char>) -> RegistryView {
        RegistryView { in_flight: self.in_flight.insert(key), ..self }
    }

    /// After a prober of a backend ended.
    pub open spec fn cleared(self, key: Seq<char>) -> RegistryView {
        RegistryView { in_flight: self.in_flight.remove(key), ..self }
    }

    /// After a claim of a backend that is not being probed: it has a place from then on.
    pub open spec fn claimed(self, key: Seq<char>) -> RegistryView {
        if self.slots.contains_key(key) {
            self
        } else {
            RegistryView {
                slots: self.slots.insert(key, self.generations.len() as usize),
                generations: self.generations.push(0),
                ..self
            }
        }
    }
}

impl View for ProberGenerationRegistry {
    type V = RegistryView;

    closed spec fn view(&self) -> RegistryView {
        RegistryView {
            slots: self.slots@,
            generations: self.generations@,
            in_flight: self.in_flight@,
        }
    }
}

impl Default for ProberGenerationRegistry {
    fn default() -> (res: ProberGenerationRegistry)
        ensures
            (res@.slots == Map::<Seq<char>, usize>::empty()),
            res@.generations.len() == 0,
            res@.in_flight == Set::<Seq<char>>::empty(),
            res@.well_formed(),
    {
        ProberGenerationRegistry {
            slots: StringHashMap::new(),
            generations: Vec::new(),
            in_flight: StringHashSet::new(),
        }
    }
}

impl ProberGenerationRegistry {
    /// Moves the generation of a backend on, so that its prober ends. A backend that was never
    /// claimed has no prober, and nothing changes.
    pub fn bump(&mut self, key: &str)
        requires
            old(self)@.well_formed(),
        ensures
            final(self)@.well_formed(),
            final(self)@ == old(self)@.bumped(key@),
    {
        let found: Option<usize> = match self.slots.get(key) {
            Some(slot) => Some(*slot),
            None => None,
        };
        if let Some(slot) = found {
            assert(self@.slots.contains_key(key@));
            let generation: u64 = self.generations[slot];
            self.generations.set(slot, generation.wrapping_add(1));
        }
    }

    /// Claims the right to probe a backend: its place and its generation, unless it is being
    /// probed already.
    pub fn try_claim_spawn(&mut self, key: &str) -> (res: Option<(usize, u64)>)
        requires
            old(self)@.well_formed(),
        ensures
            final(self)@.well_formed(),
            match res {
                Some((slot, generation)) => {
                    &&& !old(self)@.in_flight.contains(key@)
                    &&& final(self)@ == old(self)@.claimed(key@)
                    &&& slot == final(self)@.slots[key@]
                    &&& final(self)@.generation_of(key@) == Some(generation)
                    &&& !old(self)@.slots.contains_key(key@) ==> slot
                        == old(self)@.generations.len() && generation == 0
                },
                None => old(self)@.in_flight.contains(key@) && final(self)@ == old(self)@,
            },
    {
        if self.in_flight.contains(key) {
            return None;
        }
        let found: Option<usize> = match self.slots.get(key) {
            Some(slot) => Some(*slot),
            None => None,
        };
        assert(self@.slots.contains_key(key@) == (found is Some));
        let slot: usize = match found {
            Some(slot) => slot,
            None => {
                let slot: usize = self.generations.len();
                self.slots.insert(key.to_owned(), slot);
                self.generations.push(0);
                slot
            },
        };
        assert(self.generations.len() <= usize::MAX);
        Some((slot, self.generations[slot]))
    }

    /// The generation at a place, where a backend has that place.
    pub fn generation(&self, slot: usize) -> (res: Option<u64>)
        ensures
            res == (if slot < self@.generations.len() {
                Some(self@.generations[slot as int])
            } else {
                None
            }),
    {
        if slot < self.generations.len() {
            Some(self.generations[slot])
        } else {
            None
        }
    }

    /// Notes that a backend is being probed.
    pub fn mark_in_flight(&mut self, key: &str)
        ensures
            final(self)@ == old(self)@.marked(key@),
    {
        self.in_flight.insert(key.to_owned());
    }

    /// Notes that a backend is no longer being probed.
    pub fn clear_in_flight(&mut self, key: &str)
        ensures
            final(self)@ == old(self)@.cleared(key@),
    {
        self.in_flight.remove(key);
    }
}

/// A reload of a backend ends its prober: the generation that the prober holds is no longer the
/// one at its place.
pub proof fn law_bump_ends_the_prober(registry: RegistryView, key: Seq<char>)
    requires
        registry.well_formed(),
        registry.slots.contains_key(key),
    ensures
        registry.bumped(key).slots[key] == registry.slots[key],
        registry.bumped(key).generations[registry.slots[key] as int]
            != registry.generations[registry.slots[key] as int],
{
}

/// A reload of one backend leaves the probers of all others alone.
pub proof fn law_backends_do_not_interfere(registry: RegistryView, key: Seq<char>, other: Seq<char>)
    requires
        registry.well_formed(),
        key != other,
    ensures
        registry.bumped(key).generation_of(other) == registry.generation_of(other),
        registry.claimed(key).generation_of(other) == registry.generation_of(other),
        registry.bumped(key).slots == registry.slots,
        registry.slots.contains_key(other) ==> registry.claimed(key).slots[other]
            == registry.slots[other],
{
}

/// A reload moves the generation of a backend on by one, which no prober has held as long as the
/// generations do not start over. A reload of a backend that was never claimed changes nothing:
/// a first claim after it still gets the generation zero.
pub proof fn law_bump_moves_one_generation(registry: RegistryView, key: Seq<char>)
    requires
        registry.well_formed(),
    ensures
        registry.bumped(key).well_formed(),
        registry.bumped(key).in_flight == registry.in_flight,
        registry.slots.contains_key(key) && registry.generation_of(key)->0 < u64::MAX ==> registry.bumped(
            key,
        ).generation_of(key) == Some((registry.generation_of(key)->0 + 1) as u64),
        !registry.slots.contains_key(key) ==> registry.bumped(key) == registry,
{
}

/// The first claim of a backend gets the generation zero, also after reloads that came before it.
pub proof fn law_first_claim_gets_generation_zero(registry: RegistryView, key: Seq<char>)
    requires
        registry.well_formed(),
        registry.generations.len() < usize::MAX,
        !registry.slots.contains_key(key),
    ensures
        registry.claimed(key).well_formed(),
        registry.claimed(key).generation_of(key) == Some(0u64),
        registry.bumped(key).claimed(key) == registry.claimed(key),
{
}

/// A backend keeps its place, and a claim after a reload sees the generation that the reload
/// made.
pub proof fn law_claim_sees_the_reload(registry: RegistryView, key: Seq<char>)
    requires
        registry.well_formed(),
        registry.slots.contains_key(key),
    ensures
        registry.bumped(key).claimed(key).slots[key] == registry.slots[key],
        registry.bumped(key).claimed(key).generation_of(key) == Some(
            registry.generation_of(key)->0.wrapping_add(1),
        ),
{
}

/// A backend has at most one prober at a time: from the start of one to its end every claim is
/// refused, and after its end the backend can be claimed again. Other backends go on as before.
pub proof fn law_one_prober_at_a_time(registry: RegistryView, key: Seq<char>, other: Seq<char>)
    ensures
        registry.marked(key).in_flight.contains(key),
        registry.bumped(other).in_flight == registry.in_flight,
        registry.claimed(other).in_flight == registry.in_flight,
        !registry.marked(key).cleared(key).in_flight.contains(key),
        key != other ==> registry.marked(key).in_flight.contains(other)
            == registry.in_flight.contains(other),
        key != other ==> registry.cleared(key).in_flight.contains(other)
            == registry.in_flight.contains(other),
        registry.well_formed() ==> registry.marked(key).well_formed()
            && registry.cleared(key).well_formed(),
{
}

/// What has become of a backend.
#[derive(Debug, Clone, Copy, PartialEq, Eq, Structural)]
pub enum BackendState {
    /// It is gone.
    Dropped,
    /// It is of another kind now.
    NotAi,
    /// It can be probed.
    Ai,
}

/// What a prober does next.
#[derive(Debug, Clone, Copy, PartialEq, Eq, Structural)]
pub enum Sweep {
    /// It ends: the backend was reloaded.
    ExitStale,
    /// It ends: the backend is gone.
    ExitDropped,
    /// It ends: the backend is of another kind now.
    ExitNotAi,
    /// It probes the backend.
    Probe,
}

/// What a prober does after a pause.
pub open spec fn sweep_of(
    current_generation: u64,
    spawned_generation: u64,
    backend: BackendState,
) -> Sweep {
    if current_generation != spawned_generation {
        Sweep::ExitStale
    } else {
        match backend {
            BackendState::Dropped => Sweep::ExitDropped,
            BackendState::NotAi => Sweep::ExitNotAi,
            BackendState::Ai => Sweep::Probe,
        }
    }
}

/// What a prober does after a pause: a reload counts before anything else.
pub fn next_sweep(current_generation: u64, spawned_generation: u64, backend: BackendState) -> (res:
    Sweep)
    ensures
        res == (if current_generation != spawned_generation {
            Sweep::ExitStale
        } else {
            match backend {
                BackendState::Dropped => Sweep::ExitDropped,
                BackendState::NotAi => Sweep::ExitNotAi,
                BackendState::Ai => Sweep::Probe,
            }
        }),
        res == sweep_of(current_generation, spawned_generation, backend),
{
    if current_generation != spawned_generation {
        return Sweep::ExitStale;
    }
    match backend {
        BackendState::Dropped => Sweep::ExitDropped,
        BackendState::NotAi => Sweep::ExitNotAi,
        BackendState::Ai => Sweep::Probe,
    }
}

/// Whether a status code tells of success.
pub open spec fn is_success_code(code: u16) -> bool {
    200 <= code < 300
}

/// Whether a status code tells of success.
pub fn is_success(code: u16) -> (res: bool)
    ensures
        res == is_success_code(code),
{
    200 <= code && code < 300
}

/// Whether a probe succeeded: it was answered, and with success.
pub fn probe_succeeded(status: Option<u16>) -> (res: bool)
    ensures
        res == (status is Some && is_success_code(status->0)),
{
    match status {
        Some(code) => is_success(code),
        None => false,
    }
}

/// The failures in a row after one more probe.
pub open spec fn streak_after(streak: nat, success: bool) -> nat {
    if success {
        0
    } else {
        streak + 1
    }
}

/// Whether a failed probe may evict its endpoint: enough probes have failed in a row. A
/// threshold of zero counts as one.
pub open spec fn evicts(streak: nat, success: bool, threshold: u64) -> bool {
    !success && streak >= if threshold >= 1 {
        threshold as nat
    } else {
        1
    }
}

/// What is recorded of a probe.
#[derive(Debug, Clone, Copy, PartialEq, Eq, Structural)]
pub struct ProbeRecord {
    /// Whether the endpoint is healthy.
    pub healthy: bool,
    /// Whether the probe may evict the endpoint.
    pub may_evict: bool,
}

/// What is recorded of a probe that makes a streak of so many failures.
pub open spec fn record_of(streak: nat, success: bool, threshold: u64) -> ProbeRecord {
    ProbeRecord { healthy: success, may_evict: evicts(streak, success, threshold) }
}

/// Records the outcome of a probe: a failed one always counts against the endpoint's health, and
/// it may evict the endpoint once enough have failed in a row.
pub fn record_outcome(
    success: bool,
    consecutive_threshold: u64,
    probe_consecutive_failures: &mut u64,
) -> (res: ProbeRecord)
    requires
        success || *old(probe_consecutive_failures) < u64::MAX,
    ensures
        *final(probe_consecutive_failures) == streak_after(
            *old(probe_consecutive_failures) as nat,
            success,
        ),
        res.healthy == success,
        res.may_evict == evicts(
            *final(probe_consecutive_failures) as nat,
            success,
            consecutive_threshold,
        ),
        res == record_of(
            *final(probe_consecutive_failures) as nat,
            success,
            consecutive_threshold,
        ),
{
    if success {
        *probe_consecutive_failures = 0;
    } else {
        *probe_consecutive_failures = *probe_consecutive_failures + 1;
    }
    let needed: u64 = if consecutive_threshold >= 1 {
        consecutive_threshold
    } else {
        1
    };
    ProbeRecord {
        healthy: success,
        may_evict: !success && *probe_consecutive_failures >= needed,
    }
}

/// The failures in a row after a list of probes.
pub open spec fn streak(outcomes: Seq<bool>) -> nat
    decreases outcomes.len(),
{
    if outcomes.len() == 0 {
        0
    } else {
        streak_after(streak(outcomes.drop_last()), outcomes.last())
    }
}

/// A probe may evict exactly where it and those before it, as many as the threshold asks for,
/// all failed.
pub proof fn law_eviction_needs_the_whole_streak(outcomes: Seq<bool>, threshold: u64)
    requires
        outcomes.len() > 0,
    ensures
        ({
            let needed: int = if threshold >= 1 {
                threshold as int
            } else {
                1
            };
            evicts(streak(outcomes), outcomes.last(), threshold) <==> outcomes.len() >= needed
                && forall|i: int|
                outcomes.len() - needed <= i < outcomes.len() ==> !#[trigger] outcomes[i]
        }),
{
    lemma_streak(outcomes);
    let n = outcomes.len() as int;
    let run = streak(outcomes) as int;
    let needed: int = if threshold >= 1 {
        threshold as int
    } else {
        1
    };
    if n >= needed && forall|i: int| n - needed <= i < n ==> !#[trigger] outcomes[i] {
        if run < needed {
            assert(outcomes[n - run - 1]);
        }
        assert(!outcomes[n - 1]);
    }
}

/// The streak counts the failures at the end, and a success or nothing comes before them.
proof fn lemma_streak(outcomes: Seq<bool>)
    ensures
        streak(outcomes) <= outcomes.len(),
        forall|i: int|
            outcomes.len() - streak(outcomes) <= i < outcomes.len() ==> !#[trigger] outcomes[i],
        streak(outcomes) < outcomes.len() ==> outcomes[outcomes.len() - streak(outcomes) - 1],
    decreases outcomes.len(),
{
    if outcomes.len() > 0 {
        let shorter = outcomes.drop_last();
        lemma_streak(shorter);
        if !outcomes.last() {
            assert forall|i: int|
                outcomes.len() - streak(outcomes) <= i < outcomes.len() implies !#[trigger] outcomes[i] by {
                if i < shorter.len() {
                    assert(!shorter[i]);
                }
            }
        }
    }
}

/// A provider that is to be probed.
pub struct Provider {
    /// Its name, which is also the name of its model.
    pub name: String,
    /// Its own host, where it has one.
    pub host_override: Option<Target>,
    /// The default host of its kind, where there is one.
    pub default_target: Option<Target>,
}

/// The backend whose policies a probe goes by.
pub struct BackendRef {
    pub name: String,
    pub namespace: String,
    pub section: String,
}

/// A probe that is ready to be set up: a POST to a target.
pub struct ProbeRequest {
    pub target: Target,
    pub content_type: &'static str,
    pub accept: &'static str,
    pub body: String,
    pub policies: BackendRef,
}

/// Where a provider is probed: at its own host, or else at the default one.
pub open spec fn target_of(provider: Provider) -> Option<Target> {
    match provider.host_override {
        Some(target) => Some(target),
        None => provider.default_target,
    }
}

/// Makes the probe of a provider. A provider that has no host cannot be probed, and the error
/// says so.
pub fn probe_request(provider: Provider) -> (res: Result<ProbeRequest, String>)
    ensures
        match res {
            Ok(probe) => {
                &&& target_of(provider) == Some(probe.target)
                &&& probe.content_type@ == "application/json"@
                &&& probe.accept@ == "application/json"@
                &&& probe.body@ == json::json_text(probe_document(provider.name@))
                &&& probe.policies.name@ == provider.name@
                &&& probe.policies.namespace@ == Seq::<char>::empty()
                &&& probe.policies.section@ == provider.name@
            },
            Err(message) => {
                &&& target_of(provider) is None
                &&& message@ == "custom provider "@ + provider.name@
                    + " without host_override is not probeable"@
            },
        },
        res is Ok <==> target_of(provider) is Some,
{
    let name: String = provider.name;
    let target: Target = match provider.host_override {
        Some(target) => target,
        None => match provider.default_target {
            Some(target) => target,
            None => {
                let mut message: String = "custom provider ".to_owned();
                message.append(name.as_str());
                message.append(" without host_override is not probeable");
                return Err(message);
            },
        },
    };
    let namespace = String::new();
    assert(namespace@ =~= Seq::<char>::empty());
    Ok(
        ProbeRequest {
            target,
            content_type: "application/json",
            accept: "application/json",
            body: probe_body(name.as_str()),
            policies: BackendRef { name: name.clone(), namespace, section: name },
        },
    )
}

/// How the call of a probe went.
pub enum CallOutcome {
    /// It was answered with this status code.
    Answered(u16),
    /// It failed, for this reason.
    Failed(String),
    /// It took longer than this.
    TimedOut(String),
}

/// What an answer says: a status code, or why there is none.
pub open spec fn answer_view(answer: Result<u16, String>) -> Result<u16, Seq<char>> {
    match answer {
        Ok(code) => Ok(code),
        Err(message) => Err(message@),
    }
}

/// What comes of a probe: the status code of its answer, or why there is none.
pub open spec fn answer_of(outcome: CallOutcome) -> Result<u16, Seq<char>> {
    match outcome {
        CallOutcome::Answered(code) => Ok(code),
        CallOutcome::Failed(reason) => Err("probe upstream call: "@ + reason@),
        CallOutcome::TimedOut(timeout) => Err("probe timed out after "@ + timeout@),
    }
}

/// What comes of a probe: the status code of its answer, or why there is none.
pub fn probe_answer(outcome: CallOutcome) -> (res: Result<u16, String>)
    ensures
        match outcome {
            CallOutcome::Answered(code) => res == Ok::<u16, String>(code),
            CallOutcome::Failed(reason) => res is Err && res->Err_0@ == "probe upstream call: "@
                + reason@,
            CallOutcome::TimedOut(timeout) => res is Err && res->Err_0@ == "probe timed out after "@
                + timeout@,
        },
        answer_view(res) == answer_of(outcome),
{
    match outcome {
        CallOutcome::Answered(code) => Ok(code),
        CallOutcome::Failed(reason) => {
            let mut message: String = "probe upstream call: ".to_owned();
            message.append(reason.as_str());
            Err(message)
        },
        CallOutcome::TimedOut(timeout) => {
            let mut message: String = "probe timed out after ".to_owned();
            message.append(timeout.as_str());
            Err(message)
        },
    }
}

/// The request that a probe sends: one word, and one token for the answer.
pub open spec fn probe_document(model: Seq<char>) -> JsonView {
    let message = json::singleton("role"@, JsonView::Text("user"@)).with_member(
        "content"@,
        JsonView::Text("ping"@),
    );
    json::singleton("model"@, JsonView::Text(model)).with_member(
        "messages"@,
        JsonView::Array(seq![message]),
    ).with_member("max_tokens"@, JsonView::Unsigned(1)).with_member(
        "stream"@,
        JsonView::Bool(false),
    )
}

/// The body of a probe of a provider: a chat request that asks for one token.
pub fn probe_body(model: &str) -> (res: String)
    ensures
        res@ == json::json_text(probe_document(model@)),
{
    probe_json(model).encode()
}

/// The request that a probe sends.
pub fn probe_json(model: &str) -> (res: Json)
    ensures
        res@ == probe_document(model@),
{
    let mut message = object_of("role", Json::Text("user".to_owned()));
    message.set("content", Json::Text("ping".to_owned()));
    let mut messages: Vec<Json> = Vec::new();
    messages.push(message);
    proof {
        json::lemma_items_view(messages@);
        assert(json::items_view(messages@) =~= seq![message@]);
    }
    let mut body = object_of("model", Json::Text(model.to_owned()));
    body.set("messages", Json::Array(messages));
    body.set("max_tokens", Json::Unsigned(1));
    body.set("stream", Json::Bool(false));
    body
}

/// The authority of a request to a target: the port is left out where it is a known one.
pub open spec fn authority_of(target: TargetView) -> Seq<char> {
    match target {
        TargetView::Hostname(host, port) => if port == 443 || port == 80 {
            host
        } else {
            target::hostport_of(target)
        },
        TargetView::Address(address) => address,
    }
}

/// Whether `http::uri::Authority::from_str` takes a text.
pub uninterp spec fn is_authority(text: Seq<char>) -> bool;

/// `http::uri::Authority::from_str` reads the authority of a URI. The text alone determines
/// whether it is one. All characters of an authority are visible ASCII.
#[verifier::external_body]
fn parses_as_authority(text: &str) -> (res: bool)
    ensures
        res == is_authority(text@),
        res ==> forall|i: int| 0 <= i < text@.len() ==> '!' <= #[trigger] text@[i] <= '~',
{
    <::http::uri::Authority as std::str::FromStr>::from_str(text).is_ok()
}

/// Whether a text can be the value of a header: all characters but the control characters, of
/// which only the tab is taken.
pub open spec fn is_header_text(text: Seq<char>) -> bool {
    forall|i: int|
        0 <= i < text.len() ==> #[trigger] text[i] == '\t' || (text[i] as u32 >= 32 && text[i] as u32
            != 127)
}

/// `http::HeaderValue::from_str` takes a text whose bytes are all 32 or more and not 127, or
/// the tab. A character beyond ASCII has only such bytes.
#[verifier::external_body]
fn parses_as_header(text: &str) -> (res: bool)
    ensures
        res == is_header_text(text@),
{
    ::http::HeaderValue::from_str(text).is_ok()
}

/// Why the host of a probe cannot be set.
#[derive(Debug, Clone, Copy, PartialEq, Eq, Structural)]
pub enum HostError {
    /// The target gives no authority.
    InvalidAuthority,
    /// The target gives no value for a header.
    InvalidHeader,
}

/// What is set on a probe.
pub struct HostPlan {
    /// The authority of the URI.
    pub authority: String,
    /// The `Host` header, where the request has none yet.
    pub host_header: Option<String>,
}

/// Decides the authority and the `Host` header of a probe to a target. A request that has a
/// `Host` header keeps it. A target that gives an authority also gives a value for the header.
pub fn set_host(has_host: bool, target: &Target) -> (res: Result<HostPlan, HostError>)
    ensures
        match res {
            Ok(plan) => {
                &&& is_authority(authority_of(target@))
                &&& plan.authority@ == authority_of(target@)
                &&& match plan.host_header {
                    Some(header) => !has_host && header@ == target::hostport_of(target@) && is_header_text(
                        header@,
                    ),
                    None => has_host,
                }
            },
            Err(HostError::InvalidAuthority) => !is_authority(authority_of(target@)),
            Err(HostError::InvalidHeader) => false,
        },
        res is Ok <==> is_authority(authority_of(target@)),
{
    let hostport = hostport(target);
    let authority: String = match target {
        Target::Hostname(host, port) => {
            if *port == 443 || *port == 80 {
                host.clone()
            } else {
                hostport.clone()
            }
        },
        Target::Address(_) => hostport.clone(),
    };
    if !parses_as_authority(authority.as_str()) {
        return Err(HostError::InvalidAuthority);
    }
    if has_host {
        return Ok(HostPlan { authority, host_header: None });
    }
    proof {
        if let Target::Hostname(host, port) = target {
            reveal_strlit(":");
            text::law_numbers_are_digits(*port as nat, 10);
        }
        assert(is_header_text(hostport@));
    }
    if !parses_as_header(hostport.as_str()) {
        return Err(HostError::InvalidHeader);
    }
    Ok(HostPlan { authority, host_header: Some(hostport) })
}

} // verus!
