//! What the probes of an endpoint promise.

use vstd::prelude::*;

use crate::http::health_prober;
use crate::http::health_prober::{BackendState, CallOutcome, Provider, RegistryView};
use crate::json::JsonView;
use crate::target;
use crate::target::{Target, TargetView};
use crate::text;

verus! {

/// A target is written as its host and its port, in decimal and behind a colon; an address is
/// written as it is.
pub proof fn law_a_target_is_written_out(target: Target, host: Seq<char>, port: u16)
    ensures
        target::hostport_of(TargetView::Hostname(host, port)) == host + ":"@ + text::digits(
            port as nat,
            10,
        ),
        target::hostport_of(TargetView::Address(host)) == host,
        target is Hostname ==> target@ == TargetView::Hostname(
            target->Hostname_0@,
            target->Hostname_1,
        ),
        target is Address ==> target@ == TargetView::Address(target->Address_0@),
{
}

/// The authority of a probe leaves out the port where it is the known one of a scheme, and else
/// is the target as it is written.
pub proof fn law_known_ports_are_left_out(host: Seq<char>, port: u16)
    ensures
        port == 80 || port == 443 ==> health_prober::authority_of(TargetView::Hostname(host, port))
            == host,
        port != 80 && port != 443 ==> health_prober::authority_of(TargetView::Hostname(host, port))
            == host + ":"@ + text::digits(port as nat, 10),
        health_prober::authority_of(TargetView::Address(host)) == host,
{
}

/// A provider is probed at its own host where it has one, and else at the default one.
pub proof fn law_the_own_host_goes_first(provider: Provider)
    ensures
        provider.host_override is Some ==> health_prober::target_of(provider)
            == provider.host_override,
        provider.host_override is None ==> health_prober::target_of(provider)
            == provider.default_target,
{
}

/// A probe asks the model for one token in answer to one message of the user, and not for a
/// stream.
pub proof fn law_a_probe_asks_for_one_token(model: Seq<char>)
    ensures
        ({
            let doc = health_prober::probe_document(model);
            let messages = doc.member("messages"@)->0->Array_0;
            &&& doc.member("model"@) == Some(JsonView::Text(model))
            &&& doc.member("max_tokens"@) == Some(JsonView::Unsigned(1))
            &&& doc.member("stream"@) == Some(JsonView::Bool(false))
            &&& doc.member("messages"@) is Some
            &&& doc.member("messages"@)->0 is Array
            &&& messages.len() == 1
            &&& messages[0].member("role"@) == Some(JsonView::Text("user"@))
            &&& messages[0].member("content"@) == Some(JsonView::Text("ping"@))
            &&& doc is Object && doc->Object_0.dom() == set![
                "model"@,
                "messages"@,
                "max_tokens"@,
                "stream"@,
            ]
            &&& messages[0] is Object && messages[0]->Object_0.dom() == set!["role"@, "content"@]
        }),
{
    let doc = health_prober::probe_document(model);
    assert(doc->Object_0.dom() =~= set!["model"@, "messages"@, "max_tokens"@, "stream"@]);
    assert(health_prober::probe_document(model).member("messages"@) is Some);
    reveal_strlit("model");
    reveal_strlit("messages");
    reveal_strlit("max_tokens");
    reveal_strlit("stream");
    reveal_strlit("role");
    reveal_strlit("content");
    assert("model"@.len() == 5 && "messages"@.len() == 8 && "max_tokens"@.len() == 10);
    assert("stream"@.len() == 6 && "role"@.len() == 4 && "content"@.len() == 7);
}

proof fn lemma_controls(c: char)
    ensures
        c as u32 >= 32 <==> c >= ' ',
        c as u32 == 127 <==> c == '\u{7f}',
{
}

/// Whether a character may stand in the value of a header: the tab, and all that is no control
/// character.
pub open spec fn may_stand_in_header(c: char) -> bool {
    c == '\t' || (c >= ' ' && c != '\u{7f}')
}

/// A text can be the value of a header exactly where each of its characters may stand in one.
pub proof fn law_header_values_have_no_controls(text: Seq<char>)
    ensures
        health_prober::is_header_text(text) <==> forall|i: int|
            0 <= i < text.len() ==> may_stand_in_header(#[trigger] text[i]),
{
    assert forall|i: int| 0 <= i < text.len() implies may_stand_in_header(#[trigger] text[i]) == (
    text[i] == '\t' || (text[i] as u32 >= 32 && text[i] as u32 != 127)) by {
        lemma_controls(text[i]);
    }
}

/// An answer tells of success exactly where its code is two hundred and something.
pub proof fn law_success_is_two_hundred_and_something(code: u16)
    ensures
        health_prober::is_success_code(code) <==> code / 100 == 2,
{
}

/// A success ends a streak of failures, and a failure makes it one longer. Only a failure evicts,
/// and only once the streak has the length of the threshold; a threshold of zero stands for one.
pub proof fn law_streaks_grow_and_end(streak: nat, success: bool, threshold: u64)
    ensures
        health_prober::streak_after(streak, true) == 0,
        health_prober::streak_after(streak, false) == streak + 1,
        success ==> !health_prober::evicts(streak, success, threshold),
        threshold > 0 && !success ==> (health_prober::evicts(streak, success, threshold) <==> streak
            >= threshold),
        threshold == 0 && !success ==> (health_prober::evicts(streak, success, threshold) <==> streak
            >= 1),
{
}

/// A prober of another generation than the backend's ends, whatever became of the backend. One of
/// the backend's generation probes it as long as it is there and of its kind.
pub proof fn law_a_prober_goes_on_for_its_own_backend(
    current: u64,
    spawned: u64,
    backend: BackendState,
)
    ensures
        health_prober::sweep_of(current, spawned, backend) is ExitStale <==> current != spawned,
        health_prober::sweep_of(current, spawned, backend) is Probe <==> current == spawned
            && backend is Ai,
        health_prober::sweep_of(current, spawned, backend) is ExitDropped <==> current == spawned
            && backend is Dropped,
        health_prober::sweep_of(current, spawned, backend) is ExitNotAi <==> current == spawned
            && backend is NotAi,
{
}

/// A probe is recorded as healthy exactly where it succeeded, below the threshold too, and it may
/// evict only where it failed and the streak is long enough.
pub proof fn law_every_failure_is_recorded(streak: nat, success: bool, threshold: u64)
    ensures
        health_prober::record_of(streak, success, threshold).healthy <==> success,
        success || streak < threshold ==> !health_prober::record_of(
            streak,
            success,
            threshold,
        ).may_evict,
        !success && streak >= threshold && streak >= 1 ==> health_prober::record_of(
            streak,
            success,
            threshold,
        ).may_evict,
{
}

/// The answer of a probe is its code, whatever the code is; a call that failed and one that took
/// too long each say so, with the reason and with the time.
pub proof fn law_an_answer_says_what_happened(outcome: CallOutcome, answer: Result<u16, String>)
    ensures
        outcome is Answered ==> health_prober::answer_of(outcome) == Ok::<u16, Seq<char>>(
            outcome->Answered_0,
        ),
        outcome is Failed ==> health_prober::answer_of(outcome) == Err::<u16, Seq<char>>(
            "probe upstream call: "@ + outcome->Failed_0@,
        ),
        outcome is TimedOut ==> health_prober::answer_of(outcome) == Err::<u16, Seq<char>>(
            "probe timed out after "@ + outcome->TimedOut_0@,
        ),
        answer is Ok ==> health_prober::answer_view(answer) == Ok::<u16, Seq<char>>(answer->Ok_0),
        answer is Err ==> health_prober::answer_view(answer) == Err::<u16, Seq<char>>(
            answer->Err_0@,
        ),
{
}

/// What a registry knows of a backend is the generation at its place; a backend that was never
/// claimed has none.
pub proof fn law_a_backend_has_the_generation_of_its_place(registry: RegistryView, key: Seq<char>)
    ensures
        registry.slots.contains_key(key) ==> registry.generation_of(key) == Some(
            registry.generations[registry.slots[key] as int],
        ),
        !registry.slots.contains_key(key) ==> registry.generation_of(key) is None,
{
}

/// A claim of a known backend changes nothing; the first claim of a backend gives it the next
/// place, and leaves all other places as they are.
pub proof fn law_a_first_claim_takes_the_next_place(
    registry: RegistryView,
    key: Seq<char>,
    other: Seq<char>,
)
    requires
        registry.well_formed(),
        registry.generations.len() < usize::MAX,
    ensures
        registry.slots.contains_key(key) ==> registry.claimed(key) == registry,
        !registry.slots.contains_key(key) ==> {
            let next = registry.claimed(key);
            &&& next.slots.contains_key(key)
            &&& next.slots[key] == registry.generations.len()
            &&& next.generations.len() == registry.generations.len() + 1
            &&& next.in_flight == registry.in_flight
            &&& other != key ==> next.slots.contains_key(other) == registry.slots.contains_key(other)
        },
{
}

} // verus!
