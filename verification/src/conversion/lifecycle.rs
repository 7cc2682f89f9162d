//! The order that the events of an Anthropic message stream keep.

use vstd::prelude::*;

use crate::json;
use crate::json::JsonView;

use super::markers;
use super::markers::{ArrivalView, MarkerView, SseEventView};
use super::messages;
use super::messages::{
    ContentBlockDeltaView, Emission, MessagesEventView, MsgModel, StopReason,
};
use super::metering;

verus! {

/// Where a client stands in a message.
pub enum Phase {
    /// Nothing came yet.
    Before,
    /// No block is open; the next one has this index.
    Idle { next: nat },
    /// The block of this index is open.
    InBlock { index: nat },
    /// `message_delta` came.
    Ending,
    /// `message_stop` came.
    Finished,
}

/// Where a client stands after one more event; nothing where the event is out of order.
pub open spec fn advance(phase: Phase, event: MessagesEventView) -> Option<Phase> {
    match (phase, event) {
        (Phase::Before, MessagesEventView::MessageStart { .. }) => Some(Phase::Idle { next: 0 }),
        (Phase::Idle { next }, MessagesEventView::ContentBlockStart { index, .. }) => if index
            == next {
            Some(Phase::InBlock { index })
        } else {
            None
        },
        (Phase::InBlock { index: open }, MessagesEventView::ContentBlockDelta { index, .. }) => if index
            == open {
            Some(phase)
        } else {
            None
        },
        (Phase::InBlock { index: open }, MessagesEventView::ContentBlockStop { index }) => if index
            == open {
            Some(Phase::Idle { next: open + 1 })
        } else {
            None
        },
        (Phase::Idle { .. }, MessagesEventView::MessageDelta { .. }) => Some(Phase::Ending),
        (Phase::Ending, MessagesEventView::MessageStop) => Some(Phase::Finished),
        _ => None,
    }
}

/// Where a client stands after a list of events; nothing where one is out of order.
pub open spec fn run(phase: Phase, events: Seq<MessagesEventView>) -> Option<Phase>
    decreases events.len(),
{
    if events.len() == 0 {
        Some(phase)
    } else {
        match run(phase, events.drop_last()) {
            Some(reached) => advance(reached, events.last()),
            None => None,
        }
    }
}

/// Where a client stands that saw everything up to a state of the stream.
pub open spec fn phase_of(model: MsgModel) -> Phase {
    if !model.sent_start {
        Phase::Before
    } else if model.sent_stop {
        Phase::Finished
    } else {
        match model.text_block {
            Some(index) => Phase::InBlock { index },
            None => Phase::Idle { next: model.next_block },
        }
    }
}

/// Whether an event ends the message: the terminator or a provenance frame.
pub open spec fn ends_message(event: SseEventView) -> bool {
    event is Done || messages::is_provenance(event)
}

/// Whether an event ends the message of a stream.
pub open spec fn has_end(arrivals: Seq<ArrivalView>) -> bool {
    exists|i: int| 0 <= i < arrivals.len() && ends_message((#[trigger] arrivals[i]).event)
}

proof fn lemma_run_push(phase: Phase, events: Seq<MessagesEventView>, event: MessagesEventView)
    ensures
        run(phase, events.push(event)) == match run(phase, events) {
            Some(reached) => advance(reached, event),
            None => None,
        },
{
    assert(events.push(event).drop_last() == events);
}

proof fn lemma_run_concat(
    phase: Phase,
    first: Seq<MessagesEventView>,
    second: Seq<MessagesEventView>,
)
    ensures
        run(phase, first + second) == match run(phase, first) {
            Some(reached) => run(reached, second),
            None => None,
        },
    decreases second.len(),
{
    if second.len() == 0 {
        assert(first + second == first);
    } else {
        assert((first + second).drop_last() == first + second.drop_last());
        lemma_run_concat(phase, first, second.drop_last());
    }
}

/// What every state of a stream keeps.
spec fn in_order(em: Emission) -> bool {
    &&& run(Phase::Before, em.events) == Some(phase_of(em.model))
    &&& match em.model.text_block {
        Some(index) => em.model.next_block == index + 1,
        None => true,
    }
    &&& em.model.sent_stop ==> em.model.sent_start && em.model.text_block is None
    &&& !em.model.sent_start ==> em.model.next_block == 0 && em.model.text_block is None
}

proof fn lemma_started(em: Emission, id: Seq<char>, model: Seq<char>)
    requires
        in_order(em),
    ensures
        in_order(em.started(id, model)),
        em.started(id, model).model.sent_start,
        em.started(id, model).model.sent_stop == em.model.sent_stop,
{
    lemma_run_push(Phase::Before, em.events, messages::opening(id, model));
}

proof fn lemma_text_opened(em: Emission)
    requires
        in_order(em),
        em.model.sent_start,
        !em.model.sent_stop,
    ensures
        in_order(em.text_opened()),
        em.text_opened().model.text_block is Some,
{
    if em.model.text_block is None {
        lemma_run_push(Phase::Before, em.events, em.text_opened().events.last());
    }
}

proof fn lemma_text_closed(em: Emission)
    requires
        in_order(em),
    ensures
        in_order(em.text_closed()),
        em.text_closed().model.text_block is None,
{
    if em.model.text_block is Some {
        lemma_run_push(Phase::Before, em.events, em.text_closed().events.last());
    }
}

proof fn lemma_text(em: Emission, text: Seq<char>)
    requires
        in_order(em),
        em.model.sent_start,
        !em.model.sent_stop,
    ensures
        in_order(em.text(text)),
{
    lemma_text_opened(em);
    lemma_run_push(Phase::Before, em.text_opened().events, em.text(text).events.last());
}

proof fn lemma_tool_round(em: Emission, round: JsonView)
    requires
        in_order(em),
        em.model.sent_start,
        !em.model.sent_stop,
    ensures
        in_order(em.tool_round(round)),
{
    lemma_text_closed(em);
    let closed = em.text_closed();
    let index = closed.model.next_block;
    let call = messages::round_call_events(round, index);
    let result = messages::round_result_events(round, index + 1);
    reveal_with_fuel(run, 4);
    assert(call.drop_last().drop_last().drop_last() =~= Seq::empty());
    assert(run(Phase::Idle { next: index }, call) == Some(Phase::Idle { next: index + 1 }));
    assert(result.drop_last().drop_last() =~= Seq::empty());
    assert(run(Phase::Idle { next: index + 1 }, result) == Some(Phase::Idle { next: index + 2 }));
    lemma_run_concat(Phase::Before, closed.events, call);
    lemma_run_concat(Phase::Before, closed.events + call, result);
}

proof fn lemma_calls(em: Emission, calls: Seq<JsonView>)
    requires
        in_order(em),
        em.model.sent_start,
        em.model.text_block is None,
        !em.model.sent_stop,
    ensures
        in_order(em.calls(calls)),
        em.calls(calls).model == (MsgModel {
            next_block: em.model.next_block + calls.len(),
            ..em.model
        }),
    decreases calls.len(),
{
    if calls.len() > 0 {
        lemma_calls(em, calls.drop_last());
        let before = em.calls(calls.drop_last());
        let index = before.model.next_block;
        let block = messages::call_events(calls.last(), index);
        reveal_with_fuel(run, 4);
        if block.len() == 2 {
            assert(block.drop_last().drop_last() =~= Seq::empty());
        } else {
            assert(block.drop_last().drop_last().drop_last() =~= Seq::empty());
        }
        assert(run(Phase::Idle { next: index }, block) == Some(Phase::Idle { next: index + 1 }));
        lemma_run_concat(Phase::Before, before.events, block);
    }
}

proof fn lemma_citation_events(phase: Phase, citations: Seq<JsonView>, index: nat)
    requires
        phase == (Phase::InBlock { index }),
    ensures
        run(phase, messages::citation_events(citations, index)) == Some(phase),
    decreases citations.len(),
{
    let all = messages::citation_events(citations, index);
    if citations.len() > 0 {
        lemma_citation_events(phase, citations.drop_last(), index);
        assert(all.drop_last() =~= messages::citation_events(citations.drop_last(), index));
    }
}

proof fn lemma_citations(em: Emission, provenance: JsonView)
    requires
        in_order(em),
        em.model.sent_start,
        !em.model.sent_stop,
    ensures
        in_order(em.citations(provenance)),
        em.citations(provenance).model.sent_start,
        em.citations(provenance).model.sent_stop == em.model.sent_stop,
{
    if let Some(citations) = json::items_of(provenance.member("citations"@)) {
        lemma_text_opened(em);
        let open = em.text_opened();
        let index = open.model.text_block->0;
        lemma_citation_events(Phase::InBlock { index }, citations, index);
        lemma_run_concat(Phase::Before, open.events, messages::citation_events(citations, index));
    }
}

proof fn lemma_ended(em: Emission)
    requires
        in_order(em),
        em.model.sent_start,
    ensures
        in_order(em.ended()),
{
    if !em.model.sent_stop {
        lemma_text_closed(em);
        let closed = em.text_closed();
        let all = em.ended().events;
        let delta = all[all.len() - 2];
        assert(all =~= closed.events.push(delta).push(all.last()));
        lemma_run_push(Phase::Before, closed.events, delta);
        lemma_run_push(Phase::Before, closed.events.push(delta), all.last());
    }
}

proof fn lemma_event(
    em: Emission,
    event: SseEventView,
    id: Seq<char>,
    model: Seq<char>,
    client_tools: bool,
)
    requires
        in_order(em),
    ensures
        in_order(em.event(event, id, model, client_tools)),
{
    let open = em.started(id, model);
    lemma_started(em, id, model);
    match event {
        _ if em.model.sent_stop => {},
        SseEventView::Done => {
            lemma_ended(open);
        },
        SseEventView::Frame(frame) => {
            match markers::frame_marker(frame) {
                MarkerView::TextDelta(text) => {
                    lemma_text(open, text);
                },
                MarkerView::ToolRound(round) => {
                    lemma_tool_round(open, round);
                },
                MarkerView::Provenance(provenance) => {
                    lemma_citations(open, provenance);
                    lemma_ended(open.citations(provenance));
                },
                MarkerView::ClientToolCalls(_) => {
                    if client_tools {
                        lemma_text_closed(open);
                        if let Some(calls) = messages::forwarded_calls(frame) {
                            lemma_calls(open.text_closed(), calls);
                        }
                    }
                },
                _ => {},
            }
        },
        SseEventView::Malformed => {},
    }
}

/// What one event does to the flags of a message.
proof fn lemma_flags(
    em: Emission,
    event: SseEventView,
    id: Seq<char>,
    model: Seq<char>,
    client_tools: bool,
)
    ensures
        em.event(event, id, model, client_tools).model.sent_stop == (em.model.sent_stop
            || ends_message(event)),
{
    if let SseEventView::Frame(frame) = event {
        if let Some(calls) = messages::forwarded_calls(frame) {
            lemma_calls_model(em.started(id, model).text_closed(), calls);
        }
    }
}

proof fn lemma_calls_model(em: Emission, calls: Seq<JsonView>)
    ensures
        em.calls(calls).model == (MsgModel {
            next_block: em.model.next_block + calls.len(),
            ..em.model
        }),
    decreases calls.len(),
{
    if calls.len() > 0 {
        lemma_calls_model(em, calls.drop_last());
    }
}

/// The message has ended exactly where an event has ended it.
pub proof fn law_end_is_known(
    arrivals: Seq<ArrivalView>,
    id: Seq<char>,
    model: Seq<char>,
    client_tools: bool,
)
    ensures
        messages::nothing_shown().events(arrivals, id, model, client_tools).model.sent_stop
            == has_end(arrivals),
    decreases arrivals.len(),
{
    if arrivals.len() > 0 {
        let shorter = arrivals.drop_last();
        let before = messages::nothing_shown().events(shorter, id, model, client_tools);
        law_end_is_known(shorter, id, model, client_tools);
        lemma_flags(before, arrivals.last().event, id, model, client_tools);
        if has_end(shorter) {
            let i = choose|i: int| 0 <= i < shorter.len() && ends_message((#[trigger] shorter[i]).event);
            assert(ends_message(arrivals[i].event));
        }
        if has_end(arrivals) && !ends_message(arrivals.last().event) {
            let i = choose|i: int|
                0 <= i < arrivals.len() && ends_message((#[trigger] arrivals[i]).event);
            assert(ends_message(shorter[i].event));
        }
        if ends_message(arrivals.last().event) {
            assert(ends_message(arrivals[arrivals.len() - 1].event));
        }
    }
}

/// An event adds no more blocks than its kind allows.
pub proof fn law_blocks_are_bounded(
    em: Emission,
    event: SseEventView,
    id: Seq<char>,
    model: Seq<char>,
    client_tools: bool,
)
    ensures
        em.model.next_block <= em.event(event, id, model, client_tools).model.next_block
            <= em.model.next_block + messages::event_blocks(event),
{
    if let SseEventView::Frame(frame) = event {
        if let Some(calls) = messages::forwarded_calls(frame) {
            lemma_calls_model(em.started(id, model).text_closed(), calls);
        }
    }
}

/// Whatever comes is shown in order: `message_start` first, then blocks numbered from zero of
/// which one is open at a time, each closed before the next, and last `message_delta` and
/// `message_stop`. A stream that has ended has shown a whole message, and nothing after it.
pub proof fn law_message_lifecycle(
    arrivals: Seq<ArrivalView>,
    id: Seq<char>,
    model: Seq<char>,
    client_tools: bool,
)
    ensures
        ({
            let em = messages::nothing_shown().events(arrivals, id, model, client_tools);
            &&& run(Phase::Before, em.events) == Some(phase_of(em.model))
            &&& has_end(arrivals) ==> run(Phase::Before, em.events) == Some(Phase::Finished)
        }),
{
    lemma_lifecycle(arrivals, id, model, client_tools);
    law_end_is_known(arrivals, id, model, client_tools);
}

proof fn lemma_lifecycle(
    arrivals: Seq<ArrivalView>,
    id: Seq<char>,
    model: Seq<char>,
    client_tools: bool,
)
    ensures
        in_order(messages::nothing_shown().events(arrivals, id, model, client_tools)),
    decreases arrivals.len(),
{
    if arrivals.len() > 0 {
        let shorter = arrivals.drop_last();
        lemma_lifecycle(shorter, id, model, client_tools);
        lemma_event(
            messages::nothing_shown().events(shorter, id, model, client_tools),
            arrivals.last().event,
            id,
            model,
            client_tools,
        );
    }
}

/// The stream in the state of `em` that has shown nothing.
pub open spec fn afresh(em: Emission) -> Emission {
    Emission { model: em.model, events: Seq::empty() }
}

/// What an event shows does not depend on what was shown before: it is added to it.
pub proof fn law_events_are_added(
    em: Emission,
    event: SseEventView,
    id: Seq<char>,
    model: Seq<char>,
    client_tools: bool,
)
    ensures
        em.event(event, id, model, client_tools).model == afresh(em).event(
            event,
            id,
            model,
            client_tools,
        ).model,
        em.event(event, id, model, client_tools).events == em.events + afresh(em).event(
            event,
            id,
            model,
            client_tools,
        ).events,
{
    let fresh = afresh(em);
    let open = em.started(id, model);
    let fresh_open = fresh.started(id, model);
    assert(adds(open, fresh_open, em.events));
    match event {
        SseEventView::Done => {
            lemma_ended_adds(open, fresh_open, em.events);
        },
        SseEventView::Frame(frame) => {
            match markers::frame_marker(frame) {
                MarkerView::TextDelta(text) => {
                    assert(adds(open.text_opened(), fresh_open.text_opened(), em.events));
                    assert(adds(open.text(text), fresh_open.text(text), em.events));
                },
                MarkerView::ToolRound(round) => {
                    assert(adds(open.text_closed(), fresh_open.text_closed(), em.events));
                    assert(adds(open.tool_round(round), fresh_open.tool_round(round), em.events));
                },
                MarkerView::Provenance(provenance) => {
                    assert(adds(open.text_opened(), fresh_open.text_opened(), em.events));
                    assert(adds(
                        open.citations(provenance),
                        fresh_open.citations(provenance),
                        em.events,
                    ));
                    lemma_ended_adds(
                        open.citations(provenance),
                        fresh_open.citations(provenance),
                        em.events,
                    );
                },
                MarkerView::ClientToolCalls(_) => {
                    assert(adds(open.text_closed(), fresh_open.text_closed(), em.events));
                    if let Some(calls) = messages::forwarded_calls(frame) {
                        lemma_calls_add(
                            open.text_closed(),
                            fresh_open.text_closed(),
                            em.events,
                            calls,
                        );
                    }
                },
                _ => {},
            }
        },
        SseEventView::Malformed => {},
    }
}

/// `em` is in the state of `fresh` and has shown `before` more than it.
spec fn adds(em: Emission, fresh: Emission, before: Seq<MessagesEventView>) -> bool {
    em.model == fresh.model && em.events =~= before + fresh.events
}

proof fn lemma_ended_adds(em: Emission, fresh: Emission, before: Seq<MessagesEventView>)
    requires
        adds(em, fresh, before),
    ensures
        adds(em.ended(), fresh.ended(), before),
{
    assert(adds(em.text_closed(), fresh.text_closed(), before));
}

proof fn lemma_calls_add(
    em: Emission,
    fresh: Emission,
    before: Seq<MessagesEventView>,
    calls: Seq<JsonView>,
)
    requires
        adds(em, fresh, before),
    ensures
        adds(em.calls(calls), fresh.calls(calls), before),
    decreases calls.len(),
{
    if calls.len() > 0 {
        lemma_calls_add(em, fresh, before, calls.drop_last());
    }
}

/// The number of `message_delta` events.
pub open spec fn deltas(events: Seq<MessagesEventView>) -> nat
    decreases events.len(),
{
    if events.len() == 0 {
        0
    } else {
        deltas(events.drop_last()) + if events.last() is MessageDelta {
            1nat
        } else {
            0
        }
    }
}

/// The number of `message_stop` events.
pub open spec fn stops(events: Seq<MessagesEventView>) -> nat
    decreases events.len(),
{
    if events.len() == 0 {
        0
    } else {
        stops(events.drop_last()) + if events.last() is MessageStop {
            1nat
        } else {
            0
        }
    }
}

proof fn lemma_counts_add(first: Seq<MessagesEventView>, second: Seq<MessagesEventView>)
    ensures
        deltas(first + second) == deltas(first) + deltas(second),
        stops(first + second) == stops(first) + stops(second),
    decreases second.len(),
{
    if second.len() == 0 {
        assert(first + second == first);
    } else {
        assert((first + second).drop_last() == first + second.drop_last());
        lemma_counts_add(first, second.drop_last());
    }
}

/// No event of the list is part of the end of a message.
spec fn quiet(events: Seq<MessagesEventView>) -> bool {
    forall|k: int|
        0 <= k < events.len() ==> !(#[trigger] events[k] is MessageDelta)
            && !(events[k] is MessageStop)
}

proof fn lemma_quiet_counts(events: Seq<MessagesEventView>)
    requires
        quiet(events),
    ensures
        deltas(events) == 0,
        stops(events) == 0,
    decreases events.len(),
{
    if events.len() > 0 {
        lemma_quiet_counts(events.drop_last());
        let last = events[events.len() - 1];
        assert(!(last is MessageDelta) && !(last is MessageStop));
    }
}

proof fn lemma_calls_quiet(em: Emission, calls: Seq<JsonView>)
    requires
        quiet(em.events),
    ensures
        quiet(em.calls(calls).events),
    decreases calls.len(),
{
    if calls.len() > 0 {
        lemma_calls_quiet(em, calls.drop_last());
    }
}

/// What comes before the `message_delta` of an event that ends the message.
spec fn before_end(
    em: Emission,
    event: SseEventView,
    id: Seq<char>,
    model: Seq<char>,
) -> Emission {
    match event {
        SseEventView::Frame(frame) => match markers::frame_marker(frame) {
            MarkerView::Provenance(provenance) => em.started(id, model).citations(
                provenance,
            ).text_closed(),
            _ => em,
        },
        _ => em.started(id, model).text_closed(),
    }
}

/// An event that does not end the message shows no part of an end.
proof fn lemma_quiet_event(
    em: Emission,
    event: SseEventView,
    id: Seq<char>,
    model: Seq<char>,
    client_tools: bool,
)
    requires
        quiet(em.events),
        em.model.sent_stop || !ends_message(event),
    ensures
        quiet(em.event(event, id, model, client_tools).events),
{
    if let SseEventView::Frame(frame) = event {
        let open = em.started(id, model);
        if let Some(calls) = messages::forwarded_calls(frame) {
            lemma_calls_quiet(open.text_closed(), calls);
        }
    }
}

/// An event that ends the message shows exactly one end.
proof fn lemma_end_event(
    em: Emission,
    event: SseEventView,
    id: Seq<char>,
    model: Seq<char>,
    client_tools: bool,
)
    requires
        quiet(em.events),
        !em.model.sent_stop,
        ends_message(event),
    ensures
        quiet(before_end(em, event, id, model).events),
        ({
            let all = em.event(event, id, model, client_tools).events;
            &&& all.len() == before_end(em, event, id, model).events.len() + 2
            &&& all =~= before_end(em, event, id, model).events.push(all[all.len() - 2]).push(
                MessagesEventView::MessageStop,
            )
            &&& all[all.len() - 2] is MessageDelta
            &&& all[all.len() - 2]->stop_reason == messages::stop_reason_of(em.model)
        }),
{
}

/// A message ends exactly once where an event ends it, and never otherwise, whatever else
/// comes.
pub proof fn law_message_ends_once(
    arrivals: Seq<ArrivalView>,
    id: Seq<char>,
    model: Seq<char>,
    client_tools: bool,
)
    ensures
        ({
            let events = messages::nothing_shown().events(arrivals, id, model, client_tools).events;
            &&& deltas(events) == if has_end(arrivals) {
                1nat
            } else {
                0
            }
            &&& stops(events) == if has_end(arrivals) {
                1nat
            } else {
                0
            }
        }),
    decreases arrivals.len(),
{
    if arrivals.len() > 0 {
        let shorter = arrivals.drop_last();
        let last = arrivals.last().event;
        let before = messages::nothing_shown().events(shorter, id, model, client_tools);
        law_message_ends_once(shorter, id, model, client_tools);
        law_end_is_known(shorter, id, model, client_tools);
        law_end_is_known(arrivals, id, model, client_tools);
        lemma_flags(before, last, id, model, client_tools);
        law_events_are_added(before, last, id, model, client_tools);
        let fresh = afresh(before);
        let added = fresh.event(last, id, model, client_tools).events;
        lemma_counts_add(before.events, added);
        if before.model.sent_stop || !ends_message(last) {
            lemma_quiet_event(fresh, last, id, model, client_tools);
            lemma_quiet_counts(added);
        } else {
            lemma_end_event(fresh, last, id, model, client_tools);
            let body = before_end(fresh, last, id, model).events;
            let delta = added[added.len() - 2];
            lemma_quiet_counts(body);
            assert(added.drop_last() =~= body.push(delta));
            assert(body.push(delta).drop_last() =~= body);
            assert(deltas(body.push(delta)) == 1 && stops(body.push(delta)) == 0);
            assert(added.last() is MessageStop);
        }
    }
}

/// Whether an event is an error in the stream.
pub open spec fn is_error(event: SseEventView) -> bool {
    match event {
        SseEventView::Frame(frame) => markers::frame_marker(frame) is InStreamError,
        _ => false,
    }
}

/// Whether an event forwards a list of pending tool calls.
pub open spec fn forwards_calls(event: SseEventView) -> bool {
    match event {
        SseEventView::Frame(frame) => markers::frame_marker(frame) is ClientToolCalls
            && messages::forwarded_calls(frame) is Some,
        _ => false,
    }
}

/// Whether an error came in a stream.
pub open spec fn has_error(arrivals: Seq<ArrivalView>) -> bool {
    exists|i: int| 0 <= i < arrivals.len() && is_error((#[trigger] arrivals[i]).event)
}

/// Whether pending tool calls came in a stream.
pub open spec fn has_calls(arrivals: Seq<ArrivalView>) -> bool {
    exists|i: int| 0 <= i < arrivals.len() && forwards_calls((#[trigger] arrivals[i]).event)
}

/// The reason for which the message of a stream stops.
pub open spec fn expected_stop_reason(arrivals: Seq<ArrivalView>, client_tools: bool) -> Option<
    StopReason,
> {
    if has_error(arrivals) {
        None
    } else if client_tools && has_calls(arrivals) {
        Some(StopReason::ToolUse)
    } else {
        Some(StopReason::EndTurn)
    }
}

proof fn lemma_stop_reason(
    arrivals: Seq<ArrivalView>,
    id: Seq<char>,
    model: Seq<char>,
    client_tools: bool,
)
    requires
        !has_end(arrivals),
    ensures
        ({
            let em = messages::nothing_shown().events(arrivals, id, model, client_tools);
            &&& em.model.in_stream_error is Some <==> has_error(arrivals)
            &&& em.model.stop_reason == if client_tools && has_calls(arrivals) {
                Some(StopReason::ToolUse)
            } else {
                None
            }
        }),
    decreases arrivals.len(),
{
    if arrivals.len() > 0 {
        let shorter = arrivals.drop_last();
        let last = arrivals.last().event;
        lemma_no_end_before(arrivals, shorter.len() as int);
        assert(arrivals.take(shorter.len() as int) == shorter);
        lemma_stop_reason(shorter, id, model, client_tools);
        law_end_is_known(shorter, id, model, client_tools);
        let before = messages::nothing_shown().events(shorter, id, model, client_tools);
        if let SseEventView::Frame(frame) = last {
            if let Some(calls) = messages::forwarded_calls(frame) {
                lemma_calls_model(before.started(id, model).text_closed(), calls);
            }
        }
        assert(has_error(arrivals) <==> has_error(shorter) || is_error(last)) by {
            if has_error(arrivals) {
                let i = choose|i: int|
                    0 <= i < arrivals.len() && is_error((#[trigger] arrivals[i]).event);
                if i < shorter.len() {
                    assert(is_error(shorter[i].event));
                }
            }
            if has_error(shorter) {
                let i = choose|i: int|
                    0 <= i < shorter.len() && is_error((#[trigger] shorter[i]).event);
                assert(is_error(arrivals[i].event));
            }
            if is_error(last) {
                assert(is_error(arrivals[arrivals.len() - 1].event));
            }
        }
        assert(has_calls(arrivals) <==> has_calls(shorter) || forwards_calls(last)) by {
            if has_calls(arrivals) {
                let i = choose|i: int|
                    0 <= i < arrivals.len() && forwards_calls((#[trigger] arrivals[i]).event);
                if i < shorter.len() {
                    assert(forwards_calls(shorter[i].event));
                }
            }
            if has_calls(shorter) {
                let i = choose|i: int|
                    0 <= i < shorter.len() && forwards_calls((#[trigger] shorter[i]).event);
                assert(forwards_calls(arrivals[i].event));
            }
            if forwards_calls(last) {
                assert(forwards_calls(arrivals[arrivals.len() - 1].event));
            }
        }
    }
}

proof fn lemma_no_end_before(arrivals: Seq<ArrivalView>, i: int)
    requires
        !has_end(arrivals),
        0 <= i <= arrivals.len(),
    ensures
        !has_end(arrivals.take(i)),
{
    let first = arrivals.take(i);
    if has_end(first) {
        let j = choose|j: int| 0 <= j < first.len() && ends_message((#[trigger] first[j]).event);
        assert(ends_message(arrivals[j].event));
    }
}

/// The end of a message says why it stopped. An error in the stream is never passed off as a
/// clean end: the reason is then absent. Otherwise it is the use of a tool where pending tool
/// calls were forwarded, and the end of the turn where not.
pub proof fn law_stop_reason_is_honest(
    arrivals: Seq<ArrivalView>,
    id: Seq<char>,
    model: Seq<char>,
    client_tools: bool,
    end: int,
    k: int,
)
    requires
        0 <= end < arrivals.len(),
        ends_message(arrivals[end].event),
        !has_end(arrivals.take(end)),
        0 <= k < messages::nothing_shown().events(arrivals, id, model, client_tools).events.len(),
        messages::nothing_shown().events(arrivals, id, model, client_tools).events[k] is MessageDelta,
    ensures
        messages::nothing_shown().events(arrivals, id, model, client_tools).events[k]->stop_reason
            == expected_stop_reason(arrivals.take(end), client_tools),
    decreases arrivals.len(),
{
    let shorter = arrivals.drop_last();
    let last = arrivals.last().event;
    let before = messages::nothing_shown().events(shorter, id, model, client_tools);
    let fresh = afresh(before);
    let added = fresh.event(last, id, model, client_tools).events;
    law_events_are_added(before, last, id, model, client_tools);
    law_end_is_known(shorter, id, model, client_tools);
    if end == arrivals.len() - 1 {
        assert(arrivals.take(end) == shorter);
        lemma_stop_reason(shorter, id, model, client_tools);
        lemma_end_event(fresh, last, id, model, client_tools);
        if k < before.events.len() {
            law_message_ends_once(shorter, id, model, client_tools);
            lemma_counted(before.events, k);
        } else {
            assert(added[k - before.events.len()] is MessageDelta);
        }
    } else {
        assert(ends_message(shorter[end].event));
        assert(arrivals.take(end) == shorter.take(end));
        if k < before.events.len() {
            law_stop_reason_is_honest(shorter, id, model, client_tools, end, k);
        } else {
            lemma_quiet_event(fresh, last, id, model, client_tools);
            assert(!(added[k - before.events.len()] is MessageDelta));
        }
    }
}

proof fn lemma_counted(events: Seq<MessagesEventView>, k: int)
    requires
        0 <= k < events.len(),
        events[k] is MessageDelta,
    ensures
        deltas(events) > 0,
    decreases events.len(),
{
    if k < events.len() - 1 {
        lemma_counted(events.drop_last(), k);
    }
}

/// The text that the events of a message stream show.
pub open spec fn shown_text(events: Seq<MessagesEventView>) -> Seq<char>
    decreases events.len(),
{
    if events.len() == 0 {
        Seq::empty()
    } else {
        shown_text(events.drop_last()) + match events.last() {
            MessagesEventView::ContentBlockDelta {
                delta: ContentBlockDeltaView::TextDelta { text },
                ..
            } => text,
            _ => Seq::empty(),
        }
    }
}

/// The text that an event carries.
pub open spec fn event_words(event: SseEventView) -> Seq<char> {
    match event {
        SseEventView::Frame(frame) => match markers::frame_marker(frame) {
            MarkerView::TextDelta(text) => text,
            _ => Seq::empty(),
        },
        _ => Seq::empty(),
    }
}

/// The text that the frames of a stream carry.
pub open spec fn stream_text(arrivals: Seq<ArrivalView>) -> Seq<char>
    decreases arrivals.len(),
{
    if arrivals.len() == 0 {
        Seq::empty()
    } else {
        stream_text(arrivals.drop_last()) + event_words(arrivals.last().event)
    }
}

proof fn lemma_text_adds(first: Seq<MessagesEventView>, second: Seq<MessagesEventView>)
    ensures
        shown_text(first + second) == shown_text(first) + shown_text(second),
    decreases second.len(),
{
    if second.len() == 0 {
        assert(first + second == first);
        assert(shown_text(first) + shown_text(second) =~= shown_text(first));
    } else {
        assert((first + second).drop_last() == first + second.drop_last());
        lemma_text_adds(first, second.drop_last());
        assert(shown_text(first + second) =~= shown_text(first) + shown_text(second));
    }
}

/// No event of the list shows text.
spec fn textless(events: Seq<MessagesEventView>) -> bool {
    forall|k: int|
        0 <= k < events.len() ==> match #[trigger] events[k] {
            MessagesEventView::ContentBlockDelta { delta, .. } => !(delta is TextDelta),
            _ => true,
        }
}

proof fn lemma_textless(events: Seq<MessagesEventView>)
    requires
        textless(events),
    ensures
        shown_text(events) == Seq::<char>::empty(),
    decreases events.len(),
{
    if events.len() > 0 {
        lemma_textless(events.drop_last());
        let last = events[events.len() - 1];
        assert(shown_text(events) =~= Seq::empty());
    }
}

proof fn lemma_calls_textless(em: Emission, calls: Seq<JsonView>)
    requires
        textless(em.events),
    ensures
        textless(em.calls(calls).events),
    decreases calls.len(),
{
    if calls.len() > 0 {
        lemma_calls_textless(em, calls.drop_last());
    }
}

/// An event other than text shows no text.
proof fn lemma_textless_event(
    em: Emission,
    event: SseEventView,
    id: Seq<char>,
    model: Seq<char>,
    client_tools: bool,
)
    requires
        textless(em.events),
        metering::event_text(event) is None,
    ensures
        textless(em.event(event, id, model, client_tools).events),
{
    if let SseEventView::Frame(frame) = event {
        let open = em.started(id, model);
        assert(textless(open.events));
        if let Some(calls) = messages::forwarded_calls(frame) {
            lemma_calls_textless(open.text_closed(), calls);
        }
    }
}

/// Whether all text of a stream comes before the end of the message.
pub open spec fn text_in_time(arrivals: Seq<ArrivalView>) -> bool {
    forall|i: int|
        0 <= i < arrivals.len() && metering::event_text((#[trigger] arrivals[i]).event) is Some
            ==> !has_end(arrivals.take(i))
}

/// Text is never dropped and never changed: a message shows the text of all frames, in turn, as
/// long as no text comes after its end.
pub proof fn law_message_text_is_kept(
    arrivals: Seq<ArrivalView>,
    id: Seq<char>,
    model: Seq<char>,
    client_tools: bool,
)
    requires
        text_in_time(arrivals),
    ensures
        shown_text(messages::nothing_shown().events(arrivals, id, model, client_tools).events)
            == stream_text(arrivals),
    decreases arrivals.len(),
{
    if arrivals.len() > 0 {
        let shorter = arrivals.drop_last();
        let last = arrivals.last().event;
        let before = messages::nothing_shown().events(shorter, id, model, client_tools);
        let fresh = afresh(before);
        let added = fresh.event(last, id, model, client_tools).events;
        let n = arrivals.len() - 1;
        assert(arrivals.take(n) == shorter);
        assert(arrivals[n].event == last);
        assert forall|i: int|
            0 <= i < shorter.len() && metering::event_text(
                (#[trigger] shorter[i]).event,
            ) is Some implies !has_end(shorter.take(i)) by {
            assert(metering::event_text(arrivals[i].event) is Some);
            assert(arrivals.take(i) == shorter.take(i));
        }
        law_message_text_is_kept(shorter, id, model, client_tools);
        law_end_is_known(shorter, id, model, client_tools);
        law_events_are_added(before, last, id, model, client_tools);
        lemma_text_adds(before.events, added);
        if metering::event_text(last) is Some {
            let opened = fresh.started(id, model).text_opened();
            assert(textless(opened.events));
            lemma_textless(opened.events);
            assert(added.drop_last() =~= opened.events);
            assert(shown_text(added) =~= added.last()->delta->text);
        } else {
            lemma_textless_event(fresh, last, id, model, client_tools);
            lemma_textless(added);
        }
    }
}

/// The end of a message closes an open text block, says why the message stopped and what it
/// used, and stops it. A message that failed gives no reason. A second end changes nothing.
pub proof fn law_end_of_a_message(em: Emission)
    ensures
        em.model.sent_stop ==> em.ended() == em,
        em.ended().ended() == em.ended(),
        em.ended().model == (MsgModel {
            sent_stop: true,
            text_block: if em.model.sent_stop {
                em.model.text_block
            } else {
                None
            },
            ..em.model
        }),
        !em.model.sent_stop ==> em.ended().events == (match em.model.text_block {
            Some(index) => em.events.push(MessagesEventView::ContentBlockStop { index }),
            None => em.events,
        }).push(
            MessagesEventView::MessageDelta {
                stop_reason: messages::stop_reason_of(em.model),
                usage: messages::final_usage(em.model),
            },
        ).push(MessagesEventView::MessageStop),
        messages::stop_reason_of(em.model) is None <==> em.model.in_stream_error is Some,
{
}

} // verus!
