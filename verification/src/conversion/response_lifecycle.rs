//! The order that the events of a response stream keep.

use vstd::prelude::*;

use crate::json::JsonView;

use super::lifecycle;
use super::markers;
use super::markers::{ArrivalView, MarkerView, SseEventView};
use super::metering;
use super::responses;
use super::responses::{Emission, NumberedEventView, RespModel, ResponseEventView, Status};

verus! {

/// What an event shows does not depend on what was shown before: it is added to it.
pub proof fn law_response_events_are_added(
    em: Emission,
    event: SseEventView,
    id: Seq<char>,
    model: Seq<char>,
)
    ensures
        ({
            let fresh = Emission { model: em.model, events: Seq::empty() };
            &&& em.event(event, id, model).model == fresh.event(event, id, model).model
            &&& em.event(event, id, model).events == em.events + fresh.event(
                event,
                id,
                model,
            ).events
        }),
{
}

/// What was shown of a response stays shown as the stream goes on.
pub proof fn law_response_events_stay(
    arrivals: Seq<ArrivalView>,
    id: Seq<char>,
    model: Seq<char>,
    i: int,
)
    requires
        0 <= i <= arrivals.len(),
    ensures
        responses::nothing_shown().events(arrivals.take(i), id, model).events.is_prefix_of(
            responses::nothing_shown().events(arrivals, id, model).events,
        ),
    decreases arrivals.len(),
{
    if i < arrivals.len() {
        let shorter = arrivals.drop_last();
        assert(shorter.take(i) == arrivals.take(i));
        law_response_events_stay(shorter, id, model, i);
    } else {
        assert(arrivals.take(i) == arrivals);
    }
}

/// Where a client stands in a response.
pub enum Phase {
    /// Nothing came yet.
    Before,
    /// The response was created.
    Created,
    /// The response is in progress.
    Started,
    /// The item was added.
    ItemAdded,
    /// The part was added, and content comes.
    Open,
    /// The text is done.
    TextDone,
    /// The part is done.
    PartDone,
    /// The item is done.
    ItemDone,
    /// The response is completed or failed.
    Finished,
}

/// Where a client stands after one more event; nothing where the event is out of order.
pub open spec fn advance(phase: Phase, event: ResponseEventView) -> Option<Phase> {
    match (phase, event) {
        (Phase::Before, ResponseEventView::Created { .. }) => Some(Phase::Created),
        (Phase::Created, ResponseEventView::InProgress { .. }) => Some(Phase::Started),
        (Phase::Started, ResponseEventView::OutputItemAdded { .. }) => Some(Phase::ItemAdded),
        (Phase::ItemAdded, ResponseEventView::ContentPartAdded { .. }) => Some(Phase::Open),
        (Phase::Open, ResponseEventView::OutputTextDelta { .. }) => Some(Phase::Open),
        (Phase::Open, ResponseEventView::OutputTextAnnotationAdded { .. }) => Some(Phase::Open),
        (Phase::Open, ResponseEventView::OutputTextDone { .. }) => Some(Phase::TextDone),
        (Phase::TextDone, ResponseEventView::ContentPartDone { .. }) => Some(Phase::PartDone),
        (Phase::PartDone, ResponseEventView::OutputItemDone { .. }) => Some(Phase::ItemDone),
        (Phase::ItemDone, ResponseEventView::Completed { .. }) => Some(Phase::Finished),
        (Phase::Started, ResponseEventView::Completed { .. }) => Some(Phase::Finished),
        (Phase::Started, ResponseEventView::Failed { .. }) => Some(Phase::Finished),
        (Phase::Open, ResponseEventView::Failed { .. }) => Some(Phase::Finished),
        _ => None,
    }
}

/// Where a client stands after a list of events; nothing where one is out of order.
pub open spec fn run(phase: Phase, events: Seq<NumberedEventView>) -> Option<Phase>
    decreases events.len(),
{
    if events.len() == 0 {
        Some(phase)
    } else {
        match run(phase, events.drop_last()) {
            Some(reached) => advance(reached, events.last().event),
            None => None,
        }
    }
}

/// Where a client stands that saw everything up to a state of the stream.
pub open spec fn phase_of(model: RespModel) -> Phase {
    if model.finished {
        Phase::Finished
    } else if model.created {
        Phase::Open
    } else {
        Phase::Before
    }
}

/// Whether an event ends a response: the terminator or an error.
pub open spec fn ends_response(event: SseEventView) -> bool {
    event is Done || lifecycle::is_error(event)
}

/// Whether a response ended in a stream.
pub open spec fn has_response_end(arrivals: Seq<ArrivalView>) -> bool {
    exists|i: int| 0 <= i < arrivals.len() && ends_response((#[trigger] arrivals[i]).event)
}

proof fn lemma_run_concat(
    phase: Phase,
    first: Seq<NumberedEventView>,
    second: Seq<NumberedEventView>,
)
    ensures
        run(phase, first + second) == match run(phase, first) {
            Some(reached) => run(reached, second),
            None => None,
        },
    decreases second.len(),
{
    if second.len() == 0 {
        assert(first + second == first);
    } else {
        assert((first + second).drop_last() == first + second.drop_last());
        lemma_run_concat(phase, first, second.drop_last());
    }
}

/// What every state of a response stream keeps: the events are in order and numbered from one
/// without a gap, and the first two are the creation.
spec fn in_order(em: Emission) -> bool {
    &&& run(Phase::Before, em.events) == Some(phase_of(em.model))
    &&& em.model.seq == em.events.len()
    &&& forall|k: int|
        0 <= k < em.events.len() ==> (#[trigger] em.events[k]).sequence_number == k + 1
    &&& em.events.len() > 0 <==> em.model.created || em.model.finished
    &&& em.events.len() > 0 ==> begins_with_creation(em.events)
}

/// Whether the first two events are the creation of the response.
pub open spec fn begins_with_creation(events: Seq<NumberedEventView>) -> bool {
    &&& events.len() >= 2
    &&& events[0].event is Created
    &&& events[1].event is InProgress
}

/// What an event shows leads from one phase to the next.
proof fn lemma_shows(state: RespModel, event: SseEventView, id: Seq<char>, model: Seq<char>)
    ensures
        run(
            phase_of(state),
            responses::numbered(state.seq, state.shows(event, id, model)),
        ) == Some(phase_of(state.after(event, id, model))),
{
    let list = state.shows(event, id, model);
    let all = responses::numbered(state.seq, list);
    reveal_with_fuel(run, 6);
    if list.len() > 0 {
        let n = list.len();
        assert(1 <= n <= 5);
        assert(all.last().event == list.last());
        assert(n > 1 ==> all.drop_last().last().event == list[n - 2]);
        assert(n > 2 ==> all.drop_last().drop_last().last().event == list[n - 3]);
        assert(n > 3 ==> all.drop_last().drop_last().drop_last().last().event == list[n - 4]);
        assert(n > 4 ==> all.drop_last().drop_last().drop_last().drop_last().last().event
            == list[n - 5]);
    }
}

proof fn lemma_event(em: Emission, event: SseEventView, id: Seq<char>, model: Seq<char>)
    requires
        in_order(em),
    ensures
        in_order(em.event(event, id, model)),
        em.event(event, id, model).model.finished == (em.model.finished || ends_response(event)),
{
    lemma_shows(em.model, event, id, model);
    lemma_run_concat(
        Phase::Before,
        em.events,
        responses::numbered(em.model.seq, em.model.shows(event, id, model)),
    );
}

/// The numbers that a state has used up, at most.
spec fn numbers_used(arrivals: nat, state: RespModel) -> nat {
    arrivals + (if state.created {
        4nat
    } else {
        0
    }) + (if state.finished {
        3nat
    } else {
        0
    })
}

proof fn lemma_events(arrivals: Seq<ArrivalView>, id: Seq<char>, model: Seq<char>)
    ensures
        ({
            let em = responses::nothing_shown().events(arrivals, id, model);
            &&& in_order(em)
            &&& em.model.finished == has_response_end(arrivals)
            &&& em.model.seq <= numbers_used(arrivals.len(), em.model)
        }),
    decreases arrivals.len(),
{
    if arrivals.len() > 0 {
        let shorter = arrivals.drop_last();
        let last = arrivals.last().event;
        lemma_events(shorter, id, model);
        lemma_event(responses::nothing_shown().events(shorter, id, model), last, id, model);
        if has_response_end(shorter) {
            let i = choose|i: int|
                0 <= i < shorter.len() && ends_response((#[trigger] shorter[i]).event);
            assert(ends_response(arrivals[i].event));
        }
        if has_response_end(arrivals) && !ends_response(last) {
            let i = choose|i: int|
                0 <= i < arrivals.len() && ends_response((#[trigger] arrivals[i]).event);
            assert(ends_response(shorter[i].event));
        }
        if ends_response(last) {
            assert(ends_response(arrivals[arrivals.len() - 1].event));
        }
    }
}

/// The numbers that a response stream needs: one for each sidecar event, and seven more at most.
pub proof fn law_response_numbers_are_bounded(
    arrivals: Seq<ArrivalView>,
    id: Seq<char>,
    model: Seq<char>,
)
    ensures
        responses::nothing_shown().events(arrivals, id, model).model.seq <= arrivals.len() + 7,
{
    lemma_events(arrivals, id, model);
}

/// The events of a response stream are numbered from one, without a gap.
pub proof fn law_sequence_numbers_count_up(
    arrivals: Seq<ArrivalView>,
    id: Seq<char>,
    model: Seq<char>,
)
    ensures
        ({
            let em = responses::nothing_shown().events(arrivals, id, model);
            &&& em.model.seq == em.events.len()
            &&& forall|k: int|
                0 <= k < em.events.len() ==> (#[trigger] em.events[k]).sequence_number == k + 1
        }),
{
    lemma_events(arrivals, id, model);
}

/// A response is shown in order, whatever comes: created, in progress, its item and the item's
/// part added, text and annotations, the same closed in turn, and last the completion. An error
/// ends it where it stands. A stream that has ended has shown a response to its end.
pub proof fn law_response_lifecycle(arrivals: Seq<ArrivalView>, id: Seq<char>, model: Seq<char>)
    ensures
        ({
            let em = responses::nothing_shown().events(arrivals, id, model);
            &&& run(Phase::Before, em.events) == Some(phase_of(em.model))
            &&& has_response_end(arrivals) ==> run(Phase::Before, em.events) == Some(
                Phase::Finished,
            )
        }),
{
    lemma_events(arrivals, id, model);
}

/// A response begins with its creation, whatever is shown of it, and is created at most once.
pub proof fn law_creation_comes_first_and_once(
    arrivals: Seq<ArrivalView>,
    id: Seq<char>,
    model: Seq<char>,
)
    ensures
        ({
            let events = responses::nothing_shown().events(arrivals, id, model).events;
            &&& events.len() > 0 ==> begins_with_creation(events)
            &&& has_response_end(arrivals) ==> begins_with_creation(events)
            &&& forall|k: int|
                0 <= k < events.len() && (#[trigger] events[k]).event is Created ==> k == 0
        }),
{
    let events = responses::nothing_shown().events(arrivals, id, model).events;
    lemma_events(arrivals, id, model);
    assert forall|k: int|
        0 <= k < events.len() && (#[trigger] events[k]).event is Created implies k == 0 by {
        lemma_created_first(events, k);
    }
}

proof fn lemma_created_first(events: Seq<NumberedEventView>, k: int)
    requires
        run(Phase::Before, events) is Some,
        0 <= k < events.len(),
        events[k].event is Created,
    ensures
        k == 0,
    decreases events.len(),
{
    if k < events.len() - 1 {
        lemma_created_first(events.drop_last(), k);
    } else if k > 0 {
        assert(run(Phase::Before, events.drop_last()) != Some(Phase::Before));
    }
}

/// A completed or failed response is the end: nothing is shown after it. So a response that has
/// failed is never completed.
pub proof fn law_terminal_event_is_last(
    arrivals: Seq<ArrivalView>,
    id: Seq<char>,
    model: Seq<char>,
    k: int,
)
    requires
        0 <= k < responses::nothing_shown().events(arrivals, id, model).events.len(),
        responses::nothing_shown().events(arrivals, id, model).events[k].event.is_terminal(),
    ensures
        k == responses::nothing_shown().events(arrivals, id, model).events.len() - 1,
{
    let events = responses::nothing_shown().events(arrivals, id, model).events;
    lemma_events(arrivals, id, model);
    lemma_terminal_last(Phase::Before, events, k);
}

proof fn lemma_terminal_last(phase: Phase, events: Seq<NumberedEventView>, k: int)
    requires
        run(phase, events) is Some,
        0 <= k < events.len(),
        events[k].event.is_terminal(),
    ensures
        k == events.len() - 1,
        run(phase, events) == Some(Phase::Finished),
    decreases events.len(),
{
    if k < events.len() - 1 {
        lemma_terminal_last(phase, events.drop_last(), k);
    }
}

/// An error in the stream fails the response, with the error's message, unless the response has
/// ended already.
pub proof fn law_response_error_is_surfaced(
    em: Emission,
    event: SseEventView,
    id: Seq<char>,
    model: Seq<char>,
    message: Seq<char>,
)
    requires
        !em.model.finished,
        event is Frame,
        markers::frame_marker(event->Frame_0) == MarkerView::InStreamError(message),
    ensures
        ({
            let shown = em.event(event, id, model).events;
            &&& shown.len() > em.events.len()
            &&& shown.last().event is Failed
            &&& shown.last().event->Failed_response.status == Status::Failed
            &&& shown.last().event->Failed_response.error is Some
            &&& shown.last().event->Failed_response.error->0.message == message
        }),
{
}

/// The text that the deltas of a response join to.
pub open spec fn delta_text(events: Seq<NumberedEventView>) -> Seq<char>
    decreases events.len(),
{
    if events.len() == 0 {
        Seq::empty()
    } else {
        delta_text(events.drop_last()) + match events.last().event {
            ResponseEventView::OutputTextDelta { delta, .. } => delta,
            _ => Seq::empty(),
        }
    }
}

/// The search rounds that the annotations of a response tell of.
pub open spec fn annotations(events: Seq<NumberedEventView>) -> Seq<JsonView>
    decreases events.len(),
{
    if events.len() == 0 {
        Seq::empty()
    } else {
        match events.last().event {
            ResponseEventView::OutputTextAnnotationAdded { annotation, .. } => annotations(
                events.drop_last(),
            ).push(annotation),
            _ => annotations(events.drop_last()),
        }
    }
}

/// Whether all text and all search rounds of a stream come before the response ends.
pub open spec fn content_in_time(arrivals: Seq<ArrivalView>) -> bool {
    forall|i: int|
        0 <= i < arrivals.len() && (metering::event_text(
            (#[trigger] arrivals[i]).event,
        ) is Some || event_round(arrivals[i].event) is Some) ==> !has_response_end(arrivals.take(i))
}

/// The search round that an event tells of.
pub open spec fn event_round(event: SseEventView) -> Option<JsonView> {
    match event {
        SseEventView::Frame(frame) => match markers::frame_marker(frame) {
            MarkerView::ToolRound(round) => Some(round),
            _ => None,
        },
        _ => None,
    }
}

/// The search rounds of a stream.
pub open spec fn stream_rounds(arrivals: Seq<ArrivalView>) -> Seq<JsonView>
    decreases arrivals.len(),
{
    if arrivals.len() == 0 {
        Seq::empty()
    } else {
        match event_round(arrivals.last().event) {
            Some(round) => stream_rounds(arrivals.drop_last()).push(round),
            None => stream_rounds(arrivals.drop_last()),
        }
    }
}

/// Whether an event brings content.
spec fn is_content(event: ResponseEventView) -> bool {
    event is OutputTextDelta || event is OutputTextAnnotationAdded
}

/// Only the last event of a list can bring content, and it alone adds to what is shown.
proof fn lemma_content_added(before: Seq<NumberedEventView>, added: Seq<NumberedEventView>)
    requires
        forall|k: int| 0 <= k < added.len() - 1 ==> !is_content((#[trigger] added[k]).event),
    ensures
        delta_text(before + added) == delta_text(before) + (if added.len() > 0 {
            match added.last().event {
                ResponseEventView::OutputTextDelta { delta, .. } => delta,
                _ => Seq::empty(),
            }
        } else {
            Seq::empty()
        }),
        annotations(before + added) == (if added.len() > 0 {
            match added.last().event {
                ResponseEventView::OutputTextAnnotationAdded { annotation, .. } => annotations(
                    before,
                ).push(annotation),
                _ => annotations(before),
            }
        } else {
            annotations(before)
        }),
    decreases added.len(),
{
    assert(delta_text(before) + Seq::<char>::empty() =~= delta_text(before));
    if added.len() == 0 {
        assert(before + added =~= before);
    } else {
        let shorter = added.drop_last();
        assert((before + added).drop_last() =~= before + shorter);
        assert forall|k: int| 0 <= k < shorter.len() implies !is_content(
            (#[trigger] shorter[k]).event,
        ) by {
            assert(shorter[k] == added[k]);
        }
        lemma_content_added(before, shorter);
        if shorter.len() > 0 {
            assert(!is_content(shorter[shorter.len() - 1].event));
        }
    }
}

proof fn lemma_event_content(em: Emission, event: SseEventView, id: Seq<char>, model: Seq<char>)
    requires
        !em.model.finished || metering::event_text(event) is None && event_round(event) is None,
    ensures
        ({
            let next = em.event(event, id, model);
            &&& delta_text(next.events) == delta_text(em.events) + lifecycle::event_words(event)
            &&& next.model.text == em.model.text + lifecycle::event_words(event)
            &&& annotations(next.events) == match event_round(event) {
                Some(round) => annotations(em.events).push(round),
                None => annotations(em.events),
            }
        }),
{
    let added = responses::numbered(em.model.seq, em.model.shows(event, id, model));
    assert(em.model.text + Seq::<char>::empty() =~= em.model.text);
    lemma_content_added(em.events, added);
}

/// Text and search rounds are never dropped and never changed: the deltas of a response join to
/// the text of all frames, and its annotations are the rounds of all frames, in their order, as
/// long as neither comes after the response has ended.
pub proof fn law_response_content_is_kept(
    arrivals: Seq<ArrivalView>,
    id: Seq<char>,
    model: Seq<char>,
)
    requires
        content_in_time(arrivals),
    ensures
        ({
            let em = responses::nothing_shown().events(arrivals, id, model);
            &&& delta_text(em.events) == lifecycle::stream_text(arrivals)
            &&& em.model.text == lifecycle::stream_text(arrivals)
            &&& annotations(em.events) == stream_rounds(arrivals)
        }),
    decreases arrivals.len(),
{
    if arrivals.len() > 0 {
        let shorter = arrivals.drop_last();
        let n = arrivals.len() - 1;
        let last = arrivals[n].event;
        assert(arrivals.take(n) == shorter);
        assert forall|i: int|
            0 <= i < shorter.len() && (metering::event_text(
                (#[trigger] shorter[i]).event,
            ) is Some || event_round(shorter[i].event) is Some) implies !has_response_end(
            shorter.take(i),
        ) by {
            assert(arrivals[i] == shorter[i]);
            assert(arrivals.take(i) == shorter.take(i));
        }
        law_response_content_is_kept(shorter, id, model);
        lemma_events(shorter, id, model);
        lemma_event_content(responses::nothing_shown().events(shorter, id, model), last, id, model);
    }
}

/// A completed response carries the text of all frames before it, and the last provenance.
pub proof fn law_completion_carries_the_text(
    arrivals: Seq<ArrivalView>,
    id: Seq<char>,
    model: Seq<char>,
    end: ArrivalView,
)
    requires
        !has_response_end(arrivals),
        end.event is Done,
    ensures
        ({
            let before = responses::nothing_shown().events(arrivals, id, model).model;
            let shown = responses::nothing_shown().events(arrivals.push(end), id, model).events;
            &&& shown.len() > 0
            &&& shown.last().event is Completed
            &&& shown.last().event->output_text == lifecycle::stream_text(arrivals)
            &&& shown.last().event->provenance == before.provenance
        }),
{
    assert(arrivals.push(end).drop_last() == arrivals);
    assert forall|i: int|
        0 <= i < arrivals.len() && (metering::event_text(
            (#[trigger] arrivals[i]).event,
        ) is Some || event_round(arrivals[i].event) is Some) implies !has_response_end(
        arrivals.take(i),
    ) by {
        if has_response_end(arrivals.take(i)) {
            let j = choose|j: int|
                0 <= j < i && ends_response((#[trigger] arrivals.take(i)[j]).event);
            assert(ends_response(arrivals[j].event));
        }
    }
    law_response_content_is_kept(arrivals, id, model);
    lemma_events(arrivals, id, model);
}

} // verus!
