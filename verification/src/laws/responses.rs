//! What a response stream promises for each frame that comes.

use vstd::prelude::*;

use crate::conversion::markers::SseEventView;
use crate::conversion::responses;
use crate::conversion::responses::{
    Emission, OutputItem, RespModel, Response, ResponseEvent, ResponseEventView,
    ResponseStreamEvent, ResponseView, Status,
};
use crate::json;
use crate::json::JsonView;
use crate::laws::frames;
use crate::laws::messages::inner;

verus! {

/// Whether a response that an event shows is this one, in this state and without an error.
pub open spec fn is_response(
    response: ResponseView,
    id: Seq<char>,
    model: Seq<char>,
    status: Status,
) -> bool {
    &&& response.id == id
    &&& response.model == model
    &&& response.status == status
    &&& response.error is None
}

/// Whether an event is about the response of this id and model, and about its one item. `text` is
/// the text so far.
pub open spec fn is_about(
    event: ResponseEventView,
    id: Seq<char>,
    model: Seq<char>,
    text: Seq<char>,
) -> bool {
    let item = "msg_"@ + id;
    match event {
        ResponseEventView::Created { response } => is_response(
            response,
            id,
            model,
            Status::InProgress,
        ) && response.usage is None,
        ResponseEventView::InProgress { response } => is_response(
            response,
            id,
            model,
            Status::InProgress,
        ) && response.usage is None,
        ResponseEventView::OutputItemAdded { item: added } => added.id == item && added.status
            == Status::InProgress && added.text.len() == 0,
        ResponseEventView::ContentPartAdded { item_id } => item_id == item,
        ResponseEventView::OutputTextDelta { item_id, .. } => item_id == item,
        ResponseEventView::OutputTextAnnotationAdded { item_id, .. } => item_id == item,
        ResponseEventView::OutputTextDone { item_id, text: whole } => item_id == item && whole == text,
        ResponseEventView::ContentPartDone { item_id, text: whole } => item_id == item && whole == text,
        ResponseEventView::OutputItemDone { item: done } => done.id == item && done.status
            == Status::Completed && done.text == text,
        ResponseEventView::Completed { response, output_text, .. } => is_response(
            response,
            id,
            model,
            Status::Completed,
        ) && output_text == text,
        ResponseEventView::Failed { response } => response.id == id && response.model == model
            && response.status == Status::Failed && response.error is Some
            && response.error->0.code == "internal_server_error"@,
    }
}

/// Every event that a stream shows is about its own response and its own item; what closes the
/// item and completes the response has the whole text.
pub proof fn law_every_event_is_about_its_response(
    em: Emission,
    event: SseEventView,
    id: Seq<char>,
    model: Seq<char>,
    k: int,
)
    requires
        em.events.len() <= k < em.event(event, id, model).events.len(),
    ensures
        is_about(em.event(event, id, model).events[k].event, id, model, em.model.text),
{
    let list = em.model.shows(event, id, model);
    let i = k - em.events.len();
    assert(em.event(event, id, model).events[k].event == list[i]);
}

/// A piece of text is shown as it is, as the last event, and added to the text.
pub proof fn law_text_is_a_delta_of_the_item(
    em: Emission,
    frame: JsonView,
    delta: JsonView,
    text: Seq<char>,
    id: Seq<char>,
    model: Seq<char>,
)
    requires
        !em.model.finished,
        frames::tells_text(frame, delta, text),
    ensures
        ({
            let next = em.event(SseEventView::Frame(frame), id, model);
            let n = next.events.len() as int;
            &&& next.events.last().event == (ResponseEventView::OutputTextDelta {
                item_id: "msg_"@ + id,
                delta: text,
            })
            &&& next.model.text == em.model.text + text
            &&& next.model.created
            &&& em.model.created ==> n == em.events.len() + 1
            &&& !em.model.created ==> n == em.events.len() + 5 && next.events[n - 5].event is Created
                && next.events[n - 4].event is InProgress && next.events[n
                - 3].event is OutputItemAdded && next.events[n - 2].event is ContentPartAdded
            &&& next.model.usage == em.model.usage
            &&& next.model.provenance == em.model.provenance
            &&& !next.model.finished
        }),
{
    frames::law_frames_are_told_by_their_members(frame, delta, delta, text);
}

/// A search round is shown as it is, as an annotation of the item and as the last event.
pub proof fn law_a_round_is_an_annotation_of_the_item(
    em: Emission,
    frame: JsonView,
    round: JsonView,
    id: Seq<char>,
    model: Seq<char>,
)
    requires
        !em.model.finished,
        frames::tells_round(frame, round),
    ensures
        ({
            let next = em.event(SseEventView::Frame(frame), id, model);
            let n = next.events.len() as int;
            &&& next.events.last().event == (ResponseEventView::OutputTextAnnotationAdded {
                item_id: "msg_"@ + id,
                annotation: round,
            })
            &&& next.model.text == em.model.text
            &&& next.model.created
            &&& em.model.created ==> n == em.events.len() + 1
            &&& !em.model.created ==> n == em.events.len() + 5
            &&& next.model.usage == em.model.usage
            &&& next.model.provenance == em.model.provenance
            &&& !next.model.finished
        }),
{
    frames::law_frames_are_told_by_their_members(frame, round, round, Seq::empty());
}

/// Token counts and provenance show nothing; they are kept for the end of the response. Calls of
/// the client's tools, frames of no known kind and payloads that cannot be read leave no trace.
pub proof fn law_counts_and_provenance_wait_for_the_end(
    em: Emission,
    frame: JsonView,
    part: JsonView,
    delta: JsonView,
    id: Seq<char>,
    model: Seq<char>,
)
    requires
        !em.model.finished,
    ensures
        ({
            let next = em.event(SseEventView::Frame(frame), id, model);
            &&& frames::tells_usage(frame, part) ==> next.events == em.events && next.model == (
            RespModel { usage: Some(responses::response_usage(part)), ..em.model })
            &&& frames::tells_provenance(frame, part) ==> next.events == em.events && next.model == (
            RespModel { provenance: Some(part), ..em.model })
            &&& frames::tells_calls(frame, delta, part) || frames::tells_nothing(frame) ==> next.events
                == em.events && next.model == em.model
        }),
        em.event(SseEventView::Malformed, id, model).events == em.events,
        em.event(SseEventView::Malformed, id, model).model == em.model,
{
    frames::law_frames_are_told_by_their_members(frame, part, delta, Seq::empty());
}

/// The terminator completes the response with the last counts, the whole text and the last
/// provenance; an error fails it with the last counts and the error's message. Either is the last
/// event, and the response is finished.
pub proof fn law_a_response_ends_with_what_was_kept(
    em: Emission,
    frame: JsonView,
    message: Seq<char>,
    id: Seq<char>,
    model: Seq<char>,
)
    requires
        !em.model.finished,
    ensures
        ({
            let end = em.event(SseEventView::Done, id, model);
            let last = end.events.last().event;
            &&& end.model.finished
            &&& end.events.len() == em.events.len() + if em.model.created {
                4int
            } else {
                3
            }
            &&& last is Completed
            &&& last->Completed_response.usage == em.model.usage
            &&& last->output_text == em.model.text
            &&& last->provenance == em.model.provenance
        }),
        frames::tells_error(frame, message) ==> {
            let end = em.event(SseEventView::Frame(frame), id, model);
            let last = end.events.last().event;
            &&& end.model.finished
            &&& end.events.len() == em.events.len() + if em.model.created {
                1int
            } else {
                3
            }
            &&& last is Failed
            &&& last->Failed_response.usage == em.model.usage
            &&& last->Failed_response.error is Some
            &&& last->Failed_response.error->0.message == message
        },
{
    frames::law_frames_are_told_by_their_members(frame, frame, frame, message);
}

/// A finished response stays as it is, whatever comes.
pub proof fn law_a_finished_response_stays(
    em: Emission,
    event: SseEventView,
    id: Seq<char>,
    model: Seq<char>,
)
    requires
        em.model.finished,
    ensures
        em.event(event, id, model) == em,
{
}

/// A count of a response is the sidecar's, of which the lowest 32 bits are kept; a count that the
/// sidecar does not give is zero.
pub open spec fn counts(told: Option<JsonView>, count: u32) -> bool {
    &&& told is Some && told->0 is Unsigned ==> count == told->0->Unsigned_0 % 0x1_0000_0000
    &&& told is None || !(told->0 is Unsigned) ==> count == 0
}

/// The counts of a response are those of the same names in the sidecar's report.
pub proof fn law_response_counts(usage: JsonView)
    ensures
        ({
            let told = responses::response_usage(usage);
            let written = inner(usage, "prompt_tokens_details"@, "cache_write_tokens"@);
            &&& counts(usage.member("prompt_tokens"@), told.input_tokens)
            &&& counts(usage.member("completion_tokens"@), told.output_tokens)
            &&& counts(usage.member("total_tokens"@), told.total_tokens)
            &&& counts(
                inner(usage, "prompt_tokens_details"@, "cached_tokens"@),
                told.input_tokens_details.cached_tokens,
            )
            &&& counts(
                inner(usage, "completion_tokens_details"@, "reasoning_tokens"@),
                told.output_tokens_details.reasoning_tokens,
            )
            &&& written is Some && written->0 is Unsigned
                ==> told.input_tokens_details.cache_write_tokens is Some && counts(
                written,
                told.input_tokens_details.cache_write_tokens->0,
            )
            &&& written is None || !(written->0 is Unsigned)
                ==> told.input_tokens_details.cache_write_tokens is None
        }),
{
    assert forall|n: u64| #[trigger] responses::narrow(n) == n % 0x1_0000_0000 by {
        assert(n as u32 == n % 0x1_0000_0000) by (bit_vector);
    }
}

/// An event goes by the name of its kind.
pub proof fn law_response_events_go_by_their_names(event: ResponseEventView)
    ensures
        event is Created ==> event.name() == "response.created"@,
        event is InProgress ==> event.name() == "response.in_progress"@,
        event is OutputItemAdded ==> event.name() == "response.output_item.added"@,
        event is ContentPartAdded ==> event.name() == "response.content_part.added"@,
        event is OutputTextDelta ==> event.name() == "response.output_text.delta"@,
        event is OutputTextAnnotationAdded ==> event.name()
            == "response.output_text.annotation.added"@,
        event is OutputTextDone ==> event.name() == "response.output_text.done"@,
        event is ContentPartDone ==> event.name() == "response.content_part.done"@,
        event is OutputItemDone ==> event.name() == "response.output_item.done"@,
        event is Completed ==> event.name() == "response.completed"@,
        event is Failed ==> event.name() == "response.failed"@,
{
}

/// Events, items and responses say what they hold.
pub proof fn law_response_events_say_what_they_hold(
    event: ResponseEvent,
    response: Response,
    item: OutputItem,
    events: Seq<ResponseStreamEvent>,
)
    ensures
        event is Created ==> event@ == (ResponseEventView::Created {
            response: event->Created_response@,
        }),
        event is InProgress ==> event@ == (ResponseEventView::InProgress {
            response: event->InProgress_response@,
        }),
        event is OutputItemAdded ==> event@ == (ResponseEventView::OutputItemAdded {
            item: event->OutputItemAdded_item@,
        }),
        event is ContentPartAdded ==> event@ == (ResponseEventView::ContentPartAdded {
            item_id: event->ContentPartAdded_item_id@,
        }),
        event is OutputTextDelta ==> event@ == (ResponseEventView::OutputTextDelta {
            item_id: event->OutputTextDelta_item_id@,
            delta: event->delta@,
        }),
        event is OutputTextAnnotationAdded ==> event@ == (
        ResponseEventView::OutputTextAnnotationAdded {
            item_id: event->OutputTextAnnotationAdded_item_id@,
            annotation: event->annotation@,
        }),
        event is OutputTextDone ==> event@ == (ResponseEventView::OutputTextDone {
            item_id: event->OutputTextDone_item_id@,
            text: event->OutputTextDone_text@,
        }),
        event is ContentPartDone ==> event@ == (ResponseEventView::ContentPartDone {
            item_id: event->ContentPartDone_item_id@,
            text: event->ContentPartDone_text@,
        }),
        event is OutputItemDone ==> event@ == (ResponseEventView::OutputItemDone {
            item: event->OutputItemDone_item@,
        }),
        event is Completed ==> event@ == (ResponseEventView::Completed {
            response: event->Completed_response@,
            output_text: event->output_text@,
            provenance: json::owned_view(event->provenance),
        }),
        event is Failed ==> event@ == (ResponseEventView::Failed {
            response: event->Failed_response@,
        }),
        response@.id == response.id@,
        response@.model == response.model@,
        response@.status == response.status,
        response@.usage == response.usage,
        response.error is Some <==> response@.error is Some,
        response.error is Some ==> response@.error->0.code == response.error->0.code@
            && response@.error->0.message == response.error->0.message@,
        item@.id == item.id@,
        item@.status == item.status,
        item@.text == item.text@,
        responses::events_view(events).len() == events.len(),
        forall|i: int|
            0 <= i < events.len() ==> (#[trigger] responses::events_view(events)[i]).sequence_number
                == events[i].sequence_number && responses::events_view(events)[i].event
                == events[i].event@,
{
}

} // verus!
