//! What the frames of a sidecar are, told by their members alone.

use vstd::prelude::*;

use crate::conversion::markers;
use crate::conversion::markers::{Arrival, Marker, MarkerView, SseEvent, SseEventView};
use crate::conversion::web_search;
use crate::json::JsonView;

verus! {

/// A frame with the provenance of an answer.
pub open spec fn tells_provenance(frame: JsonView, provenance: JsonView) -> bool {
    frame.member("x-ai-ws-provenance"@) == Some(provenance)
}

/// A frame with a search round.
pub open spec fn tells_round(frame: JsonView, round: JsonView) -> bool {
    &&& frame.member("x-ai-ws-provenance"@) is None
    &&& frame.member("x-ai-ws-tool-round"@) == Some(round)
}

/// A frame with neither provenance nor a search round.
pub open spec fn is_plain(frame: JsonView) -> bool {
    &&& frame.member("x-ai-ws-provenance"@) is None
    &&& frame.member("x-ai-ws-tool-round"@) is None
}

/// A frame with an object of token counts.
pub open spec fn tells_usage(frame: JsonView, usage: JsonView) -> bool {
    &&& is_plain(frame)
    &&& frame.member("usage"@) == Some(usage)
    &&& usage is Object
}

/// A plain frame without an object of token counts.
pub open spec fn tells_no_usage(frame: JsonView) -> bool {
    &&& is_plain(frame)
    &&& frame.member("usage"@) is Some ==> !(frame.member("usage"@)->0 is Object)
}

/// A frame with an error.
pub open spec fn tells_error(frame: JsonView, message: Seq<char>) -> bool {
    &&& tells_no_usage(frame)
    &&& frame.member("error"@) is Some
    &&& frame.member("error"@)->0.member("message"@) == Some(JsonView::Text(message))
}

/// A frame with neither token counts nor an error.
pub open spec fn tells_no_error(frame: JsonView) -> bool {
    &&& tells_no_usage(frame)
    &&& frame.member("error"@) is Some && frame.member("error"@)->0.member("message"@) is Some
        ==> !(frame.member("error"@)->0.member("message"@)->0 is Text)
}

/// A frame whose first choice has this delta.
pub open spec fn has_delta(frame: JsonView, delta: JsonView) -> bool {
    &&& frame.member("choices"@) is Some
    &&& frame.member("choices"@)->0 is Array
    &&& frame.member("choices"@)->0->Array_0.len() > 0
    &&& frame.member("choices"@)->0->Array_0[0].member("delta"@) == Some(delta)
}

/// A frame that forwards pending tool calls of the client.
pub open spec fn tells_calls(frame: JsonView, delta: JsonView, calls: JsonView) -> bool {
    &&& tells_no_error(frame)
    &&& has_delta(frame, delta)
    &&& delta.member("tool_calls"@) == Some(calls)
}

/// A frame with a piece of the answer's text.
pub open spec fn tells_text(frame: JsonView, delta: JsonView, text: Seq<char>) -> bool {
    &&& tells_no_error(frame)
    &&& has_delta(frame, delta)
    &&& delta.member("tool_calls"@) is None
    &&& delta.member("content"@) == Some(JsonView::Text(text))
}

/// A frame with none of these.
pub open spec fn tells_nothing(frame: JsonView) -> bool {
    &&& tells_no_error(frame)
    &&& forall|delta: JsonView| #[trigger]
        has_delta(frame, delta) ==> delta.member("tool_calls"@) is None && (delta.member(
            "content"@,
        ) is Some ==> !(delta.member("content"@)->0 is Text))
}

/// A frame is told by its members: provenance before a search round, a round before token counts,
/// these before an error, an error before tool calls, and tool calls before text.
pub proof fn law_frames_are_told_by_their_members(
    frame: JsonView,
    part: JsonView,
    delta: JsonView,
    text: Seq<char>,
)
    ensures
        tells_provenance(frame, part) ==> markers::frame_marker(frame) == MarkerView::Provenance(
            part,
        ),
        tells_round(frame, part) ==> markers::frame_marker(frame) == MarkerView::ToolRound(part),
        tells_usage(frame, part) ==> markers::frame_marker(frame) == MarkerView::Usage(part),
        tells_error(frame, text) ==> markers::frame_marker(frame) == MarkerView::InStreamError(
            text,
        ),
        tells_calls(frame, delta, part) ==> markers::frame_marker(frame)
            == MarkerView::ClientToolCalls(frame),
        tells_text(frame, delta, text) ==> markers::frame_marker(frame) == MarkerView::TextDelta(
            text,
        ),
        tells_nothing(frame) ==> markers::frame_marker(frame) == MarkerView::Unknown,
        has_delta(frame, delta) ==> markers::delta_of(frame) == Some(delta),
{
    if tells_nothing(frame) {
        if let Some(found) = markers::delta_of(frame) {
            assert(has_delta(frame, found));
        }
    }
}

/// Every frame is of one of these kinds.
pub proof fn law_every_frame_is_of_a_kind(frame: JsonView)
    ensures
        match markers::frame_marker(frame) {
            MarkerView::Provenance(provenance) => tells_provenance(frame, provenance),
            MarkerView::ToolRound(round) => tells_round(frame, round),
            MarkerView::Usage(usage) => tells_usage(frame, usage),
            MarkerView::InStreamError(message) => tells_error(frame, message),
            MarkerView::ClientToolCalls(forwarded) => forwarded == frame && exists|delta: JsonView|
             #[trigger] has_delta(frame, delta) && delta.member("tool_calls"@) is Some,
            MarkerView::TextDelta(text) => exists|delta: JsonView|
                #![trigger has_delta(frame, delta)]
                tells_text(frame, delta, text),
            MarkerView::Unknown => tells_nothing(frame),
        },
{
    match markers::frame_marker(frame) {
        MarkerView::ClientToolCalls(_) => {
            assert(has_delta(frame, markers::delta_of(frame)->0));
        },
        MarkerView::TextDelta(text) => {
            assert(has_delta(frame, markers::delta_of(frame)->0));
            assert(tells_text(frame, markers::delta_of(frame)->0, text));
        },
        MarkerView::Unknown => {
            assert forall|delta: JsonView| #[trigger] has_delta(frame, delta) implies delta.member(
                "tool_calls"@,
            ) is None && (delta.member("content"@) is Some ==> !(delta.member(
                "content"@,
            )->0 is Text)) by {
                assert(markers::delta_of(frame) == Some(delta));
            }
        },
        _ => {},
    }
}

/// Events and markers say what they hold.
pub proof fn law_events_say_what_they_hold(arrivals: Seq<Arrival>, event: SseEvent, marker: Marker)
    ensures
        event is Done <==> event@ is Done,
        event is Malformed <==> event@ is Malformed,
        event is Frame ==> event@ == SseEventView::Frame(event->Frame_0@),
        marker is TextDelta ==> marker@ == MarkerView::TextDelta(marker->TextDelta_0@),
        marker is ToolRound ==> marker@ == MarkerView::ToolRound(marker->ToolRound_0@),
        marker is Usage ==> marker@ == MarkerView::Usage(marker->Usage_0@),
        marker is Provenance ==> marker@ == MarkerView::Provenance(marker->Provenance_0@),
        marker is ClientToolCalls ==> marker@ == MarkerView::ClientToolCalls(
            marker->ClientToolCalls_0@,
        ),
        marker is InStreamError ==> marker@ == MarkerView::InStreamError(marker->InStreamError_0@),
        marker is Unknown ==> marker@ == MarkerView::Unknown,
        web_search::arrivals_view(arrivals).len() == arrivals.len(),
        forall|i: int|
            0 <= i < arrivals.len() ==> (#[trigger] web_search::arrivals_view(arrivals)[i]).at
                == arrivals[i].at && web_search::arrivals_view(arrivals)[i].event
                == arrivals[i].event@,
{
}

} // verus!
