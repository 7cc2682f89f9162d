//! OpenAI Chat (`/v1/chat/completions`) shaping of a web-search stream.
//!
//! The sidecar speaks chat already, so most frames pass through as they are. Rounds that ran
//! on the server stay invisible, provenance turns into a list of sources, and an error is
//! passed on as an error.

use vstd::prelude::*;

use crate::clock::Moment;
use crate::json;
use crate::json::{get_element, object_of, Json, JsonView};

use super::markers;
use super::markers::{
    classify, provenance_sources, ArrivalView, Marker, MarkerView, SseEvent, SseEventView,
    StreamUsage,
};
use super::metering;
use super::metering::{Meter, Metered};

verus! {

/// One event for a chat client; a chat event has no name.
pub enum ChatEvent {
    /// A chat chunk.
    Chunk(Json),
    /// The `[DONE]` terminator.
    Done,
}

/// What an event for a chat client says.
pub enum ChatEventView {
    Chunk(JsonView),
    Done,
}

impl View for ChatEvent {
    type V = ChatEventView;

    open spec fn view(&self) -> ChatEventView {
        match *self {
            ChatEvent::Chunk(chunk) => ChatEventView::Chunk(chunk@),
            ChatEvent::Done => ChatEventView::Done,
        }
    }
}

/// What a list of events says, one by one.
pub open spec fn events_view(events: Seq<ChatEvent>) -> Seq<ChatEventView> {
    events.map_values(|e: ChatEvent| e@)
}

/// The first choice of a chat chunk.
pub open spec fn first_choice(frame: JsonView) -> Option<JsonView> {
    json::element_of(frame.member("choices"@), 0)
}

/// Whether `choices[0].delta.content` of `frame` can be set: where the path is present, each
/// document on it takes members.
pub open spec fn takes_sources(frame: JsonView) -> bool {
    match first_choice(frame) {
        Some(choice) => match choice.member("delta"@) {
            Some(delta) => delta.takes_members(),
            None => choice.takes_members(),
        },
        None => frame.takes_members(),
    }
}

/// `frame` with `choices[0].delta.content` set to `sources`; what is missing of that path is
/// made, and a frame without a first choice gets one choice of its own.
pub open spec fn sources_chunk(frame: JsonView, sources: Seq<char>) -> JsonView {
    match first_choice(frame) {
        Some(choice) => {
            let delta = match choice.member("delta"@) {
                Some(delta) => delta.with_member("content"@, JsonView::Text(sources)),
                None => json::singleton("content"@, JsonView::Text(sources)),
            };
            let choices = json::items_of(frame.member("choices"@))->0;
            frame.with_member(
                "choices"@,
                JsonView::Array(choices.update(0, choice.with_member("delta"@, delta))),
            )
        },
        None => frame.with_member(
            "choices"@,
            JsonView::Array(
                seq![
                    json::singleton("index"@, JsonView::Unsigned(0)).with_member(
                        "delta"@,
                        json::singleton("content"@, JsonView::Text(sources)),
                    ),
                ],
            ),
        ),
    }
}

/// What one sidecar event shows to a chat client.
pub open spec fn chat_output(event: SseEventView, client_tools: bool) -> Seq<ChatEventView> {
    match event {
        SseEventView::Done => seq![ChatEventView::Done],
        SseEventView::Frame(frame) => match markers::frame_marker(frame) {
            MarkerView::TextDelta(_) => seq![ChatEventView::Chunk(frame)],
            MarkerView::ToolRound(_) => Seq::empty(),
            MarkerView::Usage(_) => seq![ChatEventView::Chunk(frame)],
            MarkerView::Provenance(provenance) => seq![
                ChatEventView::Chunk(sources_chunk(frame, markers::sources_text(provenance))),
            ],
            MarkerView::ClientToolCalls(_) => if client_tools {
                seq![ChatEventView::Chunk(frame)]
            } else {
                Seq::empty()
            },
            MarkerView::InStreamError(message) => seq![
                ChatEventView::Chunk(
                    json::singleton("error"@, json::singleton("message"@, JsonView::Text(message))),
                ),
            ],
            MarkerView::Unknown => Seq::empty(),
        },
        SseEventView::Malformed => Seq::empty(),
    }
}

/// Whether a chat client can be shown an event: the sources of a provenance frame have a
/// place to go.
pub open spec fn can_show(event: SseEventView) -> bool {
    match event {
        SseEventView::Frame(frame) => markers::frame_marker(frame) is Provenance ==> takes_sources(
            frame,
        ),
        _ => true,
    }
}

/// What a stream shows to a chat client: what its events show, in turn.
pub open spec fn chat_outputs(arrivals: Seq<ArrivalView>, client_tools: bool) -> Seq<ChatEventView>
    decreases arrivals.len(),
{
    if arrivals.len() == 0 {
        Seq::empty()
    } else {
        chat_outputs(arrivals.drop_last(), client_tools) + chat_output(
            arrivals.last().event,
            client_tools,
        )
    }
}

/// Whether `choices[0].delta.content` of `frame` can be set.
pub fn accepts_sources(frame: &Json) -> (res: bool)
    ensures
        res == takes_sources(frame@),
{
    let choice = get_element(frame.get("choices"), 0);
    match choice {
        Some(present) => match present.get("delta") {
            Some(delta) => delta.takes_members(),
            None => present.takes_members(),
        },
        None => frame.takes_members(),
    }
}

/// Puts a list of sources into a chat chunk.
pub fn sources_chat_chunk(frame: &Json, sources: &str) -> (res: Json)
    requires
        takes_sources(frame@),
    ensures
        res@ == sources_chunk(frame@, sources@),
{
    let mut chunk = frame.clone();
    let content = Json::Text(sources.to_owned());
    let listed = frame.get("choices");
    if let Some(found) = listed {
        if let Some(choices) = found.as_array() {
            if choices.len() > 0 {
                proof {
                    json::lemma_items_view(choices@);
                }
                let mut choice = choices[0].clone();
                let delta = match choice.get("delta") {
                    Some(present) => {
                        let mut delta = present.clone();
                        delta.set("content", content);
                        delta
                    },
                    None => object_of("content", content),
                };
                choice.set("delta", delta);
                let mut changed: Vec<Json> = Vec::new();
                changed.push(choice);
                for i in 1..choices.len()
                    invariant
                        changed.len() == i,
                        changed@[0] == choice,
                        forall|j: int|
                            1 <= j < i ==> (#[trigger] changed@[j])@ == choices@[j]@,
                {
                    changed.push(choices[i].clone());
                }
                proof {
                    json::lemma_items_view(changed@);
                    assert(json::items_view(changed@) =~= json::items_view(choices@).update(
                        0,
                        choice@,
                    ));
                }
                chunk.set("choices", Json::Array(changed));
                return chunk;
            }
        }
    }
    let mut choice = object_of("index", Json::Unsigned(0));
    choice.set("delta", object_of("content", content));
    let mut choices: Vec<Json> = Vec::new();
    choices.push(choice);
    proof {
        json::lemma_items_view(choices@);
        assert(json::items_view(choices@) =~= seq![choice@]);
    }
    chunk.set("choices", Json::Array(choices));
    chunk
}

/// Whether a chat client can be shown an event.
pub fn is_showable(event: &SseEvent) -> (res: bool)
    ensures
        res == can_show(event@),
{
    match event {
        SseEvent::Frame(frame) => match classify(frame) {
            Marker::Provenance(_) => accepts_sources(frame),
            _ => true,
        },
        _ => true,
    }
}

/// Shapes one sidecar event for a chat client and meters it.
pub fn chat_shaper(
    meter: &mut Meter,
    usage: &mut StreamUsage,
    event: &SseEvent,
    now: Moment,
    client_tools: bool,
) -> (res: Vec<ChatEvent>)
    requires
        can_show(event@),
        old(meter).text_chars + metering::event_chars(event@) <= usize::MAX,
    ensures
        events_view(res@) == chat_output(event@, client_tools),
        (Metered { meter: final(meter)@, usage: *final(usage) }) == (Metered {
            meter: old(meter)@,
            usage: *old(usage),
        }).step(metering::reading(ArrivalView { at: now, event: event@ })),
{
    let mut out: Vec<ChatEvent> = Vec::new();
    match event {
        SseEvent::Done => {
            meter.end(usage);
            out.push(ChatEvent::Done);
        },
        SseEvent::Frame(frame) => match classify(frame) {
            Marker::TextDelta(text) => {
                meter.text(usage, text.as_str(), now);
                out.push(ChatEvent::Chunk(frame.clone()));
            },
            Marker::ToolRound(_) => {},
            Marker::Usage(reported) => {
                meter.report(usage, &reported);
                out.push(ChatEvent::Chunk(frame.clone()));
            },
            Marker::Provenance(provenance) => {
                let sources = provenance_sources(&provenance);
                out.push(ChatEvent::Chunk(sources_chat_chunk(frame, sources.as_str())));
            },
            Marker::ClientToolCalls(_) => {
                if client_tools {
                    out.push(ChatEvent::Chunk(frame.clone()));
                }
            },
            Marker::InStreamError(message) => {
                out.push(
                    ChatEvent::Chunk(object_of("error", object_of("message", Json::Text(message)))),
                );
            },
            Marker::Unknown => {},
        },
        SseEvent::Malformed => {},
    }
    assert(events_view(out@) =~= chat_output(event@, client_tools));
    out
}

/// A stream that runs in two parts shows what the two parts show, in turn.
pub proof fn law_chat_stream_composes(
    first: Seq<ArrivalView>,
    second: Seq<ArrivalView>,
    client_tools: bool,
)
    ensures
        chat_outputs(first + second, client_tools) == chat_outputs(first, client_tools)
            + chat_outputs(second, client_tools),
    decreases second.len(),
{
    if second.len() == 0 {
        assert(first + second == first);
    } else {
        assert((first + second).drop_last() == first + second.drop_last());
        law_chat_stream_composes(first, second.drop_last(), client_tools);
    }
}

/// What an event shows is part of what its stream shows.
pub proof fn law_every_event_is_shown(arrivals: Seq<ArrivalView>, client_tools: bool, i: int, k: int)
    requires
        0 <= i < arrivals.len(),
        0 <= k < chat_output(arrivals[i].event, client_tools).len(),
    ensures
        chat_outputs(arrivals, client_tools)[chat_outputs(arrivals.take(i), client_tools).len() + k]
            == chat_output(arrivals[i].event, client_tools)[k],
        chat_outputs(arrivals.take(i), client_tools).len() + k < chat_outputs(
            arrivals,
            client_tools,
        ).len(),
{
    let upto = arrivals.take(i + 1);
    assert(upto.drop_last() == arrivals.take(i));
    assert(arrivals == upto + arrivals.skip(i + 1));
    law_chat_stream_composes(upto, arrivals.skip(i + 1), client_tools);
}

/// Text is never dropped and never changed: a frame of text reaches the client as it came.
pub proof fn law_text_passes_through(arrivals: Seq<ArrivalView>, client_tools: bool, i: int)
    requires
        0 <= i < arrivals.len(),
        metering::event_text(arrivals[i].event) is Some,
    ensures
        chat_outputs(arrivals, client_tools).contains(
            ChatEventView::Chunk(arrivals[i].event->Frame_0),
        ),
{
    law_every_event_is_shown(arrivals, client_tools, i, 0);
}

/// A usage frame reaches the client as it came.
pub proof fn law_usage_passes_through(arrivals: Seq<ArrivalView>, client_tools: bool, i: int)
    requires
        0 <= i < arrivals.len(),
        metering::reading(arrivals[i]) is Report,
    ensures
        chat_outputs(arrivals, client_tools).contains(
            ChatEventView::Chunk(arrivals[i].event->Frame_0),
        ),
{
    law_every_event_is_shown(arrivals, client_tools, i, 0);
}

/// A stream that ends with its terminator is shown to end with `[DONE]`.
pub proof fn law_terminator_is_shown_last(arrivals: Seq<ArrivalView>, client_tools: bool)
    requires
        arrivals.len() > 0,
        arrivals.last().event is Done,
    ensures
        chat_outputs(arrivals, client_tools).len() > 0,
        chat_outputs(arrivals, client_tools).last() is Done,
{
}

/// An error in the stream is shown as an error with the same message.
pub proof fn law_error_is_surfaced(event: SseEventView, client_tools: bool, message: Seq<char>)
    requires
        event is Frame,
        markers::frame_marker(event->Frame_0) == MarkerView::InStreamError(message),
    ensures
        chat_output(event, client_tools).len() == 1,
        chat_output(event, client_tools)[0] is Chunk,
        markers::frame_marker(chat_output(event, client_tools)[0]->Chunk_0)
            == MarkerView::InStreamError(message),
{
    reveal_strlit("x-ai-ws-provenance");
    reveal_strlit("x-ai-ws-tool-round");
    reveal_strlit("usage");
    reveal_strlit("error");
    let shown = chat_output(event, client_tools)[0]->Chunk_0;
    assert("x-ai-ws-provenance"@.len() != "error"@.len());
    assert("x-ai-ws-tool-round"@.len() != "error"@.len());
    assert("usage"@[0] != "error"@[0]);
    assert(shown.member("error"@) == Some(json::singleton("message"@, JsonView::Text(message))));
}

/// The frame of a provenance marker is shown with its sources in `choices[0].delta.content`.
pub proof fn law_sources_are_shown(frame: JsonView, sources: Seq<char>)
    requires
        takes_sources(frame),
    ensures
        json::text_of(
            json::member_of(markers::delta_of(sources_chunk(frame, sources)), "content"@),
        ) == Some(sources),
{
    reveal_strlit("index");
    reveal_strlit("delta");
    assert("index"@[0] != "delta"@[0]);
}

/// A client is shown only frames that it can read: never a round that ran on the server, and
/// no pending tool call where client tools are off.
pub proof fn law_only_chat_frames_are_shown(event: SseEventView, client_tools: bool, k: int)
    requires
        can_show(event),
        0 <= k < chat_output(event, client_tools).len(),
        chat_output(event, client_tools)[k] is Chunk,
    ensures
        ({
            let marker = markers::frame_marker(chat_output(event, client_tools)[k]->Chunk_0);
            &&& marker !is ToolRound
            &&& marker !is Unknown
            &&& marker is ClientToolCalls ==> client_tools
        }),
{
    let frame = event->Frame_0;
    match markers::frame_marker(frame) {
        MarkerView::Provenance(provenance) => {
            reveal_strlit("x-ai-ws-provenance");
            reveal_strlit("choices");
            assert("x-ai-ws-provenance"@.len() != "choices"@.len());
            let shown = sources_chunk(frame, markers::sources_text(provenance));
            assert(shown.member("x-ai-ws-provenance"@) == frame.member("x-ai-ws-provenance"@));
        },
        MarkerView::InStreamError(message) => {
            law_error_is_surfaced(event, client_tools, message);
        },
        _ => {},
    }
}

} // verus!
