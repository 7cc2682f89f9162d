//! What a message stream promises for each frame that comes.

use vstd::prelude::*;

use crate::conversion::lifecycle;
use crate::conversion::markers::{ArrivalView, SseEventView};
use crate::conversion::messages;
use crate::conversion::messages::{
    ContentBlock, ContentBlockDelta, ContentBlockDeltaView, ContentBlockView, Emission,
    MessagesEventView, MessagesResponse, MessagesResponseView, MessagesStreamEvent, MsgModel,
    Role, StopReason,
};
use crate::conversion::web_search;
use crate::conversion::web_search::{InputFormat, ShapedView};
use crate::json;
use crate::json::JsonView;
use crate::laws::frames;

verus! {

/// Whether a member is a text, and which one; `otherwise` stands in for any other member.
pub open spec fn is_text_or(member: Option<JsonView>, otherwise: Seq<char>, found: Seq<char>) -> bool {
    &&& member is Some && member->0 is Text ==> found == member->0->Text_0
    &&& member is None || !(member->0 is Text) ==> found == otherwise
}

/// A search round is shown as a call, at the next free index: its block names the round's tool
/// and its id, begins with no input, and gets the round's input as one delta. A round that ran
/// here is followed by its result, at the index after: the block refers to the same id and
/// carries exactly the output of the round.
pub proof fn law_a_round_shows_its_call_and_its_output(
    em: Emission,
    frame: JsonView,
    round: JsonView,
    id: Seq<char>,
    model: Seq<char>,
    client_tools: bool,
    tool_use_id: Seq<char>,
    tool_name: Seq<char>,
)
    requires
        !em.model.sent_stop,
        frames::tells_round(frame, round),
        is_text_or(round.member("tool_use_id"@), "server_tool"@, tool_use_id),
        is_text_or(round.member("tool_name"@), "web_search"@, tool_name),
    ensures
        ({
            let next = em.event(SseEventView::Frame(frame), id, model, client_tools);
            let shown = next.events;
            let n = shown.len() as int;
            let index = em.model.next_block;
            let ran_here = round.member("deferred"@) != Some(JsonView::Bool(true));
            let call = if ran_here {
                n - 5
            } else {
                n - 3
            };
            &&& call >= em.events.len()
            &&& shown[call] == (MessagesEventView::ContentBlockStart {
                index,
                content_block: ContentBlockView::ServerToolUse {
                    id: tool_use_id,
                    name: tool_name,
                    input: JsonView::Object(Map::empty()),
                },
            })
            &&& shown[call + 1] == (MessagesEventView::ContentBlockDelta {
                index,
                delta: ContentBlockDeltaView::InputJsonDelta {
                    partial_json: json::json_text(
                        match round.member("input"@) {
                            Some(input) => input,
                            None => JsonView::Null,
                        },
                    ),
                },
            })
            &&& shown[call + 2] == (MessagesEventView::ContentBlockStop { index })
            &&& ran_here ==> shown[n - 2] == (MessagesEventView::ContentBlockStart {
                index: index + 1,
                content_block: ContentBlockView::WebSearchToolResult {
                    tool_use_id,
                    content: round.member("output"@),
                },
            })
            &&& ran_here ==> shown[n - 1] == (MessagesEventView::ContentBlockStop {
                index: index + 1,
            })
            &&& next.model.next_block == index + if ran_here {
                2int
            } else {
                1
            }
            &&& next.model.text_block is None
            &&& !next.model.sent_stop
        }),
{
    frames::law_frames_are_told_by_their_members(frame, round, round, Seq::empty());
}

/// A round that the client is left to run shows no result, and nothing of a round is shown but
/// the blocks of it and what opens the message and closes a text block before it.
pub proof fn law_a_round_shows_nothing_else(
    em: Emission,
    frame: JsonView,
    round: JsonView,
    id: Seq<char>,
    model: Seq<char>,
    client_tools: bool,
)
    requires
        !em.model.sent_stop,
        frames::tells_round(frame, round),
    ensures
        ({
            let shown = em.event(SseEventView::Frame(frame), id, model, client_tools).events;
            shown.len() == em.events.len() + (if em.model.sent_start {
                0int
            } else {
                1
            }) + (if em.model.text_block is Some {
                1int
            } else {
                0
            }) + if round.member("deferred"@) == Some(JsonView::Bool(true)) {
                3int
            } else {
                5
            }
        }),
{
    frames::law_frames_are_told_by_their_members(frame, round, round, Seq::empty());
}

/// A piece of text is shown as it is, as the last event: in the text block that is open, or else
/// in an empty one that is opened for it at the next free index.
pub proof fn law_text_is_shown_in_its_block(
    em: Emission,
    frame: JsonView,
    delta: JsonView,
    text: Seq<char>,
    id: Seq<char>,
    model: Seq<char>,
    client_tools: bool,
)
    requires
        !em.model.sent_stop,
        frames::tells_text(frame, delta, text),
    ensures
        ({
            let next = em.event(SseEventView::Frame(frame), id, model, client_tools);
            let shown = next.events;
            let n = shown.len() as int;
            let index = match em.model.text_block {
                Some(open) => open,
                None => em.model.next_block,
            };
            let start = if em.model.sent_start {
                0int
            } else {
                1
            };
            &&& next.model.text_block == Some(index)
            &&& shown.last() == (MessagesEventView::ContentBlockDelta {
                index,
                delta: ContentBlockDeltaView::TextDelta { text },
            })
            &&& em.model.text_block is Some ==> n == em.events.len() + start + 1
                && next.model.next_block == em.model.next_block
            &&& em.model.text_block is None ==> n == em.events.len() + start + 2
                && next.model.next_block == em.model.next_block + 1 && shown[n - 2] == (
            MessagesEventView::ContentBlockStart {
                index,
                content_block: ContentBlockView::Text { text: Seq::empty() },
            })
        }),
{
    frames::law_frames_are_told_by_their_members(frame, delta, delta, text);
}

/// The block of a tool call of the client stands at `at` of a list of events.
pub open spec fn shows_call(
    shown: Seq<MessagesEventView>,
    at: int,
    index: nat,
    call_id: Seq<char>,
    name: Seq<char>,
    arguments: Seq<char>,
) -> bool {
    let stop = MessagesEventView::ContentBlockStop { index };
    &&& 0 <= at < shown.len()
    &&& shown[at] == (MessagesEventView::ContentBlockStart {
        index,
        content_block: ContentBlockView::ToolUse {
            id: call_id,
            name,
            input: JsonView::Object(Map::empty()),
        },
    })
    &&& arguments.len() == 0 ==> at + 1 < shown.len() && shown[at + 1] == stop
    &&& arguments.len() > 0 ==> at + 2 < shown.len() && shown[at + 1] == (
    MessagesEventView::ContentBlockDelta {
        index,
        delta: ContentBlockDeltaView::InputJsonDelta { partial_json: arguments },
    }) && shown[at + 2] == stop
}

/// The member of a member.
pub open spec fn inner(doc: JsonView, key: Seq<char>, within: Seq<char>) -> Option<JsonView> {
    match doc.member(key) {
        Some(found) => found.member(within),
        None => None,
    }
}

proof fn lemma_call_is_shown(
    em: Emission,
    calls: Seq<JsonView>,
    i: int,
    call_id: Seq<char>,
    name: Seq<char>,
    arguments: Seq<char>,
) -> (at: int)
    requires
        0 <= i < calls.len(),
        is_text_or(calls[i].member("id"@), Seq::empty(), call_id),
        is_text_or(inner(calls[i], "function"@, "name"@), Seq::empty(), name),
        is_text_or(inner(calls[i], "function"@, "arguments"@), Seq::empty(), arguments),
    ensures
        at >= em.events.len(),
        shows_call(em.calls(calls).events, at, em.model.next_block + i as nat, call_id, name, arguments),
        em.calls(calls).model == (MsgModel {
            next_block: em.model.next_block + calls.len(),
            ..em.model
        }),
        em.calls(calls).events.len() >= em.events.len(),
    decreases calls.len(),
{
    let shorter = calls.drop_last();
    let before = em.calls(shorter);
    lemma_calls_model(em, shorter);
    if i < shorter.len() {
        assert(shorter[i] == calls[i]);
        let at = lemma_call_is_shown(em, shorter, i, call_id, name, arguments);
        at
    } else {
        let block = messages::call_events(calls.last(), before.model.next_block);
        assert(em.calls(calls).events == before.events + block);
        before.events.len() as int
    }
}

proof fn lemma_calls_model(em: Emission, calls: Seq<JsonView>)
    ensures
        em.calls(calls).model == (MsgModel {
            next_block: em.model.next_block + calls.len(),
            ..em.model
        }),
        em.calls(calls).events.len() >= em.events.len(),
    decreases calls.len(),
{
    if calls.len() > 0 {
        lemma_calls_model(em, calls.drop_last());
    }
}

/// A client that takes the calls of its own tools is shown each of them, in its order and at an
/// index of its own: the block has the call's id and name, and the call's arguments as one delta
/// where there are any. The message then stops for the sake of a tool.
pub proof fn law_forwarded_calls_are_shown(
    em: Emission,
    frame: JsonView,
    delta: JsonView,
    calls: Seq<JsonView>,
    id: Seq<char>,
    model: Seq<char>,
    i: int,
    call_id: Seq<char>,
    name: Seq<char>,
    arguments: Seq<char>,
)
    requires
        !em.model.sent_stop,
        frames::tells_calls(frame, delta, JsonView::Array(calls)),
        0 <= i < calls.len(),
        is_text_or(calls[i].member("id"@), Seq::empty(), call_id),
        is_text_or(inner(calls[i], "function"@, "name"@), Seq::empty(), name),
        is_text_or(inner(calls[i], "function"@, "arguments"@), Seq::empty(), arguments),
    ensures
        ({
            let next = em.event(SseEventView::Frame(frame), id, model, true);
            &&& exists|at: int|
                at >= em.events.len() && #[trigger] shows_call(
                    next.events,
                    at,
                    em.model.next_block + i as nat,
                    call_id,
                    name,
                    arguments,
                )
            &&& next.model.next_block == em.model.next_block + calls.len()
            &&& next.model.stop_reason == Some(StopReason::ToolUse)
        }),
{
    frames::law_frames_are_told_by_their_members(frame, JsonView::Array(calls), delta, Seq::empty());
    let closed = em.started(id, model).text_closed();
    let at = lemma_call_is_shown(closed, calls, i, call_id, name, arguments);
    assert(shows_call(
        em.event(SseEventView::Frame(frame), id, model, true).events,
        at,
        em.model.next_block + i as nat,
        call_id,
        name,
        arguments,
    ));
}

/// A client that does not take the calls of its own tools is shown none of them, and its message
/// does not stop for their sake.
pub proof fn law_unwanted_calls_are_not_shown(
    em: Emission,
    frame: JsonView,
    delta: JsonView,
    calls: JsonView,
    id: Seq<char>,
    model: Seq<char>,
)
    requires
        em.model.sent_start,
        frames::tells_calls(frame, delta, calls),
    ensures
        em.event(SseEventView::Frame(frame), id, model, false) == em,
{
    frames::law_frames_are_told_by_their_members(frame, calls, delta, Seq::empty());
}

/// Provenance ends the message. Before that each of its citations is shown, one by one and in
/// their order, in the text block that is open or in one that is opened for them.
pub proof fn law_citations_are_shown_one_by_one(
    em: Emission,
    frame: JsonView,
    provenance: JsonView,
    citations: Seq<JsonView>,
    id: Seq<char>,
    model: Seq<char>,
    client_tools: bool,
    i: int,
)
    requires
        !em.model.sent_stop,
        frames::tells_provenance(frame, provenance),
        provenance.member("citations"@) == Some(JsonView::Array(citations)),
        0 <= i < citations.len(),
    ensures
        ({
            let next = em.event(SseEventView::Frame(frame), id, model, client_tools);
            let shown = next.events;
            let first = shown.len() - 3 - citations.len();
            let index = match em.model.text_block {
                Some(open) => open,
                None => em.model.next_block,
            };
            &&& first == em.events.len() + (if em.model.sent_start {
                0int
            } else {
                1
            }) + (if em.model.text_block is Some {
                0int
            } else {
                1
            })
            &&& shown[first + i] == (MessagesEventView::ContentBlockDelta {
                index,
                delta: ContentBlockDeltaView::CitationsDelta { citations: seq![citations[i]] },
            })
            &&& shown[shown.len() - 3] == (MessagesEventView::ContentBlockStop { index })
            &&& shown[shown.len() - 2] is MessageDelta
            &&& shown[shown.len() - 1] is MessageStop
            &&& next.model.sent_stop
        }),
{
    frames::law_frames_are_told_by_their_members(frame, provenance, provenance, Seq::empty());
}

/// Whatever ends a message says the same of its reason and its counts: the end after provenance
/// is the end that the terminator would have been.
pub proof fn law_provenance_ends_as_the_terminator_does(
    em: Emission,
    frame: JsonView,
    provenance: JsonView,
    id: Seq<char>,
    model: Seq<char>,
    client_tools: bool,
)
    requires
        !em.model.sent_stop,
        frames::tells_provenance(frame, provenance),
    ensures
        ({
            let one = em.event(SseEventView::Frame(frame), id, model, client_tools);
            let other = em.event(SseEventView::Done, id, model, client_tools);
            &&& one.events.len() >= other.events.len() >= 2
            &&& one.events[one.events.len() - 2] == other.events[other.events.len() - 2]
            &&& one.events.last() == other.events.last()
            &&& one.model.sent_stop && other.model.sent_stop
            &&& one.model.text_block is None && other.model.text_block is None
            &&& one.model.usage == em.model.usage && other.model.usage == em.model.usage
        }),
{
    frames::law_frames_are_told_by_their_members(frame, provenance, provenance, Seq::empty());
}

/// Tool calls that are no list show nothing but the end of a text block that is open, and give
/// the message no reason to stop; a list of them does, also an empty one.
pub proof fn law_calls_that_are_no_list(
    em: Emission,
    frame: JsonView,
    delta: JsonView,
    calls: JsonView,
    id: Seq<char>,
    model: Seq<char>,
)
    requires
        em.model.sent_start,
        !em.model.sent_stop,
        frames::tells_calls(frame, delta, calls),
    ensures
        ({
            let next = em.event(SseEventView::Frame(frame), id, model, true);
            let closed = match em.model.text_block {
                Some(index) => em.events.push(MessagesEventView::ContentBlockStop { index }),
                None => em.events,
            };
            &&& !(calls is Array) ==> next.events == closed && next.model == (MsgModel {
                text_block: None,
                ..em.model
            })
            &&& calls == JsonView::Array(Seq::empty()) ==> next.events == closed && next.model == (
            MsgModel { text_block: None, stop_reason: Some(StopReason::ToolUse), ..em.model })
        }),
{
    frames::law_frames_are_told_by_their_members(frame, calls, delta, Seq::empty());
}

/// Before a message has begun, what shows nothing itself shows the beginning of the message, and
/// what shows something shows that after it: a frame does the same as after the beginning.
pub proof fn law_a_first_frame_only_adds_the_beginning(
    em: Emission,
    frame: JsonView,
    id: Seq<char>,
    model: Seq<char>,
    client_tools: bool,
)
    requires
        !em.model.sent_start,
        !em.model.sent_stop,
    ensures
        ({
            let begun = Emission {
                model: MsgModel { sent_start: true, ..em.model },
                events: em.events.push(messages::opening(id, model)),
            };
            &&& em.event(SseEventView::Frame(frame), id, model, client_tools) == begun.event(
                SseEventView::Frame(frame),
                id,
                model,
                client_tools,
            )
            &&& em.event(SseEventView::Done, id, model, client_tools) == begun.event(
                SseEventView::Done,
                id,
                model,
                client_tools,
            )
        }),
        em.event(SseEventView::Malformed, id, model, client_tools) == em,
{
}

/// Nothing follows the end of a message.
pub proof fn law_an_ended_message_stays(
    em: Emission,
    event: SseEventView,
    id: Seq<char>,
    model: Seq<char>,
    client_tools: bool,
)
    requires
        em.model.sent_stop,
    ensures
        em.event(event, id, model, client_tools) == em,
{
}

/// Provenance without a list of citations ends the message and shows nothing else.
pub proof fn law_provenance_without_citations_ends_the_message(
    em: Emission,
    frame: JsonView,
    provenance: JsonView,
    id: Seq<char>,
    model: Seq<char>,
    client_tools: bool,
)
    requires
        em.model.sent_start,
        frames::tells_provenance(frame, provenance),
        provenance.member("citations"@) is Some ==> !(provenance.member("citations"@)->0 is Array),
    ensures
        em.event(SseEventView::Frame(frame), id, model, client_tools) == em.event(
            SseEventView::Done,
            id,
            model,
            client_tools,
        ),
{
    frames::law_frames_are_told_by_their_members(frame, provenance, provenance, Seq::empty());
}

/// A frame of token counts, an error and a frame of no known kind show nothing once the message
/// has begun, and a payload that cannot be read shows nothing at all. What an error leaves is
/// that the message has failed.
pub proof fn law_quiet_frames_show_nothing(
    em: Emission,
    frame: JsonView,
    usage: JsonView,
    message: Seq<char>,
    id: Seq<char>,
    model: Seq<char>,
    client_tools: bool,
)
    requires
        em.model.sent_start,
        !em.model.sent_stop,
    ensures
        ({
            let next = em.event(SseEventView::Frame(frame), id, model, client_tools);
            &&& frames::tells_usage(frame, usage) ==> next.events == em.events
                && next.model.in_stream_error == em.model.in_stream_error
                && next.model.stop_reason == em.model.stop_reason && next.model.text_block
                == em.model.text_block && next.model.next_block == em.model.next_block
            &&& frames::tells_error(frame, message) ==> next.events == em.events
                && next.model.in_stream_error == Some(message) && next.model.usage
                == em.model.usage && next.model.text_block == em.model.text_block
                && next.model.next_block == em.model.next_block
            &&& frames::tells_nothing(frame) ==> next == em
        }),
        em.event(SseEventView::Malformed, id, model, client_tools) == em,
{
    frames::law_frames_are_told_by_their_members(frame, usage, usage, message);
}

/// The first frame, of whatever kind, opens the message.
pub proof fn law_every_frame_opens_the_message(
    frame: JsonView,
    id: Seq<char>,
    model: Seq<char>,
    client_tools: bool,
    arrivals: Seq<ArrivalView>,
    message: MessagesResponseView,
)
    requires
        message.id == id,
        message.model == model,
        message.role == Role::Assistant,
        message.content.len() == 0,
        message.stop_reason is None,
        message.usage.input_tokens == 0,
        message.usage.output_tokens == 0,
        message.usage.cache_creation_input_tokens is None,
        message.usage.cache_read_input_tokens is None,
    ensures
        ({
            let first = messages::nothing_shown().event(
                SseEventView::Frame(frame),
                id,
                model,
                client_tools,
            ).events;
            &&& first.len() > 0
            &&& first[0] == (MessagesEventView::MessageStart { message })
        }),
        ({
            let shown = messages::nothing_shown().events(arrivals, id, model, client_tools).events;
            shown.len() > 0 ==> shown[0] == (MessagesEventView::MessageStart { message })
        }),
    decreases arrivals.len(),
{
    assert(message.content =~= Seq::empty());
    let opening = messages::opening(id, model);
    assert(opening == (MessagesEventView::MessageStart { message }));
    lemma_opens(messages::nothing_shown(), SseEventView::Frame(frame), id, model, client_tools);
    if arrivals.len() > 0 {
        let shorter = arrivals.drop_last();
        law_every_frame_opens_the_message(frame, id, model, client_tools, shorter, message);
        let before = messages::nothing_shown().events(shorter, id, model, client_tools);
        lemma_begun(shorter, id, model, client_tools);
        lifecycle::law_events_are_added(before, arrivals.last().event, id, model, client_tools);
        if before.events.len() == 0 {
            lemma_opens(before, arrivals.last().event, id, model, client_tools);
        }
    }
}

proof fn lemma_begun(
    arrivals: Seq<ArrivalView>,
    id: Seq<char>,
    model: Seq<char>,
    client_tools: bool,
)
    ensures
        ({
            let em = messages::nothing_shown().events(arrivals, id, model, client_tools);
            em.events.len() == 0 ==> em.model == messages::nothing_shown().model
        }),
    decreases arrivals.len(),
{
    if arrivals.len() > 0 {
        let shorter = arrivals.drop_last();
        let before = messages::nothing_shown().events(shorter, id, model, client_tools);
        lemma_begun(shorter, id, model, client_tools);
        lifecycle::law_events_are_added(before, arrivals.last().event, id, model, client_tools);
        if before.events.len() == 0 {
            lemma_opens(before, arrivals.last().event, id, model, client_tools);
        }
    }
}

proof fn lemma_opens(
    em: Emission,
    event: SseEventView,
    id: Seq<char>,
    model: Seq<char>,
    client_tools: bool,
)
    requires
        em.model == messages::nothing_shown().model,
        em.events.len() == 0,
    ensures
        ({
            let next = em.event(event, id, model, client_tools);
            if event is Malformed {
                next == em
            } else {
                next.events.len() > 0 && next.events[0] == messages::opening(id, model)
            }
        }),
{
    if let SseEventView::Frame(frame) = event {
        let open = em.started(id, model);
        assert(open.events[0] == messages::opening(id, model));
        if let Some(calls) = messages::forwarded_calls(frame) {
            lemma_calls_keep(open.text_closed(), calls);
        }
    }
}

proof fn lemma_calls_keep(em: Emission, calls: Seq<JsonView>)
    requires
        em.events.len() > 0,
    ensures
        em.calls(calls).events.len() > 0,
        em.calls(calls).events[0] == em.events[0],
    decreases calls.len(),
{
    if calls.len() > 0 {
        lemma_calls_keep(em, calls.drop_last());
    }
}

/// Whether an event that comes before the end of a message leaves it open: it is neither the
/// terminator nor a frame with provenance.
pub open spec fn goes_on(event: SseEventView) -> bool {
    &&& !(event is Done)
    &&& event is Frame ==> event->Frame_0.member("x-ai-ws-provenance"@) is None
}

proof fn lemma_still_open(
    arrivals: Seq<ArrivalView>,
    id: Seq<char>,
    model: Seq<char>,
    client_tools: bool,
)
    requires
        forall|j: int| 0 <= j < arrivals.len() ==> goes_on((#[trigger] arrivals[j]).event),
    ensures
        !messages::nothing_shown().events(arrivals, id, model, client_tools).model.sent_stop,
{
    lifecycle::law_end_is_known(arrivals, id, model, client_tools);
    if lifecycle::has_end(arrivals) {
        let j = choose|j: int|
            0 <= j < arrivals.len() && lifecycle::ends_message((#[trigger] arrivals[j]).event);
        assert(goes_on(arrivals[j].event));
        if let SseEventView::Frame(frame) = arrivals[j].event {
            frames::law_every_frame_is_of_a_kind(frame);
        }
    }
}

/// What was shown of a message stays shown as the stream goes on.
pub proof fn law_message_events_stay(
    arrivals: Seq<ArrivalView>,
    id: Seq<char>,
    model: Seq<char>,
    client_tools: bool,
    i: int,
)
    requires
        0 <= i <= arrivals.len(),
    ensures
        messages::nothing_shown().events(
            arrivals.take(i),
            id,
            model,
            client_tools,
        ).events.is_prefix_of(
            messages::nothing_shown().events(arrivals, id, model, client_tools).events,
        ),
    decreases arrivals.len(),
{
    if i < arrivals.len() {
        let shorter = arrivals.drop_last();
        assert(shorter.take(i) == arrivals.take(i));
        law_message_events_stay(shorter, id, model, client_tools, i);
        let before = messages::nothing_shown().events(shorter, id, model, client_tools);
        lifecycle::law_events_are_added(before, arrivals.last().event, id, model, client_tools);
    } else {
        assert(arrivals.take(i) == arrivals);
    }
}

/// The output of every search round that ran here reaches a client of messages: the stream shows
/// a result block that refers to the round's id and carries exactly the output that the frame
/// has.
pub proof fn law_every_search_result_reaches_the_client(
    arrivals: Seq<ArrivalView>,
    name: Seq<char>,
    client_tools: bool,
    nanos: nat,
    i: int,
    round: JsonView,
    tool_use_id: Seq<char>,
)
    requires
        0 <= i < arrivals.len(),
        forall|j: int| 0 <= j < i ==> goes_on((#[trigger] arrivals[j]).event),
        arrivals[i].event is Frame,
        frames::tells_round(arrivals[i].event->Frame_0, round),
        round.member("deferred"@) != Some(JsonView::Bool(true)),
        is_text_or(round.member("tool_use_id"@), "server_tool"@, tool_use_id),
    ensures
        exists|k: int, index: nat|
            0 <= k < web_search::stream_output(
                arrivals,
                name,
                InputFormat::Messages,
                client_tools,
                nanos,
            ).len() && #[trigger] shows_result(
                web_search::stream_output(
                    arrivals,
                    name,
                    InputFormat::Messages,
                    client_tools,
                    nanos,
                )[k],
                index,
                tool_use_id,
                round.member("output"@),
            ),
{
    let id = web_search::message_id(nanos);
    let before = messages::nothing_shown().events(arrivals.take(i), id, name, client_tools);
    let first = arrivals.take(i);
    assert forall|j: int| 0 <= j < first.len() implies goes_on((#[trigger] first[j]).event) by {
        assert(first[j] == arrivals[j]);
    }
    lemma_still_open(first, id, name, client_tools);
    let tool_name = match json::text_of(round.member("tool_name"@)) {
        Some(found) => found,
        None => "web_search"@,
    };
    law_a_round_shows_its_call_and_its_output(
        before,
        arrivals[i].event->Frame_0,
        round,
        id,
        name,
        client_tools,
        tool_use_id,
        tool_name,
    );
    let upto = arrivals.take(i + 1);
    assert(upto.drop_last() == arrivals.take(i));
    let shown = messages::nothing_shown().events(upto, id, name, client_tools).events;
    let k = shown.len() - 2;
    law_message_events_stay(arrivals, id, name, client_tools, i + 1);
    let whole = messages::nothing_shown().events(arrivals, id, name, client_tools).events;
    assert(whole[k] == shown[k]);
    assert(shows_result(
        web_search::stream_output(
            arrivals,
            name,
            InputFormat::Messages,
            client_tools,
            nanos,
        )[k],
        before.model.next_block + 1,
        tool_use_id,
        round.member("output"@),
    ));
}

/// An event that begins the block of a search result.
pub open spec fn shows_result(
    event: ShapedView,
    index: nat,
    tool_use_id: Seq<char>,
    content: Option<JsonView>,
) -> bool {
    event == ShapedView::Messages(
        MessagesEventView::ContentBlockStart {
            index,
            content_block: ContentBlockView::WebSearchToolResult { tool_use_id, content },
        },
    )
}

/// The counts of a message are those of the sidecar in Anthropic's terms: the output as it is,
/// what was read from a cache as it is, and the input without it.
pub proof fn law_message_counts(usage: JsonView, prompt: u64, cached: u64, completion: u64)
    requires
        prompt <= usize::MAX,
        cached <= usize::MAX,
        completion <= usize::MAX,
    ensures
        ({
            let counts = messages::message_usage(usage);
            let told_prompt = usage.member("prompt_tokens"@) == Some(JsonView::Unsigned(prompt));
            let told_cached = inner(usage, "prompt_tokens_details"@, "cached_tokens"@) == Some(
                JsonView::Unsigned(cached),
            );
            let cached_member = inner(usage, "prompt_tokens_details"@, "cached_tokens"@);
            let no_prompt = usage.member("prompt_tokens"@) is None || !(usage.member(
                "prompt_tokens"@,
            )->0 is Unsigned);
            let no_cached = cached_member is None || !(cached_member->0 is Unsigned);
            &&& usage.member("completion_tokens"@) == Some(JsonView::Unsigned(completion))
                ==> counts.output_tokens == Some(completion as usize)
            &&& usage.member("completion_tokens"@) is None || !(usage.member(
                "completion_tokens"@,
            )->0 is Unsigned) ==> counts.output_tokens is None
            &&& told_cached ==> counts.cache_read_input_tokens == Some(cached as usize)
            &&& no_cached ==> counts.cache_read_input_tokens is None
            &&& counts.cache_creation_input_tokens is None
            &&& told_prompt && told_cached && cached <= prompt ==> counts.input_tokens is Some
                && counts.input_tokens->0 + cached == prompt
            &&& told_prompt && told_cached && cached > prompt ==> counts.input_tokens == Some(
                0usize,
            )
            &&& told_prompt && no_cached ==> counts.input_tokens == Some(prompt as usize)
            &&& no_prompt ==> counts.input_tokens is None
        }),
{
}

/// The last report before the end of a message is the one that its end tells, whatever came
/// between them.
pub proof fn law_the_last_report_is_told(
    arrivals: Seq<ArrivalView>,
    id: Seq<char>,
    model: Seq<char>,
    client_tools: bool,
    i: int,
    usage: JsonView,
)
    requires
        forall|j: int| 0 <= j < arrivals.len() ==> goes_on((#[trigger] arrivals[j]).event),
        0 <= i < arrivals.len(),
        arrivals[i].event is Frame,
        frames::tells_usage(arrivals[i].event->Frame_0, usage),
        forall|j: int|
            i < j < arrivals.len() && (#[trigger] arrivals[j]).event is Frame ==> !frames::tells_usage(
                arrivals[j].event->Frame_0,
                arrivals[j].event->Frame_0.member("usage"@)->0,
            ),
    ensures
        ({
            let end = messages::nothing_shown().events(arrivals, id, model, client_tools).event(
                SseEventView::Done,
                id,
                model,
                client_tools,
            ).events;
            &&& end.len() >= 2
            &&& end[end.len() - 2] is MessageDelta
            &&& end[end.len() - 2]->MessageDelta_usage == messages::message_usage(usage)
        }),
{
    lemma_still_open(arrivals, id, model, client_tools);
    lemma_last_usage(arrivals, id, model, client_tools, i, usage);
}

proof fn lemma_last_usage(
    arrivals: Seq<ArrivalView>,
    id: Seq<char>,
    model: Seq<char>,
    client_tools: bool,
    i: int,
    usage: JsonView,
)
    requires
        forall|j: int| 0 <= j < arrivals.len() ==> goes_on((#[trigger] arrivals[j]).event),
        0 <= i < arrivals.len(),
        arrivals[i].event is Frame,
        frames::tells_usage(arrivals[i].event->Frame_0, usage),
        forall|j: int|
            i < j < arrivals.len() && (#[trigger] arrivals[j]).event is Frame ==> !frames::tells_usage(
                arrivals[j].event->Frame_0,
                arrivals[j].event->Frame_0.member("usage"@)->0,
            ),
    ensures
        messages::nothing_shown().events(arrivals, id, model, client_tools).model.usage == Some(
            messages::message_usage(usage),
        ),
    decreases arrivals.len(),
{
    let shorter = arrivals.drop_last();
    let n = arrivals.len() - 1;
    assert forall|j: int| 0 <= j < shorter.len() implies goes_on((#[trigger] shorter[j]).event) by {
        assert(shorter[j] == arrivals[j]);
    }
    lemma_still_open(shorter, id, model, client_tools);
    let before = messages::nothing_shown().events(shorter, id, model, client_tools);
    let last = arrivals[n].event;
    if i == n {
        frames::law_frames_are_told_by_their_members(last->Frame_0, usage, usage, Seq::empty());
    } else {
        assert forall|j: int|
            i < j < shorter.len() && (#[trigger] shorter[j]).event is Frame implies !frames::tells_usage(
            shorter[j].event->Frame_0,
            shorter[j].event->Frame_0.member("usage"@)->0,
        ) by {
            assert(shorter[j] == arrivals[j]);
        }
        assert(shorter[i] == arrivals[i]);
        lemma_last_usage(shorter, id, model, client_tools, i, usage);
        if let SseEventView::Frame(frame) = last {
            frames::law_every_frame_is_of_a_kind(frame);
            if let Some(calls) = messages::forwarded_calls(frame) {
                lemma_calls_model(before.started(id, model).text_closed(), calls);
            }
        }
    }
}

/// A message that was never told token counts ends without any.
pub proof fn law_no_report_no_counts(
    arrivals: Seq<ArrivalView>,
    id: Seq<char>,
    model: Seq<char>,
    client_tools: bool,
)
    requires
        forall|j: int| 0 <= j < arrivals.len() ==> goes_on((#[trigger] arrivals[j]).event),
        forall|j: int|
            0 <= j < arrivals.len() && (#[trigger] arrivals[j]).event is Frame ==> !frames::tells_usage(
                arrivals[j].event->Frame_0,
                arrivals[j].event->Frame_0.member("usage"@)->0,
            ),
    ensures
        ({
            let end = messages::nothing_shown().events(arrivals, id, model, client_tools).event(
                SseEventView::Done,
                id,
                model,
                client_tools,
            ).events;
            &&& end.len() >= 2
            &&& end[end.len() - 2] is MessageDelta
            &&& end[end.len() - 2]->MessageDelta_usage.input_tokens is None
            &&& end[end.len() - 2]->MessageDelta_usage.output_tokens is None
            &&& end[end.len() - 2]->MessageDelta_usage.cache_creation_input_tokens is None
            &&& end[end.len() - 2]->MessageDelta_usage.cache_read_input_tokens is None
        }),
{
    lemma_still_open(arrivals, id, model, client_tools);
    lemma_no_usage(arrivals, id, model, client_tools);
}

proof fn lemma_no_usage(
    arrivals: Seq<ArrivalView>,
    id: Seq<char>,
    model: Seq<char>,
    client_tools: bool,
)
    requires
        forall|j: int|
            0 <= j < arrivals.len() && (#[trigger] arrivals[j]).event is Frame ==> !frames::tells_usage(
                arrivals[j].event->Frame_0,
                arrivals[j].event->Frame_0.member("usage"@)->0,
            ),
    ensures
        messages::nothing_shown().events(arrivals, id, model, client_tools).model.usage is None,
    decreases arrivals.len(),
{
    if arrivals.len() > 0 {
        let shorter = arrivals.drop_last();
        let n = arrivals.len() - 1;
        assert forall|j: int|
            0 <= j < shorter.len() && (#[trigger] shorter[j]).event is Frame implies !frames::tells_usage(
            shorter[j].event->Frame_0,
            shorter[j].event->Frame_0.member("usage"@)->0,
        ) by {
            assert(shorter[j] == arrivals[j]);
        }
        lemma_no_usage(shorter, id, model, client_tools);
        let before = messages::nothing_shown().events(shorter, id, model, client_tools);
        if let SseEventView::Frame(frame) = arrivals[n].event {
            frames::law_every_frame_is_of_a_kind(frame);
            if let Some(calls) = messages::forwarded_calls(frame) {
                lemma_calls_model(before.started(id, model).text_closed(), calls);
            }
        }
    }
}

/// An error that a stream tells before its end, and tool calls that it forwards, are what the end
/// of the message gives as its reason: none after an error, the use of a tool after calls that
/// the client takes, and else the end of the turn.
pub proof fn law_the_reason_for_the_end(em: Emission, id: Seq<char>, model: Seq<char>, client_tools: bool)
    requires
        !em.model.sent_stop,
    ensures
        ({
            let end = em.event(SseEventView::Done, id, model, client_tools).events;
            let last = end[end.len() - 2];
            &&& end.len() == em.events.len() + 2 + (if em.model.sent_start {
                0int
            } else {
                1
            }) + (if em.model.text_block is Some {
                1int
            } else {
                0
            })
            &&& em.model.text_block is Some ==> end[end.len() - 3] == (
            MessagesEventView::ContentBlockStop { index: em.model.text_block->0 })
            &&& end.last() is MessageStop
            &&& last is MessageDelta
            &&& em.model.in_stream_error is Some ==> last->stop_reason is None
            &&& em.model.in_stream_error is None && em.model.stop_reason is Some
                ==> last->stop_reason == em.model.stop_reason
            &&& em.model.in_stream_error is None && em.model.stop_reason is None
                ==> last->stop_reason == Some(StopReason::EndTurn)
        }),
{
}

/// An event goes by the name of its kind.
pub proof fn law_message_events_go_by_their_names(event: MessagesEventView)
    ensures
        event is MessageStart ==> event.name() == "message_start"@,
        event is ContentBlockStart ==> event.name() == "content_block_start"@,
        event is ContentBlockDelta ==> event.name() == "content_block_delta"@,
        event is ContentBlockStop ==> event.name() == "content_block_stop"@,
        event is MessageDelta ==> event.name() == "message_delta"@,
        event is MessageStop ==> event.name() == "message_stop"@,
{
}

/// Events, blocks and deltas say what they hold.
pub proof fn law_message_events_say_what_they_hold(
    event: MessagesStreamEvent,
    block: ContentBlock,
    delta: ContentBlockDelta,
    message: MessagesResponse,
    events: Seq<MessagesStreamEvent>,
)
    ensures
        event is MessageStart ==> event@ == (MessagesEventView::MessageStart {
            message: event->message@,
        }),
        event is ContentBlockStart ==> event@ == (MessagesEventView::ContentBlockStart {
            index: event->ContentBlockStart_index as nat,
            content_block: event->content_block@,
        }),
        event is ContentBlockDelta ==> event@ == (MessagesEventView::ContentBlockDelta {
            index: event->ContentBlockDelta_index as nat,
            delta: event->delta@,
        }),
        event is ContentBlockStop ==> event@ == (MessagesEventView::ContentBlockStop {
            index: event->ContentBlockStop_index as nat,
        }),
        event is MessageDelta ==> event@ == (MessagesEventView::MessageDelta {
            stop_reason: event->stop_reason,
            usage: event->MessageDelta_usage,
        }),
        event is MessageStop ==> event@ == MessagesEventView::MessageStop,
        block is Text ==> block@ == (ContentBlockView::Text { text: block->text@ }),
        block is ServerToolUse ==> block@ == (ContentBlockView::ServerToolUse {
            id: block->ServerToolUse_id@,
            name: block->ServerToolUse_name@,
            input: block->ServerToolUse_input@,
        }),
        block is WebSearchToolResult ==> block@ == (ContentBlockView::WebSearchToolResult {
            tool_use_id: block->tool_use_id@,
            content: json::owned_view(block->content),
        }),
        block is ToolUse ==> block@ == (ContentBlockView::ToolUse {
            id: block->ToolUse_id@,
            name: block->ToolUse_name@,
            input: block->ToolUse_input@,
        }),
        delta is TextDelta ==> delta@ == (ContentBlockDeltaView::TextDelta { text: delta->text@ }),
        delta is InputJsonDelta ==> delta@ == (ContentBlockDeltaView::InputJsonDelta {
            partial_json: delta->partial_json@,
        }),
        delta is CitationsDelta ==> delta@ == (ContentBlockDeltaView::CitationsDelta {
            citations: json::items_view(delta->citations@),
        }),
        message@.id == message.id@,
        message@.model == message.model@,
        message@.role == message.role,
        message@.content.len() == message.content@.len(),
        message@.stop_reason == message.stop_reason,
        message@.usage == message.usage,
        messages::events_view(events).len() == events.len(),
        forall|i: int|
            0 <= i < events.len() ==> #[trigger] messages::events_view(events)[i] == events[i]@,
{
}

} // verus!
