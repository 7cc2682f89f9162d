//! What a chat client is shown, frame by frame.

use vstd::prelude::*;

use crate::conversion::chat;
use crate::conversion::chat::{ChatEvent, ChatEventView};
use crate::conversion::markers;
use crate::conversion::markers::{ArrivalView, SseEventView};
use crate::json::JsonView;
use crate::laws::frames;
use crate::laws::messages::is_text_or;
use crate::text;

verus! {

/// Whether an event shows this one chunk and nothing else.
pub open spec fn shows_only(shown: Seq<ChatEventView>, chunk: JsonView) -> bool {
    &&& shown.len() == 1
    &&& shown[0] == ChatEventView::Chunk(chunk)
}

/// Frames of text and of token counts reach a chat client as they came, and so do the calls of
/// its own tools where it takes them. A search round stays on the server, and so does what is of
/// no known kind or cannot be read. The terminator is shown as the terminator.
pub proof fn law_chat_frames_pass_as_they_came(
    frame: JsonView,
    part: JsonView,
    delta: JsonView,
    text: Seq<char>,
    client_tools: bool,
)
    ensures
        ({
            let shown = chat::chat_output(SseEventView::Frame(frame), client_tools);
            &&& frames::tells_text(frame, delta, text) ==> shows_only(shown, frame)
            &&& frames::tells_usage(frame, part) ==> shows_only(shown, frame)
            &&& frames::tells_calls(frame, delta, part) && client_tools ==> shows_only(shown, frame)
            &&& frames::tells_calls(frame, delta, part) && !client_tools ==> shown.len() == 0
            &&& frames::tells_round(frame, part) ==> shown.len() == 0
            &&& frames::tells_nothing(frame) ==> shown.len() == 0
        }),
        chat::chat_output(SseEventView::Malformed, client_tools).len() == 0,
        chat::chat_output(SseEventView::Done, client_tools).len() == 1,
        chat::chat_output(SseEventView::Done, client_tools)[0] is Done,
{
    frames::law_frames_are_told_by_their_members(frame, part, delta, text);
}

/// An error reaches a chat client as an object of one member, the error, which holds the message
/// and nothing else.
pub proof fn law_chat_errors_carry_their_message(
    frame: JsonView,
    message: Seq<char>,
    client_tools: bool,
)
    requires
        frames::tells_error(frame, message),
    ensures
        shows_only(
            chat::chat_output(SseEventView::Frame(frame), client_tools),
            JsonView::Object(
                Map::empty().insert(
                    "error"@,
                    JsonView::Object(Map::empty().insert("message"@, JsonView::Text(message))),
                ),
            ),
        ),
{
    frames::law_frames_are_told_by_their_members(frame, frame, frame, message);
}

/// Provenance reaches a chat client as one chunk that is its frame with the sources as the text
/// of the first choice: every other member, every other choice, and every other member of the
/// choice and of its delta is as it came.
pub proof fn law_sources_take_the_place_of_the_text(
    frame: JsonView,
    provenance: JsonView,
    client_tools: bool,
    delta: JsonView,
    key: Seq<char>,
    other: int,
)
    requires
        frames::tells_provenance(frame, provenance),
        chat::takes_sources(frame),
    ensures
        ({
            let shown = chat::chat_output(SseEventView::Frame(frame), client_tools);
            let chunk = shown[0]->Chunk_0;
            let sources = JsonView::Text(markers::sources_text(provenance));
            let choices = chunk.member("choices"@)->0->Array_0;
            let came = frame.member("choices"@)->0->Array_0;
            let has_choice = frame.member("choices"@) is Some && frame.member(
                "choices"@,
            )->0 is Array && came.len() > 0;
            &&& shown.len() == 1
            &&& shown[0] is Chunk
            &&& key != "choices"@ ==> chunk.member(key) == frame.member(key)
            &&& chunk.member("choices"@) is Some
            &&& chunk.member("choices"@)->0 is Array
            &&& choices.len() > 0
            &&& choices[0].member("delta"@) is Some
            &&& choices[0].member("delta"@)->0.member("content"@) == Some(sources)
            &&& has_choice ==> choices.len() == came.len()
            &&& has_choice && 0 < other < came.len() ==> choices[other] == came[other]
            &&& has_choice && key != "delta"@ ==> choices[0].member(key) == came[0].member(key)
            &&& has_choice && came[0].member("delta"@) == Some(delta) && key != "content"@
                ==> choices[0].member("delta"@)->0.member(key) == delta.member(key)
            &&& has_choice && came[0].member("delta"@) is None && key != "content"@
                ==> choices[0].member("delta"@)->0.member(key) is None
            &&& !has_choice ==> choices.len() == 1 && choices[0].member("index"@) == Some(
                JsonView::Unsigned(0),
            )
        }),
{
    reveal_strlit("index");
    reveal_strlit("delta");
    assert("index"@[0] != "delta"@[0]);
    frames::law_frames_are_told_by_their_members(frame, provenance, frame, Seq::empty());
}

/// The place for the sources is there unless something that takes no members stands in its way.
pub proof fn law_sources_have_a_place(frame: JsonView, delta: JsonView, choices: Seq<JsonView>)
    ensures
        frame.member("choices"@) == Some(JsonView::Array(choices)) && choices.len() > 0
            && choices[0].member("delta"@) is None ==> (chat::takes_sources(frame) <==> choices[0]
            is Object || choices[0] is Null),
        frame.member("choices"@) == Some(JsonView::Array(choices)) && choices.len() == 0
            ==> chat::takes_sources(frame),
        frame.member("choices"@) is Some && !(frame.member("choices"@)->0 is Array)
            ==> chat::takes_sources(frame),
        frames::has_delta(frame, delta) ==> (chat::takes_sources(frame) <==> delta is Object
            || delta is Null),
        frame is Object && frame.member("choices"@) is None ==> chat::takes_sources(frame),
        frames::has_delta(frame, delta) && delta is Object ==> chat::can_show(
            SseEventView::Frame(frame),
        ),
        frame.member("x-ai-ws-provenance"@) is None ==> chat::can_show(SseEventView::Frame(frame)),
        chat::can_show(SseEventView::Done),
        chat::can_show(SseEventView::Malformed),
{
    frames::law_every_frame_is_of_a_kind(frame);
}

/// The list of sources: a heading, and a line for each citation. Each further citation adds its
/// own line behind the others, with its number, its title and its address; one without a number
/// goes by its place.
pub proof fn law_each_citation_adds_its_line(
    one: JsonView,
    more: JsonView,
    citations: Seq<JsonView>,
    citation: JsonView,
    number: nat,
    title: Seq<char>,
    url: Seq<char>,
)
    requires
        one.member("citations"@) == Some(JsonView::Array(citations)),
        more.member("citations"@) == Some(JsonView::Array(citations.push(citation))),
        is_text_or(citation.member("title"@), Seq::empty(), title),
        is_text_or(citation.member("url"@), Seq::empty(), url),
        citation.member("n"@) is Some && citation.member("n"@)->0 is Unsigned ==> number
            == citation.member("n"@)->0->Unsigned_0,
        citation.member("n"@) is None || !(citation.member("n"@)->0 is Unsigned) ==> number
            == citations.len() + 1,
    ensures
        markers::sources_text(more) == markers::sources_text(one) + "["@ + text::digits(number, 10)
            + "] "@ + title + " — "@ + url + "\n"@,
        citations.len() == 0 ==> markers::sources_text(one) == "\n\nSources:\n"@,
{
    assert(citations.push(citation).drop_last() =~= citations);
    let line = "["@ + text::digits(number, 10) + "] "@ + title + " — "@ + url + "\n"@;
    assert(markers::citation_line(citation, citations.len()) =~= line);
    let heading = "\n\nSources:\n"@;
    assert(markers::sources_text(more) =~= heading + (markers::citation_lines(citations) + line));
    assert(markers::sources_text(more) =~= markers::sources_text(one) + line);
    assert(markers::sources_text(one) + line =~= markers::sources_text(one) + "["@ + text::digits(
        number,
        10,
    ) + "] "@ + title + " — "@ + url + "\n"@);
    if citations.len() == 0 {
        assert(heading + markers::citation_lines(citations) =~= heading);
    }
}

/// Provenance without a list of citations names no sources.
pub proof fn law_no_citations_no_sources(provenance: JsonView)
    requires
        provenance.member("citations"@) is Some ==> !(provenance.member("citations"@)->0 is Array),
    ensures
        markers::sources_text(provenance).len() == 0,
{
}

/// What a chat client is shown of a stream is what it is shown of each event, in turn.
pub proof fn law_a_chat_stream_is_its_events_in_turn(
    arrivals: Seq<ArrivalView>,
    arrival: ArrivalView,
    client_tools: bool,
)
    ensures
        chat::chat_outputs(Seq::<ArrivalView>::empty(), client_tools).len() == 0,
        chat::chat_outputs(arrivals.push(arrival), client_tools) == chat::chat_outputs(
            arrivals,
            client_tools,
        ) + chat::chat_output(arrival.event, client_tools),
{
    assert(arrivals.push(arrival).drop_last() =~= arrivals);
}

/// Chat events say what they hold.
pub proof fn law_chat_events_say_what_they_hold(event: ChatEvent, events: Seq<ChatEvent>)
    ensures
        event is Chunk ==> event@ == ChatEventView::Chunk(event->Chunk_0@),
        event is Done ==> event@ is Done,
        chat::events_view(events).len() == events.len(),
        forall|i: int|
            0 <= i < events.len() ==> #[trigger] chat::events_view(events)[i] == events[i]@,
{
}

} // verus!
