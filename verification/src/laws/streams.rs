//! What the metering of a stream promises, and what a stream is in each protocol.

use vstd::prelude::*;

use crate::clock::Moment;
use crate::conversion::chat;
use crate::conversion::lifecycle;
use crate::conversion::markers;
use crate::conversion::markers::{ArrivalView, MarkerView, SseEventView, StreamUsage};
use crate::conversion::messages;
use crate::conversion::metering;
use crate::conversion::metering::{Metered, Reading};
use crate::conversion::responses;
use crate::conversion::web_search;
use crate::conversion::web_search::{InputFormat, ShapedEvent, ShapedView, ShaperView};
use crate::json::JsonView;
use crate::laws::frames;
use crate::laws::messages::inner;
use crate::text;

verus! {

/// Whether an event ends the answer: the terminator does, and in a message so does provenance.
pub open spec fn is_end(event: SseEventView, format: InputFormat) -> bool {
    ||| event is Done
    ||| format is Messages && event is Frame && event->Frame_0.member("x-ai-ws-provenance"@) is Some
}

/// Whether an event is a frame of token counts.
pub open spec fn is_report(event: SseEventView) -> bool {
    &&& event is Frame
    &&& frames::is_plain(event->Frame_0)
    &&& event->Frame_0.member("usage"@) is Some
    &&& event->Frame_0.member("usage"@)->0 is Object
}

/// Text frames add their text to that of the stream, and nothing else does.
pub proof fn law_the_text_of_a_stream_is_that_of_its_frames(
    arrivals: Seq<ArrivalView>,
    at: Moment,
    frame: JsonView,
    delta: JsonView,
    text: Seq<char>,
)
    ensures
        lifecycle::stream_text(Seq::<ArrivalView>::empty()).len() == 0,
        frames::tells_text(frame, delta, text) ==> lifecycle::stream_text(
            arrivals.push(ArrivalView { at, event: SseEventView::Frame(frame) }),
        ) == lifecycle::stream_text(arrivals) + text,
        (forall|d: JsonView, t: Seq<char>| !#[trigger] frames::tells_text(frame, d, t))
            ==> lifecycle::stream_text(
            arrivals.push(ArrivalView { at, event: SseEventView::Frame(frame) }),
        ) == lifecycle::stream_text(arrivals),
        lifecycle::stream_text(arrivals.push(ArrivalView { at, event: SseEventView::Done }))
            == lifecycle::stream_text(arrivals),
        lifecycle::stream_text(arrivals.push(ArrivalView { at, event: SseEventView::Malformed }))
            == lifecycle::stream_text(arrivals),
{
    let before = lifecycle::stream_text(arrivals);
    assert(before + Seq::<char>::empty() =~= before);
    assert(arrivals.push(ArrivalView { at, event: SseEventView::Frame(frame) }).drop_last()
        =~= arrivals);
    assert(arrivals.push(ArrivalView { at, event: SseEventView::Done }).drop_last() =~= arrivals);
    assert(arrivals.push(ArrivalView { at, event: SseEventView::Malformed }).drop_last()
        =~= arrivals);
    frames::law_frames_are_told_by_their_members(frame, delta, delta, text);
    frames::law_every_frame_is_of_a_kind(frame);
    if let MarkerView::TextDelta(found) = markers::frame_marker(frame) {
        let d = choose|d: JsonView|
            #![trigger frames::has_delta(frame, d)]
            frames::tells_text(frame, d, found);
        assert(frames::tells_text(frame, d, found));
    }
}

/// What is counted of a stream is the length of its text.
pub proof fn law_characters_are_counted(arrivals: Seq<ArrivalView>)
    ensures
        metering::text_total(metering::readings(arrivals)) == lifecycle::stream_text(arrivals).len(),
    decreases arrivals.len(),
{
    if arrivals.len() > 0 {
        law_characters_are_counted(arrivals.drop_last());
        assert(metering::readings(arrivals).drop_last() =~= metering::readings(
            arrivals.drop_last(),
        ));
    }
}

/// Whether the token counts are still open after the beginning of a stream: no report came, and
/// no end came that had text before it. A message ends once only, so further ends count for
/// nothing there.
pub open spec fn is_unsettled(arrivals: Seq<ArrivalView>, format: InputFormat) -> bool {
    forall|j: int|
        0 <= j < arrivals.len() ==> !is_report((#[trigger] arrivals[j]).event) && (is_end(
            arrivals[j].event,
            format,
        ) ==> lifecycle::stream_text(arrivals.take(j)).len() == 0 || (format is Messages
            && ended_before(arrivals, j)))
}

/// Whether a message has ended before the event at `j`.
pub open spec fn ended_before(arrivals: Seq<ArrivalView>, j: int) -> bool {
    exists|k: int| 0 <= k < j && is_end((#[trigger] arrivals[k]).event, InputFormat::Messages)
}

proof fn lemma_is_end(event: SseEventView)
    ensures
        is_end(event, InputFormat::Messages) <==> lifecycle::ends_message(event),
{
    if let SseEventView::Frame(frame) = event {
        frames::law_every_frame_is_of_a_kind(frame);
        if frame.member("x-ai-ws-provenance"@) is Some {
            frames::law_frames_are_told_by_their_members(
                frame,
                frame.member("x-ai-ws-provenance"@)->0,
                frame,
                Seq::empty(),
            );
        }
    }
}

proof fn lemma_ended_before(arrivals: Seq<ArrivalView>, j: int)
    requires
        0 <= j <= arrivals.len(),
    ensures
        ended_before(arrivals, j) <==> lifecycle::has_end(arrivals.take(j)),
{
    let first = arrivals.take(j);
    if ended_before(arrivals, j) {
        let k = choose|k: int|
            0 <= k < j && is_end((#[trigger] arrivals[k]).event, InputFormat::Messages);
        lemma_is_end(arrivals[k].event);
        assert(lifecycle::ends_message(first[k].event));
    }
    if lifecycle::has_end(first) {
        let k = choose|k: int|
            0 <= k < first.len() && lifecycle::ends_message((#[trigger] first[k]).event);
        lemma_is_end(first[k].event);
        assert(is_end(arrivals[k].event, InputFormat::Messages));
    }
}

proof fn lemma_readings_of_shorter(arrivals: Seq<ArrivalView>, format: InputFormat)
    requires
        arrivals.len() > 0,
    ensures
        web_search::stream_readings(arrivals, format).len() == arrivals.len(),
        web_search::stream_readings(arrivals, format).drop_last() == web_search::stream_readings(
            arrivals.drop_last(),
            format,
        ),
{
    let shorter = arrivals.drop_last();
    let all = web_search::stream_readings(arrivals, format);
    let less = web_search::stream_readings(shorter, format);
    assert forall|j: int| 0 <= j < shorter.len() implies all[j] == #[trigger] less[j] by {
        assert(arrivals.take(j) == shorter.take(j));
    }
    assert(all.drop_last() =~= less);
}

proof fn lemma_unsettled(usage: StreamUsage, arrivals: Seq<ArrivalView>, format: InputFormat)
    requires
        is_unsettled(arrivals, format),
    ensures
        ({
            let end = Metered { meter: metering::unread(), usage }.steps(
                web_search::stream_readings(arrivals, format),
            );
            &&& !end.meter.accounted
            &&& end.meter.text_chars == lifecycle::stream_text(arrivals).len()
            &&& end.usage == (StreamUsage { first_token: end.usage.first_token, ..usage })
        }),
    decreases arrivals.len(),
{
    if arrivals.len() > 0 {
        let shorter = arrivals.drop_last();
        let n = arrivals.len() - 1;
        assert(arrivals.take(n) == shorter);
        assert forall|j: int| 0 <= j < shorter.len() implies !is_report(
            (#[trigger] shorter[j]).event,
        ) && (is_end(shorter[j].event, format) ==> lifecycle::stream_text(shorter.take(j)).len()
            == 0 || (format is Messages && ended_before(shorter, j))) by {
            assert(shorter[j] == arrivals[j]);
            assert(shorter.take(j) == arrivals.take(j));
            lemma_ended_before(arrivals, j);
            lemma_ended_before(shorter, j);
        }
        lemma_unsettled(usage, shorter, format);
        lemma_readings_of_shorter(arrivals, format);
        let last = arrivals[n];
        assert(!is_report(last.event));
        lemma_ended_before(arrivals, n);
        lemma_is_end(last.event);
        if let SseEventView::Frame(frame) = last.event {
            frames::law_every_frame_is_of_a_kind(frame);
        }
        let found = web_search::stream_readings(arrivals, format)[n];
        assert(!(found is Report));
        assert(found is End ==> is_end(last.event, format));
    }
}

proof fn lemma_settles(usage: StreamUsage, arrivals: Seq<ArrivalView>, format: InputFormat, i: int)
    requires
        0 <= i < arrivals.len(),
        is_unsettled(arrivals.take(i), format),
        ({
            let found = web_search::stream_readings(arrivals, format)[i];
            ||| found is Report
            ||| found is End && lifecycle::stream_text(arrivals.take(i)).len() > 0
        }),
    ensures
        ({
            let start = Metered { meter: metering::unread(), usage };
            let found = web_search::stream_readings(arrivals, format)[i];
            let before = start.steps(web_search::stream_readings(arrivals.take(i), format));
            let end = web_search::stream_usage(usage, arrivals, format);
            end == (StreamUsage { first_token: end.first_token, ..before.step(found).usage })
        }),
{
    let start = Metered { meter: metering::unread(), usage };
    let all = web_search::stream_readings(arrivals, format);
    let first = arrivals.take(i);
    lemma_unsettled(usage, first, format);
    lemma_take_readings(arrivals, format, i);
    let rest = all.skip(i + 1);
    assert(all.take(i + 1).drop_last() =~= all.take(i));
    assert(all =~= all.take(i + 1) + rest);
    metering::law_metering_composes(start, all.take(i + 1), rest);
    metering::law_settled_counts_stay(start.steps(all.take(i + 1)), rest);
}

proof fn lemma_take_readings(arrivals: Seq<ArrivalView>, format: InputFormat, i: int)
    requires
        0 <= i <= arrivals.len(),
    ensures
        web_search::stream_readings(arrivals, format).len() == arrivals.len(),
        web_search::stream_readings(arrivals, format).take(i) == web_search::stream_readings(
            arrivals.take(i),
            format,
        ),
{
    let all = web_search::stream_readings(arrivals, format);
    let less = web_search::stream_readings(arrivals.take(i), format);
    assert forall|j: int| 0 <= j < i implies all[j] == #[trigger] less[j] by {
        assert(arrivals.take(j) == arrivals.take(i).take(j));
    }
    assert(all.take(i) =~= less);
}

/// In every protocol an answer that ends without a report costs the least whole number of output
/// tokens that a quarter token for each character of its text makes, where no larger count was
/// known. No other count changes, and nothing that comes later changes any.
pub proof fn law_text_costs_a_quarter_token_per_character(
    usage: StreamUsage,
    arrivals: Seq<ArrivalView>,
    format: InputFormat,
    i: int,
)
    requires
        0 <= i < arrivals.len(),
        is_end(arrivals[i].event, format),
        is_unsettled(arrivals.take(i), format),
        format is Messages ==> !ended_before(arrivals, i),
        0 < lifecycle::stream_text(arrivals.take(i)).len() <= usize::MAX,
    ensures
        ({
            let n = lifecycle::stream_text(arrivals.take(i)).len();
            let end = web_search::stream_usage(usage, arrivals, format);
            &&& end.output_tokens is Some
            &&& 4 * end.output_tokens->0 >= n
            &&& usage.output_tokens is None ==> 4 * end.output_tokens->0 < n + 4
            &&& usage.output_tokens is Some && 4 * usage.output_tokens->0 < n ==> 4
                * end.output_tokens->0 < n + 4
            &&& usage.output_tokens is Some && 4 * usage.output_tokens->0 >= n
                ==> end.output_tokens == usage.output_tokens
            &&& end.input_tokens == usage.input_tokens
            &&& end.total_tokens == usage.total_tokens
            &&& end.cached_input_tokens == usage.cached_input_tokens
            &&& end.reasoning_tokens == usage.reasoning_tokens
        }),
{
    lemma_is_end(arrivals[i].event);
    lemma_ended_before(arrivals, i);
    lemma_unsettled(usage, arrivals.take(i), format);
    lemma_settles(usage, arrivals, format, i);
}

/// A count is what the report says, or what it was where the report does not say.
pub open spec fn takes(before: Option<u64>, told: Option<JsonView>, after: Option<u64>) -> bool {
    &&& told is Some && told->0 is Unsigned ==> after == Some(told->0->Unsigned_0)
    &&& told is None || !(told->0 is Unsigned) ==> after == before
}

/// In every protocol the first report of a stream is what is metered: each of the five counts is
/// the one of its name in the report, whatever text came before and whatever comes after.
pub proof fn law_the_first_report_is_metered(
    usage: StreamUsage,
    arrivals: Seq<ArrivalView>,
    format: InputFormat,
    i: int,
    reported: JsonView,
)
    requires
        0 <= i < arrivals.len(),
        arrivals[i].event is Frame,
        frames::tells_usage(arrivals[i].event->Frame_0, reported),
        is_unsettled(arrivals.take(i), format),
    ensures
        ({
            let end = web_search::stream_usage(usage, arrivals, format);
            &&& takes(usage.input_tokens, reported.member("prompt_tokens"@), end.input_tokens)
            &&& takes(usage.output_tokens, reported.member("completion_tokens"@), end.output_tokens)
            &&& takes(usage.total_tokens, reported.member("total_tokens"@), end.total_tokens)
            &&& takes(
                usage.cached_input_tokens,
                inner(reported, "prompt_tokens_details"@, "cached_tokens"@),
                end.cached_input_tokens,
            )
            &&& takes(
                usage.reasoning_tokens,
                inner(reported, "completion_tokens_details"@, "reasoning_tokens"@),
                end.reasoning_tokens,
            )
        }),
{
    frames::law_frames_are_told_by_their_members(
        arrivals[i].event->Frame_0,
        reported,
        reported,
        Seq::empty(),
    );
    lemma_readings(arrivals, format, i);
    lemma_unsettled(usage, arrivals.take(i), format);
    lemma_settles(usage, arrivals, format, i);
}

/// A report replaces each count that it gives and leaves all else as it was.
pub proof fn law_a_report_is_recorded(usage: StreamUsage, reported: JsonView)
    ensures
        ({
            let after = markers::usage_recorded(usage, reported);
            &&& takes(usage.input_tokens, reported.member("prompt_tokens"@), after.input_tokens)
            &&& takes(
                usage.output_tokens,
                reported.member("completion_tokens"@),
                after.output_tokens,
            )
            &&& takes(usage.total_tokens, reported.member("total_tokens"@), after.total_tokens)
            &&& takes(
                usage.cached_input_tokens,
                inner(reported, "prompt_tokens_details"@, "cached_tokens"@),
                after.cached_input_tokens,
            )
            &&& takes(
                usage.reasoning_tokens,
                inner(reported, "completion_tokens_details"@, "reasoning_tokens"@),
                after.reasoning_tokens,
            )
            &&& after.first_token == usage.first_token
        }),
{
}

/// An estimate is the least whole number of tokens that makes a quarter for each character, or
/// what was known where that is more, and leaves all else as it was.
pub proof fn law_an_estimate_is_the_least_that_is_enough(usage: StreamUsage, chars: nat)
    requires
        chars <= usize::MAX,
    ensures
        ({
            let after = markers::usage_estimated(usage, chars);
            let known = if usage.output_tokens is Some {
                usage.output_tokens->0 as int
            } else {
                0
            };
            &&& after.output_tokens is Some
            &&& after.output_tokens->0 >= known
            &&& 4 * after.output_tokens->0 >= chars
            &&& 4 * after.output_tokens->0 >= chars + 4 ==> after.output_tokens->0 == known
            &&& after == (StreamUsage { output_tokens: after.output_tokens, ..usage })
        }),
{
}

proof fn lemma_readings(arrivals: Seq<ArrivalView>, format: InputFormat, j: int)
    requires
        0 <= j < arrivals.len(),
    ensures
        web_search::stream_readings(arrivals, format).len() == arrivals.len(),
        ({
            let found = web_search::stream_readings(arrivals, format)[j];
            let plain = metering::reading(arrivals[j]);
            &&& plain is Text || plain is Report ==> found == plain
            &&& found is Text || found is Report ==> found == plain
            &&& found is End ==> is_end(arrivals[j].event, format)
        }),
{
    if let SseEventView::Frame(frame) = arrivals[j].event {
        frames::law_every_frame_is_of_a_kind(frame);
    }
}

/// A stream without a report, and without an end that has text before it, changes no token count,
/// however much text comes.
pub proof fn law_an_unfinished_stream_is_not_metered(
    usage: StreamUsage,
    arrivals: Seq<ArrivalView>,
    format: InputFormat,
)
    requires
        is_unsettled(arrivals, format),
    ensures
        web_search::stream_usage(usage, arrivals, format) == (StreamUsage {
            first_token: web_search::stream_usage(usage, arrivals, format).first_token,
            ..usage
        }),
{
    lemma_unsettled(usage, arrivals, format);
}

/// Whether an event is a frame of text.
pub open spec fn is_text(event: SseEventView) -> bool {
    event is Frame && exists|delta: JsonView, text: Seq<char>| #[trigger]
        frames::tells_text(event->Frame_0, delta, text)
}

proof fn lemma_is_text(event: SseEventView)
    ensures
        is_text(event) <==> metering::event_text(event) is Some,
{
    if let SseEventView::Frame(frame) = event {
        frames::law_every_frame_is_of_a_kind(frame);
        if is_text(event) {
            let (delta, text) = choose|delta: JsonView, text: Seq<char>| #[trigger]
                frames::tells_text(frame, delta, text);
            frames::law_frames_are_told_by_their_members(frame, delta, delta, text);
        }
        if let MarkerView::TextDelta(text) = markers::frame_marker(frame) {
            let d = choose|d: JsonView|
                #![trigger frames::has_delta(frame, d)]
                frames::tells_text(frame, d, text);
            assert(frames::tells_text(frame, d, text));
        }
    }
}

/// In every protocol the first token is marked at the moment at which the first text came.
pub proof fn law_the_first_text_marks_the_first_token(
    usage: StreamUsage,
    arrivals: Seq<ArrivalView>,
    format: InputFormat,
    i: int,
)
    requires
        0 <= i < arrivals.len(),
        is_text(arrivals[i].event),
        forall|j: int| 0 <= j < i ==> !is_text((#[trigger] arrivals[j]).event),
    ensures
        web_search::stream_usage(usage, arrivals, format).first_token == Some(arrivals[i].at),
{
    let readings = web_search::stream_readings(arrivals, format);
    lemma_readings(arrivals, format, i);
    lemma_is_text(arrivals[i].event);
    assert forall|j: int| 0 <= j < i implies !(#[trigger] readings[j] is Text) by {
        lemma_readings(arrivals, format, j);
        lemma_is_text(arrivals[j].event);
        assert(!is_text(arrivals[j].event));
    }
    metering::law_first_text_marks_first_token(
        Metered { meter: metering::unread(), usage },
        readings,
        i,
    );
}

/// A stream without text and without a report changes nothing that is metered.
pub proof fn law_a_silent_stream_is_not_metered(
    usage: StreamUsage,
    arrivals: Seq<ArrivalView>,
    format: InputFormat,
)
    requires
        forall|j: int|
            0 <= j < arrivals.len() ==> !is_text((#[trigger] arrivals[j]).event) && !is_report(
                arrivals[j].event,
            ),
    ensures
        web_search::stream_usage(usage, arrivals, format) == usage,
{
    let readings = web_search::stream_readings(arrivals, format);
    assert forall|j: int| 0 <= j < readings.len() implies !(#[trigger] readings[j] is Report) && !(
    readings[j] is Text) by {
        lemma_readings(arrivals, format, j);
        lemma_is_text(arrivals[j].event);
        assert(!is_text(arrivals[j].event));
        if let SseEventView::Frame(frame) = arrivals[j].event {
            frames::law_every_frame_is_of_a_kind(frame);
        }
    }
    lemma_silent(Metered { meter: metering::unread(), usage }, readings);
}

proof fn lemma_silent(start: Metered, readings: Seq<Reading>)
    requires
        start.meter.text_chars == 0,
        forall|j: int|
            0 <= j < readings.len() ==> !(#[trigger] readings[j] is Report) && !(readings[j] is Text),
    ensures
        start.steps(readings) == start,
    decreases readings.len(),
{
    if readings.len() > 0 {
        lemma_silent(start, readings.drop_last());
        let last = readings[readings.len() - 1];
        assert(!(last is Report) && !(last is Text));
    }
}

/// A client is shown the events of its own protocol, one by one, under an id that is made of the
/// clock reading; a client that speaks no chat is shown what a chat client without tools is.
pub proof fn law_each_client_is_answered_in_its_protocol(
    arrivals: Seq<ArrivalView>,
    model: Seq<char>,
    client_tools: bool,
    nanos: nat,
    k: int,
)
    ensures
        ({
            let shown = web_search::stream_output(
                arrivals,
                model,
                InputFormat::Completions,
                client_tools,
                nanos,
            );
            let chat = chat::chat_outputs(arrivals, client_tools);
            &&& shown.len() == chat.len()
            &&& 0 <= k < chat.len() ==> shown[k] == ShapedView::Chat(chat[k])
        }),
        ({
            let shown = web_search::stream_output(
                arrivals,
                model,
                InputFormat::Messages,
                client_tools,
                nanos,
            );
            let message = messages::nothing_shown().events(
                arrivals,
                "msg_"@ + text::digits(nanos, 16),
                model,
                client_tools,
            ).events;
            &&& shown.len() == message.len()
            &&& 0 <= k < message.len() ==> shown[k] == ShapedView::Messages(message[k])
        }),
        ({
            let shown = web_search::stream_output(
                arrivals,
                model,
                InputFormat::Responses,
                client_tools,
                nanos,
            );
            let response = responses::nothing_shown().events(
                arrivals,
                "resp_"@ + text::digits(nanos, 16),
                model,
            ).events;
            &&& shown.len() == response.len()
            &&& 0 <= k < response.len() ==> shown[k] == ShapedView::Responses(response[k])
        }),
        web_search::stream_output(arrivals, model, InputFormat::Other, client_tools, nanos)
            == web_search::stream_output(arrivals, model, InputFormat::Completions, false, nanos),
{
}

/// Events for the client say what they hold.
pub proof fn law_shaped_events_say_what_they_hold(event: ShapedEvent, events: Seq<ShapedEvent>)
    ensures
        event is Chat ==> event@ == ShapedView::Chat(event->Chat_0@),
        event is Messages ==> event@ == ShapedView::Messages(event->Messages_0@),
        event is Responses ==> event@ == ShapedView::Responses(event->Responses_0@),
        web_search::events_view(events).len() == events.len(),
        forall|i: int|
            0 <= i < events.len() ==> #[trigger] web_search::events_view(events)[i] == events[i]@,
{
}

/// A stream has room for an event where the characters of its text can be counted and, in a
/// message, its blocks can; a chat client is shown everything but sources without a place. A
/// response has room until its events can no longer be numbered.
pub proof fn law_there_is_room(
    shaper: ShaperView,
    arrival: ArrivalView,
    frame: JsonView,
    delta: JsonView,
    text: Seq<char>,
)
    requires
        arrival.event == SseEventView::Frame(frame),
        frames::tells_text(frame, delta, text),
    ensures
        shaper.meter().text_chars + text.len() > usize::MAX ==> !shaper.has_room(arrival),
        shaper.meter().text_chars + text.len() <= usize::MAX ==> {
            &&& shaper is Chat ==> shaper.has_room(arrival)
            &&& shaper is Messages ==> (shaper.has_room(arrival) <==> shaper->message.next_block + 1
                <= usize::MAX)
            &&& shaper is Responses ==> (shaper.has_room(arrival) <==> shaper->response.seq + 5
                <= u64::MAX)
        },
{
    frames::law_frames_are_told_by_their_members(frame, delta, delta, text);
}

/// A frame without text needs no room for characters, and no more blocks than it can show.
pub proof fn law_frames_without_text_need_little_room(
    shaper: ShaperView,
    arrival: ArrivalView,
)
    requires
        !is_text(arrival.event),
        shaper.meter().text_chars <= usize::MAX,
    ensures
        shaper is Chat ==> (shaper.has_room(arrival) <==> chat::can_show(arrival.event)),
        shaper is Responses ==> (shaper.has_room(arrival) <==> shaper->response.seq + 5 <= u64::MAX),
        shaper is Messages ==> (shaper.has_room(arrival) <==> shaper->message.next_block
            + messages::event_blocks(arrival.event) <= usize::MAX),
        !(arrival.event is Frame) ==> messages::event_blocks(arrival.event) == 0,
{
    lemma_is_text(arrival.event);
}

/// The blocks that a frame needs: one for text and for sources, two for a search round, and one
/// for each call of a tool of the client.
pub proof fn law_blocks_of_a_frame(
    frame: JsonView,
    part: JsonView,
    delta: JsonView,
    text: Seq<char>,
    calls: Seq<JsonView>,
)
    ensures
        ({
            let blocks = messages::event_blocks(SseEventView::Frame(frame));
            &&& frames::tells_text(frame, delta, text) ==> blocks == 1
            &&& frames::tells_provenance(frame, part) ==> blocks == 1
            &&& frames::tells_round(frame, part) ==> blocks == 2
            &&& frames::tells_calls(frame, delta, JsonView::Array(calls)) ==> blocks == calls.len()
            &&& frames::tells_usage(frame, part) || frames::tells_error(frame, text)
                || frames::tells_nothing(frame) ==> blocks == 0
        }),
{
    frames::law_frames_are_told_by_their_members(frame, part, delta, text);
    frames::law_frames_are_told_by_their_members(frame, JsonView::Array(calls), delta, text);
}

/// A stream can be shaped where its text can be counted and, by protocol, where its blocks and its
/// events can be and where all sources have a place.
pub proof fn law_what_can_be_shaped(arrivals: Seq<ArrivalView>, format: InputFormat)
    requires
        lifecycle::stream_text(arrivals).len() <= usize::MAX,
    ensures
        format is Messages && web_search::block_total(arrivals) <= usize::MAX
            ==> web_search::can_shape(arrivals, format),
        format is Responses && arrivals.len() + 12 <= u64::MAX ==> web_search::can_shape(
            arrivals,
            format,
        ),
        (format is Completions || format is Other) && (forall|i: int|
            0 <= i < arrivals.len() ==> chat::can_show((#[trigger] arrivals[i]).event))
            ==> web_search::can_shape(arrivals, format),
{
    law_characters_are_counted(arrivals);
}

} // verus!
