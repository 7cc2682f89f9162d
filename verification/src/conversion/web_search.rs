//! Reshaping of a web-search sidecar's stream into the protocol of the client.
//!
//! The sidecar speaks OpenAI Chat, with markers of its own in between. A client that speaks
//! Chat, Anthropic Messages or OpenAI Responses is answered in its own protocol, and the
//! stream is metered on the way.

use vstd::prelude::*;

use crate::clock::Moment;
use crate::text;

use super::chat;
use super::chat::{chat_shaper, is_showable, ChatEvent, ChatEventView};
use super::lifecycle;
use super::markers;
use super::markers::{short_id, Arrival, ArrivalView, SseEvent, SseEventView, StreamUsage};
use super::messages;
use super::messages::{messages_shaper, MessagesEventView, MessagesStreamEvent, MsgModel, MsgState};
use super::metering;
use super::metering::{Meter, MeterView, Metered, Reading};
use super::response_lifecycle;
use super::responses;
use super::responses::{
    responses_shaper, NumberedEventView, RespModel, RespState, ResponseStreamEvent,
};

verus! {

/// The protocol that a client speaks.
#[derive(Debug, Clone, Copy, PartialEq, Eq, Structural)]
pub enum InputFormat {
    /// OpenAI Chat.
    Completions,
    /// Anthropic Messages.
    Messages,
    /// OpenAI Responses.
    Responses,
    /// Any protocol that is not one of chat.
    Other,
}

/// What the request asked of the shaping of its answer.
#[derive(Debug, Clone, Copy, PartialEq, Eq)]
pub struct WebSearchStreamContext {
    /// Whether the client asked for a stream.
    pub streaming: bool,
    /// Whether the client gets the pending calls of its own tools.
    pub client_tools: bool,
}

/// One event for the client, in its protocol.
pub enum ShapedEvent {
    Chat(ChatEvent),
    Messages(MessagesStreamEvent),
    Responses(ResponseStreamEvent),
}

/// What an event for the client says.
pub enum ShapedView {
    Chat(ChatEventView),
    Messages(MessagesEventView),
    Responses(NumberedEventView),
}

impl View for ShapedEvent {
    type V = ShapedView;

    open spec fn view(&self) -> ShapedView {
        match *self {
            ShapedEvent::Chat(event) => ShapedView::Chat(event@),
            ShapedEvent::Messages(event) => ShapedView::Messages(event@),
            ShapedEvent::Responses(event) => ShapedView::Responses(event@),
        }
    }
}

/// What a list of events for the client says, one by one.
pub open spec fn events_view(events: Seq<ShapedEvent>) -> Seq<ShapedView> {
    events.map_values(|e: ShapedEvent| e@)
}

/// Chat events as events for the client.
pub open spec fn as_chat(events: Seq<ChatEventView>) -> Seq<ShapedView> {
    events.map_values(|e: ChatEventView| ShapedView::Chat(e))
}

/// Message events as events for the client.
pub open spec fn as_messages(events: Seq<MessagesEventView>) -> Seq<ShapedView> {
    events.map_values(|e: MessagesEventView| ShapedView::Messages(e))
}

/// Response events as events for the client.
pub open spec fn as_responses(events: Seq<NumberedEventView>) -> Seq<ShapedView> {
    events.map_values(|e: NumberedEventView| ShapedView::Responses(e))
}

/// What a list of arrivals says, one by one.
pub open spec fn arrivals_view(arrivals: Seq<Arrival>) -> Seq<ArrivalView> {
    arrivals.map_values(|a: Arrival| a@)
}

/// The id of a message, made of a clock reading.
pub open spec fn message_id(nanos: nat) -> Seq<char> {
    "msg_"@ + text::digits(nanos, 16)
}

/// The id of a response, made of a clock reading.
pub open spec fn response_id(nanos: nat) -> Seq<char> {
    "resp_"@ + text::digits(nanos, 16)
}

/// What a whole stream shows to a client.
pub open spec fn stream_output(
    arrivals: Seq<ArrivalView>,
    model: Seq<char>,
    format: InputFormat,
    client_tools: bool,
    nanos: nat,
) -> Seq<ShapedView> {
    match format {
        InputFormat::Completions => as_chat(chat::chat_outputs(arrivals, client_tools)),
        InputFormat::Messages => as_messages(
            messages::nothing_shown().events(
                arrivals,
                message_id(nanos),
                model,
                client_tools,
            ).events,
        ),
        InputFormat::Responses => as_responses(
            responses::nothing_shown().events(arrivals, response_id(nanos), model).events,
        ),
        InputFormat::Other => as_chat(chat::chat_outputs(arrivals, false)),
    }
}

/// What the events of a stream mean for metering, one by one. A message ends with its
/// provenance or with the terminator, and only once.
pub open spec fn stream_readings(arrivals: Seq<ArrivalView>, format: InputFormat) -> Seq<Reading> {
    match format {
        InputFormat::Messages => message_readings(arrivals),
        _ => metering::readings(arrivals),
    }
}

/// What the events of a message stream mean for metering, one by one.
pub open spec fn message_readings(arrivals: Seq<ArrivalView>) -> Seq<Reading> {
    Seq::new(
        arrivals.len(),
        |i: int| messages::message_reading(lifecycle::has_end(arrivals.take(i)), arrivals[i]),
    )
}

/// What a whole stream reports, where nothing was metered before.
pub open spec fn stream_usage(
    usage: StreamUsage,
    arrivals: Seq<ArrivalView>,
    format: InputFormat,
) -> StreamUsage {
    Metered { meter: metering::unread(), usage }.steps(stream_readings(arrivals, format)).usage
}

/// The most blocks that a message stream can show.
pub open spec fn block_total(arrivals: Seq<ArrivalView>) -> nat
    decreases arrivals.len(),
{
    if arrivals.len() == 0 {
        0
    } else {
        block_total(arrivals.drop_last()) + messages::event_blocks(arrivals.last().event)
    }
}

/// A stream that can be shaped: its text, its blocks and its events can be counted, and a chat
/// client can be shown its sources.
pub open spec fn can_shape(arrivals: Seq<ArrivalView>, format: InputFormat) -> bool {
    &&& metering::text_total(metering::readings(arrivals)) <= usize::MAX
    &&& match format {
        InputFormat::Messages => block_total(arrivals) <= usize::MAX,
        InputFormat::Responses => arrivals.len() + 12 <= u64::MAX,
        _ => forall|i: int| 0 <= i < arrivals.len() ==> chat::can_show((#[trigger] arrivals[i]).event),
    }
}

/// The shaping of one stream.
pub enum Shaper {
    Chat { meter: Meter, client_tools: bool },
    Messages { message: MsgState, id: String, client_tools: bool },
    Responses { response: RespState, id: String },
}

/// How far the shaping of a stream has come.
pub enum ShaperView {
    Chat { meter: MeterView, client_tools: bool },
    Messages { message: MsgModel, meter: MeterView, id: Seq<char>, client_tools: bool },
    Responses { response: RespModel, meter: MeterView, id: Seq<char> },
}

impl View for Shaper {
    type V = ShaperView;

    open spec fn view(&self) -> ShaperView {
        match *self {
            Shaper::Chat { meter, client_tools } => ShaperView::Chat {
                meter: meter@,
                client_tools,
            },
            Shaper::Messages { message, id, client_tools } => ShaperView::Messages {
                message: message@,
                meter: message.meter@,
                id: id@,
                client_tools,
            },
            Shaper::Responses { response, id } => ShaperView::Responses {
                response: response@,
                meter: response.meter@,
                id: id@,
            },
        }
    }
}

/// The shaping of a stream together with what it has shown and reported.
#[verifier::ext_equal]
pub struct Shaping {
    pub shaper: ShaperView,
    pub usage: StreamUsage,
    pub events: Seq<ShapedView>,
}

impl ShaperView {
    /// The shaping of a stream of which nothing came yet.
    pub open spec fn start(format: InputFormat, client_tools: bool, nanos: nat) -> ShaperView {
        match format {
            InputFormat::Completions => ShaperView::Chat { meter: metering::unread(), client_tools },
            InputFormat::Messages => ShaperView::Messages {
                message: messages::nothing_shown().model,
                meter: metering::unread(),
                id: message_id(nanos),
                client_tools,
            },
            InputFormat::Responses => ShaperView::Responses {
                response: responses::nothing_shown().model,
                meter: metering::unread(),
                id: response_id(nanos),
            },
            InputFormat::Other => ShaperView::Chat {
                meter: metering::unread(),
                client_tools: false,
            },
        }
    }

    /// The meter of the stream.
    pub open spec fn meter(self) -> MeterView {
        match self {
            ShaperView::Chat { meter, .. } => meter,
            ShaperView::Messages { meter, .. } => meter,
            ShaperView::Responses { meter, .. } => meter,
        }
    }

    /// Whether the stream has room for one more event.
    pub open spec fn has_room(self, arrival: ArrivalView) -> bool {
        &&& self.meter().text_chars + metering::event_chars(arrival.event) <= usize::MAX
        &&& match self {
            ShaperView::Chat { .. } => chat::can_show(arrival.event),
            ShaperView::Messages { message, .. } => message.next_block + messages::event_blocks(
                arrival.event,
            ) <= usize::MAX,
            ShaperView::Responses { response, .. } => response.has_room(),
        }
    }
}

impl Shaping {
    /// After one sidecar event.
    pub open spec fn event(self, arrival: ArrivalView, model: Seq<char>) -> Shaping {
        match self.shaper {
            ShaperView::Chat { meter, client_tools } => {
                let metered = Metered { meter, usage: self.usage }.step(metering::reading(arrival));
                Shaping {
                    shaper: ShaperView::Chat { meter: metered.meter, client_tools },
                    usage: metered.usage,
                    events: self.events + as_chat(chat::chat_output(arrival.event, client_tools)),
                }
            },
            ShaperView::Messages { message, meter, id, client_tools } => {
                let metered = Metered { meter, usage: self.usage }.step(
                    messages::message_reading(message.sent_stop, arrival),
                );
                let shown = messages::Emission { model: message, events: Seq::empty() }.event(
                    arrival.event,
                    id,
                    model,
                    client_tools,
                );
                Shaping {
                    shaper: ShaperView::Messages {
                        message: shown.model,
                        meter: metered.meter,
                        id,
                        client_tools,
                    },
                    usage: metered.usage,
                    events: self.events + as_messages(shown.events),
                }
            },
            ShaperView::Responses { response, meter, id } => {
                let metered = Metered { meter, usage: self.usage }.step(metering::reading(arrival));
                let shown = responses::Emission { model: response, events: Seq::empty() }.event(
                    arrival.event,
                    id,
                    model,
                );
                Shaping {
                    shaper: ShaperView::Responses { response: shown.model, meter: metered.meter, id },
                    usage: metered.usage,
                    events: self.events + as_responses(shown.events),
                }
            },
        }
    }

    /// After a whole stream.
    pub open spec fn events(self, arrivals: Seq<ArrivalView>, model: Seq<char>) -> Shaping
        decreases arrivals.len(),
    {
        if arrivals.len() == 0 {
            self
        } else {
            self.events(arrivals.drop_last(), model).event(arrivals.last(), model)
        }
    }
}

impl Shaper {
    /// Starts the shaping of a stream. A client that does not speak chat is shown chat, without
    /// the calls of its tools.
    pub fn new(input_format: InputFormat, ctx: WebSearchStreamContext, nanos: u128) -> (res: Shaper)
        ensures
            res@ == ShaperView::start(input_format, ctx.client_tools, nanos as nat),
    {
        match input_format {
            InputFormat::Completions => Shaper::Chat {
                meter: Meter::new(),
                client_tools: ctx.client_tools,
            },
            InputFormat::Messages => {
                let mut id: String = "msg_".to_owned();
                id.append(short_id(nanos).as_str());
                Shaper::Messages { message: MsgState::default(), id, client_tools: ctx.client_tools }
            },
            InputFormat::Responses => {
                let mut id: String = "resp_".to_owned();
                id.append(short_id(nanos).as_str());
                Shaper::Responses { response: RespState::default(), id }
            },
            InputFormat::Other => Shaper::Chat { meter: Meter::new(), client_tools: false },
        }
    }

    /// Whether the stream has room for one more event: its text and its blocks can still be
    /// counted, and a chat client can be shown its sources.
    pub fn has_room_for(&self, event: &SseEvent, now: Moment) -> (res: bool)
        ensures
            res == self@.has_room(ArrivalView { at: now, event: event@ }),
    {
        match self {
            Shaper::Chat { meter, .. } => meter.has_room_for(event) && is_showable(event),
            Shaper::Messages { message, .. } => message.meter.has_room_for(event)
                && message.has_room_for(event),
            Shaper::Responses { response, .. } => response.meter.has_room_for(event)
                && response.has_room(),
        }
    }

    /// Shapes one sidecar event and meters it.
    pub fn step(
        &mut self,
        usage: &mut StreamUsage,
        event: &SseEvent,
        now: Moment,
        model: &str,
    ) -> (res: Vec<ShapedEvent>)
        requires
            old(self)@.has_room(ArrivalView { at: now, event: event@ }),
        ensures
            (Shaping { shaper: final(self)@, usage: *final(usage), events: events_view(res@) })
                == (Shaping { shaper: old(self)@, usage: *old(usage), events: Seq::empty() }).event(
                ArrivalView { at: now, event: event@ },
                model@,
            ),
    {
        let mut out: Vec<ShapedEvent> = Vec::new();
        match self {
            Shaper::Chat { meter, client_tools } => {
                let shown: Vec<ChatEvent> = chat_shaper(meter, usage, event, now, *client_tools);
                let ghost all = shown@;
                for next in it: shown
                    invariant
                        it.seq() == all,
                        out@.len() == it.index(),
                        forall|j: int|
                            0 <= j < out@.len() ==> (#[trigger] out@[j])@ == ShapedView::Chat(all[j]@),
                {
                    out.push(ShapedEvent::Chat(next));
                }
                assert(events_view(out@) =~= as_chat(chat::events_view(all)));
            },
            Shaper::Messages { message, id, client_tools } => {
                let shown: Vec<MessagesStreamEvent> = messages_shaper(
                    message,
                    usage,
                    event,
                    now,
                    id.as_str(),
                    model,
                    *client_tools,
                );
                let ghost all = shown@;
                for next in it: shown
                    invariant
                        it.seq() == all,
                        out@.len() == it.index(),
                        forall|j: int|
                            0 <= j < out@.len() ==> (#[trigger] out@[j])@ == ShapedView::Messages(
                                all[j]@,
                            ),
                {
                    out.push(ShapedEvent::Messages(next));
                }
                assert(events_view(out@) =~= as_messages(messages::events_view(all)));
            },
            Shaper::Responses { response, id } => {
                let shown: Vec<ResponseStreamEvent> = responses_shaper(
                    response,
                    usage,
                    event,
                    now,
                    id.as_str(),
                    model,
                );
                let ghost all = shown@;
                for next in it: shown
                    invariant
                        it.seq() == all,
                        out@.len() == it.index(),
                        forall|j: int|
                            0 <= j < out@.len() ==> (#[trigger] out@[j])@ == ShapedView::Responses(
                                all[j]@,
                            ),
                {
                    out.push(ShapedEvent::Responses(next));
                }
                assert(events_view(out@) =~= as_responses(responses::events_view(all)));
            },
        }
        out
    }
}

/// The text of a stream is no shorter than that of its beginning.
proof fn lemma_totals_grow(arrivals: Seq<ArrivalView>, i: int)
    requires
        0 <= i < arrivals.len(),
    ensures
        metering::text_total(metering::readings(arrivals.take(i))) + metering::event_chars(
            arrivals[i].event,
        ) <= metering::text_total(metering::readings(arrivals)),
        block_total(arrivals.take(i)) + messages::event_blocks(arrivals[i].event) <= block_total(
            arrivals,
        ),
    decreases arrivals.len(),
{
    let shorter = arrivals.drop_last();
    assert(metering::readings(arrivals).drop_last() =~= metering::readings(shorter));
    if i == arrivals.len() - 1 {
        assert(arrivals.take(i) == shorter);
    } else {
        lemma_totals_grow(shorter, i);
        assert(shorter.take(i) == arrivals.take(i));
    }
}

/// The shaping of a stream is what its protocol makes of it.
proof fn lemma_shaped(
    arrivals: Seq<ArrivalView>,
    usage: StreamUsage,
    model: Seq<char>,
    format: InputFormat,
    client_tools: bool,
    nanos: nat,
)
    ensures
        ({
            let start = ShaperView::start(format, client_tools, nanos);
            let end = Shaping { shaper: start, usage, events: Seq::empty() }.events(arrivals, model);
            let metered = Metered { meter: metering::unread(), usage }.steps(
                stream_readings(arrivals, format),
            );
            &&& end.events == stream_output(arrivals, model, format, client_tools, nanos)
            &&& end.usage == metered.usage
            &&& end.shaper.meter() == metered.meter
            &&& end.shaper.meter().text_chars == metering::text_total(metering::readings(arrivals))
            &&& match end.shaper {
                ShaperView::Chat { client_tools: tools, .. } => {
                    &&& format is Completions || format is Other
                    &&& tools == (format is Completions && client_tools)
                },
                ShaperView::Messages { message, id, client_tools: tools, .. } => {
                    &&& format is Messages
                    &&& id == message_id(nanos)
                    &&& tools == client_tools
                    &&& message == messages::nothing_shown().events(
                        arrivals,
                        id,
                        model,
                        tools,
                    ).model
                    &&& message.next_block <= block_total(arrivals)
                },
                ShaperView::Responses { response, id, .. } => {
                    &&& format is Responses
                    &&& id == response_id(nanos)
                    &&& response == responses::nothing_shown().events(arrivals, id, model).model
                },
            }
        }),
    decreases arrivals.len(),
{
    let start = ShaperView::start(format, client_tools, nanos);
    let first = Shaping { shaper: start, usage, events: Seq::empty() };
    if arrivals.len() == 0 {
        assert(first.events(arrivals, model).events =~= stream_output(
            arrivals,
            model,
            format,
            client_tools,
            nanos,
        ));
    } else {
        let shorter = arrivals.drop_last();
        let last = arrivals.last();
        lemma_shaped(shorter, usage, model, format, client_tools, nanos);
        assert(metering::readings(arrivals).drop_last() =~= metering::readings(shorter));
        let before = first.events(shorter, model);
        match before.shaper {
            ShaperView::Chat { client_tools: tools, .. } => {
                assert(as_chat(chat::chat_outputs(shorter, tools)) + as_chat(
                    chat::chat_output(last.event, tools),
                ) =~= as_chat(chat::chat_outputs(arrivals, tools)));
            },
            ShaperView::Messages { message, id, client_tools: tools, .. } => {
                lemma_message_step(arrivals, id, model, tools);
            },
            ShaperView::Responses { id, .. } => {
                let em = responses::nothing_shown().events(shorter, id, model);
                response_lifecycle::law_response_events_are_added(em, last.event, id, model);
                let fresh = responses::Emission { model: em.model, events: Seq::empty() };
                assert(as_responses(em.events) + as_responses(
                    fresh.event(last.event, id, model).events,
                ) =~= as_responses(em.event(last.event, id, model).events));
            },
        }
    }
}

proof fn lemma_message_step(
    arrivals: Seq<ArrivalView>,
    id: Seq<char>,
    model: Seq<char>,
    client_tools: bool,
)
    requires
        arrivals.len() > 0,
    ensures
        ({
            let em = messages::nothing_shown().events(arrivals.drop_last(), id, model, client_tools);
            let last = arrivals.last();
            let fresh = messages::Emission { model: em.model, events: Seq::empty() };
            let whole = messages::nothing_shown().events(arrivals, id, model, client_tools);
            &&& whole.model == fresh.event(last.event, id, model, client_tools).model
            &&& as_messages(em.events) + as_messages(
                fresh.event(last.event, id, model, client_tools).events,
            ) =~= as_messages(whole.events)
            &&& message_readings(arrivals).drop_last() =~= message_readings(arrivals.drop_last())
            &&& message_readings(arrivals).last() == messages::message_reading(
                em.model.sent_stop,
                last,
            )
            &&& whole.model.next_block <= em.model.next_block + messages::event_blocks(last.event)
        }),
{
    let shorter = arrivals.drop_last();
    let last = arrivals.last();
    let em = messages::nothing_shown().events(shorter, id, model, client_tools);
    lifecycle::law_events_are_added(em, last.event, id, model, client_tools);
    lifecycle::law_end_is_known(shorter, id, model, client_tools);
    lifecycle::law_blocks_are_bounded(em, last.event, id, model, client_tools);
    assert forall|i: int| 0 <= i < shorter.len() implies #[trigger] message_readings(arrivals)[i]
        == message_readings(shorter)[i] by {
        assert(arrivals.take(i) == shorter.take(i));
    }
    assert(arrivals.take(arrivals.len() - 1) == shorter);
}

/// Reshapes a sidecar's stream into the protocol of the client, and meters it.
///
/// `nanos` is a clock reading from which the id of the answer is made.
pub fn translate_stream(
    arrivals: &Vec<Arrival>,
    usage: &mut StreamUsage,
    model: &str,
    input_format: InputFormat,
    ctx: WebSearchStreamContext,
    nanos: u128,
) -> (res: Vec<ShapedEvent>)
    requires
        can_shape(arrivals_view(arrivals@), input_format),
    ensures
        events_view(res@) == stream_output(
            arrivals_view(arrivals@),
            model@,
            input_format,
            ctx.client_tools,
            nanos as nat,
        ),
        *final(usage) == stream_usage(*old(usage), arrivals_view(arrivals@), input_format),
{
    let mut shaper = Shaper::new(input_format, ctx, nanos);
    let mut out: Vec<ShapedEvent> = Vec::new();
    let ghost all = arrivals_view(arrivals@);
    let ghost first = Shaping { shaper: shaper@, usage: *usage, events: Seq::empty() };
    assert(events_view(out@) =~= Seq::empty());
    assert(all.take(0) =~= Seq::empty());
    for i in 0..arrivals.len()
        invariant
            all == arrivals_view(arrivals@),
            can_shape(all, input_format),
            first == (Shaping {
                shaper: ShaperView::start(input_format, ctx.client_tools, nanos as nat),
                usage: *old(usage),
                events: Seq::empty(),
            }),
            (Shaping { shaper: shaper@, usage: *usage, events: events_view(out@) })
                == first.events(all.take(i as int), model@),
    {
        let ghost arrival = all[i as int];
        proof {
            response_lifecycle::law_response_numbers_are_bounded(
                all.take(i as int),
                response_id(nanos as nat),
                model@,
            );
            lemma_shaped(
                all.take(i as int),
                first.usage,
                model@,
                input_format,
                ctx.client_tools,
                nanos as nat,
            );
            lemma_totals_grow(all, i as int);
            assert(all.take(i + 1).drop_last() == all.take(i as int));
            assert(all.take(i + 1).last() == arrival);
        }
        let ghost before = events_view(out@);
        let mut shown = shaper.step(usage, &arrivals[i].event, arrivals[i].at, model);
        let ghost added = events_view(shown@);
        out.append(&mut shown);
        assert(events_view(out@) =~= before + added);
    }
    proof {
        assert(all.take(all.len() as int) == all);
        lemma_shaped(
            all,
            first.usage,
            model@,
            input_format,
            ctx.client_tools,
            nanos as nat,
        );
    }
    out
}

/// A stream that is shaped event by event shows and reports what it does as a whole.
pub proof fn law_steps_make_the_stream(
    arrivals: Seq<ArrivalView>,
    usage: StreamUsage,
    model: Seq<char>,
    format: InputFormat,
    client_tools: bool,
    nanos: nat,
)
    ensures
        ({
            let start = ShaperView::start(format, client_tools, nanos);
            let end = Shaping { shaper: start, usage, events: Seq::empty() }.events(arrivals, model);
            &&& end.events == stream_output(arrivals, model, format, client_tools, nanos)
            &&& end.usage == stream_usage(usage, arrivals, format)
        }),
{
    lemma_shaped(arrivals, usage, model, format, client_tools, nanos);
}

/// Whether an event ends an answer in a protocol.
pub open spec fn ends_answer(event: SseEventView, format: InputFormat) -> bool {
    event is Done || format is Messages && messages::is_provenance(event)
}

/// Whether the beginning of a stream leaves the token counts open: neither a report nor an end
/// comes in it.
pub open spec fn leaves_open(arrivals: Seq<ArrivalView>, format: InputFormat) -> bool {
    forall|j: int|
        0 <= j < arrivals.len() ==> !(metering::reading(#[trigger] arrivals[j]) is Report)
            && !ends_answer(arrivals[j].event, format)
}

proof fn lemma_leaves_open(arrivals: Seq<ArrivalView>, format: InputFormat, i: int)
    requires
        0 <= i < arrivals.len(),
        leaves_open(arrivals.take(i), format),
    ensures
        metering::unsettling(stream_readings(arrivals, format).take(i)),
        metering::text_total(stream_readings(arrivals, format).take(i)) == metering::text_total(
            metering::readings(arrivals.take(i)),
        ),
        stream_readings(arrivals, format)[i] == if ends_answer(arrivals[i].event, format) {
            Reading::End
        } else {
            metering::reading(arrivals[i])
        },
{
    let before = arrivals.take(i);
    let readings = stream_readings(arrivals, format);
    assert forall|j: int| 0 <= j < i implies #[trigger] readings[j] == metering::reading(
        before[j],
    ) by {
        assert(before[j] == arrivals[j]);
        assert(!ends_answer(before[j].event, format));
    }
    assert(readings.take(i) =~= metering::readings(before));
    assert forall|j: int| 0 <= j < i implies !(#[trigger] readings.take(i)[j] is Report) && !(
    readings.take(i)[j] is End) by {
        assert(!(metering::reading(before[j]) is Report));
        assert(readings.take(i)[j] == readings[j]);
    }
    if format is Messages && lifecycle::has_end(before) {
        let j = choose|j: int|
            0 <= j < before.len() && lifecycle::ends_message((#[trigger] before[j]).event);
        assert(!ends_answer(before[j].event, format));
    }
}

/// In every protocol the first usage marker of a stream is authoritative: the token counts are
/// what it says, whatever comes before it short of an end, and whatever comes after.
pub proof fn law_usage_marker_is_authoritative(
    usage: StreamUsage,
    arrivals: Seq<ArrivalView>,
    format: InputFormat,
    i: int,
)
    requires
        0 <= i < arrivals.len(),
        metering::reading(arrivals[i]) is Report,
        leaves_open(arrivals.take(i), format),
    ensures
        stream_usage(usage, arrivals, format) == markers::usage_recorded(
            StreamUsage {
                first_token: stream_usage(usage, arrivals, format).first_token,
                ..usage
            },
            metering::reading(arrivals[i])->Report_0,
        ),
{
    lemma_leaves_open(arrivals, format, i);
    metering::law_first_report_is_authoritative(
        Metered { meter: metering::unread(), usage },
        stream_readings(arrivals, format),
        i,
    );
}

/// In every protocol a stream that ends without a usage marker is metered by its text: a
/// quarter token per character, rounded up, where no larger count was known before.
pub proof fn law_unmarked_stream_is_estimated(
    usage: StreamUsage,
    arrivals: Seq<ArrivalView>,
    format: InputFormat,
    i: int,
)
    requires
        0 <= i < arrivals.len(),
        ends_answer(arrivals[i].event, format),
        leaves_open(arrivals.take(i), format),
        metering::text_total(metering::readings(arrivals.take(i))) > 0,
    ensures
        stream_usage(usage, arrivals, format) == markers::usage_estimated(
            StreamUsage {
                first_token: stream_usage(usage, arrivals, format).first_token,
                ..usage
            },
            metering::text_total(metering::readings(arrivals.take(i))),
        ),
{
    lemma_leaves_open(arrivals, format, i);
    metering::law_unreported_text_is_estimated(
        Metered { meter: metering::unread(), usage },
        stream_readings(arrivals, format),
        i,
    );
}

} // verus!
