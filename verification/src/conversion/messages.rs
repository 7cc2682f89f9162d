//! Anthropic Messages (`/v1/messages`) shaping of a web-search stream.
//!
//! A message opens with `message_start`, shows its content as numbered blocks of which one is
//! open at a time, and closes with `message_delta` and `message_stop`.

use vstd::prelude::*;

use crate::clock::Moment;
use crate::json;
use crate::json::{get_bool, get_member, get_str, get_u64, no_members, Json, JsonView};

use super::markers;
use super::markers::{
    classify, frame_delta, ArrivalView, Marker, MarkerView, SseEvent, SseEventView, StreamUsage,
};
use super::metering;
use super::metering::{Meter, Metered, Reading};

verus! {

/// Why a message stopped.
#[derive(Debug, Clone, Copy, PartialEq, Eq, Structural)]
pub enum StopReason {
    EndTurn,
    ToolUse,
}

/// Who speaks in a message.
#[derive(Debug, Clone, Copy, PartialEq, Eq, Structural)]
pub enum Role {
    Assistant,
}

/// The token counts of a finished message.
#[derive(Debug, Clone, Copy, PartialEq, Eq)]
pub struct MessageDeltaUsage {
    pub input_tokens: Option<usize>,
    pub output_tokens: Option<usize>,
    pub cache_creation_input_tokens: Option<usize>,
    pub cache_read_input_tokens: Option<usize>,
}

/// The token counts of a message that has just begun.
#[derive(Debug, Clone, Copy, PartialEq, Eq)]
pub struct Usage {
    pub input_tokens: usize,
    pub output_tokens: usize,
    pub cache_creation_input_tokens: Option<usize>,
    pub cache_read_input_tokens: Option<usize>,
}

/// A block of content.
pub enum ContentBlock {
    Text { text: String },
    ServerToolUse { id: String, name: String, input: Json },
    WebSearchToolResult { tool_use_id: String, content: Option<Json> },
    ToolUse { id: String, name: String, input: Json },
}

/// What a block of content says.
pub enum ContentBlockView {
    Text { text: Seq<char> },
    ServerToolUse { id: Seq<char>, name: Seq<char>, input: JsonView },
    WebSearchToolResult { tool_use_id: Seq<char>, content: Option<JsonView> },
    ToolUse { id: Seq<char>, name: Seq<char>, input: JsonView },
}

impl View for ContentBlock {
    type V = ContentBlockView;

    open spec fn view(&self) -> ContentBlockView {
        match *self {
            ContentBlock::Text { text } => ContentBlockView::Text { text: text@ },
            ContentBlock::ServerToolUse { id, name, input } => ContentBlockView::ServerToolUse {
                id: id@,
                name: name@,
                input: input@,
            },
            ContentBlock::WebSearchToolResult {
                tool_use_id,
                content,
            } => ContentBlockView::WebSearchToolResult {
                tool_use_id: tool_use_id@,
                content: match content {
                    Some(c) => Some(c@),
                    None => None,
                },
            },
            ContentBlock::ToolUse { id, name, input } => ContentBlockView::ToolUse {
                id: id@,
                name: name@,
                input: input@,
            },
        }
    }
}

/// An addition to the block that is open.
pub enum ContentBlockDelta {
    TextDelta { text: String },
    InputJsonDelta { partial_json: String },
    CitationsDelta { citations: Vec<Json> },
}

/// What an addition to a block says.
pub enum ContentBlockDeltaView {
    TextDelta { text: Seq<char> },
    InputJsonDelta { partial_json: Seq<char> },
    CitationsDelta { citations: Seq<JsonView> },
}

impl View for ContentBlockDelta {
    type V = ContentBlockDeltaView;

    open spec fn view(&self) -> ContentBlockDeltaView {
        match *self {
            ContentBlockDelta::TextDelta { text } => ContentBlockDeltaView::TextDelta {
                text: text@,
            },
            ContentBlockDelta::InputJsonDelta {
                partial_json,
            } => ContentBlockDeltaView::InputJsonDelta { partial_json: partial_json@ },
            ContentBlockDelta::CitationsDelta { citations } => ContentBlockDeltaView::CitationsDelta {
                citations: json::items_view(citations@),
            },
        }
    }
}

/// A message that has just begun.
pub struct MessagesResponse {
    pub id: String,
    pub role: Role,
    pub content: Vec<ContentBlock>,
    pub model: String,
    pub stop_reason: Option<StopReason>,
    pub usage: Usage,
}

/// What a message that has just begun says.
pub struct MessagesResponseView {
    pub id: Seq<char>,
    pub role: Role,
    pub content: Seq<ContentBlockView>,
    pub model: Seq<char>,
    pub stop_reason: Option<StopReason>,
    pub usage: Usage,
}

impl View for MessagesResponse {
    type V = MessagesResponseView;

    open spec fn view(&self) -> MessagesResponseView {
        MessagesResponseView {
            id: self.id@,
            role: self.role,
            content: self.content@.map_values(|block: ContentBlock| block@),
            model: self.model@,
            stop_reason: self.stop_reason,
            usage: self.usage,
        }
    }
}

/// One event of an Anthropic message stream.
pub enum MessagesStreamEvent {
    MessageStart { message: MessagesResponse },
    ContentBlockStart { index: usize, content_block: ContentBlock },
    ContentBlockDelta { index: usize, delta: ContentBlockDelta },
    ContentBlockStop { index: usize },
    MessageDelta { stop_reason: Option<StopReason>, usage: MessageDeltaUsage },
    MessageStop,
}

/// What an event of an Anthropic message stream says.
pub enum MessagesEventView {
    MessageStart { message: MessagesResponseView },
    ContentBlockStart { index: nat, content_block: ContentBlockView },
    ContentBlockDelta { index: nat, delta: ContentBlockDeltaView },
    ContentBlockStop { index: nat },
    MessageDelta { stop_reason: Option<StopReason>, usage: MessageDeltaUsage },
    MessageStop,
}

impl View for MessagesStreamEvent {
    type V = MessagesEventView;

    open spec fn view(&self) -> MessagesEventView {
        match *self {
            MessagesStreamEvent::MessageStart { message } => MessagesEventView::MessageStart {
                message: message@,
            },
            MessagesStreamEvent::ContentBlockStart {
                index,
                content_block,
            } => MessagesEventView::ContentBlockStart {
                index: index as nat,
                content_block: content_block@,
            },
            MessagesStreamEvent::ContentBlockDelta {
                index,
                delta,
            } => MessagesEventView::ContentBlockDelta { index: index as nat, delta: delta@ },
            MessagesStreamEvent::ContentBlockStop { index } => MessagesEventView::ContentBlockStop {
                index: index as nat,
            },
            MessagesStreamEvent::MessageDelta {
                stop_reason,
                usage,
            } => MessagesEventView::MessageDelta { stop_reason, usage },
            MessagesStreamEvent::MessageStop => MessagesEventView::MessageStop,
        }
    }
}

impl MessagesEventView {
    /// The name that the event goes by on the wire.
    pub open spec fn name(self) -> Seq<char> {
        match self {
            MessagesEventView::MessageStart { .. } => "message_start"@,
            MessagesEventView::ContentBlockStart { .. } => "content_block_start"@,
            MessagesEventView::ContentBlockDelta { .. } => "content_block_delta"@,
            MessagesEventView::ContentBlockStop { .. } => "content_block_stop"@,
            MessagesEventView::MessageDelta { .. } => "message_delta"@,
            MessagesEventView::MessageStop => "message_stop"@,
        }
    }
}

impl MessagesStreamEvent {
    /// The name that the event goes by on the wire.
    pub fn event_name(&self) -> (res: &'static str)
        ensures
            res@ == self@.name(),
    {
        match self {
            MessagesStreamEvent::MessageStart { .. } => "message_start",
            MessagesStreamEvent::ContentBlockStart { .. } => "content_block_start",
            MessagesStreamEvent::ContentBlockDelta { .. } => "content_block_delta",
            MessagesStreamEvent::ContentBlockStop { .. } => "content_block_stop",
            MessagesStreamEvent::MessageDelta { .. } => "message_delta",
            MessagesStreamEvent::MessageStop => "message_stop",
        }
    }
}

/// What a list of events says, one by one.
pub open spec fn events_view(events: Seq<MessagesStreamEvent>) -> Seq<MessagesEventView> {
    events.map_values(|e: MessagesStreamEvent| e@)
}

/// The input tokens that no cache covered: the whole prompt without its cached part.
pub open spec fn uncached(prompt: Option<usize>, cached: Option<usize>) -> Option<usize> {
    match (prompt, cached) {
        (Some(p), Some(c)) => Some(
            if p >= c {
                (p - c) as usize
            } else {
                0
            },
        ),
        (Some(p), None) => Some(p),
        _ => None,
    }
}

/// A count as a `usize`; what does not fit is cut off.
pub open spec fn count_of(count: Option<u64>) -> Option<usize> {
    match count {
        Some(n) => Some(#[verifier::truncate] (n as usize)),
        None => None,
    }
}

/// The counts of a sidecar's `usage` object in Anthropic's terms: there the input does not
/// hold what was read from a cache.
pub open spec fn message_usage(reported: JsonView) -> MessageDeltaUsage {
    let cached = count_of(
        json::unsigned_of(json::member_of(reported.member("prompt_tokens_details"@), "cached_tokens"@)),
    );
    MessageDeltaUsage {
        input_tokens: uncached(
            count_of(json::unsigned_of(reported.member("prompt_tokens"@))),
            cached,
        ),
        output_tokens: count_of(json::unsigned_of(reported.member("completion_tokens"@))),
        cache_creation_input_tokens: None,
        cache_read_input_tokens: cached,
    }
}

/// How far a message stream has come.
pub struct MsgModel {
    pub sent_start: bool,
    pub sent_stop: bool,
    /// The index that the next block gets.
    pub next_block: nat,
    /// The index of the text block that is open.
    pub text_block: Option<nat>,
    /// The last counts that the sidecar reported.
    pub usage: Option<MessageDeltaUsage>,
    pub stop_reason: Option<StopReason>,
    /// The message of an error in the stream.
    pub in_stream_error: Option<Seq<char>>,
}

/// A message stream together with what it has shown.
#[verifier::ext_equal]
pub struct Emission {
    pub model: MsgModel,
    pub events: Seq<MessagesEventView>,
}

/// What `message_start` says.
pub open spec fn opening(id: Seq<char>, model: Seq<char>) -> MessagesEventView {
    MessagesEventView::MessageStart {
        message: MessagesResponseView {
            id,
            role: Role::Assistant,
            content: Seq::empty(),
            model,
            stop_reason: None,
            usage: Usage {
                input_tokens: 0,
                output_tokens: 0,
                cache_creation_input_tokens: None,
                cache_read_input_tokens: None,
            },
        },
    }
}

/// The text of an optional document, or `otherwise` where there is none.
pub open spec fn text_or(json: Option<JsonView>, otherwise: Seq<char>) -> Seq<char> {
    match json::text_of(json) {
        Some(text) => text,
        None => otherwise,
    }
}

/// The events of the block that shows the call of a search round, at `index`.
pub open spec fn round_call_events(round: JsonView, index: nat) -> Seq<MessagesEventView> {
    seq![
        MessagesEventView::ContentBlockStart {
            index,
            content_block: ContentBlockView::ServerToolUse {
                id: text_or(round.member("tool_use_id"@), "server_tool"@),
                name: text_or(round.member("tool_name"@), "web_search"@),
                input: json::empty_object(),
            },
        },
        MessagesEventView::ContentBlockDelta {
            index,
            delta: ContentBlockDeltaView::InputJsonDelta {
                partial_json: json::json_text(
                    match round.member("input"@) {
                        Some(input) => input,
                        None => JsonView::Null,
                    },
                ),
            },
        },
        MessagesEventView::ContentBlockStop { index },
    ]
}

/// The events of the block that shows the outcome of a search round, at `index`.
pub open spec fn round_result_events(round: JsonView, index: nat) -> Seq<MessagesEventView> {
    seq![
        MessagesEventView::ContentBlockStart {
            index,
            content_block: ContentBlockView::WebSearchToolResult {
                tool_use_id: text_or(round.member("tool_use_id"@), "server_tool"@),
                content: round.member("output"@),
            },
        },
        MessagesEventView::ContentBlockStop { index },
    ]
}

/// Whether a round left its execution to the client.
pub open spec fn is_deferred(round: JsonView) -> bool {
    json::flag_of(round.member("deferred"@)) == Some(true)
}

/// The tool calls that a frame forwards; nothing where they are no list.
pub open spec fn forwarded_calls(frame: JsonView) -> Option<Seq<JsonView>> {
    json::items_of(json::member_of(markers::delta_of(frame), "tool_calls"@))
}

/// The events of the block that shows one tool call of the client, at `index`. A call without
/// arguments has no delta.
pub open spec fn call_events(call: JsonView, index: nat) -> Seq<MessagesEventView> {
    let arguments = text_or(json::member_of(call.member("function"@), "arguments"@), Seq::empty());
    let start = MessagesEventView::ContentBlockStart {
        index,
        content_block: ContentBlockView::ToolUse {
            id: text_or(call.member("id"@), Seq::empty()),
            name: text_or(json::member_of(call.member("function"@), "name"@), Seq::empty()),
            input: json::empty_object(),
        },
    };
    let stop = MessagesEventView::ContentBlockStop { index };
    if arguments.len() == 0 {
        seq![start, stop]
    } else {
        seq![
            start,
            MessagesEventView::ContentBlockDelta {
                index,
                delta: ContentBlockDeltaView::InputJsonDelta { partial_json: arguments },
            },
            stop,
        ]
    }
}

/// One delta per citation, all for the block at `index`.
pub open spec fn citation_events(citations: Seq<JsonView>, index: nat) -> Seq<MessagesEventView> {
    citations.map_values(
        |citation: JsonView|
            MessagesEventView::ContentBlockDelta {
                index,
                delta: ContentBlockDeltaView::CitationsDelta { citations: seq![citation] },
            },
    )
}

/// The reason that a message gives for its end: none where it failed.
pub open spec fn stop_reason_of(model: MsgModel) -> Option<StopReason> {
    if model.in_stream_error is Some {
        None
    } else {
        match model.stop_reason {
            Some(reason) => Some(reason),
            None => Some(StopReason::EndTurn),
        }
    }
}

/// The token counts that a message ends with: the last ones reported, or none.
pub open spec fn final_usage(model: MsgModel) -> MessageDeltaUsage {
    match model.usage {
        Some(usage) => usage,
        None => MessageDeltaUsage {
            input_tokens: None,
            output_tokens: None,
            cache_creation_input_tokens: None,
            cache_read_input_tokens: None,
        },
    }
}

impl Emission {
    /// `message_start`, where it was not sent yet.
    pub open spec fn started(self, id: Seq<char>, model: Seq<char>) -> Emission {
        if self.model.sent_start {
            self
        } else {
            Emission {
                model: MsgModel { sent_start: true, ..self.model },
                events: self.events.push(opening(id, model)),
            }
        }
    }

    /// A text block, where none is open.
    pub open spec fn text_opened(self) -> Emission {
        if self.model.text_block is Some {
            self
        } else {
            Emission {
                model: MsgModel {
                    next_block: self.model.next_block + 1,
                    text_block: Some(self.model.next_block),
                    ..self.model
                },
                events: self.events.push(
                    MessagesEventView::ContentBlockStart {
                        index: self.model.next_block,
                        content_block: ContentBlockView::Text { text: Seq::empty() },
                    },
                ),
            }
        }
    }

    /// The end of the text block, where one is open.
    pub open spec fn text_closed(self) -> Emission {
        match self.model.text_block {
            Some(index) => Emission {
                model: MsgModel { text_block: None, ..self.model },
                events: self.events.push(MessagesEventView::ContentBlockStop { index }),
            },
            None => self,
        }
    }

    /// A piece of text, in the text block.
    pub open spec fn text(self, text: Seq<char>) -> Emission {
        let open = self.text_opened();
        Emission {
            model: open.model,
            events: open.events.push(
                MessagesEventView::ContentBlockDelta {
                    index: open.model.text_block->0,
                    delta: ContentBlockDeltaView::TextDelta { text },
                },
            ),
        }
    }

    /// A search round: a block for the call, and one for its outcome where it ran here.
    pub open spec fn tool_round(self, round: JsonView) -> Emission {
        let closed = self.text_closed();
        let index = closed.model.next_block;
        let shown = closed.events + round_call_events(round, index);
        if is_deferred(round) {
            Emission { model: MsgModel { next_block: index + 1, ..closed.model }, events: shown }
        } else {
            Emission {
                model: MsgModel { next_block: index + 2, ..closed.model },
                events: shown + round_result_events(round, index + 1),
            }
        }
    }

    /// Tool calls of the client: a block for each.
    pub open spec fn calls(self, calls: Seq<JsonView>) -> Emission
        decreases calls.len(),
    {
        if calls.len() == 0 {
            self
        } else {
            let before = self.calls(calls.drop_last());
            Emission {
                model: MsgModel { next_block: before.model.next_block + 1, ..before.model },
                events: before.events + call_events(calls.last(), before.model.next_block),
            }
        }
    }

    /// The pending tool calls that a frame forwards: the message then stops for their sake.
    pub open spec fn client_calls(self, frame: JsonView) -> Emission {
        let closed = self.text_closed();
        match forwarded_calls(frame) {
            Some(calls) => {
                let shown = closed.calls(calls);
                Emission {
                    model: MsgModel { stop_reason: Some(StopReason::ToolUse), ..shown.model },
                    events: shown.events,
                }
            },
            None => closed,
        }
    }

    /// The citations of a provenance marker, in the text block.
    pub open spec fn citations(self, provenance: JsonView) -> Emission {
        match json::items_of(provenance.member("citations"@)) {
            Some(citations) => {
                let open = self.text_opened();
                Emission {
                    model: open.model,
                    events: open.events + citation_events(citations, open.model.text_block->0),
                }
            },
            None => self,
        }
    }

    /// The counts that the sidecar reported.
    pub open spec fn reported(self, reported: JsonView) -> Emission {
        Emission {
            model: MsgModel { usage: Some(message_usage(reported)), ..self.model },
            events: self.events,
        }
    }

    /// An error in the stream.
    pub open spec fn failed(self, message: Seq<char>) -> Emission {
        Emission {
            model: MsgModel { in_stream_error: Some(message), ..self.model },
            events: self.events,
        }
    }

    /// The end of the message, where it was not sent yet. A message that failed has no reason
    /// to stop.
    pub open spec fn ended(self) -> Emission {
        if self.model.sent_stop {
            self
        } else {
            let closed = self.text_closed();
            Emission {
                model: MsgModel { sent_stop: true, ..closed.model },
                events: closed.events.push(
                    MessagesEventView::MessageDelta {
                        stop_reason: stop_reason_of(closed.model),
                        usage: final_usage(closed.model),
                    },
                ).push(MessagesEventView::MessageStop),
            }
        }
    }

    /// After one sidecar event. A message that has ended shows nothing more.
    pub open spec fn event(
        self,
        event: SseEventView,
        id: Seq<char>,
        model: Seq<char>,
        client_tools: bool,
    ) -> Emission {
        if self.model.sent_stop {
            self
        } else {
            match event {
                SseEventView::Done => self.started(id, model).ended(),
                SseEventView::Frame(frame) => {
                    let open = self.started(id, model);
                    match markers::frame_marker(frame) {
                        MarkerView::TextDelta(text) => open.text(text),
                        MarkerView::ToolRound(round) => open.tool_round(round),
                        MarkerView::Usage(reported) => open.reported(reported),
                        MarkerView::Provenance(provenance) => open.citations(provenance).ended(),
                        MarkerView::ClientToolCalls(_) => if client_tools {
                            open.client_calls(frame)
                        } else {
                            open
                        },
                        MarkerView::InStreamError(message) => open.failed(message),
                        MarkerView::Unknown => open,
                    }
                },
                SseEventView::Malformed => self,
            }
        }
    }

    /// After a whole stream.
    pub open spec fn events(
        self,
        arrivals: Seq<ArrivalView>,
        id: Seq<char>,
        model: Seq<char>,
        client_tools: bool,
    ) -> Emission
        decreases arrivals.len(),
    {
        if arrivals.len() == 0 {
            self
        } else {
            self.events(arrivals.drop_last(), id, model, client_tools).event(
                arrivals.last().event,
                id,
                model,
                client_tools,
            )
        }
    }
}

/// A message stream that has shown nothing.
pub open spec fn nothing_shown() -> Emission {
    Emission {
        model: MsgModel {
            sent_start: false,
            sent_stop: false,
            next_block: 0,
            text_block: None,
            usage: None,
            stop_reason: None,
            in_stream_error: None,
        },
        events: Seq::empty(),
    }
}

/// The most blocks that an event can add.
pub open spec fn event_blocks(event: SseEventView) -> nat {
    match event {
        SseEventView::Frame(frame) => match markers::frame_marker(frame) {
            MarkerView::TextDelta(_) => 1,
            MarkerView::ToolRound(_) => 2,
            MarkerView::Provenance(_) => 1,
            MarkerView::ClientToolCalls(_) => match forwarded_calls(frame) {
                Some(calls) => calls.len(),
                None => 0,
            },
            _ => 0,
        },
        _ => 0,
    }
}

/// What an event means for metering: a message ends with its provenance or with the
/// terminator, and only once.
pub open spec fn message_reading(sent_stop: bool, arrival: ArrivalView) -> Reading {
    match metering::reading(arrival) {
        Reading::End => if sent_stop {
            Reading::Nothing
        } else {
            Reading::End
        },
        Reading::Nothing => if !sent_stop && is_provenance(arrival.event) {
            Reading::End
        } else {
            Reading::Nothing
        },
        other => other,
    }
}

/// Whether an event is a provenance frame.
pub open spec fn is_provenance(event: SseEventView) -> bool {
    match event {
        SseEventView::Frame(frame) => markers::frame_marker(frame) is Provenance,
        _ => false,
    }
}

/// The state of a message stream.
pub struct MsgState {
    pub sent_start: bool,
    pub sent_stop: bool,
    pub next_block_index: usize,
    pub text_block_index: Option<usize>,
    pub usage: Option<MessageDeltaUsage>,
    pub stop_reason: Option<StopReason>,
    pub in_stream_error: Option<String>,
    pub meter: Meter,
}

impl View for MsgState {
    type V = MsgModel;

    open spec fn view(&self) -> MsgModel {
        MsgModel {
            sent_start: self.sent_start,
            sent_stop: self.sent_stop,
            next_block: self.next_block_index as nat,
            text_block: match self.text_block_index {
                Some(index) => Some(index as nat),
                None => None,
            },
            usage: self.usage,
            stop_reason: self.stop_reason,
            in_stream_error: match self.in_stream_error {
                Some(message) => Some(message@),
                None => None,
            },
        }
    }
}

impl MsgState {
    /// Whether the blocks of an event can still be numbered.
    pub fn has_room_for(&self, event: &SseEvent) -> (res: bool)
        ensures
            res == (self.next_block_index + event_blocks(event@) <= usize::MAX),
    {
        let blocks: usize = match event {
            SseEvent::Frame(frame) => match classify(frame) {
                Marker::TextDelta(_) => 1,
                Marker::ToolRound(_) => 2,
                Marker::Provenance(_) => 1,
                Marker::ClientToolCalls(_) => {
                    match get_member(frame_delta(frame), "tool_calls") {
                        Some(found) => match found.as_array() {
                            Some(calls) => {
                                proof {
                                    json::lemma_items_view(calls@);
                                }
                                calls.len()
                            },
                            None => 0,
                        },
                        None => 0,
                    }
                },
                _ => 0,
            },
            _ => 0,
        };
        blocks <= usize::MAX - self.next_block_index
    }
}

/// A state and the events shown so far, as an emission.
pub open spec fn shown(st: MsgState, out: Seq<MessagesStreamEvent>) -> Emission {
    Emission { model: st@, events: events_view(out) }
}

impl Default for MsgState {
    fn default() -> (res: MsgState)
        ensures
            res@ == nothing_shown().model,
            res.meter@ == metering::unread(),
    {
        MsgState {
            sent_start: false,
            sent_stop: false,
            next_block_index: 0,
            text_block_index: None,
            usage: None,
            stop_reason: None,
            in_stream_error: None,
            meter: Meter::new(),
        }
    }
}

fn ensure_start(st: &mut MsgState, out: &mut Vec<MessagesStreamEvent>, resp_id: &str, model: &str)
    ensures
        shown(*final(st), final(out)@) == shown(*old(st), old(out)@).started(resp_id@, model@),
        final(st).meter == old(st).meter,
{
    if st.sent_start {
        return ;
    }
    st.sent_start = true;
    let message = MessagesResponse {
        id: resp_id.to_owned(),
        role: Role::Assistant,
        content: Vec::new(),
        model: model.to_owned(),
        stop_reason: None,
        usage: Usage {
            input_tokens: 0,
            output_tokens: 0,
            cache_creation_input_tokens: None,
            cache_read_input_tokens: None,
        },
    };
    assert(message@.content =~= Seq::empty());
    out.push(MessagesStreamEvent::MessageStart { message });
}

fn ensure_text_open(st: &mut MsgState, out: &mut Vec<MessagesStreamEvent>) -> (res: usize)
    requires
        old(st).text_block_index is None ==> old(st).next_block_index < usize::MAX,
    ensures
        shown(*final(st), final(out)@) == shown(*old(st), old(out)@).text_opened(),
        final(st).text_block_index == Some(res),
        final(st).meter == old(st).meter,
{
    if let Some(index) = st.text_block_index {
        return index;
    }
    let index: usize = st.next_block_index;
    st.next_block_index = index + 1;
    st.text_block_index = Some(index);
    let text = String::new();
    assert(text@ =~= Seq::empty());
    out.push(
        MessagesStreamEvent::ContentBlockStart { index, content_block: ContentBlock::Text { text } },
    );
    index
}

fn close_text(st: &mut MsgState, out: &mut Vec<MessagesStreamEvent>)
    ensures
        shown(*final(st), final(out)@) == shown(*old(st), old(out)@).text_closed(),
        final(st).next_block_index == old(st).next_block_index,
        final(st).meter == old(st).meter,
{
    if let Some(index) = st.text_block_index {
        st.text_block_index = None;
        out.push(MessagesStreamEvent::ContentBlockStop { index });
    }
}

/// The text of an optional document, or `otherwise` where there is none.
fn str_or(json: Option<&Json>, otherwise: &str) -> (res: String)
    ensures
        res@ == text_or(json::opt_view(json), otherwise@),
{
    match get_str(json) {
        Some(text) => text.to_owned(),
        None => otherwise.to_owned(),
    }
}

fn handle_tool_round(st: &mut MsgState, out: &mut Vec<MessagesStreamEvent>, round: &Json)
    requires
        old(st).next_block_index + 2 <= usize::MAX,
    ensures
        shown(*final(st), final(out)@) == shown(*old(st), old(out)@).tool_round(round@),
        final(st).meter == old(st).meter,
{
    close_text(st, out);
    let ghost closed = shown(*st, out@);
    let tool_use_id = str_or(round.get("tool_use_id"), "server_tool");
    let tool_name = str_or(round.get("tool_name"), "web_search");
    let partial_json = match round.get("input") {
        Some(input) => input.encode(),
        None => Json::Null.encode(),
    };
    let deferred = match get_bool(round.get("deferred")) {
        Some(flag) => flag,
        None => false,
    };
    let index: usize = st.next_block_index;
    st.next_block_index = index + 1;
    out.push(
        MessagesStreamEvent::ContentBlockStart {
            index,
            content_block: ContentBlock::ServerToolUse {
                id: tool_use_id.clone(),
                name: tool_name,
                input: no_members(),
            },
        },
    );
    out.push(
        MessagesStreamEvent::ContentBlockDelta {
            index,
            delta: ContentBlockDelta::InputJsonDelta { partial_json },
        },
    );
    out.push(MessagesStreamEvent::ContentBlockStop { index });
    assert(events_view(out@) =~= closed.events + round_call_events(round@, index as nat));
    if !deferred {
        let result_index: usize = st.next_block_index;
        st.next_block_index = result_index + 1;
        let content = match round.get("output") {
            Some(output) => Some(output.clone()),
            None => None,
        };
        out.push(
            MessagesStreamEvent::ContentBlockStart {
                index: result_index,
                content_block: ContentBlock::WebSearchToolResult { tool_use_id, content },
            },
        );
        out.push(MessagesStreamEvent::ContentBlockStop { index: result_index });
        assert(events_view(out@) =~= closed.events + round_call_events(round@, index as nat)
            + round_result_events(round@, result_index as nat));
    }
}

/// Shows one tool call of the client.
fn show_call(st: &mut MsgState, out: &mut Vec<MessagesStreamEvent>, call: &Json)
    requires
        old(st).next_block_index < usize::MAX,
    ensures
        final(st)@ == (MsgModel { next_block: old(st)@.next_block + 1, ..old(st)@ }),
        events_view(final(out)@) == events_view(old(out)@) + call_events(
            call@,
            old(st)@.next_block,
        ),
        final(st).meter == old(st).meter,
{
    let ghost before = events_view(out@);
    let id = str_or(call.get("id"), "");
    let name = str_or(get_member(call.get("function"), "name"), "");
    let arguments = str_or(get_member(call.get("function"), "arguments"), "");
    proof {
        reveal_strlit("");
        assert(""@ =~= Seq::<char>::empty());
    }
    let index: usize = st.next_block_index;
    st.next_block_index = index + 1;
    out.push(
        MessagesStreamEvent::ContentBlockStart {
            index,
            content_block: ContentBlock::ToolUse { id, name, input: no_members() },
        },
    );
    if arguments.as_str().unicode_len() > 0 {
        out.push(
            MessagesStreamEvent::ContentBlockDelta {
                index,
                delta: ContentBlockDelta::InputJsonDelta { partial_json: arguments },
            },
        );
    }
    out.push(MessagesStreamEvent::ContentBlockStop { index });
    assert(events_view(out@) =~= before + call_events(call@, index as nat));
}

fn handle_client_tool_calls(st: &mut MsgState, out: &mut Vec<MessagesStreamEvent>, frame: &Json)
    requires
        forwarded_calls(frame@) is Some ==> old(st).next_block_index + forwarded_calls(frame@)->0.len()
            <= usize::MAX,
    ensures
        shown(*final(st), final(out)@) == shown(*old(st), old(out)@).client_calls(frame@),
        final(st).meter == old(st).meter,
{
    close_text(st, out);
    let ghost closed = shown(*st, out@);
    let forwarded = get_member(frame_delta(frame), "tool_calls");
    if let Some(found) = forwarded {
        if let Some(calls) = found.as_array() {
            proof {
                json::lemma_items_view(calls@);
            }
            let ghost all = json::items_view(calls@);
            let ghost first = st.next_block_index;
            let ghost meter = st.meter;
            for i in 0..calls.len()
                invariant
                    all == json::items_view(calls@),
                    all.len() == calls@.len(),
                    forall|j: int| 0 <= j < calls@.len() ==> #[trigger] all[j] == calls@[j]@,
                    first + calls@.len() <= usize::MAX,
                    st.next_block_index == first + i,
                    st.meter == meter,
                    shown(*st, out@) == closed.calls(all.take(i as int)),
            {
                assert(all.take(i + 1).drop_last() == all.take(i as int));
                show_call(st, out, &calls[i]);
            }
            assert(all.take(calls@.len() as int) == all);
            st.stop_reason = Some(StopReason::ToolUse);
        }
    }
}

fn emit_citations(st: &mut MsgState, out: &mut Vec<MessagesStreamEvent>, provenance: &Json)
    requires
        old(st).next_block_index < usize::MAX,
    ensures
        shown(*final(st), final(out)@) == shown(*old(st), old(out)@).citations(provenance@),
        final(st).meter == old(st).meter,
{
    let listed = provenance.get("citations");
    if let Some(found) = listed {
        if let Some(citations) = found.as_array() {
            let index: usize = ensure_text_open(st, out);
            let ghost open = shown(*st, out@);
            proof {
                json::lemma_items_view(citations@);
            }
            let ghost all = json::items_view(citations@);
            for i in 0..citations.len()
                invariant
                    all.len() == citations@.len(),
                    forall|j: int| 0 <= j < citations@.len() ==> #[trigger] all[j] == citations@[j]@,
                    events_view(out@) == open.events + citation_events(
                        all.take(i as int),
                        index as nat,
                    ),
            {
                let ghost before = events_view(out@);
                let citation = citations[i].clone();
                let mut one: Vec<Json> = Vec::new();
                one.push(citation);
                proof {
                    json::lemma_items_view(one@);
                    assert(json::items_view(one@) =~= seq![all[i as int]]);
                }
                out.push(
                    MessagesStreamEvent::ContentBlockDelta {
                        index,
                        delta: ContentBlockDelta::CitationsDelta { citations: one },
                    },
                );
                assert(events_view(out@) =~= before.push(out@.last()@));
                assert(citation_events(all.take(i + 1), index as nat) =~= citation_events(
                    all.take(i as int),
                    index as nat,
                ).push(out@.last()@));
            }
            assert(all.take(citations@.len() as int) == all);
        }
    }
}

/// Ends the message, where it has not ended yet, and settles its metering.
pub fn flush_message_end(st: &mut MsgState, out: &mut Vec<MessagesStreamEvent>, log: &mut StreamUsage)
    ensures
        shown(*final(st), final(out)@) == shown(*old(st), old(out)@).ended(),
        (Metered { meter: final(st).meter@, usage: *final(log) }) == (if old(st).sent_stop {
            Metered { meter: old(st).meter@, usage: *old(log) }
        } else {
            Metered { meter: old(st).meter@, usage: *old(log) }.end()
        }),
{
    if st.sent_stop {
        return ;
    }
    close_text(st, out);
    st.meter.end(log);
    let usage = match st.usage {
        Some(usage) => usage,
        None => MessageDeltaUsage {
            input_tokens: None,
            output_tokens: None,
            cache_creation_input_tokens: None,
            cache_read_input_tokens: None,
        },
    };
    let stop_reason = if st.in_stream_error.is_some() {
        None
    } else {
        match st.stop_reason {
            Some(reason) => Some(reason),
            None => Some(StopReason::EndTurn),
        }
    };
    out.push(MessagesStreamEvent::MessageDelta { stop_reason, usage });
    out.push(MessagesStreamEvent::MessageStop);
    st.sent_stop = true;
}

/// The counts of a sidecar's `usage` object in Anthropic's terms.
pub fn anthropic_usage(reported: &Json) -> (res: MessageDeltaUsage)
    ensures
        res == message_usage(reported@),
{
    let prompt: Option<usize> = truncated(get_u64(reported.get("prompt_tokens")));
    let completion: Option<usize> = truncated(get_u64(reported.get("completion_tokens")));
    let cached: Option<usize> = truncated(
        get_u64(get_member(reported.get("prompt_tokens_details"), "cached_tokens")),
    );
    let input: Option<usize> = match (prompt, cached) {
        (Some(p), Some(c)) => Some(p.saturating_sub(c)),
        (Some(p), None) => Some(p),
        _ => None,
    };
    MessageDeltaUsage {
        input_tokens: input,
        output_tokens: completion,
        cache_creation_input_tokens: None,
        cache_read_input_tokens: cached,
    }
}

fn truncated(count: Option<u64>) -> (res: Option<usize>)
    ensures
        res == count_of(count),
{
    match count {
        Some(n) => Some(#[verifier::truncate] (n as usize)),
        None => None,
    }
}

/// Meters an event that comes after the end of the message.
fn meter_late_event(meter: &mut Meter, usage: &mut StreamUsage, event: &SseEvent, now: Moment)
    requires
        old(meter).text_chars + metering::event_chars(event@) <= usize::MAX,
    ensures
        (Metered { meter: final(meter)@, usage: *final(usage) }) == (Metered {
            meter: old(meter)@,
            usage: *old(usage),
        }).step(message_reading(true, ArrivalView { at: now, event: event@ })),
{
    if let SseEvent::Frame(frame) = event {
        match classify(frame) {
            Marker::TextDelta(text) => {
                meter.text(usage, text.as_str(), now);
            },
            Marker::Usage(reported) => {
                meter.report(usage, &reported);
            },
            _ => {},
        }
    }
}

/// Shapes one sidecar event for an Anthropic client and meters it. An event after the end of the
/// message is only metered.
pub fn messages_shaper(
    st: &mut MsgState,
    usage: &mut StreamUsage,
    event: &SseEvent,
    now: Moment,
    resp_id: &str,
    model: &str,
    client_tools: bool,
) -> (res: Vec<MessagesStreamEvent>)
    requires
        old(st).meter.text_chars + metering::event_chars(event@) <= usize::MAX,
        old(st).next_block_index + event_blocks(event@) <= usize::MAX,
    ensures
        shown(*final(st), res@) == (Emission { model: old(st)@, events: Seq::empty() }).event(
            event@,
            resp_id@,
            model@,
            client_tools,
        ),
        (Metered { meter: final(st).meter@, usage: *final(usage) }) == (Metered {
            meter: old(st).meter@,
            usage: *old(usage),
        }).step(message_reading(old(st).sent_stop, ArrivalView { at: now, event: event@ })),
{
    let mut out: Vec<MessagesStreamEvent> = Vec::new();
    assert(events_view(out@) =~= Seq::empty());
    if st.sent_stop {
        meter_late_event(&mut st.meter, usage, event, now);
        return out;
    }
    match event {
        SseEvent::Done => {
            ensure_start(st, &mut out, resp_id, model);
            flush_message_end(st, &mut out, usage);
        },
        SseEvent::Frame(frame) => {
            ensure_start(st, &mut out, resp_id, model);
            match classify(frame) {
                Marker::TextDelta(text) => {
                    let index: usize = ensure_text_open(st, &mut out);
                    st.meter.text(usage, text.as_str(), now);
                    out.push(
                        MessagesStreamEvent::ContentBlockDelta {
                            index,
                            delta: ContentBlockDelta::TextDelta { text },
                        },
                    );
                },
                Marker::ToolRound(round) => {
                    handle_tool_round(st, &mut out, &round);
                },
                Marker::Usage(reported) => {
                    st.meter.report(usage, &reported);
                    st.usage = Some(anthropic_usage(&reported));
                },
                Marker::Provenance(provenance) => {
                    emit_citations(st, &mut out, &provenance);
                    flush_message_end(st, &mut out, usage);
                },
                Marker::ClientToolCalls(_) => {
                    if client_tools {
                        handle_client_tool_calls(st, &mut out, frame);
                    }
                },
                Marker::InStreamError(message) => {
                    st.in_stream_error = Some(message);
                },
                Marker::Unknown => {},
            }
        },
        SseEvent::Malformed => {},
    }
    out
}

} // verus!
