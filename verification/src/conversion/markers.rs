//! The frames of a web-search sidecar and the token counts they report.
//!
//! The sidecar streams `data:` frames without an `event:` field, so a frame is told apart by
//! its JSON shape alone.

use vstd::prelude::*;

use crate::clock::Moment;
use crate::json;
use crate::json::{get_element, get_member, get_str, get_u64, Json, JsonView};
use crate::text;
use crate::text::{decimal, lower_hex};

verus! {

/// One server-sent event of the sidecar.
pub enum SseEvent {
    /// The `[DONE]` terminator.
    Done,
    /// A `data:` payload that is JSON.
    Frame(Json),
    /// A `data:` payload that is not JSON.
    Malformed,
}

/// What a server-sent event says.
pub enum SseEventView {
    Done,
    Frame(JsonView),
    Malformed,
}

impl View for SseEvent {
    type V = SseEventView;

    open spec fn view(&self) -> SseEventView {
        match *self {
            SseEvent::Done => SseEventView::Done,
            SseEvent::Frame(frame) => SseEventView::Frame(frame@),
            SseEvent::Malformed => SseEventView::Malformed,
        }
    }
}

/// A server-sent event and when it came.
pub struct Arrival {
    pub at: Moment,
    pub event: SseEvent,
}

/// What an event says, and when it came.
pub struct ArrivalView {
    pub at: Moment,
    pub event: SseEventView,
}

impl View for Arrival {
    type V = ArrivalView;

    open spec fn view(&self) -> ArrivalView {
        ArrivalView { at: self.at, event: self.event@ }
    }
}

/// The kind of a sidecar frame.
pub enum Marker {
    /// Assistant text: `choices[0].delta.content`.
    TextDelta(String),
    /// The `x-ai-ws-tool-round` object.
    ToolRound(Json),
    /// The `usage` object of a trailing frame.
    Usage(Json),
    /// The `x-ai-ws-provenance` object: citations, rounds and the echoed route type.
    Provenance(Json),
    /// A frame that forwards pending tool calls of the client: `choices[0].delta.tool_calls`.
    ClientToolCalls(Json),
    /// The message of an `error` frame.
    InStreamError(String),
    /// Anything else.
    Unknown,
}

/// What the kind of a sidecar frame says.
pub enum MarkerView {
    TextDelta(Seq<char>),
    ToolRound(JsonView),
    Usage(JsonView),
    Provenance(JsonView),
    ClientToolCalls(JsonView),
    InStreamError(Seq<char>),
    Unknown,
}

impl View for Marker {
    type V = MarkerView;

    open spec fn view(&self) -> MarkerView {
        match *self {
            Marker::TextDelta(text) => MarkerView::TextDelta(text@),
            Marker::ToolRound(round) => MarkerView::ToolRound(round@),
            Marker::Usage(usage) => MarkerView::Usage(usage@),
            Marker::Provenance(provenance) => MarkerView::Provenance(provenance@),
            Marker::ClientToolCalls(frame) => MarkerView::ClientToolCalls(frame@),
            Marker::InStreamError(message) => MarkerView::InStreamError(message@),
            Marker::Unknown => MarkerView::Unknown,
        }
    }
}

/// `choices[0].delta` of a chat frame.
pub open spec fn delta_of(frame: JsonView) -> Option<JsonView> {
    json::member_of(json::element_of(frame.member("choices"@), 0), "delta"@)
}

/// The kind of a sidecar frame. A frame of several shapes is of the first that matches:
/// provenance, tool round, usage, error, client tool calls, text. A `usage` that is no object
/// reports nothing.
pub open spec fn frame_marker(frame: JsonView) -> MarkerView {
    if let Some(provenance) = frame.member("x-ai-ws-provenance"@) {
        MarkerView::Provenance(provenance)
    } else if let Some(round) = frame.member("x-ai-ws-tool-round"@) {
        MarkerView::ToolRound(round)
    } else if frame.member("usage"@) is Some && frame.member("usage"@)->0 is Object {
        MarkerView::Usage(frame.member("usage"@)->0)
    } else if let Some(message) = json::text_of(json::member_of(frame.member("error"@), "message"@)) {
        MarkerView::InStreamError(message)
    } else if json::member_of(delta_of(frame), "tool_calls"@) is Some {
        MarkerView::ClientToolCalls(frame)
    } else if let Some(text) = json::text_of(json::member_of(delta_of(frame), "content"@)) {
        MarkerView::TextDelta(text)
    } else {
        MarkerView::Unknown
    }
}

/// `choices[0].delta` of a chat frame.
pub fn frame_delta(frame: &Json) -> (res: Option<&Json>)
    ensures
        json::opt_view(res) == delta_of(frame@),
{
    get_member(get_element(frame.get("choices"), 0), "delta")
}

/// Tells what kind of frame the sidecar sent.
pub fn classify(frame: &Json) -> (res: Marker)
    ensures
        res@ == frame_marker(frame@),
{
    if let Some(provenance) = frame.get("x-ai-ws-provenance") {
        return Marker::Provenance(provenance.clone());
    }
    if let Some(round) = frame.get("x-ai-ws-tool-round") {
        return Marker::ToolRound(round.clone());
    }
    if let Some(usage) = frame.get("usage") {
        if usage.is_object() {
            return Marker::Usage(usage.clone());
        }
    }
    if let Some(message) = get_str(get_member(frame.get("error"), "message")) {
        return Marker::InStreamError(message.to_owned());
    }
    if get_member(frame_delta(frame), "tool_calls").is_some() {
        return Marker::ClientToolCalls(frame.clone());
    }
    if let Some(text) = get_str(get_member(frame_delta(frame), "content")) {
        return Marker::TextDelta(text.to_owned());
    }
    Marker::Unknown
}

/// What a stream reports for metering.
#[derive(Debug, Clone, Copy, PartialEq, Eq)]
pub struct StreamUsage {
    pub input_tokens: Option<u64>,
    pub output_tokens: Option<u64>,
    pub total_tokens: Option<u64>,
    pub cached_input_tokens: Option<u64>,
    pub reasoning_tokens: Option<u64>,
    /// When the first text of the answer came.
    pub first_token: Option<Moment>,
}

/// `new`, or `old` where there is no new value.
pub open spec fn updated(old_value: Option<u64>, new_value: Option<u64>) -> Option<u64> {
    match new_value {
        Some(n) => Some(n),
        None => old_value,
    }
}

/// The counts after the sidecar reported `reported`: each count that the report holds
/// replaces what was known.
pub open spec fn usage_recorded(usage: StreamUsage, reported: JsonView) -> StreamUsage {
    StreamUsage {
        input_tokens: updated(usage.input_tokens, json::unsigned_of(reported.member("prompt_tokens"@))),
        output_tokens: updated(
            usage.output_tokens,
            json::unsigned_of(reported.member("completion_tokens"@)),
        ),
        total_tokens: updated(usage.total_tokens, json::unsigned_of(reported.member("total_tokens"@))),
        cached_input_tokens: updated(
            usage.cached_input_tokens,
            json::unsigned_of(json::member_of(reported.member("prompt_tokens_details"@), "cached_tokens"@)),
        ),
        reasoning_tokens: updated(
            usage.reasoning_tokens,
            json::unsigned_of(
                json::member_of(reported.member("completion_tokens_details"@), "reasoning_tokens"@),
            ),
        ),
        first_token: usage.first_token,
    }
}

/// Records the token counts of a sidecar's `usage` object.
pub fn record_usage(usage: &mut StreamUsage, reported: &Json)
    ensures
        *final(usage) == usage_recorded(*old(usage), reported@),
{
    let prompt: Option<u64> = get_u64(reported.get("prompt_tokens"));
    let completion: Option<u64> = get_u64(reported.get("completion_tokens"));
    let total: Option<u64> = get_u64(reported.get("total_tokens"));
    let cached: Option<u64> = get_u64(
        get_member(reported.get("prompt_tokens_details"), "cached_tokens"),
    );
    let reasoning: Option<u64> = get_u64(
        get_member(reported.get("completion_tokens_details"), "reasoning_tokens"),
    );
    if let Some(n) = prompt {
        usage.input_tokens = Some(n);
    }
    if let Some(n) = completion {
        usage.output_tokens = Some(n);
    }
    if let Some(n) = total {
        usage.total_tokens = Some(n);
    }
    if let Some(n) = cached {
        usage.cached_input_tokens = Some(n);
    }
    if let Some(n) = reasoning {
        usage.reasoning_tokens = Some(n);
    }
}

/// The tokens that a text of `chars` characters is taken to hold: a quarter, rounded up.
pub open spec fn estimated_tokens(chars: nat) -> nat {
    (chars + 3) / 4
}

/// The counts once the output is estimated from `chars` characters of text: a larger count
/// that is known already stays.
pub open spec fn usage_estimated(usage: StreamUsage, chars: nat) -> StreamUsage {
    let known: u64 = match usage.output_tokens {
        Some(n) => n,
        None => 0,
    };
    StreamUsage {
        output_tokens: Some(
            if known >= estimated_tokens(chars) {
                known
            } else {
                estimated_tokens(chars) as u64
            },
        ),
        ..usage
    }
}

/// Estimates the output tokens from the text, for a stream that reported no usage.
pub fn estimate_usage(usage: &mut StreamUsage, chars: usize)
    ensures
        *final(usage) == usage_estimated(*old(usage), chars as nat),
{
    let quarter: u64 = (chars / 4) as u64;
    let estimate: u64 = if chars % 4 == 0 {
        quarter
    } else {
        quarter + 1
    };
    let known: u64 = match usage.output_tokens {
        Some(n) => n,
        None => 0,
    };
    usage.output_tokens = Some(
        if known >= estimate {
            known
        } else {
            estimate
        },
    );
}

/// The line of one citation. A citation without a number is numbered by its place.
pub open spec fn citation_line(citation: JsonView, index: nat) -> Seq<char> {
    let number: nat = match json::unsigned_of(citation.member("n"@)) {
        Some(n) => n as nat,
        None => index + 1,
    };
    let title: Seq<char> = match json::text_of(citation.member("title"@)) {
        Some(t) => t,
        None => Seq::empty(),
    };
    let url: Seq<char> = match json::text_of(citation.member("url"@)) {
        Some(u) => u,
        None => Seq::empty(),
    };
    "["@ + text::digits(number, 10) + "] "@ + title + " — "@ + url + "\n"@
}

/// The lines of a list of citations.
pub open spec fn citation_lines(citations: Seq<JsonView>) -> Seq<char>
    decreases citations.len(),
{
    if citations.len() == 0 {
        Seq::empty()
    } else {
        citation_lines(citations.drop_last()) + citation_line(
            citations.last(),
            (citations.len() - 1) as nat,
        )
    }
}

/// The list of sources of a provenance marker; empty where it names no citations.
pub open spec fn sources_text(provenance: JsonView) -> Seq<char> {
    match json::items_of(provenance.member("citations"@)) {
        Some(citations) => "\n\nSources:\n"@ + citation_lines(citations),
        None => Seq::empty(),
    }
}

fn citation_entry(citation: &Json, index: usize) -> (res: String)
    requires
        index < usize::MAX,
    ensures
        res@ == citation_line(citation@, index as nat),
{
    let number: u64 = match get_u64(citation.get("n")) {
        Some(n) => n,
        None => (index + 1) as u64,
    };
    let mut line = String::new();
    line.append("[");
    line.append(decimal(number).as_str());
    line.append("] ");
    if let Some(title) = get_str(citation.get("title")) {
        line.append(title);
    }
    line.append(" — ");
    if let Some(url) = get_str(citation.get("url")) {
        line.append(url);
    }
    line.append("\n");
    assert(line@ =~= citation_line(citation@, index as nat));
    line
}

/// Lists the sources that a provenance marker cites, for a reader.
pub fn provenance_sources(provenance: &Json) -> (res: String)
    ensures
        res@ == sources_text(provenance@),
{
    let mut out = String::new();
    let listed = provenance.get("citations");
    if let Some(found) = listed {
        if let Some(citations) = found.as_array() {
            out.append("\n\nSources:\n");
            proof {
                json::lemma_items_view(citations@);
            }
            for i in 0..citations.len()
                invariant
                    json::items_view(citations@).len() == citations@.len(),
                    forall|j: int|
                        0 <= j < citations@.len() ==> #[trigger] json::items_view(citations@)[j]
                            == citations@[j]@,
                    out@ == "\n\nSources:\n"@ + citation_lines(
                        json::items_view(citations@).take(i as int),
                    ),
            {
                let line = citation_entry(&citations[i], i);
                out.append(line.as_str());
                proof {
                    let all = json::items_view(citations@);
                    assert(all.take(i + 1).drop_last() == all.take(i as int));
                }
            }
            assert(json::items_view(citations@).take(citations@.len() as int) == json::items_view(citations@));
        }
    }
    out
}

/// A short id fragment made of a clock reading: its nanoseconds in lower-case hexadecimal.
pub fn short_id(nanos: u128) -> (res: String)
    ensures
        res@ == text::digits(nanos as nat, 16),
{
    lower_hex(nanos)
}

} // verus!
