//! OpenAI Responses (`/v1/responses`) shaping of a web-search stream.
//!
//! Every response begins with its creation. The first text or search round also opens the
//! response's one message item; each text is shown as a delta of that item, and each search round
//! as an annotation. The terminator closes the item and completes the response, with the whole
//! text and the provenance; an error fails it. Nothing comes after a response is completed or
//! failed. Every event carries a sequence number.

use vstd::prelude::*;

use crate::clock::Moment;
use crate::json;
use crate::json::{get_member, get_u64, Json, JsonView};

use super::markers;
use super::markers::{classify, ArrivalView, Marker, MarkerView, SseEvent, SseEventView, StreamUsage};
use super::metering;
use super::metering::{Meter, Metered};

verus! {

/// How far a response has come.
#[derive(Debug, Clone, Copy, PartialEq, Eq, Structural)]
pub enum Status {
    InProgress,
    Completed,
    Failed,
}

/// Where input tokens came from.
#[derive(Debug, Clone, Copy, PartialEq, Eq)]
pub struct InputTokenDetails {
    pub cached_tokens: u32,
    pub cache_write_tokens: Option<u32>,
}

/// What output tokens were used for.
#[derive(Debug, Clone, Copy, PartialEq, Eq)]
pub struct OutputTokenDetails {
    pub reasoning_tokens: u32,
}

/// The token counts of a response.
#[derive(Debug, Clone, Copy, PartialEq, Eq)]
pub struct ResponseUsage {
    pub input_tokens: u32,
    pub output_tokens: u32,
    pub total_tokens: u32,
    pub input_tokens_details: InputTokenDetails,
    pub output_tokens_details: OutputTokenDetails,
}

/// Why a response failed.
pub struct ErrorObject {
    pub code: String,
    pub message: String,
}

/// What an error says.
pub struct ErrorView {
    pub code: Seq<char>,
    pub message: Seq<char>,
}

/// A response as its events show it.
pub struct Response {
    pub id: String,
    pub model: String,
    pub status: Status,
    pub usage: Option<ResponseUsage>,
    pub error: Option<ErrorObject>,
}

/// What a response says.
pub struct ResponseView {
    pub id: Seq<char>,
    pub model: Seq<char>,
    pub status: Status,
    pub usage: Option<ResponseUsage>,
    pub error: Option<ErrorView>,
}

impl View for Response {
    type V = ResponseView;

    open spec fn view(&self) -> ResponseView {
        ResponseView {
            id: self.id@,
            model: self.model@,
            status: self.status,
            usage: self.usage,
            error: match self.error {
                Some(error) => Some(ErrorView { code: error.code@, message: error.message@ }),
                None => None,
            },
        }
    }
}

/// The message item of a response.
pub struct OutputItem {
    pub id: String,
    pub status: Status,
    pub text: String,
}

/// What the message item of a response says.
pub struct OutputItemView {
    pub id: Seq<char>,
    pub status: Status,
    pub text: Seq<char>,
}

impl View for OutputItem {
    type V = OutputItemView;

    open spec fn view(&self) -> OutputItemView {
        OutputItemView { id: self.id@, status: self.status, text: self.text@ }
    }
}

/// What an event of a response stream is about.
///
/// A response has one item at most, and an item one part: both have the index zero.
pub enum ResponseEvent {
    Created { response: Response },
    InProgress { response: Response },
    OutputItemAdded { item: OutputItem },
    ContentPartAdded { item_id: String },
    OutputTextDelta { item_id: String, delta: String },
    /// A search round, as an annotation of the text.
    OutputTextAnnotationAdded { item_id: String, annotation: Json },
    OutputTextDone { item_id: String, text: String },
    ContentPartDone { item_id: String, text: String },
    OutputItemDone { item: OutputItem },
    Completed {
        response: Response,
        /// All text of the answer.
        output_text: String,
        /// The last provenance marker.
        provenance: Option<Json>,
    },
    Failed { response: Response },
}

/// What an event of a response stream says, but for its number.
pub enum ResponseEventView {
    Created { response: ResponseView },
    InProgress { response: ResponseView },
    OutputItemAdded { item: OutputItemView },
    ContentPartAdded { item_id: Seq<char> },
    OutputTextDelta { item_id: Seq<char>, delta: Seq<char> },
    OutputTextAnnotationAdded { item_id: Seq<char>, annotation: JsonView },
    OutputTextDone { item_id: Seq<char>, text: Seq<char> },
    ContentPartDone { item_id: Seq<char>, text: Seq<char> },
    OutputItemDone { item: OutputItemView },
    Completed { response: ResponseView, output_text: Seq<char>, provenance: Option<JsonView> },
    Failed { response: ResponseView },
}

impl View for ResponseEvent {
    type V = ResponseEventView;

    open spec fn view(&self) -> ResponseEventView {
        match *self {
            ResponseEvent::Created { response } => ResponseEventView::Created {
                response: response@,
            },
            ResponseEvent::InProgress { response } => ResponseEventView::InProgress {
                response: response@,
            },
            ResponseEvent::OutputItemAdded { item } => ResponseEventView::OutputItemAdded {
                item: item@,
            },
            ResponseEvent::ContentPartAdded { item_id } => ResponseEventView::ContentPartAdded {
                item_id: item_id@,
            },
            ResponseEvent::OutputTextDelta {
                item_id,
                delta,
            } => ResponseEventView::OutputTextDelta { item_id: item_id@, delta: delta@ },
            ResponseEvent::OutputTextAnnotationAdded {
                item_id,
                annotation,
            } => ResponseEventView::OutputTextAnnotationAdded {
                item_id: item_id@,
                annotation: annotation@,
            },
            ResponseEvent::OutputTextDone {
                item_id,
                text,
            } => ResponseEventView::OutputTextDone { item_id: item_id@, text: text@ },
            ResponseEvent::ContentPartDone {
                item_id,
                text,
            } => ResponseEventView::ContentPartDone { item_id: item_id@, text: text@ },
            ResponseEvent::OutputItemDone { item } => ResponseEventView::OutputItemDone {
                item: item@,
            },
            ResponseEvent::Completed {
                response,
                output_text,
                provenance,
            } => ResponseEventView::Completed {
                response: response@,
                output_text: output_text@,
                provenance: json::owned_view(provenance),
            },
            ResponseEvent::Failed { response } => ResponseEventView::Failed { response: response@ },
        }
    }
}

impl ResponseEventView {
    /// The type that the event goes by on the wire.
    pub open spec fn name(self) -> Seq<char> {
        match self {
            ResponseEventView::Created { .. } => "response.created"@,
            ResponseEventView::InProgress { .. } => "response.in_progress"@,
            ResponseEventView::OutputItemAdded { .. } => "response.output_item.added"@,
            ResponseEventView::ContentPartAdded { .. } => "response.content_part.added"@,
            ResponseEventView::OutputTextDelta { .. } => "response.output_text.delta"@,
            ResponseEventView::OutputTextAnnotationAdded {
                ..
            } => "response.output_text.annotation.added"@,
            ResponseEventView::OutputTextDone { .. } => "response.output_text.done"@,
            ResponseEventView::ContentPartDone { .. } => "response.content_part.done"@,
            ResponseEventView::OutputItemDone { .. } => "response.output_item.done"@,
            ResponseEventView::Completed { .. } => "response.completed"@,
            ResponseEventView::Failed { .. } => "response.failed"@,
        }
    }

    /// Whether the event is the last of its stream.
    pub open spec fn is_terminal(self) -> bool {
        self is Completed || self is Failed
    }
}

impl ResponseEvent {
    /// The type that the event goes by on the wire.
    pub fn wire_name(&self) -> (res: &'static str)
        ensures
            res@ == self@.name(),
    {
        match self {
            ResponseEvent::Created { .. } => "response.created",
            ResponseEvent::InProgress { .. } => "response.in_progress",
            ResponseEvent::OutputItemAdded { .. } => "response.output_item.added",
            ResponseEvent::ContentPartAdded { .. } => "response.content_part.added",
            ResponseEvent::OutputTextDelta { .. } => "response.output_text.delta",
            ResponseEvent::OutputTextAnnotationAdded {
                ..
            } => "response.output_text.annotation.added",
            ResponseEvent::OutputTextDone { .. } => "response.output_text.done",
            ResponseEvent::ContentPartDone { .. } => "response.content_part.done",
            ResponseEvent::OutputItemDone { .. } => "response.output_item.done",
            ResponseEvent::Completed { .. } => "response.completed",
            ResponseEvent::Failed { .. } => "response.failed",
        }
    }
}

/// One event of a response stream, with its number.
pub struct ResponseStreamEvent {
    pub sequence_number: u64,
    pub event: ResponseEvent,
}

/// What a numbered event of a response stream says.
pub struct NumberedEventView {
    pub sequence_number: nat,
    pub event: ResponseEventView,
}

impl View for ResponseStreamEvent {
    type V = NumberedEventView;

    open spec fn view(&self) -> NumberedEventView {
        NumberedEventView { sequence_number: self.sequence_number as nat, event: self.event@ }
    }
}

/// What a list of events says, one by one.
pub open spec fn events_view(events: Seq<ResponseStreamEvent>) -> Seq<NumberedEventView> {
    events.map_values(|e: ResponseStreamEvent| e@)
}

/// A count as a `u32`; what does not fit is cut off.
pub open spec fn narrow(count: u64) -> u32 {
    #[verifier::truncate]
    (count as u32)
}

/// A count that a report may hold, zero where it does not.
pub open spec fn count_or_zero(count: Option<u64>) -> u32 {
    match count {
        Some(n) => narrow(n),
        None => 0,
    }
}

/// The counts of a sidecar's `usage` object in the terms of a response.
pub open spec fn response_usage(reported: JsonView) -> ResponseUsage {
    let input_details = reported.member("prompt_tokens_details"@);
    let output_details = reported.member("completion_tokens_details"@);
    ResponseUsage {
        input_tokens: count_or_zero(json::unsigned_of(reported.member("prompt_tokens"@))),
        output_tokens: count_or_zero(json::unsigned_of(reported.member("completion_tokens"@))),
        total_tokens: count_or_zero(json::unsigned_of(reported.member("total_tokens"@))),
        input_tokens_details: InputTokenDetails {
            cached_tokens: count_or_zero(
                json::unsigned_of(json::member_of(input_details, "cached_tokens"@)),
            ),
            cache_write_tokens: match json::unsigned_of(
                json::member_of(input_details, "cache_write_tokens"@),
            ) {
                Some(n) => Some(narrow(n)),
                None => None,
            },
        },
        output_tokens_details: OutputTokenDetails {
            reasoning_tokens: count_or_zero(
                json::unsigned_of(json::member_of(output_details, "reasoning_tokens"@)),
            ),
        },
    }
}

/// The id of the message item of a response.
pub open spec fn item_id(id: Seq<char>) -> Seq<char> {
    "msg_"@ + id
}

/// How far a response stream has come.
pub struct RespModel {
    /// The sequence number of the last event.
    pub seq: nat,
    /// Whether the response was created and its item opened.
    pub created: bool,
    /// Whether the response was completed or failed.
    pub finished: bool,
    /// The text so far.
    pub text: Seq<char>,
    /// The last counts that the sidecar reported.
    pub usage: Option<ResponseUsage>,
    /// The last provenance marker.
    pub provenance: Option<JsonView>,
}

/// The creation of a response: it is created, and it is in progress.
pub open spec fn creation(id: Seq<char>, model: Seq<char>) -> Seq<ResponseEventView> {
    let response = ResponseView {
        id,
        model,
        status: Status::InProgress,
        usage: None,
        error: None,
    };
    seq![ResponseEventView::Created { response }, ResponseEventView::InProgress { response }]
}

/// The opening of the item of a response, and of its part.
pub open spec fn item_opening(id: Seq<char>) -> Seq<ResponseEventView> {
    seq![
        ResponseEventView::OutputItemAdded {
            item: OutputItemView {
                id: item_id(id),
                status: Status::InProgress,
                text: Seq::empty(),
            },
        },
        ResponseEventView::ContentPartAdded { item_id: item_id(id) },
    ]
}

/// The end of the item of a response, and of its part, with the whole text.
pub open spec fn item_closing(text: Seq<char>, id: Seq<char>) -> Seq<ResponseEventView> {
    seq![
        ResponseEventView::OutputTextDone { item_id: item_id(id), text },
        ResponseEventView::ContentPartDone { item_id: item_id(id), text },
        ResponseEventView::OutputItemDone {
            item: OutputItemView { id: item_id(id), status: Status::Completed, text },
        },
    ]
}

impl RespModel {
    /// What has to be shown before content: the creation and the opening of the item, where they
    /// were not shown yet.
    pub open spec fn before_content(self, id: Seq<char>, model: Seq<char>) -> Seq<
        ResponseEventView,
    > {
        if self.created {
            Seq::empty()
        } else {
            creation(id, model) + item_opening(id)
        }
    }

    /// What has to be shown before the completion: the end of an item that is open, and the
    /// creation where it was not shown yet.
    pub open spec fn before_completion(self, id: Seq<char>, model: Seq<char>) -> Seq<
        ResponseEventView,
    > {
        if self.created {
            item_closing(self.text, id)
        } else {
            creation(id, model)
        }
    }

    /// What has to be shown before a failure: the creation, where it was not shown yet.
    pub open spec fn before_failure(self, id: Seq<char>, model: Seq<char>) -> Seq<
        ResponseEventView,
    > {
        if self.created {
            Seq::empty()
        } else {
            creation(id, model)
        }
    }

    /// The completion of a response.
    pub open spec fn completion(self, id: Seq<char>, model: Seq<char>) -> ResponseEventView {
        ResponseEventView::Completed {
            response: ResponseView {
                id,
                model,
                status: Status::Completed,
                usage: self.usage,
                error: None,
            },
            output_text: self.text,
            provenance: self.provenance,
        }
    }

    /// The failure of a response.
    pub open spec fn failure(
        self,
        message: Seq<char>,
        id: Seq<char>,
        model: Seq<char>,
    ) -> ResponseEventView {
        ResponseEventView::Failed {
            response: ResponseView {
                id,
                model,
                status: Status::Failed,
                usage: self.usage,
                error: Some(ErrorView { code: "internal_server_error"@, message }),
            },
        }
    }

    /// What one sidecar event shows. A response that is completed or failed shows nothing more.
    pub open spec fn shows(self, event: SseEventView, id: Seq<char>, model: Seq<char>) -> Seq<
        ResponseEventView,
    > {
        if self.finished {
            Seq::empty()
        } else {
            match event {
                SseEventView::Done => self.before_completion(id, model).push(
                    self.completion(id, model),
                ),
                SseEventView::Frame(frame) => match markers::frame_marker(frame) {
                    MarkerView::TextDelta(text) => self.before_content(id, model).push(
                        ResponseEventView::OutputTextDelta { item_id: item_id(id), delta: text },
                    ),
                    MarkerView::ToolRound(round) => self.before_content(id, model).push(
                        ResponseEventView::OutputTextAnnotationAdded {
                            item_id: item_id(id),
                            annotation: round,
                        },
                    ),
                    MarkerView::InStreamError(message) => self.before_failure(id, model).push(
                        self.failure(message, id, model),
                    ),
                    _ => Seq::empty(),
                },
                SseEventView::Malformed => Seq::empty(),
            }
        }
    }

    /// How far the stream has come after one sidecar event.
    pub open spec fn after(self, event: SseEventView, id: Seq<char>, model: Seq<char>) -> RespModel {
        let seq = self.seq + self.shows(event, id, model).len();
        if self.finished {
            self
        } else {
            match event {
                SseEventView::Done => RespModel { seq, finished: true, ..self },
                SseEventView::Frame(frame) => match markers::frame_marker(frame) {
                    MarkerView::TextDelta(text) => RespModel {
                        seq,
                        created: true,
                        text: self.text + text,
                        ..self
                    },
                    MarkerView::ToolRound(_) => RespModel { seq, created: true, ..self },
                    MarkerView::Usage(reported) => RespModel {
                        usage: Some(response_usage(reported)),
                        ..self
                    },
                    MarkerView::Provenance(provenance) => RespModel {
                        provenance: Some(provenance),
                        ..self
                    },
                    MarkerView::InStreamError(_) => RespModel { seq, finished: true, ..self },
                    _ => self,
                },
                SseEventView::Malformed => self,
            }
        }
    }

    /// Whether the events of one more sidecar event can still be numbered.
    pub open spec fn has_room(self) -> bool {
        self.seq + 5 <= u64::MAX
    }
}

/// Events with the numbers that follow `seq`.
pub open spec fn numbered(seq: nat, events: Seq<ResponseEventView>) -> Seq<NumberedEventView> {
    Seq::new(
        events.len(),
        |i: int| NumberedEventView { sequence_number: (seq + i + 1) as nat, event: events[i] },
    )
}

/// A response stream together with what it has shown.
#[verifier::ext_equal]
pub struct Emission {
    pub model: RespModel,
    pub events: Seq<NumberedEventView>,
}

impl Emission {
    /// After one sidecar event.
    pub open spec fn event(self, event: SseEventView, id: Seq<char>, model: Seq<char>) -> Emission {
        Emission {
            model: self.model.after(event, id, model),
            events: self.events + numbered(self.model.seq, self.model.shows(event, id, model)),
        }
    }

    /// After a whole stream.
    pub open spec fn events(
        self,
        arrivals: Seq<ArrivalView>,
        id: Seq<char>,
        model: Seq<char>,
    ) -> Emission
        decreases arrivals.len(),
    {
        if arrivals.len() == 0 {
            self
        } else {
            self.events(arrivals.drop_last(), id, model).event(arrivals.last().event, id, model)
        }
    }
}

/// A response stream that has shown nothing.
pub open spec fn nothing_shown() -> Emission {
    Emission {
        model: RespModel {
            seq: 0,
            created: false,
            finished: false,
            text: Seq::empty(),
            usage: None,
            provenance: None,
        },
        events: Seq::empty(),
    }
}

/// The state of a response stream.
pub struct RespState {
    pub seq: u64,
    pub created: bool,
    pub finished: bool,
    pub text_acc: String,
    pub pending_usage: Option<ResponseUsage>,
    pub provenance: Option<Json>,
    pub meter: Meter,
}

impl View for RespState {
    type V = RespModel;

    open spec fn view(&self) -> RespModel {
        RespModel {
            seq: self.seq as nat,
            created: self.created,
            finished: self.finished,
            text: self.text_acc@,
            usage: self.pending_usage,
            provenance: json::owned_view(self.provenance),
        }
    }
}

/// A state and the events shown so far, as an emission.
pub open spec fn shown(st: RespState, out: Seq<ResponseStreamEvent>) -> Emission {
    Emission { model: st@, events: events_view(out) }
}

impl Default for RespState {
    fn default() -> (res: RespState)
        ensures
            res@ == nothing_shown().model,
            res.meter@ == metering::unread(),
    {
        let res = RespState {
            seq: 0,
            created: false,
            finished: false,
            text_acc: String::new(),
            pending_usage: None,
            provenance: None,
            meter: Meter::new(),
        };
        assert(res.text_acc@ =~= Seq::empty());
        res
    }
}

impl RespState {
    /// Whether the events of one more sidecar event can still be numbered.
    pub fn has_room(&self) -> (res: bool)
        ensures
            res == self@.has_room(),
    {
        self.seq <= u64::MAX - 5
    }
}

fn response(
    id: &str,
    model: &str,
    status: Status,
    usage: Option<ResponseUsage>,
    error: Option<ErrorObject>,
) -> (res: Response)
    ensures
        res.id@ == id@,
        res.model@ == model@,
        res.status == status,
        res.usage == usage,
        res.error == error,
{
    Response { id: id.to_owned(), model: model.to_owned(), status, usage, error }
}

fn message_item_id(id: &str) -> (res: String)
    ensures
        res@ == item_id(id@),
{
    let mut out: String = "msg_".to_owned();
    out.append(id);
    out
}

/// From one state to another nothing changed but the events that were shown.
spec fn has_shown(
    st: RespState,
    out: Seq<ResponseStreamEvent>,
    next: RespState,
    next_out: Seq<ResponseStreamEvent>,
    events: Seq<ResponseEventView>,
) -> bool {
    &&& next == (RespState { seq: next.seq, ..st })
    &&& next.seq == st.seq + events.len()
    &&& events_view(next_out) =~= events_view(out) + numbered(st.seq as nat, events)
}

/// Shows one more event.
fn emit(st: &mut RespState, out: &mut Vec<ResponseStreamEvent>, event: ResponseEvent)
    requires
        old(st).seq < u64::MAX,
    ensures
        has_shown(*old(st), old(out)@, *final(st), final(out)@, seq![event@]),
{
    st.seq = st.seq + 1;
    out.push(ResponseStreamEvent { sequence_number: st.seq, event });
}

fn show_creation(st: &mut RespState, out: &mut Vec<ResponseStreamEvent>, id: &str, model: &str)
    requires
        old(st).seq + 2 <= u64::MAX,
    ensures
        has_shown(*old(st), old(out)@, *final(st), final(out)@, creation(id@, model@)),
{
    let begun = response(id, model, Status::InProgress, None, None);
    emit(st, out, ResponseEvent::Created { response: begun });
    let going = response(id, model, Status::InProgress, None, None);
    emit(st, out, ResponseEvent::InProgress { response: going });
}

/// Gets the item ready for content.
fn open_item(st: &mut RespState, out: &mut Vec<ResponseStreamEvent>, id: &str, model: &str)
    requires
        old(st).seq + 4 <= u64::MAX,
    ensures
        has_shown(
            RespState { created: true, ..*old(st) },
            old(out)@,
            *final(st),
            final(out)@,
            old(st)@.before_content(id@, model@),
        ),
{
    if st.created {
        return ;
    }
    show_creation(st, out, id, model);
    let item = OutputItem {
        id: message_item_id(id),
        status: Status::InProgress,
        text: String::new(),
    };
    assert(item.text@ =~= Seq::empty());
    emit(st, out, ResponseEvent::OutputItemAdded { item });
    emit(st, out, ResponseEvent::ContentPartAdded { item_id: message_item_id(id) });
    st.created = true;
}

fn close_item(st: &mut RespState, out: &mut Vec<ResponseStreamEvent>, id: &str)
    requires
        old(st).seq + 3 <= u64::MAX,
    ensures
        has_shown(
            *old(st),
            old(out)@,
            *final(st),
            final(out)@,
            item_closing(old(st).text_acc@, id@),
        ),
{
    let text: String = st.text_acc.clone();
    emit(st, out, ResponseEvent::OutputTextDone { item_id: message_item_id(id), text });
    let text: String = st.text_acc.clone();
    emit(st, out, ResponseEvent::ContentPartDone { item_id: message_item_id(id), text });
    let item = OutputItem {
        id: message_item_id(id),
        status: Status::Completed,
        text: st.text_acc.clone(),
    };
    emit(st, out, ResponseEvent::OutputItemDone { item });
}

fn complete(st: &mut RespState, out: &mut Vec<ResponseStreamEvent>, id: &str, model: &str)
    requires
        old(st).seq + 4 <= u64::MAX,
    ensures
        has_shown(
            RespState { finished: true, ..*old(st) },
            old(out)@,
            *final(st),
            final(out)@,
            old(st)@.before_completion(id@, model@).push(old(st)@.completion(id@, model@)),
        ),
{
    if st.created {
        close_item(st, out, id);
    } else {
        show_creation(st, out, id, model);
    }
    let provenance = match &st.provenance {
        Some(p) => Some(p.clone()),
        None => None,
    };
    let output_text: String = st.text_acc.clone();
    let done = response(id, model, Status::Completed, st.pending_usage, None);
    emit(st, out, ResponseEvent::Completed { response: done, output_text, provenance });
    st.finished = true;
}

fn fail(
    st: &mut RespState,
    out: &mut Vec<ResponseStreamEvent>,
    id: &str,
    model: &str,
    message: String,
)
    requires
        old(st).seq + 3 <= u64::MAX,
    ensures
        has_shown(
            RespState { finished: true, ..*old(st) },
            old(out)@,
            *final(st),
            final(out)@,
            old(st)@.before_failure(id@, model@).push(old(st)@.failure(message@, id@, model@)),
        ),
{
    if !st.created {
        show_creation(st, out, id, model);
    }
    let error = ErrorObject { code: "internal_server_error".to_owned(), message };
    let failed = response(id, model, Status::Failed, st.pending_usage, Some(error));
    emit(st, out, ResponseEvent::Failed { response: failed });
    st.finished = true;
}

fn narrowed(count: Option<u64>) -> (res: u32)
    ensures
        res == count_or_zero(count),
{
    match count {
        Some(n) => #[verifier::truncate]
        (n as u32),
        None => 0,
    }
}

/// The counts of a sidecar's `usage` object in the terms of a response.
pub fn responses_usage(reported: &Json) -> (res: ResponseUsage)
    ensures
        res == response_usage(reported@),
{
    let input_details = reported.get("prompt_tokens_details");
    let output_details = reported.get("completion_tokens_details");
    let cache_write: Option<u32> = match get_u64(get_member(input_details, "cache_write_tokens")) {
        Some(n) => Some(#[verifier::truncate] (n as u32)),
        None => None,
    };
    ResponseUsage {
        input_tokens: narrowed(get_u64(reported.get("prompt_tokens"))),
        output_tokens: narrowed(get_u64(reported.get("completion_tokens"))),
        total_tokens: narrowed(get_u64(reported.get("total_tokens"))),
        input_tokens_details: InputTokenDetails {
            cached_tokens: narrowed(get_u64(get_member(input_details, "cached_tokens"))),
            cache_write_tokens: cache_write,
        },
        output_tokens_details: OutputTokenDetails {
            reasoning_tokens: narrowed(get_u64(get_member(output_details, "reasoning_tokens"))),
        },
    }
}

/// Meters one sidecar event.
fn meter_event(meter: &mut Meter, usage: &mut StreamUsage, event: &SseEvent, now: Moment)
    requires
        old(meter).text_chars + metering::event_chars(event@) <= usize::MAX,
    ensures
        (Metered { meter: final(meter)@, usage: *final(usage) }) == (Metered {
            meter: old(meter)@,
            usage: *old(usage),
        }).step(metering::reading(ArrivalView { at: now, event: event@ })),
{
    match event {
        SseEvent::Done => {
            meter.end(usage);
        },
        SseEvent::Frame(frame) => match classify(frame) {
            Marker::TextDelta(text) => {
                meter.text(usage, text.as_str(), now);
            },
            Marker::Usage(reported) => {
                meter.report(usage, &reported);
            },
            _ => {},
        },
        SseEvent::Malformed => {},
    }
}

/// Shapes one sidecar event for a Responses client and meters it.
pub fn responses_shaper(
    st: &mut RespState,
    usage: &mut StreamUsage,
    event: &SseEvent,
    now: Moment,
    response_id: &str,
    model: &str,
) -> (res: Vec<ResponseStreamEvent>)
    requires
        old(st).meter.text_chars + metering::event_chars(event@) <= usize::MAX,
        old(st)@.has_room(),
    ensures
        shown(*final(st), res@) == (Emission { model: old(st)@, events: Seq::empty() }).event(
            event@,
            response_id@,
            model@,
        ),
        (Metered { meter: final(st).meter@, usage: *final(usage) }) == (Metered {
            meter: old(st).meter@,
            usage: *old(usage),
        }).step(metering::reading(ArrivalView { at: now, event: event@ })),
{
    let mut out: Vec<ResponseStreamEvent> = Vec::new();
    meter_event(&mut st.meter, usage, event, now);
    if st.finished {
        return out;
    }
    match event {
        SseEvent::Done => {
            complete(st, &mut out, response_id, model);
        },
        SseEvent::Frame(frame) => match classify(frame) {
            Marker::TextDelta(text) => {
                open_item(st, &mut out, response_id, model);
                st.text_acc.append(text.as_str());
                let item_id: String = message_item_id(response_id);
                emit(st, &mut out, ResponseEvent::OutputTextDelta { item_id, delta: text });
            },
            Marker::ToolRound(round) => {
                open_item(st, &mut out, response_id, model);
                let item_id: String = message_item_id(response_id);
                emit(
                    st,
                    &mut out,
                    ResponseEvent::OutputTextAnnotationAdded { item_id, annotation: round },
                );
            },
            Marker::Usage(reported) => {
                st.pending_usage = Some(responses_usage(&reported));
            },
            Marker::Provenance(provenance) => {
                st.provenance = Some(provenance);
            },
            Marker::InStreamError(message) => {
                fail(st, &mut out, response_id, model, message);
            },
            _ => {},
        },
        SseEvent::Malformed => {},
    }
    out
}

} // verus!
