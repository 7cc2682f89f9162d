//! Usage reports: what an accounting endpoint is told of a finished request, and how hard the
//! gateway tries to tell it.

use std::time::Duration;

use vstd::prelude::*;

use crate::http::health_prober;
use crate::http::health_prober::is_success;
use crate::json;
use crate::json::{count_json, no_members, Json, JsonView};
use crate::llm::policy::dimensions;
use crate::llm::policy::dimensions::Dimensions;

verus! {

/// The path of a report where none is configured.
pub const DEFAULT_PATH: &'static str = "/usage";

/// The seconds that an attempt may take where nothing is configured.
pub const DEFAULT_TIMEOUT_SECS: u64 = 2;

/// The retries after a failed attempt where nothing is configured.
pub const DEFAULT_MAX_RETRIES: u32 = 2;

/// The most reports on their way at one time where nothing is configured.
pub const DEFAULT_MAX_IN_FLIGHT: usize = 1024;

/// The milliseconds before the first retry.
pub const FIRST_BACKOFF_MILLIS: u128 = 50;

/// The nanoseconds of a span of time.
pub uninterp spec fn duration_nanos(duration: Duration) -> nat;

/// `Duration::from_secs` makes a span of so many whole seconds.
pub assume_specification[ Duration::from_secs ](secs: u64) -> (res: Duration)
    ensures
        duration_nanos(res) == secs * 1_000_000_000,
;

/// How usage is reported.
pub struct UsageReport {
    /// The backend that takes the reports.
    pub target: String,
    /// The path of a report.
    pub path: Option<String>,
    /// How long an attempt may take.
    pub timeout: Option<Duration>,
    /// The retries after a failed attempt.
    pub max_retries: Option<u32>,
    /// Further dimensions of a report: of each a name and an expression.
    pub dimensions: Vec<(String, String)>,
}

impl UsageReport {
    /// The path of a report.
    pub open spec fn report_path(self) -> Seq<char> {
        match self.path {
            Some(path) => path@,
            None => DEFAULT_PATH@,
        }
    }

    /// The retries after a failed attempt.
    pub open spec fn retries(self) -> u32 {
        match self.max_retries {
            Some(n) => n,
            None => DEFAULT_MAX_RETRIES,
        }
    }

    /// How long an attempt may take. Where nothing is configured, two seconds.
    pub fn timeout_or_default(&self) -> (res: Duration)
        ensures
            match self.timeout {
                Some(timeout) => res == timeout,
                None => duration_nanos(res) == DEFAULT_TIMEOUT_SECS * 1_000_000_000,
            },
    {
        match self.timeout {
            Some(timeout) => timeout,
            None => Duration::from_secs(DEFAULT_TIMEOUT_SECS),
        }
    }

    /// The path of a report.
    pub fn path_or_default(&self) -> (res: &str)
        ensures
            res@ == self.report_path(),
    {
        match &self.path {
            Some(path) => path.as_str(),
            None => DEFAULT_PATH,
        }
    }

    /// The retries after a failed attempt.
    pub fn retries_or_default(&self) -> (res: u32)
        ensures
            res == self.retries(),
    {
        match self.max_retries {
            Some(n) => n,
            None => DEFAULT_MAX_RETRIES,
        }
    }
}

/// The token counts of a report. A count that is not known is left out.
#[derive(Debug, Clone, Copy, PartialEq, Eq)]
pub struct UsageCounters {
    pub input_tokens: Option<u64>,
    pub input_text_tokens: Option<u64>,
    pub input_image_tokens: Option<u64>,
    pub input_audio_tokens: Option<u64>,
    pub cached_input_tokens: Option<u64>,
    pub cache_creation_input_tokens: Option<u64>,
    pub output_tokens: Option<u64>,
    pub output_text_tokens: Option<u64>,
    pub output_image_tokens: Option<u64>,
    pub output_audio_tokens: Option<u64>,
    pub reasoning_tokens: Option<u64>,
    pub count_tokens: Option<u64>,
    pub total_tokens: Option<u64>,
}

/// The parts of a cost, as decimal texts: a receiver cannot lose precision on them.
pub struct UsageCost {
    pub input: String,
    pub cache_read: String,
    pub cache_write: String,
    pub output: String,
    pub reasoning: String,
    pub input_audio: String,
    pub output_audio: String,
    pub total: String,
}

/// What the parts of a cost say.
pub struct CostView {
    pub input: Seq<char>,
    pub cache_read: Seq<char>,
    pub cache_write: Seq<char>,
    pub output: Seq<char>,
    pub reasoning: Seq<char>,
    pub input_audio: Seq<char>,
    pub output_audio: Seq<char>,
    pub total: Seq<char>,
}

impl View for UsageCost {
    type V = CostView;

    open spec fn view(&self) -> CostView {
        CostView {
            input: self.input@,
            cache_read: self.cache_read@,
            cache_write: self.cache_write@,
            output: self.output@,
            reasoning: self.reasoning@,
            input_audio: self.input_audio@,
            output_audio: self.output_audio@,
            total: self.total@,
        }
    }
}

/// The cost of a request: its parts and their sum, each written out as a decimal.
pub struct Breakdown {
    pub input: String,
    pub cache_read: String,
    pub cache_write: String,
    pub output: String,
    pub reasoning: String,
    pub input_audio: String,
    pub output_audio: String,
    pub total: String,
}

impl View for Breakdown {
    type V = CostView;

    open spec fn view(&self) -> CostView {
        CostView {
            input: self.input@,
            cache_read: self.cache_read@,
            cache_write: self.cache_write@,
            output: self.output@,
            reasoning: self.reasoning@,
            input_audio: self.input_audio@,
            output_audio: self.output_audio@,
            total: self.total@,
        }
    }
}

/// What an optional text says.
pub open spec fn opt_text(text: Option<String>) -> Option<Seq<char>> {
    match text {
        Some(t) => Some(t@),
        None => None,
    }
}

/// When the text of a report came.
pub struct UsageTiming {
    pub time_to_first_token: Option<String>,
    pub time_per_output_token: Option<String>,
}

/// What is known of a request to a language model, its conversation included.
pub struct LLMContext {
    pub streaming: bool,
    pub request_model: String,
    pub response_model: Option<String>,
    pub provider: String,
    pub input_tokens: Option<u64>,
    pub input_text_tokens: Option<u64>,
    pub input_image_tokens: Option<u64>,
    pub input_audio_tokens: Option<u64>,
    pub cached_input_tokens: Option<u64>,
    pub cache_creation_input_tokens: Option<u64>,
    pub output_tokens: Option<u64>,
    pub output_text_tokens: Option<u64>,
    pub output_image_tokens: Option<u64>,
    pub output_audio_tokens: Option<u64>,
    pub reasoning_tokens: Option<u64>,
    pub total_tokens: Option<u64>,
    pub count_tokens: Option<u64>,
    pub service_tier: Option<String>,
    /// The time to the first token, written out as in the access log.
    pub time_to_first_token: Option<String>,
    /// The time per token of the answer, written out as in the access log.
    pub time_per_output_token: Option<String>,
    pub cost: Option<Breakdown>,
    /// The messages of the conversation.
    pub prompt: Option<Vec<String>>,
    /// What the model answered.
    pub completion: Option<Vec<String>>,
    /// The tools that the model called.
    pub tool_calls: Option<Vec<String>>,
}

/// A report on a finished request. It holds counts, costs and times; the conversation has no
/// place in it.
pub struct UsageReportPayload {
    pub traceparent: Option<String>,
    pub provider: String,
    pub request_model: String,
    pub response_model: Option<String>,
    pub streaming: bool,
    pub service_tier: Option<String>,
    pub usage: UsageCounters,
    pub cost: Option<UsageCost>,
    pub timing: UsageTiming,
    /// Further dimensions.
    pub dimensions: Dimensions,
}

/// What a report says.
pub struct ReportView {
    pub traceparent: Option<Seq<char>>,
    pub provider: Seq<char>,
    pub request_model: Seq<char>,
    pub response_model: Option<Seq<char>>,
    pub streaming: bool,
    pub service_tier: Option<Seq<char>>,
    pub usage: UsageCounters,
    pub cost: Option<CostView>,
    pub time_to_first_token: Option<Seq<char>>,
    pub time_per_output_token: Option<Seq<char>>,
    pub dimensions: Map<Seq<char>, Seq<char>>,
}

impl View for UsageReportPayload {
    type V = ReportView;

    open spec fn view(&self) -> ReportView {
        ReportView {
            traceparent: opt_text(self.traceparent),
            provider: self.provider@,
            request_model: self.request_model@,
            response_model: opt_text(self.response_model),
            streaming: self.streaming,
            service_tier: opt_text(self.service_tier),
            usage: self.usage,
            cost: match self.cost {
                Some(cost) => Some(cost@),
                None => None,
            },
            time_to_first_token: opt_text(self.timing.time_to_first_token),
            time_per_output_token: opt_text(self.timing.time_per_output_token),
            dimensions: self.dimensions@,
        }
    }
}

/// Whether a byte is ASCII that can be seen, or the tab.
pub open spec fn is_visible(byte: u8) -> bool {
    32 <= byte < 127 || byte == 9
}

/// The text of a header value: its bytes as ASCII, where all of them can be seen.
pub open spec fn header_text(value: Seq<u8>) -> Option<Seq<char>> {
    if forall|i: int| 0 <= i < value.len() ==> is_visible(#[trigger] value[i]) {
        Some(value.map_values(|b: u8| b as char))
    } else {
        None
    }
}

/// What an optional header value says as a text.
pub open spec fn opt_header_text(value: Option<&[u8]>) -> Option<Seq<char>> {
    match value {
        Some(bytes) => header_text(bytes@),
        None => None,
    }
}

/// `http::HeaderValue::from_bytes` takes every byte that can be seen, and `to_str` gives the
/// text of a value whose bytes are all visible ASCII or the tab; of any other value there is no
/// text.
#[verifier::external_body]
fn header_value_text(value: &[u8]) -> (res: Option<String>)
    ensures
        opt_text(res) == header_text(value@),
{
    match ::http::HeaderValue::from_bytes(value) {
        Ok(header) => header.to_str().ok().map(str::to_owned),
        Err(_) => None,
    }
}

/// The report on a request.
pub open spec fn report_of(
    ctx: LLMContext,
    traceparent: Option<Seq<char>>,
    dimensions: Map<Seq<char>, Seq<char>>,
) -> ReportView {
    ReportView {
        traceparent,
        provider: ctx.provider@,
        request_model: ctx.request_model@,
        response_model: opt_text(ctx.response_model),
        streaming: ctx.streaming,
        service_tier: opt_text(ctx.service_tier),
        usage: UsageCounters {
            input_tokens: ctx.input_tokens,
            input_text_tokens: ctx.input_text_tokens,
            input_image_tokens: ctx.input_image_tokens,
            input_audio_tokens: ctx.input_audio_tokens,
            cached_input_tokens: ctx.cached_input_tokens,
            cache_creation_input_tokens: ctx.cache_creation_input_tokens,
            output_tokens: ctx.output_tokens,
            output_text_tokens: ctx.output_text_tokens,
            output_image_tokens: ctx.output_image_tokens,
            output_audio_tokens: ctx.output_audio_tokens,
            reasoning_tokens: ctx.reasoning_tokens,
            count_tokens: ctx.count_tokens,
            total_tokens: ctx.total_tokens,
        },
        cost: match ctx.cost {
            Some(cost) => Some(cost@),
            None => None,
        },
        time_to_first_token: opt_text(ctx.time_to_first_token),
        time_per_output_token: opt_text(ctx.time_per_output_token),
        dimensions,
    }
}

fn copied(text: &Option<String>) -> (res: Option<String>)
    ensures
        opt_text(res) == opt_text(*text),
{
    match text {
        Some(t) => Some(t.clone()),
        None => None,
    }
}

impl UsageReportPayload {
    /// Makes the report on a request. Nothing of the conversation goes into it.
    pub fn project(
        ctx: &LLMContext,
        traceparent: Option<&[u8]>,
        dimensions: Dimensions,
    ) -> (res: UsageReportPayload)
        ensures
            res@ == report_of(*ctx, opt_header_text(traceparent), dimensions@),
    {
        let traceparent = match traceparent {
            Some(value) => header_value_text(value),
            None => None,
        };
        let cost = match &ctx.cost {
            Some(cost) => Some(
                UsageCost {
                    input: cost.input.clone(),
                    cache_read: cost.cache_read.clone(),
                    cache_write: cost.cache_write.clone(),
                    output: cost.output.clone(),
                    reasoning: cost.reasoning.clone(),
                    input_audio: cost.input_audio.clone(),
                    output_audio: cost.output_audio.clone(),
                    total: cost.total.clone(),
                },
            ),
            None => None,
        };
        UsageReportPayload {
            traceparent,
            provider: ctx.provider.clone(),
            request_model: ctx.request_model.clone(),
            response_model: copied(&ctx.response_model),
            streaming: ctx.streaming,
            service_tier: copied(&ctx.service_tier),
            usage: UsageCounters {
                input_tokens: ctx.input_tokens,
                input_text_tokens: ctx.input_text_tokens,
                input_image_tokens: ctx.input_image_tokens,
                input_audio_tokens: ctx.input_audio_tokens,
                cached_input_tokens: ctx.cached_input_tokens,
                cache_creation_input_tokens: ctx.cache_creation_input_tokens,
                output_tokens: ctx.output_tokens,
                output_text_tokens: ctx.output_text_tokens,
                output_image_tokens: ctx.output_image_tokens,
                output_audio_tokens: ctx.output_audio_tokens,
                reasoning_tokens: ctx.reasoning_tokens,
                count_tokens: ctx.count_tokens,
                total_tokens: ctx.total_tokens,
            },
            cost,
            timing: UsageTiming {
                time_to_first_token: copied(&ctx.time_to_first_token),
                time_per_output_token: copied(&ctx.time_per_output_token),
            },
            dimensions,
        }
    }
}

/// The document of an optional text.
pub open spec fn text_document(text: Option<Seq<char>>) -> Option<JsonView> {
    match text {
        Some(t) => Some(JsonView::Text(t)),
        None => None,
    }
}

/// The document of token counts. A count that is not known is left out.
pub open spec fn counters_document(usage: UsageCounters) -> JsonView {
    json::empty_object().with_optional(
        "inputTokens"@,
        json::count_document(usage.input_tokens),
    ).with_optional("inputTextTokens"@, json::count_document(usage.input_text_tokens)).with_optional(
        "inputImageTokens"@,
        json::count_document(usage.input_image_tokens),
    ).with_optional("inputAudioTokens"@, json::count_document(usage.input_audio_tokens)).with_optional(
        "cachedInputTokens"@,
        json::count_document(usage.cached_input_tokens),
    ).with_optional(
        "cacheCreationInputTokens"@,
        json::count_document(usage.cache_creation_input_tokens),
    ).with_optional("outputTokens"@, json::count_document(usage.output_tokens)).with_optional(
        "outputTextTokens"@,
        json::count_document(usage.output_text_tokens),
    ).with_optional("outputImageTokens"@, json::count_document(usage.output_image_tokens)).with_optional(
        "outputAudioTokens"@,
        json::count_document(usage.output_audio_tokens),
    ).with_optional("reasoningTokens"@, json::count_document(usage.reasoning_tokens)).with_optional(
        "countTokens"@,
        json::count_document(usage.count_tokens),
    ).with_optional("totalTokens"@, json::count_document(usage.total_tokens))
}

/// The document of a cost: all parts are texts.
pub open spec fn cost_document(cost: CostView) -> JsonView {
    json::empty_object().with_member("input"@, JsonView::Text(cost.input)).with_member(
        "cacheRead"@,
        JsonView::Text(cost.cache_read),
    ).with_member("cacheWrite"@, JsonView::Text(cost.cache_write)).with_member(
        "output"@,
        JsonView::Text(cost.output),
    ).with_member("reasoning"@, JsonView::Text(cost.reasoning)).with_member(
        "inputAudio"@,
        JsonView::Text(cost.input_audio),
    ).with_member("outputAudio"@, JsonView::Text(cost.output_audio)).with_member(
        "total"@,
        JsonView::Text(cost.total),
    )
}

/// The document of times.
pub open spec fn timing_document(first: Option<Seq<char>>, each: Option<Seq<char>>) -> JsonView {
    json::empty_object().with_optional("timeToFirstToken"@, text_document(first)).with_optional(
        "timePerOutputToken"@,
        text_document(each),
    )
}

/// The document of a report, as it goes to the receiver. What is not known is left out.
pub open spec fn report_document(report: ReportView) -> JsonView {
    json::empty_object().with_optional(
        "traceparent"@,
        text_document(report.traceparent),
    ).with_member("provider"@, JsonView::Text(report.provider)).with_member(
        "requestModel"@,
        JsonView::Text(report.request_model),
    ).with_optional("responseModel"@, text_document(report.response_model)).with_member(
        "streaming"@,
        JsonView::Bool(report.streaming),
    ).with_optional("serviceTier"@, text_document(report.service_tier)).with_member(
        "usage"@,
        counters_document(report.usage),
    ).with_optional(
        "cost"@,
        match report.cost {
            Some(cost) => Some(cost_document(cost)),
            None => None,
        },
    ).with_member(
        "timing"@,
        timing_document(report.time_to_first_token, report.time_per_output_token),
    ).with_optional(
        "dimensions"@,
        if report.dimensions == Map::<Seq<char>, Seq<char>>::empty() {
            None
        } else {
            Some(dimensions::dimensions_document(report.dimensions))
        },
    )
}

fn text_json(text: &Option<String>) -> (res: Option<Json>)
    ensures
        json::owned_view(res) == text_document(opt_text(*text)),
{
    match text {
        Some(t) => Some(Json::Text(t.clone())),
        None => None,
    }
}

fn counters_json(usage: &UsageCounters) -> (res: Json)
    ensures
        res@ == counters_document(*usage),
{
    let mut doc = no_members();
    doc.set_optional("inputTokens", count_json(usage.input_tokens));
    doc.set_optional("inputTextTokens", count_json(usage.input_text_tokens));
    doc.set_optional("inputImageTokens", count_json(usage.input_image_tokens));
    doc.set_optional("inputAudioTokens", count_json(usage.input_audio_tokens));
    doc.set_optional("cachedInputTokens", count_json(usage.cached_input_tokens));
    doc.set_optional("cacheCreationInputTokens", count_json(usage.cache_creation_input_tokens));
    doc.set_optional("outputTokens", count_json(usage.output_tokens));
    doc.set_optional("outputTextTokens", count_json(usage.output_text_tokens));
    doc.set_optional("outputImageTokens", count_json(usage.output_image_tokens));
    doc.set_optional("outputAudioTokens", count_json(usage.output_audio_tokens));
    doc.set_optional("reasoningTokens", count_json(usage.reasoning_tokens));
    doc.set_optional("countTokens", count_json(usage.count_tokens));
    doc.set_optional("totalTokens", count_json(usage.total_tokens));
    doc
}

fn cost_json(cost: &UsageCost) -> (res: Json)
    ensures
        res@ == cost_document(cost@),
{
    let mut doc = no_members();
    doc.set("input", Json::Text(cost.input.clone()));
    doc.set("cacheRead", Json::Text(cost.cache_read.clone()));
    doc.set("cacheWrite", Json::Text(cost.cache_write.clone()));
    doc.set("output", Json::Text(cost.output.clone()));
    doc.set("reasoning", Json::Text(cost.reasoning.clone()));
    doc.set("inputAudio", Json::Text(cost.input_audio.clone()));
    doc.set("outputAudio", Json::Text(cost.output_audio.clone()));
    doc.set("total", Json::Text(cost.total.clone()));
    doc
}

impl UsageReportPayload {
    /// The report as a document.
    pub fn document(&self) -> (res: Json)
        ensures
            res@ == report_document(self@),
    {
        let mut doc = no_members();
        doc.set_optional("traceparent", text_json(&self.traceparent));
        doc.set("provider", Json::Text(self.provider.clone()));
        doc.set("requestModel", Json::Text(self.request_model.clone()));
        doc.set_optional("responseModel", text_json(&self.response_model));
        doc.set("streaming", Json::Bool(self.streaming));
        doc.set_optional("serviceTier", text_json(&self.service_tier));
        doc.set("usage", counters_json(&self.usage));
        let cost = match &self.cost {
            Some(cost) => Some(cost_json(cost)),
            None => None,
        };
        doc.set_optional("cost", cost);
        let mut timing = no_members();
        timing.set_optional("timeToFirstToken", text_json(&self.timing.time_to_first_token));
        timing.set_optional("timePerOutputToken", text_json(&self.timing.time_per_output_token));
        doc.set("timing", timing);
        let dimensions = if self.dimensions.is_empty() {
            None
        } else {
            Some(self.dimensions.document())
        };
        doc.set_optional("dimensions", dimensions);
        doc
    }

    /// The body of a report.
    pub fn body(&self) -> (res: String)
        ensures
            res@ == json::json_text(report_document(self@)),
    {
        self.document().encode()
    }
}

/// The request that carries a report: a POST of JSON.
pub struct ReportRequest {
    pub path: String,
    pub content_type: &'static str,
    pub body: String,
}

impl UsageReport {
    /// The request that carries a report.
    pub fn request(&self, payload: &UsageReportPayload) -> (res: ReportRequest)
        ensures
            res.path@ == self.report_path(),
            res.content_type@ == "application/json"@,
            res.body@ == json::json_text(report_document(payload@)),
    {
        ReportRequest {
            path: self.path_or_default().to_owned(),
            content_type: "application/json",
            body: payload.body(),
        }
    }
}

/// The same request with another conversation.
pub open spec fn with_conversation(
    ctx: LLMContext,
    prompt: Option<Vec<String>>,
    completion: Option<Vec<String>>,
    tool_calls: Option<Vec<String>>,
) -> LLMContext {
    LLMContext { prompt, completion, tool_calls, ..ctx }
}

/// A report tells nothing of the conversation: it is the same whatever was asked, answered and
/// called.
pub proof fn law_report_hides_the_conversation(
    ctx: LLMContext,
    traceparent: Option<Seq<char>>,
    dimensions: Map<Seq<char>, Seq<char>>,
    prompt: Option<Vec<String>>,
    completion: Option<Vec<String>>,
    tool_calls: Option<Vec<String>>,
)
    ensures
        report_of(
            with_conversation(ctx, prompt, completion, tool_calls),
            traceparent,
            dimensions,
        ) == report_of(ctx, traceparent, dimensions),
{
}

/// The conversation has no place in the body of a report: none of its members holds a prompt, a
/// completion or tool calls.
pub proof fn law_report_has_no_conversation_members(report: ReportView)
    ensures
        report_document(report).member("prompt"@) is None,
        report_document(report).member("completion"@) is None,
        report_document(report).member("toolCalls"@) is None,
{
    reveal_strlit("prompt");
    reveal_strlit("completion");
    reveal_strlit("toolCalls");
    reveal_strlit("traceparent");
    reveal_strlit("provider");
    reveal_strlit("requestModel");
    reveal_strlit("responseModel");
    reveal_strlit("streaming");
    reveal_strlit("serviceTier");
    reveal_strlit("usage");
    reveal_strlit("cost");
    reveal_strlit("timing");
    reveal_strlit("dimensions");
    assert("prompt"@.len() != "traceparent"@.len()
        && "prompt"@.len() != "provider"@.len()
        && "prompt"@.len() != "requestModel"@.len()
        && "prompt"@.len() != "responseModel"@.len()
        && "prompt"@.len() != "streaming"@.len()
        && "prompt"@.len() != "serviceTier"@.len()
        && "prompt"@.len() != "usage"@.len()
        && "prompt"@.len() != "cost"@.len()
        && "prompt"@[0] != "timing"@[0]
        && "prompt"@.len() != "dimensions"@.len());
    assert("completion"@.len() != "traceparent"@.len()
        && "completion"@.len() != "provider"@.len()
        && "completion"@.len() != "requestModel"@.len()
        && "completion"@.len() != "responseModel"@.len()
        && "completion"@.len() != "streaming"@.len()
        && "completion"@.len() != "serviceTier"@.len()
        && "completion"@.len() != "usage"@.len()
        && "completion"@.len() != "cost"@.len()
        && "completion"@.len() != "timing"@.len()
        && "completion"@[0] != "dimensions"@[0]);
    assert("toolCalls"@.len() != "traceparent"@.len()
        && "toolCalls"@.len() != "provider"@.len()
        && "toolCalls"@.len() != "requestModel"@.len()
        && "toolCalls"@.len() != "responseModel"@.len()
        && "toolCalls"@[0] != "streaming"@[0]
        && "toolCalls"@.len() != "serviceTier"@.len()
        && "toolCalls"@.len() != "usage"@.len()
        && "toolCalls"@.len() != "cost"@.len()
        && "toolCalls"@.len() != "timing"@.len()
        && "toolCalls"@.len() != "dimensions"@.len());
}

/// How an attempt to deliver a report went.
#[derive(Debug, Clone, Copy, PartialEq, Eq, Structural)]
pub enum AttemptOutcome {
    /// It was answered with this status code.
    Status(u16),
    /// It was not answered.
    Failed,
}

/// What follows an attempt.
#[derive(Debug, Clone, Copy, PartialEq, Eq, Structural)]
pub enum NextStep {
    /// The report is delivered.
    Delivered,
    /// Another attempt follows after so many milliseconds.
    RetryAfter { millis: u128 },
    /// The report is given up; the usage stays unbilled.
    Dropped,
}

/// The most milliseconds that a `Duration` can hold.
pub const MAX_BACKOFF_MILLIS: u128 = 18_446_744_073_709_551_615_999;

/// The delivery of one report.
#[derive(Debug, Clone, Copy, PartialEq, Eq)]
pub struct Delivery {
    /// The most attempts.
    pub attempts: u32,
    /// The attempts that failed.
    pub failed: u32,
    /// The milliseconds before the next retry.
    pub backoff_millis: u128,
}

/// Whether an attempt delivered its report.
pub open spec fn delivers(outcome: AttemptOutcome) -> bool {
    match outcome {
        AttemptOutcome::Status(code) => health_prober::is_success_code(code),
        AttemptOutcome::Failed => false,
    }
}

/// The milliseconds before a retry: the time doubles from one to the next.
pub open spec fn backoff(retry: nat) -> nat
    decreases retry,
{
    if retry == 0 {
        FIRST_BACKOFF_MILLIS as nat
    } else {
        2 * backoff((retry - 1) as nat)
    }
}

impl Delivery {
    /// The time before the next retry is the one of its turn.
    pub open spec fn well_formed(self) -> bool {
        &&& self.failed < self.attempts
        &&& self.backoff_millis == backoff(self.failed as nat)
    }

    /// What follows an attempt of this outcome.
    pub open spec fn next(self, outcome: AttemptOutcome) -> NextStep {
        if delivers(outcome) {
            NextStep::Delivered
        } else if self.failed + 1 < self.attempts {
            NextStep::RetryAfter { millis: self.backoff_millis }
        } else {
            NextStep::Dropped
        }
    }

    /// The delivery of a report of which no attempt was made yet.
    pub open spec fn begun(retries: u32) -> Delivery {
        Delivery {
            attempts: if retries < u32::MAX {
                (retries + 1) as u32
            } else {
                u32::MAX
            },
            failed: 0,
            backoff_millis: FIRST_BACKOFF_MILLIS,
        }
    }

    /// The delivery after an attempt of this outcome.
    pub open spec fn after(self, outcome: AttemptOutcome) -> Delivery {
        if self.next(outcome) is RetryAfter {
            Delivery {
                attempts: self.attempts,
                failed: (self.failed + 1) as u32,
                backoff_millis: (self.backoff_millis * 2) as u128,
            }
        } else {
            self
        }
    }

    /// Starts the delivery of a report.
    pub fn new(cfg: &UsageReport) -> (res: Delivery)
        ensures
            res.attempts == (if cfg.retries() < u32::MAX {
                cfg.retries() + 1
            } else {
                u32::MAX as int
            }),
            res.failed == 0,
            res.well_formed(),
            res == Delivery::begun(cfg.retries()),
    {
        Delivery {
            attempts: cfg.retries_or_default().saturating_add(1),
            failed: 0,
            backoff_millis: FIRST_BACKOFF_MILLIS,
        }
    }

    /// Whether the time before a retry after this one can still be held.
    pub open spec fn room_for(self, outcome: AttemptOutcome) -> bool {
        self.next(outcome) is RetryAfter ==> self.backoff_millis * 2 <= MAX_BACKOFF_MILLIS
    }

    /// Whether the time before a retry after this one can still be held.
    pub fn has_room_for(&self, outcome: AttemptOutcome) -> (res: bool)
        requires
            self.well_formed(),
        ensures
            res == self.room_for(outcome),
    {
        let delivered = match outcome {
            AttemptOutcome::Status(code) => is_success(code),
            AttemptOutcome::Failed => false,
        };
        delivered || self.attempts - self.failed <= 1 || self.backoff_millis <= MAX_BACKOFF_MILLIS / 2
    }

    /// Takes the outcome of an attempt and tells what follows.
    pub fn after_attempt(&mut self, outcome: AttemptOutcome) -> (res: NextStep)
        requires
            old(self).well_formed(),
            old(self).room_for(outcome),
        ensures
            res == old(self).next(outcome),
            *final(self) == (if res is RetryAfter {
                Delivery {
                    attempts: old(self).attempts,
                    failed: (old(self).failed + 1) as u32,
                    backoff_millis: (old(self).backoff_millis * 2) as u128,
                }
            } else {
                *old(self)
            }),
            *final(self) == old(self).after(outcome),
            final(self).well_formed(),
    {
        let delivered = match outcome {
            AttemptOutcome::Status(code) => is_success(code),
            AttemptOutcome::Failed => false,
        };
        if delivered {
            return NextStep::Delivered;
        }
        if self.attempts - self.failed > 1 {
            let millis: u128 = self.backoff_millis;
            self.failed = self.failed + 1;
            self.backoff_millis = millis * 2;
            NextStep::RetryAfter { millis }
        } else {
            NextStep::Dropped
        }
    }
}

/// What comes of a list of attempts, of which those after the last step are never made: `None`
/// while the report is still on its way.
pub open spec fn verdict(attempts: nat, outcomes: Seq<AttemptOutcome>) -> Option<NextStep>
    decreases outcomes.len(),
{
    if outcomes.len() == 0 {
        None
    } else {
        match verdict(attempts, outcomes.drop_last()) {
            Some(step) => Some(step),
            None => if delivers(outcomes.last()) {
                Some(NextStep::Delivered)
            } else if outcomes.len() < attempts {
                None
            } else {
                Some(NextStep::Dropped)
            },
        }
    }
}

/// A report is given up exactly where as many attempts as are allowed, one and the retries, all
/// failed; it is delivered exactly where one of them succeeded.
pub proof fn law_dropped_only_after_all_attempts(attempts: nat, outcomes: Seq<AttemptOutcome>)
    requires
        attempts > 0,
    ensures
        verdict(attempts, outcomes) == Some(NextStep::Dropped) <==> outcomes.len() >= attempts
            && forall|i: int| 0 <= i < attempts ==> !delivers(#[trigger] outcomes[i]),
        verdict(attempts, outcomes) == Some(NextStep::Delivered) <==> exists|i: int|
            0 <= i < attempts && i < outcomes.len() && delivers(#[trigger] outcomes[i]),
        verdict(attempts, outcomes) is None <==> outcomes.len() < attempts && forall|i: int|
            0 <= i < outcomes.len() ==> !delivers(#[trigger] outcomes[i]),
    decreases outcomes.len(),
{
    if outcomes.len() > 0 {
        let shorter = outcomes.drop_last();
        let n = outcomes.len() - 1;
        law_dropped_only_after_all_attempts(attempts, shorter);
        assert forall|i: int| 0 <= i < n implies shorter[i] == #[trigger] outcomes[i] by {}
        if verdict(attempts, shorter) == Some(NextStep::Delivered) {
            let i = choose|i: int|
                0 <= i < attempts && i < shorter.len() && delivers(#[trigger] shorter[i]);
            assert(delivers(outcomes[i]));
        } else if verdict(attempts, shorter) == Some(NextStep::Dropped) {
            assert forall|i: int| 0 <= i < attempts implies !delivers(#[trigger] outcomes[i]) by {
                assert(!delivers(shorter[i]));
            }
        } else {
            assert forall|i: int| 0 <= i < n implies !delivers(#[trigger] outcomes[i]) by {
                assert(!delivers(shorter[i]));
            }
            if delivers(outcomes[n]) {
                assert(0 <= n < attempts && n < outcomes.len() && delivers(outcomes[n]));
            }
        }
    }
}

/// The step that a delivery takes after `failed` failed attempts is the verdict on them and the
/// next one.
pub proof fn law_steps_follow_the_verdict(
    delivery: Delivery,
    outcomes: Seq<AttemptOutcome>,
    outcome: AttemptOutcome,
)
    requires
        delivery.well_formed(),
        outcomes.len() == delivery.failed,
        verdict(delivery.attempts as nat, outcomes) is None,
    ensures
        delivery.next(outcome) is RetryAfter <==> verdict(
            delivery.attempts as nat,
            outcomes.push(outcome),
        ) is None,
        !(delivery.next(outcome) is RetryAfter) ==> verdict(
            delivery.attempts as nat,
            outcomes.push(outcome),
        ) == Some(delivery.next(outcome)),
{
    assert(outcomes.push(outcome).drop_last() == outcomes);
}

/// The time between attempts doubles.
pub proof fn law_backoff_doubles(retry: nat)
    ensures
        backoff(0) == 50,
        backoff(retry + 1) == 2 * backoff(retry),
{
}

/// A counting semaphore.
#[verifier::external_type_specification]
#[verifier::external_body]
pub struct ExSemaphore(tokio::sync::Semaphore);

/// The permits that an open semaphore has left; nothing for a closed one.
pub uninterp spec fn permits_left(semaphore: tokio::sync::Semaphore) -> Option<nat>;

/// `Semaphore::new` makes an open semaphore of so many permits. It takes no more than an eighth
/// of what a `usize` can count.
#[verifier::external_body]
fn new_semaphore(permits: usize) -> (res: tokio::sync::Semaphore)
    requires
        permits <= usize::MAX / 8,
    ensures
        permits_left(res) == Some(permits as nat),
{
    tokio::sync::Semaphore::new(permits)
}

/// `Semaphore::try_acquire` takes a permit where one is left, without waiting; `forget` keeps it
/// from being given back on its own.
#[verifier::external_body]
fn take_permit(semaphore: &mut tokio::sync::Semaphore) -> (res: bool)
    requires
        permits_left(*old(semaphore)) is Some,
    ensures
        res == (permits_left(*old(semaphore))->0 > 0),
        permits_left(*final(semaphore)) == (if res {
            Some((permits_left(*old(semaphore))->0 - 1) as nat)
        } else {
            permits_left(*old(semaphore))
        }),
{
    match semaphore.try_acquire() {
        Ok(permit) => {
            permit.forget();
            true
        },
        Err(_) => false,
    }
}

/// `Semaphore::add_permits` gives a permit back. It takes no more than an eighth of what a
/// `usize` can count.
#[verifier::external_body]
fn give_permit(semaphore: &mut tokio::sync::Semaphore)
    requires
        permits_left(*old(semaphore)) is Some,
        permits_left(*old(semaphore))->0 < usize::MAX / 8,
    ensures
        permits_left(*final(semaphore)) == Some(permits_left(*old(semaphore))->0 + 1),
{
    semaphore.add_permits(1);
}

/// Keeps the reports on their way below a cap, so that a slow receiver cannot pile them up.
pub struct InFlightLimiter {
    max: usize,
    permits: tokio::sync::Semaphore,
}

/// The place of a report on its way.
pub struct InFlightPermit {
    _taken: (),
}

/// What a limiter says.
pub struct LimiterView {
    /// The most reports on their way.
    pub max: nat,
    /// The reports on their way.
    pub in_flight: nat,
}

impl View for InFlightLimiter {
    type V = LimiterView;

    closed spec fn view(&self) -> LimiterView {
        LimiterView {
            max: self.max as nat,
            in_flight: (self.max - permits_left(self.permits)->0) as nat,
        }
    }
}

impl InFlightLimiter {
    /// No more reports are on their way than the cap allows.
    pub closed spec fn well_formed(self) -> bool {
        &&& self.max <= usize::MAX / 8
        &&& permits_left(self.permits) is Some
        &&& permits_left(self.permits)->0 <= self.max
    }

    /// A limiter of this cap.
    pub fn new(max: usize) -> (res: InFlightLimiter)
        requires
            max <= usize::MAX / 8,
        ensures
            res.well_formed(),
            res@ == (LimiterView { max: max as nat, in_flight: 0 }),
    {
        InFlightLimiter { max, permits: new_semaphore(max) }
    }

    /// Lets a report on its way, where the cap allows it. It never waits: a report that is not
    /// let on its way is dropped.
    pub fn try_acquire(&mut self) -> (res: Option<InFlightPermit>)
        requires
            old(self).well_formed(),
        ensures
            final(self).well_formed(),
            res is Some <==> old(self)@.in_flight < old(self)@.max,
            final(self)@ == (LimiterView {
                max: old(self)@.max,
                in_flight: old(self)@.in_flight + if res is Some {
                    1nat
                } else {
                    0
                },
            }),
    {
        if take_permit(&mut self.permits) {
            Some(InFlightPermit { _taken: () })
        } else {
            None
        }
    }

    /// Notes that a report is no longer on its way, and gives its place free.
    pub fn release(&mut self, permit: InFlightPermit)
        requires
            old(self).well_formed(),
            old(self)@.in_flight > 0,
        ensures
            final(self).well_formed(),
            final(self)@ == (LimiterView {
                max: old(self)@.max,
                in_flight: (old(self)@.in_flight - 1) as nat,
            }),
    {
        give_permit(&mut self.permits);
    }
}

impl Default for InFlightLimiter {
    fn default() -> (res: InFlightLimiter)
        ensures
            res.well_formed(),
            res@ == (LimiterView { max: DEFAULT_MAX_IN_FLIGHT as nat, in_flight: 0 }),
    {
        InFlightLimiter::new(DEFAULT_MAX_IN_FLIGHT)
    }
}

/// No more reports are ever on their way than the cap allows.
pub proof fn law_in_flight_stays_below_the_cap(limiter: InFlightLimiter)
    requires
        limiter.well_formed(),
    ensures
        limiter@.in_flight <= limiter@.max,
{
}

} // verus!
