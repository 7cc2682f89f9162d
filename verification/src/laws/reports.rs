//! What a usage report promises.

use vstd::prelude::*;

use crate::json;
use crate::json::JsonView;
use crate::llm::policy::dimensions;
use crate::llm::policy::usage_report;
use crate::llm::policy::usage_report::{
    AttemptOutcome, Delivery, LLMContext, NextStep, UsageCost, UsageCounters, UsageReport,
    UsageReportPayload,
};

verus! {

/// A mark by which the names of a report's members are told apart: the length, the first
/// character, and the seventh where there is one.
spec fn mark(name: Seq<char>) -> (nat, char, char) {
    (name.len(), name[0], if name.len() > 6 {
        name[6]
    } else {
        name[0]
    })
}

proof fn lemma_report_names()
    ensures
        mark("traceparent"@) == (11nat, 't', 'a'),
        mark("provider"@) == (8nat, 'p', 'e'),
        mark("requestModel"@) == (12nat, 'r', 't'),
        mark("responseModel"@) == (13nat, 'r', 's'),
        mark("streaming"@) == (9nat, 's', 'i'),
        mark("serviceTier"@) == (11nat, 's', 'e'),
        mark("usage"@) == (5nat, 'u', 'u'),
        mark("cost"@) == (4nat, 'c', 'c'),
        mark("timing"@) == (6nat, 't', 't'),
        mark("dimensions"@) == (10nat, 'd', 'i'),
{
    assert(mark("traceparent"@) == (11nat, 't', 'a')) by {
        reveal_strlit("traceparent");
    }
    assert(mark("provider"@) == (8nat, 'p', 'e')) by {
        reveal_strlit("provider");
    }
    assert(mark("requestModel"@) == (12nat, 'r', 't')) by {
        reveal_strlit("requestModel");
    }
    assert(mark("responseModel"@) == (13nat, 'r', 's')) by {
        reveal_strlit("responseModel");
    }
    assert(mark("streaming"@) == (9nat, 's', 'i')) by {
        reveal_strlit("streaming");
    }
    assert(mark("serviceTier"@) == (11nat, 's', 'e')) by {
        reveal_strlit("serviceTier");
    }
    assert(mark("usage"@) == (5nat, 'u', 'u')) by {
        reveal_strlit("usage");
    }
    assert(mark("cost"@) == (4nat, 'c', 'c')) by {
        reveal_strlit("cost");
    }
    assert(mark("timing"@) == (6nat, 't', 't')) by {
        reveal_strlit("timing");
    }
    assert(mark("dimensions"@) == (10nat, 'd', 'i')) by {
        reveal_strlit("dimensions");
    }
}

proof fn lemma_counter_names()
    ensures
        mark("inputTokens"@) == (11nat, 'i', 'o'),
        mark("inputTextTokens"@) == (15nat, 'i', 'e'),
        mark("inputImageTokens"@) == (16nat, 'i', 'm'),
        mark("inputAudioTokens"@) == (16nat, 'i', 'u'),
        mark("cachedInputTokens"@) == (17nat, 'c', 'I'),
        mark("cacheCreationInputTokens"@) == (24nat, 'c', 'r'),
        mark("outputTokens"@) == (12nat, 'o', 'T'),
        mark("outputTextTokens"@) == (16nat, 'o', 'T'),
        mark("outputImageTokens"@) == (17nat, 'o', 'I'),
        mark("outputAudioTokens"@) == (17nat, 'o', 'A'),
        mark("reasoningTokens"@) == (15nat, 'r', 'i'),
        mark("countTokens"@) == (11nat, 'c', 'o'),
        mark("totalTokens"@) == (11nat, 't', 'o'),
{
    assert(mark("inputTokens"@) == (11nat, 'i', 'o')) by {
        reveal_strlit("inputTokens");
    }
    assert(mark("inputTextTokens"@) == (15nat, 'i', 'e')) by {
        reveal_strlit("inputTextTokens");
    }
    assert(mark("inputImageTokens"@) == (16nat, 'i', 'm')) by {
        reveal_strlit("inputImageTokens");
    }
    assert(mark("inputAudioTokens"@) == (16nat, 'i', 'u')) by {
        reveal_strlit("inputAudioTokens");
    }
    assert(mark("cachedInputTokens"@) == (17nat, 'c', 'I')) by {
        reveal_strlit("cachedInputTokens");
    }
    assert(mark("cacheCreationInputTokens"@) == (24nat, 'c', 'r')) by {
        reveal_strlit("cacheCreationInputTokens");
    }
    assert(mark("outputTokens"@) == (12nat, 'o', 'T')) by {
        reveal_strlit("outputTokens");
    }
    assert(mark("outputTextTokens"@) == (16nat, 'o', 'T')) by {
        reveal_strlit("outputTextTokens");
    }
    assert(mark("outputImageTokens"@) == (17nat, 'o', 'I')) by {
        reveal_strlit("outputImageTokens");
    }
    assert(mark("outputAudioTokens"@) == (17nat, 'o', 'A')) by {
        reveal_strlit("outputAudioTokens");
    }
    assert(mark("reasoningTokens"@) == (15nat, 'r', 'i')) by {
        reveal_strlit("reasoningTokens");
    }
    assert(mark("countTokens"@) == (11nat, 'c', 'o')) by {
        reveal_strlit("countTokens");
    }
    assert(mark("totalTokens"@) == (11nat, 't', 'o')) by {
        reveal_strlit("totalTokens");
    }
}

proof fn lemma_cost_names()
    ensures
        mark("input"@) == (5nat, 'i', 'i'),
        mark("cacheRead"@) == (9nat, 'c', 'e'),
        mark("cacheWrite"@) == (10nat, 'c', 'r'),
        mark("output"@) == (6nat, 'o', 'o'),
        mark("reasoning"@) == (9nat, 'r', 'i'),
        mark("inputAudio"@) == (10nat, 'i', 'u'),
        mark("outputAudio"@) == (11nat, 'o', 'A'),
        mark("total"@) == (5nat, 't', 't'),
{
    assert(mark("input"@) == (5nat, 'i', 'i')) by {
        reveal_strlit("input");
    }
    assert(mark("cacheRead"@) == (9nat, 'c', 'e')) by {
        reveal_strlit("cacheRead");
    }
    assert(mark("cacheWrite"@) == (10nat, 'c', 'r')) by {
        reveal_strlit("cacheWrite");
    }
    assert(mark("output"@) == (6nat, 'o', 'o')) by {
        reveal_strlit("output");
    }
    assert(mark("reasoning"@) == (9nat, 'r', 'i')) by {
        reveal_strlit("reasoning");
    }
    assert(mark("inputAudio"@) == (10nat, 'i', 'u')) by {
        reveal_strlit("inputAudio");
    }
    assert(mark("outputAudio"@) == (11nat, 'o', 'A')) by {
        reveal_strlit("outputAudio");
    }
    assert(mark("total"@) == (5nat, 't', 't')) by {
        reveal_strlit("total");
    }
}

/// The document of the report on a request.
pub open spec fn sent(
    ctx: LLMContext,
    traceparent: Option<Seq<char>>,
    extra: Map<Seq<char>, Seq<char>>,
) -> JsonView {
    usage_report::report_document(usage_report::report_of(ctx, traceparent, extra))
}

/// A text that may be absent is told as it is, and left out where it is absent.
pub open spec fn tells_text(told: Option<JsonView>, text: Option<String>) -> bool {
    &&& text is Some ==> told == Some(JsonView::Text(text->0@))
    &&& text is None ==> told is None
}

/// A count that may be absent is told as it is, and left out where it is absent.
pub open spec fn tells_count(told: Option<JsonView>, count: Option<u64>) -> bool {
    &&& count is Some ==> told == Some(JsonView::Unsigned(count->0))
    &&& count is None ==> told is None
}

/// The report on a request names its provider, its models, its tier and whether it was streamed,
/// each under its own name, and the trace where there is one.
pub proof fn law_a_report_describes_its_request(
    ctx: LLMContext,
    traceparent: Option<Seq<char>>,
    extra: Map<Seq<char>, Seq<char>>,
)
    ensures
        ({
            let doc = sent(ctx, traceparent, extra);
            &&& doc is Object
            &&& doc.member("provider"@) == Some(JsonView::Text(ctx.provider@))
            &&& doc.member("requestModel"@) == Some(JsonView::Text(ctx.request_model@))
            &&& tells_text(doc.member("responseModel"@), ctx.response_model)
            &&& doc.member("streaming"@) == Some(JsonView::Bool(ctx.streaming))
            &&& tells_text(doc.member("serviceTier"@), ctx.service_tier)
            &&& traceparent is Some ==> doc.member("traceparent"@) == Some(
                JsonView::Text(traceparent->0),
            )
            &&& traceparent is None ==> doc.member("traceparent"@) is None
        }),
{
    lemma_report_names();
}

/// Each part of the cost is told under its own name, as the text that it was given; a request
/// without a cost reports none.
pub proof fn law_each_part_of_the_cost_is_told(
    ctx: LLMContext,
    traceparent: Option<Seq<char>>,
    extra: Map<Seq<char>, Seq<char>>,
)
    ensures
        ctx.cost is None ==> sent(ctx, traceparent, extra).member("cost"@) is None,
        ctx.cost is Some ==> sent(ctx, traceparent, extra).member("cost"@) is Some,
        ctx.cost is Some ==> {
            let told = sent(ctx, traceparent, extra).member("cost"@)->0;
            let cost = ctx.cost->0;
            &&& told.member("input"@) == Some(JsonView::Text(cost.input@))
            &&& told.member("cacheRead"@) == Some(JsonView::Text(cost.cache_read@))
            &&& told.member("cacheWrite"@) == Some(JsonView::Text(cost.cache_write@))
            &&& told.member("output"@) == Some(JsonView::Text(cost.output@))
            &&& told.member("reasoning"@) == Some(JsonView::Text(cost.reasoning@))
            &&& told.member("inputAudio"@) == Some(JsonView::Text(cost.input_audio@))
            &&& told.member("outputAudio"@) == Some(JsonView::Text(cost.output_audio@))
            &&& told.member("total"@) == Some(JsonView::Text(cost.total@))
        },
{
    lemma_report_names();
    lemma_cost_names();
}

proof fn lemma_usage_member(
    ctx: LLMContext,
    traceparent: Option<Seq<char>>,
    extra: Map<Seq<char>, Seq<char>>,
)
    ensures
        sent(ctx, traceparent, extra).member("usage"@) == Some(
            usage_report::counters_document(usage_report::report_of(ctx, traceparent, extra).usage),
        ),
{
    lemma_report_names();
}

/// Named counts, one by one.
spec fn named_counts(usage: UsageCounters) -> Seq<(Seq<char>, Option<u64>)> {
    seq![
        ("inputTokens"@, usage.input_tokens),
        ("inputTextTokens"@, usage.input_text_tokens),
        ("inputImageTokens"@, usage.input_image_tokens),
        ("inputAudioTokens"@, usage.input_audio_tokens),
        ("cachedInputTokens"@, usage.cached_input_tokens),
        ("cacheCreationInputTokens"@, usage.cache_creation_input_tokens),
        ("outputTokens"@, usage.output_tokens),
        ("outputTextTokens"@, usage.output_text_tokens),
        ("outputImageTokens"@, usage.output_image_tokens),
        ("outputAudioTokens"@, usage.output_audio_tokens),
        ("reasoningTokens"@, usage.reasoning_tokens),
        ("countTokens"@, usage.count_tokens),
        ("totalTokens"@, usage.total_tokens),
    ]
}

/// The object of a list of named counts.
spec fn laid_out(counts: Seq<(Seq<char>, Option<u64>)>) -> JsonView
    decreases counts.len(),
{
    if counts.len() == 0 {
        json::empty_object()
    } else {
        laid_out(counts.drop_last()).with_optional(
            counts.last().0,
            json::count_document(counts.last().1),
        )
    }
}

proof fn lemma_laid_out(counts: Seq<(Seq<char>, Option<u64>)>, name: Seq<char>, i: int)
    requires
        forall|j: int| 0 <= j < counts.len() && j != i ==> (#[trigger] counts[j]).0 != name,
        0 <= i < counts.len() ==> counts[i].0 == name,
    ensures
        laid_out(counts) is Object,
        0 <= i < counts.len() ==> tells_count(laid_out(counts).member(name), counts[i].1),
        i < 0 || counts.len() <= i ==> laid_out(counts).member(name) is None,
    decreases counts.len(),
{
    if counts.len() > 0 {
        let shorter = counts.drop_last();
        let n = counts.len() - 1;
        assert forall|j: int| 0 <= j < shorter.len() && j != i implies (#[trigger] shorter[j]).0
            != name by {
            assert(shorter[j] == counts[j]);
        }
        lemma_laid_out(shorter, name, i);
        if i != n {
            assert(counts[n].0 != name);
        }
    }
}

proof fn lemma_counts_are_laid_out(usage: UsageCounters)
    ensures
        laid_out(named_counts(usage)) == usage_report::counters_document(usage),
{
    let all = named_counts(usage);
    assert(laid_out(all.take(0)) == json::empty_object());
    assert(all.take(1).drop_last() =~= all.take(0));
    assert(laid_out(all.take(1)) == laid_out(all.take(0)).with_optional(
        "inputTokens"@,
        json::count_document(usage.input_tokens),
    ));
    assert(all.take(2).drop_last() =~= all.take(1));
    assert(laid_out(all.take(2)) == laid_out(all.take(1)).with_optional(
        "inputTextTokens"@,
        json::count_document(usage.input_text_tokens),
    ));
    assert(all.take(3).drop_last() =~= all.take(2));
    assert(laid_out(all.take(3)) == laid_out(all.take(2)).with_optional(
        "inputImageTokens"@,
        json::count_document(usage.input_image_tokens),
    ));
    assert(all.take(4).drop_last() =~= all.take(3));
    assert(laid_out(all.take(4)) == laid_out(all.take(3)).with_optional(
        "inputAudioTokens"@,
        json::count_document(usage.input_audio_tokens),
    ));
    assert(all.take(5).drop_last() =~= all.take(4));
    assert(laid_out(all.take(5)) == laid_out(all.take(4)).with_optional(
        "cachedInputTokens"@,
        json::count_document(usage.cached_input_tokens),
    ));
    assert(all.take(6).drop_last() =~= all.take(5));
    assert(laid_out(all.take(6)) == laid_out(all.take(5)).with_optional(
        "cacheCreationInputTokens"@,
        json::count_document(usage.cache_creation_input_tokens),
    ));
    assert(all.take(7).drop_last() =~= all.take(6));
    assert(laid_out(all.take(7)) == laid_out(all.take(6)).with_optional(
        "outputTokens"@,
        json::count_document(usage.output_tokens),
    ));
    assert(all.take(8).drop_last() =~= all.take(7));
    assert(laid_out(all.take(8)) == laid_out(all.take(7)).with_optional(
        "outputTextTokens"@,
        json::count_document(usage.output_text_tokens),
    ));
    assert(all.take(9).drop_last() =~= all.take(8));
    assert(laid_out(all.take(9)) == laid_out(all.take(8)).with_optional(
        "outputImageTokens"@,
        json::count_document(usage.output_image_tokens),
    ));
    assert(all.take(10).drop_last() =~= all.take(9));
    assert(laid_out(all.take(10)) == laid_out(all.take(9)).with_optional(
        "outputAudioTokens"@,
        json::count_document(usage.output_audio_tokens),
    ));
    assert(all.take(11).drop_last() =~= all.take(10));
    assert(laid_out(all.take(11)) == laid_out(all.take(10)).with_optional(
        "reasoningTokens"@,
        json::count_document(usage.reasoning_tokens),
    ));
    assert(all.take(12).drop_last() =~= all.take(11));
    assert(laid_out(all.take(12)) == laid_out(all.take(11)).with_optional(
        "countTokens"@,
        json::count_document(usage.count_tokens),
    ));
    assert(all.take(13).drop_last() =~= all.take(12));
    assert(laid_out(all.take(13)) == laid_out(all.take(12)).with_optional(
        "totalTokens"@,
        json::count_document(usage.total_tokens),
    ));
    assert(all.take(13) =~= all);
}

proof fn lemma_named_count(usage: UsageCounters, i: int)
    requires
        0 <= i < 13,
    ensures
        tells_count(
            usage_report::counters_document(usage).member(named_counts(usage)[i].0),
            named_counts(usage)[i].1,
        ),
{
    let all = named_counts(usage);
    lemma_counter_names();
    assert forall|j: int| 0 <= j < all.len() && j != i implies (#[trigger] all[j]).0 != all[i].0 by {
        assert(mark(all[j].0) != mark(all[i].0));
    }
    lemma_laid_out(all, all[i].0, i);
    lemma_counts_are_laid_out(usage);
}

/// Each token count of a request is told under its own name, and one that is not known is left
/// out.
pub proof fn law_each_count_is_told(
    ctx: LLMContext,
    traceparent: Option<Seq<char>>,
    extra: Map<Seq<char>, Seq<char>>,
)
    ensures
        sent(ctx, traceparent, extra).member("usage"@) is Some,
        ({
            let told = sent(ctx, traceparent, extra).member("usage"@)->0;
            &&& tells_count(told.member("inputTokens"@), ctx.input_tokens)
            &&& tells_count(told.member("inputTextTokens"@), ctx.input_text_tokens)
            &&& tells_count(told.member("inputImageTokens"@), ctx.input_image_tokens)
            &&& tells_count(told.member("inputAudioTokens"@), ctx.input_audio_tokens)
            &&& tells_count(told.member("cachedInputTokens"@), ctx.cached_input_tokens)
            &&& tells_count(told.member("cacheCreationInputTokens"@), ctx.cache_creation_input_tokens)
            &&& tells_count(told.member("outputTokens"@), ctx.output_tokens)
            &&& tells_count(told.member("outputTextTokens"@), ctx.output_text_tokens)
            &&& tells_count(told.member("outputImageTokens"@), ctx.output_image_tokens)
            &&& tells_count(told.member("outputAudioTokens"@), ctx.output_audio_tokens)
            &&& tells_count(told.member("reasoningTokens"@), ctx.reasoning_tokens)
            &&& tells_count(told.member("countTokens"@), ctx.count_tokens)
            &&& tells_count(told.member("totalTokens"@), ctx.total_tokens)
        }),
{
    lemma_usage_member(ctx, traceparent, extra);
    let usage = usage_report::report_of(ctx, traceparent, extra).usage;
    lemma_named_count(usage, 0);
    lemma_named_count(usage, 1);
    lemma_named_count(usage, 2);
    lemma_named_count(usage, 3);
    lemma_named_count(usage, 4);
    lemma_named_count(usage, 5);
    lemma_named_count(usage, 6);
    lemma_named_count(usage, 7);
    lemma_named_count(usage, 8);
    lemma_named_count(usage, 9);
    lemma_named_count(usage, 10);
    lemma_named_count(usage, 11);
    lemma_named_count(usage, 12);
}

/// A report tells nothing but what is named: it has ten members at most, and the counts, the cost
/// and the times in it have no others than those of their names.
pub proof fn law_nothing_else_is_told(
    ctx: LLMContext,
    traceparent: Option<Seq<char>>,
    extra: Map<Seq<char>, Seq<char>>,
    key: Seq<char>,
)
    ensures
        sent(ctx, traceparent, extra).member(key) is Some ==> {
            ||| key == "traceparent"@
            ||| key == "provider"@
            ||| key == "requestModel"@
            ||| key == "responseModel"@
            ||| key == "streaming"@
            ||| key == "serviceTier"@
            ||| key == "usage"@
            ||| key == "cost"@
            ||| key == "timing"@
            ||| key == "dimensions"@
        },
        ctx.cost is Some && sent(ctx, traceparent, extra).member("cost"@)->0.member(key) is Some ==> {
            ||| key == "input"@
            ||| key == "cacheRead"@
            ||| key == "cacheWrite"@
            ||| key == "output"@
            ||| key == "reasoning"@
            ||| key == "inputAudio"@
            ||| key == "outputAudio"@
            ||| key == "total"@
        },
        sent(ctx, traceparent, extra).member("timing"@)->0.member(key) is Some ==> {
            ||| key == "timeToFirstToken"@
            ||| key == "timePerOutputToken"@
        },
        sent(ctx, traceparent, extra).member("usage"@)->0.member(key) is Some ==> {
            ||| key == "inputTokens"@
            ||| key == "inputTextTokens"@
            ||| key == "inputImageTokens"@
            ||| key == "inputAudioTokens"@
            ||| key == "cachedInputTokens"@
            ||| key == "cacheCreationInputTokens"@
            ||| key == "outputTokens"@
            ||| key == "outputTextTokens"@
            ||| key == "outputImageTokens"@
            ||| key == "outputAudioTokens"@
            ||| key == "reasoningTokens"@
            ||| key == "countTokens"@
            ||| key == "totalTokens"@
        },
{
    let usage = usage_report::report_of(ctx, traceparent, extra).usage;
    lemma_usage_member(ctx, traceparent, extra);
    lemma_parts(ctx, traceparent, extra);
    lemma_counts_are_laid_out(usage);
    let all = named_counts(usage);
    if forall|j: int| 0 <= j < all.len() ==> (#[trigger] all[j]).0 != key {
        lemma_laid_out(all, key, -1);
    } else {
        let j = choose|j: int| 0 <= j < all.len() && (#[trigger] all[j]).0 == key;
        assert(0 <= j < 13);
    }
}

proof fn lemma_parts(
    ctx: LLMContext,
    traceparent: Option<Seq<char>>,
    extra: Map<Seq<char>, Seq<char>>,
)
    ensures
        ({
            let report = usage_report::report_of(ctx, traceparent, extra);
            &&& ctx.cost is Some ==> sent(ctx, traceparent, extra).member("cost"@) == Some(
                usage_report::cost_document(report.cost->0),
            )
            &&& sent(ctx, traceparent, extra).member("timing"@) == Some(
                usage_report::timing_document(
                    report.time_to_first_token,
                    report.time_per_output_token,
                ),
            )
        }),
{
    lemma_report_names();
}

/// The two times of a request are told under their own names, and left out where they are not
/// known.
pub proof fn law_times_are_told(
    ctx: LLMContext,
    traceparent: Option<Seq<char>>,
    extra: Map<Seq<char>, Seq<char>>,
)
    ensures
        sent(ctx, traceparent, extra).member("timing"@) is Some,
        ({
            let told = sent(ctx, traceparent, extra).member("timing"@)->0;
            &&& tells_text(told.member("timeToFirstToken"@), ctx.time_to_first_token)
            &&& tells_text(told.member("timePerOutputToken"@), ctx.time_per_output_token)
        }),
{
    lemma_report_names();
    reveal_strlit("timeToFirstToken");
    reveal_strlit("timePerOutputToken");
    assert("timeToFirstToken"@.len() != "timePerOutputToken"@.len());
}

/// Each further dimension is told as it is, and no other; without any there is no such member.
pub proof fn law_dimensions_are_told(
    ctx: LLMContext,
    traceparent: Option<Seq<char>>,
    extra: Map<Seq<char>, Seq<char>>,
    name: Seq<char>,
)
    ensures
        ({
            let told = sent(ctx, traceparent, extra).member("dimensions"@);
            &&& extra.contains_key(name) ==> told is Some && told->0.member(name) == Some(
                JsonView::Text(extra[name]),
            )
            &&& told is Some && !extra.contains_key(name) ==> told->0.member(name) is None
            &&& extra == Map::<Seq<char>, Seq<char>>::empty() ==> told is None
        }),
{
    lemma_report_names();
}

/// The trace of a request is its header as a text, where all bytes of the header are visible
/// ASCII or tabs.
pub proof fn law_the_trace_is_its_header(value: Seq<u8>)
    ensures
        (forall|i: int| 0 <= i < value.len() ==> 32 <= #[trigger] value[i] <= 126 || value[i] == 9)
            <==> usage_report::header_text(value) is Some,
        usage_report::header_text(value) is Some ==> usage_report::header_text(value)->0.len()
            == value.len() && forall|i: int|
            0 <= i < value.len() ==> #[trigger] usage_report::header_text(value)->0[i]
                == value[i] as char,
        usage_report::opt_header_text(None) is None,
{
    if forall|i: int| 0 <= i < value.len() ==> 32 <= #[trigger] value[i] <= 126 || value[i] == 9 {
        assert forall|i: int| 0 <= i < value.len() implies usage_report::is_visible(
            #[trigger] value[i],
        ) by {}
    }
    if usage_report::header_text(value) is Some {
        assert forall|i: int| 0 <= i < value.len() implies 32 <= #[trigger] value[i] <= 126
            || value[i] == 9 by {
            assert(usage_report::is_visible(value[i]));
        }
    }
}

/// Without a setting a report goes to `/usage`, with two retries.
pub proof fn law_defaults_of_reporting(cfg: UsageReport)
    ensures
        cfg.path is None ==> cfg.report_path() == "/usage"@,
        cfg.path is Some ==> cfg.report_path() == cfg.path->0@,
        cfg.max_retries is None ==> cfg.retries() == 2,
        cfg.max_retries is Some ==> cfg.retries() == cfg.max_retries->0,
{
}

/// An attempt delivers its report exactly where it is answered with a code of two hundred and
/// something; the delivery goes on after any other outcome while attempts are left, and waits as
/// long as it has to before each.
pub proof fn law_what_follows_an_attempt(delivery: Delivery, outcome: AttemptOutcome)
    ensures
        usage_report::delivers(outcome) <==> outcome is Status && 200 <= outcome->Status_0 <= 299,
        usage_report::delivers(outcome) ==> delivery.next(outcome) is Delivered,
        !usage_report::delivers(outcome) && delivery.failed + 1 < delivery.attempts
            ==> delivery.next(outcome) == (NextStep::RetryAfter { millis: delivery.backoff_millis }),
        !usage_report::delivers(outcome) && delivery.failed + 1 >= delivery.attempts
            ==> delivery.next(outcome) is Dropped,
        delivery.well_formed() <==> delivery.failed < delivery.attempts && delivery.backoff_millis
            == usage_report::backoff(delivery.failed as nat),
        delivery.room_for(outcome) <==> (delivery.next(outcome) is RetryAfter ==> 2
            * delivery.backoff_millis <= 18_446_744_073_709_551_615_999),
{
}

/// A delivery begins with one attempt more than retries, as far as a `u32` can count them, and
/// with the first time to wait. An attempt after which another follows counts as failed and
/// doubles the time to wait; any other changes nothing.
pub proof fn law_a_delivery_counts_its_attempts(
    delivery: Delivery,
    outcome: AttemptOutcome,
    retries: u32,
)
    requires
        delivery.failed < delivery.attempts,
        delivery.backoff_millis <= 9_223_372_036_854_775_807_999,
    ensures
        retries < u32::MAX ==> Delivery::begun(retries).attempts == retries + 1,
        retries == u32::MAX ==> Delivery::begun(retries).attempts == u32::MAX,
        Delivery::begun(retries).failed == 0,
        Delivery::begun(retries).backoff_millis == 50,
        delivery.after(outcome).attempts == delivery.attempts,
        delivery.next(outcome) is RetryAfter ==> delivery.after(outcome).failed == delivery.failed + 1
            && delivery.after(outcome).backoff_millis == 2 * delivery.backoff_millis,
        !(delivery.next(outcome) is RetryAfter) ==> delivery.after(outcome) == delivery,
{
}

/// A cost and a report say what they hold.
pub proof fn law_reports_say_what_they_hold(cost: UsageCost, report: UsageReportPayload)
    ensures
        cost@.input == cost.input@,
        cost@.cache_read == cost.cache_read@,
        cost@.cache_write == cost.cache_write@,
        cost@.output == cost.output@,
        cost@.reasoning == cost.reasoning@,
        cost@.input_audio == cost.input_audio@,
        cost@.output_audio == cost.output_audio@,
        cost@.total == cost.total@,
        report@.provider == report.provider@,
        report@.request_model == report.request_model@,
        report@.streaming == report.streaming,
        report@.usage == report.usage,
        report@.dimensions == report.dimensions@,
        report.cost is Some <==> report@.cost is Some,
        report.cost is Some ==> report@.cost->0 == report.cost->0@,
        is_said(report.traceparent, report@.traceparent),
        is_said(report.response_model, report@.response_model),
        is_said(report.service_tier, report@.service_tier),
        is_said(report.timing.time_to_first_token, report@.time_to_first_token),
        is_said(report.timing.time_per_output_token, report@.time_per_output_token),
{
}

/// Whether an optional text is said as it is.
pub open spec fn is_said(text: Option<String>, said: Option<Seq<char>>) -> bool {
    &&& text is Some <==> said is Some
    &&& text is Some ==> said->0 == text->0@
}

/// A list of names and values says what its entries are, one by one.
pub proof fn law_entries_are_taken_one_by_one(pairs: Seq<(String, String)>)
    ensures
        dimensions::pairs_view(pairs).len() == pairs.len(),
        forall|i: int|
            0 <= i < pairs.len() ==> (#[trigger] dimensions::pairs_view(pairs)[i]).0 == pairs[i].0@
                && dimensions::pairs_view(pairs)[i].1 == pairs[i].1@,
{
}

} // verus!
