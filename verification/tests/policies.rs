use std::time::Duration;

use agentgateway::http::capacity;
use agentgateway::http::retry::{
    de_codes, de_max_replay_bytes, default_attempts, default_max_replay_bytes, Policy, PolicyError, RawPolicy,
};
use agentgateway::http::sticky;
use agentgateway::http::sticky::LocalSticky;
use agentgateway::json::Json;
use agentgateway::llm::policy::dimensions::Dimensions;
use agentgateway::llm::policy::usage_report::{
    AttemptOutcome, Breakdown, Delivery, InFlightLimiter, LLMContext, NextStep,
    UsageReport, UsageReportPayload,
};
use agentgateway::llm::policy::web_search::{
    route_type_string, EnabledServerTool, RouteType, UrlParts, WebSearchConfig, WebSearchReroute,
};
use agentgateway::target::Target;
use agentgateway::llm::web_search::{detect, is_web_search_server_tool, WebSearchTrigger};

fn from_value(value: &serde_json::Value) -> Json {
    match value {
        serde_json::Value::Null => Json::Null,
        serde_json::Value::Bool(b) => Json::Bool(*b),
        serde_json::Value::Number(n) => match n.as_u64() {
            Some(u) => Json::Unsigned(u),
            None => Json::Number(n.clone()),
        },
        serde_json::Value::String(s) => Json::Text(s.clone()),
        serde_json::Value::Array(items) => Json::Array(items.iter().map(from_value).collect()),
        serde_json::Value::Object(members) => {
            Json::Object(members.iter().map(|(k, v)| (k.clone(), from_value(v))).collect())
        }
    }
}

fn json(text: &str) -> Json {
    let value: serde_json::Value = serde_json::from_str(text).expect("valid JSON");
    from_value(&value)
}

fn value(json: &Json) -> serde_json::Value {
    serde_json::from_str(&json.encode()).expect("rendered JSON parses")
}

/// The policy that a JSON text configures.
fn retry_policy(text: &str) -> Result<Policy, PolicyError> {
    let v: serde_json::Value = serde_json::from_str(text).expect("valid JSON");
    let text_of = |key: &str| v.get(key).and_then(|t| t.as_str()).map(str::to_string);
    Policy::from_raw(RawPolicy {
        attempts: v.get("attempts").and_then(|n| n.as_u64()).map(|n| n as u8),
        backoff: None,
        codes: v["codes"].as_array().unwrap().iter().map(|n| n.as_u64().unwrap() as u16).collect(),
        max_replay_bytes: v.get("maxReplayBytes").and_then(|n| n.as_u64()).map(|n| n as usize),
        precondition: text_of("precondition"),
        condition: text_of("condition"),
    })
}

#[test]
fn parses_pre_and_post_conditions() {
    let pol = retry_policy(
        r#"{"attempts":3,"codes":[503],"precondition":"request.method == \"GET\"","condition":"response.headers[\"x-req-failed\"] != \"\""}"#,
    )
    .unwrap();
    assert_eq!(pol.attempts, 3);
    assert_eq!(pol.precondition.as_deref(), Some("request.method == \"GET\""));
    assert_eq!(pol.condition.as_deref(), Some("response.headers[\"x-req-failed\"] != \"\""));
}

#[test]
fn conditions_default_to_none() {
    let pol = retry_policy(r#"{"attempts":1,"codes":[500]}"#).unwrap();
    assert!(pol.precondition.is_none());
    assert!(pol.condition.is_none());
}

#[test]
fn policy_default_max_replay_bytes_is_64k() {
    let p = retry_policy(r#"{"attempts":2,"codes":[503]}"#).expect("policy parses");
    assert_eq!(p.max_replay_bytes, 64 * 1024);
}

#[test]
fn policy_explicit_zero_max_replay_bytes_is_the_default() {
    let p = retry_policy(r#"{"attempts":2,"codes":[503],"maxReplayBytes":0}"#).expect("policy parses");
    assert_eq!(p.max_replay_bytes, default_max_replay_bytes());
}

#[test]
fn policy_max_replay_bytes_is_configurable() {
    let p =
        retry_policy(r#"{"attempts":2,"codes":[503],"maxReplayBytes":52428800}"#).expect("policy parses");
    assert_eq!(p.max_replay_bytes, 52_428_800);
}

#[test]
fn expressions_exposes_both_conditions() {
    let pol = retry_policy(
        r#"{"attempts":2,"codes":[],"precondition":"request.method == \"GET\"","condition":"response.code == 200"}"#,
    )
    .unwrap();
    assert_eq!(pol.expressions(), vec!["request.method == \"GET\"", "response.code == 200"]);
    assert!(retry_policy(r#"{"codes":[]}"#).unwrap().expressions().is_empty());
}

#[test]
fn retry_refuses_what_cannot_work() {
    assert_eq!(retry_policy(r#"{"attempts":0,"codes":[99]}"#).err(), Some(PolicyError::ZeroAttempts));
    assert_eq!(
        retry_policy(r#"{"codes":[200,99,1000]}"#).err(),
        Some(PolicyError::InvalidStatusCode(99))
    );
    assert_eq!(de_codes(vec![100, 999]), Ok(vec![100, 999]));
    assert_eq!(de_codes(vec![1000]), Err(PolicyError::InvalidStatusCode(1000)));
    assert_eq!(retry_policy(r#"{"codes":[]}"#).unwrap().attempts, default_attempts());
    assert_eq!(default_attempts(), 1);
    assert_eq!(de_max_replay_bytes(0), 65536);
    assert_eq!(de_max_replay_bytes(1), 1);
}

#[test]
fn sticky_policy_is_taken_over() {
    let local = LocalSticky { key: Some("k".to_string()), ttl: Some(Duration::from_secs(600)) };
    let policy = sticky::Policy::try_from(local).unwrap();
    assert_eq!(policy.key.as_deref(), Some("k"));
    assert_eq!(policy.ttl, Some(Duration::from_secs(600)));
    assert!(sticky::Policy::from(LocalSticky::default()).key.is_none());
    assert!(sticky::Policy::default().ttl.is_none());
    assert!(capacity::Policy::default().inflight_cap.is_none());
}

/// A span of whole milliseconds as the access log writes it.
fn span_text(span: chrono::Duration) -> String {
    let millis = span.num_milliseconds();
    format!("{}.{:03}s", millis / 1000, millis % 1000)
}

/// The cost of input and output alone, in amounts of five places.
fn breakdown(input: &str, output: &str) -> Breakdown {
    let units = |amount: &str| amount.replace('.', "").parse::<u64>().expect("a decimal of five places");
    let total = units(input) + units(output);
    let zero = || "0".to_string();
    Breakdown {
        input: input.to_string(),
        output: output.to_string(),
        cache_read: zero(),
        cache_write: zero(),
        reasoning: zero(),
        input_audio: zero(),
        output_audio: zero(),
        total: format!("{}.{:05}", total / 100_000, total % 100_000),
    }
}

fn ctx_with_sentinel() -> LLMContext {
    LLMContext {
        streaming: true,
        request_model: "gpt-4o".to_string(),
        response_model: Some("gpt-4o-2024-08-06".to_string()),
        provider: "openai".to_string(),
        input_tokens: Some(400004),
        input_image_tokens: None,
        input_text_tokens: None,
        input_audio_tokens: None,
        cached_input_tokens: None,
        cache_creation_input_tokens: None,
        output_tokens: Some(105),
        output_image_tokens: None,
        output_text_tokens: None,
        output_audio_tokens: None,
        reasoning_tokens: None,
        total_tokens: Some(400109),
        service_tier: None,
        time_to_first_token: Some(span_text(chrono::Duration::milliseconds(412))),
        time_per_output_token: Some(span_text(chrono::Duration::milliseconds(7))),
        count_tokens: None,
        prompt: None,
        completion: Some(vec!["SENTINEL_COMPLETION_TEXT".to_string()]),
        tool_calls: None,
        cost: None,
    }
}

#[test]
fn payload_never_contains_conversation_content() {
    let payload = UsageReportPayload::project(&ctx_with_sentinel(), None, Dimensions::new());
    let body = payload.body();
    assert!(!body.contains("SENTINEL_COMPLETION_TEXT"), "completion text leaked: {body}");
    assert!(!body.contains("prompt") && !body.contains("toolCalls"), "conversation leaked: {body}");
}

#[test]
fn payload_carries_token_counts_and_model() {
    let payload = UsageReportPayload::project(&ctx_with_sentinel(), None, Dimensions::new());
    let v = value(&payload.document());
    assert_eq!(v["provider"], "openai");
    assert_eq!(v["requestModel"], "gpt-4o");
    assert_eq!(v["responseModel"], "gpt-4o-2024-08-06");
    assert_eq!(v["streaming"], true);
    assert_eq!(v["usage"]["inputTokens"], 400004);
    assert_eq!(v["usage"]["outputTokens"], 105);
    assert_eq!(v["usage"]["totalTokens"], 400109);
    assert_eq!(v["timing"]["timeToFirstToken"], "0.412s");
    assert_eq!(v["timing"]["timePerOutputToken"], "0.007s");
}

#[test]
fn payload_omits_unset_counters() {
    let payload = UsageReportPayload::project(&ctx_with_sentinel(), None, Dimensions::new());
    let v = value(&payload.document());
    assert!(v["usage"].get("inputAudioTokens").is_none());
    assert!(v["usage"].get("cacheCreationInputTokens").is_none());
    assert!(v.get("dimensions").is_none());
    assert!(v.get("cost").is_none());
}

#[test]
fn payload_names_every_counter() {
    let mut ctx = ctx_with_sentinel();
    ctx.input_text_tokens = Some(1);
    ctx.input_image_tokens = Some(2);
    ctx.input_audio_tokens = Some(3);
    ctx.cached_input_tokens = Some(4);
    ctx.cache_creation_input_tokens = Some(5);
    ctx.output_text_tokens = Some(6);
    ctx.output_image_tokens = Some(7);
    ctx.output_audio_tokens = Some(8);
    ctx.reasoning_tokens = Some(9);
    ctx.count_tokens = Some(10);
    ctx.service_tier = Some("default".to_string());
    let v = value(&UsageReportPayload::project(&ctx, None, Dimensions::new()).document());
    assert_eq!(
        v["usage"].to_string(),
        r#"{"cacheCreationInputTokens":5,"cachedInputTokens":4,"countTokens":10,"inputAudioTokens":3,"inputImageTokens":2,"inputTextTokens":1,"inputTokens":400004,"outputAudioTokens":8,"outputImageTokens":7,"outputTextTokens":6,"outputTokens":105,"reasoningTokens":9,"totalTokens":400109}"#
    );
    assert_eq!(v["serviceTier"], "default");
}

#[test]
fn cost_decimals_serialize_as_strings() {
    let mut ctx = ctx_with_sentinel();
    ctx.cost = Some(breakdown("1.20001", "0.00105"));
    let v = value(&UsageReportPayload::project(&ctx, None, Dimensions::new()).document());
    assert!(v["cost"]["input"].is_string(), "cost must serialize as a string");
    assert_eq!(v["cost"]["input"], "1.20001");
    assert_eq!(v["cost"]["output"], "0.00105");
    assert_eq!(v["cost"]["cacheRead"], "0");
    assert_eq!(v["cost"]["total"], "1.20106");
}

#[test]
fn traceparent_is_included_when_present_and_omitted_when_not() {
    let tp = http::HeaderValue::from_static("00-4bf92f3577b34da6a3ce929d0e0e4736-00f067aa0ba902b7-01");
    let with = UsageReportPayload::project(&ctx_with_sentinel(), Some(tp.as_bytes()), Dimensions::new());
    assert_eq!(
        value(&with.document())["traceparent"],
        "00-4bf92f3577b34da6a3ce929d0e0e4736-00f067aa0ba902b7-01"
    );
    let without = UsageReportPayload::project(&ctx_with_sentinel(), None, Dimensions::new());
    assert!(value(&without.document()).get("traceparent").is_none());
    // A value that is not visible ASCII has no text.
    let odd = UsageReportPayload::project(&ctx_with_sentinel(), Some(&[b'a', 0x80]), Dimensions::new());
    assert!(odd.traceparent.is_none());
    let line = UsageReportPayload::project(&ctx_with_sentinel(), Some(b"a\nb"), Dimensions::new());
    assert!(line.traceparent.is_none());
}

#[test]
fn dimensions_are_passed_through() {
    let mut dims = Dimensions::new();
    dims.insert("tenant".to_string(), "user-11374".to_string());
    let payload = UsageReportPayload::project(&ctx_with_sentinel(), None, dims);
    assert_eq!(value(&payload.document())["dimensions"]["tenant"], "user-11374");
}

#[test]
fn the_last_entry_of_a_dimension_counts() {
    let pair = |name: &str, text: &str| (name.to_string(), text.to_string());
    let mut dims = Dimensions::from_pairs(vec![pair("tenant", "a"), pair("team", "x"), pair("tenant", "b")]);
    assert!(!dims.is_empty());
    assert_eq!(dims.document().encode(), r#"{"team":"x","tenant":"b"}"#);
    dims.insert("team".to_string(), "y".to_string());
    dims.insert("zone".to_string(), "z".to_string());
    assert_eq!(dims.document().encode(), r#"{"team":"y","tenant":"b","zone":"z"}"#);
    assert!(Dimensions::from_pairs(vec![]).is_empty());
}

fn report(max_retries: Option<u32>) -> UsageReport {
    UsageReport { target: "accounting".to_string(), path: None, timeout: None, max_retries, dimensions: vec![] }
}

#[test]
fn delivery_retries_and_gives_up() {
    let mut delivery = Delivery::new(&report(None));
    assert_eq!(delivery.attempts, 3);
    assert_eq!(delivery.after_attempt(AttemptOutcome::Failed), NextStep::RetryAfter { millis: 50 });
    assert_eq!(delivery.after_attempt(AttemptOutcome::Status(503)), NextStep::RetryAfter { millis: 100 });
    assert_eq!(delivery.after_attempt(AttemptOutcome::Status(404)), NextStep::Dropped);

    let mut delivery = Delivery::new(&report(Some(0)));
    assert_eq!(delivery.after_attempt(AttemptOutcome::Failed), NextStep::Dropped);

    let mut delivery = Delivery::new(&report(Some(1)));
    assert_eq!(delivery.after_attempt(AttemptOutcome::Failed), NextStep::RetryAfter { millis: 50 });
    assert_eq!(delivery.after_attempt(AttemptOutcome::Status(204)), NextStep::Delivered);

    assert_eq!(Delivery::new(&report(Some(u32::MAX))).attempts, u32::MAX);
}

#[test]
fn report_path_has_a_default() {
    let mut cfg = report(None);
    assert_eq!(cfg.path_or_default(), "/usage");
    cfg.path = Some("/bill".to_string());
    assert_eq!(cfg.path_or_default(), "/bill");
    assert_eq!(cfg.retries_or_default(), 2);
}

#[test]
fn an_attempt_takes_two_seconds_at_most_by_default() {
    let mut cfg = report(None);
    assert_eq!(cfg.timeout_or_default(), Duration::from_secs(2));
    cfg.timeout = Some(Duration::from_millis(250));
    assert_eq!(cfg.timeout_or_default(), Duration::from_millis(250));
}

#[test]
fn a_delivery_knows_when_its_time_cannot_be_doubled() {
    let delivery = Delivery::new(&report(None));
    assert!(delivery.has_room_for(AttemptOutcome::Failed));
    let mut delivery = Delivery::new(&report(Some(u32::MAX)));
    let mut retries: u32 = 0;
    while delivery.has_room_for(AttemptOutcome::Failed) {
        assert!(matches!(
            delivery.after_attempt(AttemptOutcome::Failed),
            NextStep::RetryAfter { millis } if millis == 50u128 << retries
        ));
        retries += 1;
    }
    assert_eq!(retries, 68);
    assert!(delivery.has_room_for(AttemptOutcome::Status(200)));
    assert_eq!(delivery.after_attempt(AttemptOutcome::Status(200)), NextStep::Delivered);
}

#[test]
fn limiter_sheds_at_its_cap() {
    let mut limiter = InFlightLimiter::new(2);
    let first = limiter.try_acquire();
    assert!(first.is_some());
    assert!(limiter.try_acquire().is_some());
    assert!(limiter.try_acquire().is_none());
    limiter.release(first.unwrap());
    assert!(limiter.try_acquire().is_some());
    assert!(limiter.try_acquire().is_none());
    assert!(InFlightLimiter::new(0).try_acquire().is_none());
    let mut default = InFlightLimiter::default();
    for _ in 0..1024 {
        assert!(default.try_acquire().is_some());
    }
    assert!(default.try_acquire().is_none());
}

#[test]
fn report_is_posted_as_json() {
    let payload = UsageReportPayload::project(&ctx_with_sentinel(), None, Dimensions::new());
    let request = report(None).request(&payload);
    assert_eq!(request.path, "/usage");
    assert_eq!(request.content_type, "application/json");
    assert_eq!(request.body, payload.body());
    assert!(request.body.starts_with(r#"{"provider":"openai","requestModel":"gpt-4o""#));
}

fn with_sidecar() -> WebSearchConfig {
    WebSearchConfig { sidecar_url: Some("http://sidecar".to_string()), ..Default::default() }
}

fn tool(name: &str, enabled: bool) -> EnabledServerTool {
    EnabledServerTool { name: name.to_string(), enabled }
}

#[test]
fn select_enabled_legacy_shape_selects_when_sidecar_set() {
    let found = detect(&[json(r#"{"type":"web_search_20250305"}"#)]);
    assert_eq!(with_sidecar().select_enabled(&found).len(), 1);
    assert!(with_sidecar().web_search_enabled());
}

#[test]
fn select_enabled_no_sidecar_selects_nothing() {
    let cfg = WebSearchConfig::default();
    let found = detect(&[json(r#"{"type":"web_search_20250305"}"#)]);
    assert!(cfg.select_enabled(&found).is_empty());
    assert!(!cfg.web_search_enabled());
}

#[test]
fn select_enabled_respects_disabled_flag() {
    let cfg = WebSearchConfig { enabled_tools: vec![tool("web_search", false)], ..with_sidecar() };
    let found = detect(&[json(r#"{"type":"web_search_20250305"}"#)]);
    assert!(cfg.select_enabled(&found).is_empty());
}

#[test]
fn select_enabled_explicit_tools_selects_matching() {
    let cfg = WebSearchConfig { enabled_tools: vec![tool("web_search", true)], ..with_sidecar() };
    let found = detect(&[json(r#"{"type":"web_search_20260209"}"#)]);
    assert_eq!(cfg.select_enabled(&found).len(), 1);
    let cfg = WebSearchConfig { enabled_tools: vec![tool("code", true)], ..with_sidecar() };
    assert!(cfg.select_enabled(&found).is_empty());
    assert!(EnabledServerTool::default().enabled);
}

#[test]
fn ws_config_value_encodes_selected_trigger_with_options() {
    let cfg = WebSearchConfig { lazy_defer: true, ..with_sidecar() };
    let found = detect(&[json(
        r#"{"type":"web_search_20250305","max_uses":5,"allowed_domains":["example.com"],"blocked_domains":["bad.example"],"user_location":{"city":"SF"}}"#,
    )]);
    let selected = cfg.select_enabled(&found);
    let v = cfg
        .ws_config_value(&selected, RouteType::Messages)
        .expect("non-empty selection encodes a config");
    let v = value(&v);
    assert_eq!(v["route_type"], "llm/v1/messages");
    assert_eq!(v["lazy_defer"], true);
    assert_eq!(v["tools"][0]["name"], "web_search");
    assert_eq!(v["tools"][0]["max_uses"], 5);
    assert_eq!(v["tools"][0]["allowed_domains"][0], "example.com");
    assert_eq!(v["tools"][0]["blocked_domains"][0], "bad.example");
    assert_eq!(v["tools"][0]["user_location"]["city"], "SF");
}

#[test]
fn ws_config_value_omits_absent_optional_fields() {
    let cfg = with_sidecar();
    let found = detect(&[json(r#"{"type":"web_search"}"#)]);
    let selected = cfg.select_enabled(&found);
    let v = value(&cfg.ws_config_value(&selected, RouteType::Completions).unwrap());
    let entry = &v["tools"][0];
    assert_eq!(entry["name"], "web_search");
    assert!(entry.get("max_uses").is_none());
    assert!(entry.get("allowed_domains").is_none());
    assert!(entry.get("blocked_domains").is_none());
    assert!(entry.get("user_location").is_none());
    assert_eq!(v["route_type"], "llm/v1/chat");
    assert_eq!(v["lazy_defer"], false);
}

#[test]
fn ws_config_value_none_for_empty_selection() {
    let cfg = WebSearchConfig::default();
    let found = detect(&[json(r#"{"type":"web_search_20250305"}"#)]);
    let selected = cfg.select_enabled(&found);
    assert!(cfg.ws_config_value(&selected, RouteType::Messages).is_none());
}

#[test]
fn route_type_string_maps_all_chat_routes() {
    assert_eq!(route_type_string(RouteType::Completions), "llm/v1/chat");
    assert_eq!(route_type_string(RouteType::Messages), "llm/v1/messages");
    assert_eq!(route_type_string(RouteType::AnthropicTokenCount), "llm/v1/messages");
    assert_eq!(route_type_string(RouteType::Responses), "llm/v1/responses");
    assert_eq!(route_type_string(RouteType::Rerank), "llm/v1/chat");
}

#[test]
fn from_sidecar_url_parses_host_and_default_port() {
    let r = WebSearchReroute::from_sidecar_url("http://sidecar.local").expect("valid url");
    assert!(matches!(r.target, Target::Hostname(h, 80) if h == "sidecar.local"));
}

#[test]
fn from_sidecar_url_parses_https_explicit_port() {
    let r = WebSearchReroute::from_sidecar_url("https://sidecar:8443/path").expect("valid url");
    assert!(matches!(r.target, Target::Hostname(h, 8443) if h == "sidecar"));
    let r = WebSearchReroute::from_sidecar_url("https://sidecar").expect("valid url");
    assert!(matches!(r.target, Target::Hostname(_, 443)));
}

#[test]
fn from_sidecar_url_rejects_invalid() {
    assert!(WebSearchReroute::from_sidecar_url("not a url").is_none());
    assert!(WebSearchReroute::from_sidecar_url("mailto:foo@bar").is_none());
    assert!(WebSearchReroute::from_sidecar_url("file:///tmp/x").is_none());
}

#[test]
fn sidecar_parts_decide_the_target() {
    let parts = |host: Option<&str>, port: Option<u16>| {
        WebSearchReroute::from_parts(Some(UrlParts { host: host.map(str::to_string), port }))
    };
    assert!(parts(None, Some(1)).is_none());
    assert!(parts(Some(""), Some(1)).is_none());
    assert!(matches!(parts(Some("h"), None), Some(WebSearchReroute { target: Target::Hostname(_, 80) })));
    assert!(WebSearchReroute::from_parts(None).is_none());
}

#[test]
fn detects_anthropic_server_tool_by_type() {
    let tools = vec![json(
        r#"{"type":"web_search_20250305","max_uses":5,"allowed_domains":["example.com"],"blocked_domains":["bad.example"],"user_location":{"city":"SF"}}"#,
    )];
    let found = detect(&tools);
    assert_eq!(found.len(), 1);
    assert_eq!(found[0].name, "web_search");
    assert_eq!(found[0].max_uses, Some(5));
    assert_eq!(found[0].allowed_domains.as_deref(), Some(&["example.com".to_string()][..]));
    assert_eq!(found[0].user_location, Some(json(r#"{"city":"SF"}"#)));
}

#[test]
fn detects_openai_responses_variant() {
    assert_eq!(detect(&[json(r#"{"type":"web_search_preview"}"#)]).len(), 1);
    assert_eq!(detect(&[json(r#"{"type":"web_search"}"#)]).len(), 1);
}

#[test]
fn ignores_function_tool_named_web_search() {
    let tools = vec![json(r#"{"type":"function","function":{"name":"web_search"}}"#)];
    assert!(detect(&tools).is_empty());
}

#[test]
fn ignores_non_string_type() {
    assert!(!is_web_search_server_tool(&json(r#"{"type":42}"#)));
    assert!(!is_web_search_server_tool(&json(r#"{"name":"web_search_20250305"}"#)));
    assert!(!is_web_search_server_tool(&json("42")));
}

#[test]
fn detect_handles_empty_and_non_array() {
    assert!(detect(&[]).is_empty());
}

#[test]
fn detection_keeps_order_and_passes_over_odd_domains() {
    let tools = vec![
        json(r#"{"type":"web_search","max_uses":1,"allowed_domains":["a",7,"b"],"blocked_domains":"x"}"#),
        json(r#"{"type":"function"}"#),
        json(r#"{"type":"web_search_20260318","max_uses":2}"#),
    ];
    let found = detect(&tools);
    assert_eq!(found.iter().map(|t| t.max_uses).collect::<Vec<_>>(), vec![Some(1), Some(2)]);
    assert_eq!(found[0].allowed_domains, Some(vec!["a".to_string(), "b".to_string()]));
    assert_eq!(found[0].blocked_domains, None);
    assert!(WebSearchTrigger::from_tool(&tools[1]).is_none());
}
