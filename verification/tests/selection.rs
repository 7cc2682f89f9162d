use std::hash::{Hash, Hasher};

use agentgateway::clock::Moment;
use agentgateway::http::capacity::Policy as CapacityPolicy;
use agentgateway::http::health_prober::{
    next_sweep, probe_answer, probe_body, probe_request, probe_succeeded, record_outcome, set_host,
    BackendState, CallOutcome, HostError, ProbeRecord, ProberGenerationRegistry, Provider, Sweep,
};
use agentgateway::target::{hostport, Target};
use agentgateway::llm::selection::{
    consistent_select, is_over_capacity, is_pinned, score_bias, EndpointInfo, SelectionContext, PINNED_OVER_CAP,
    PINNED_UNDER_CAP, UNPINNED_OVER_CAP, UNPINNED_UNDER_CAP,
};
use agentgateway::store::selection_state::{PinEntry, SelectionState, TpmCounter};

const NOW: Moment = Moment { nanos: 5_000_000_000 };

fn pin(backend: &str, expires_at: Moment) -> PinEntry {
    PinEntry { backend_name: backend.to_string(), expires_at }
}

fn keyed(key: &str) -> SelectionContext<'_> {
    SelectionContext { key: Some(key), input_tokens: None, consistent_hash: false }
}

fn idle() -> EndpointInfo {
    EndpointInfo { pending_requests: 0 }
}

/// The score that a bias in tenths makes of a raw one.
fn composed(raw: f64, bias: u32) -> f64 {
    raw * (bias as f64 / 10.0)
}

#[test]
fn none_ctx_is_pass_through() {
    let ctx = SelectionContext::none();
    assert!(ctx.key.is_none());
    assert!(ctx.input_tokens.is_none());
    assert!(!ctx.consistent_hash);
}

#[test]
fn bias_multipliers_ordered() {
    assert!(PINNED_UNDER_CAP > PINNED_OVER_CAP);
    assert!(PINNED_OVER_CAP > UNPINNED_UNDER_CAP);
    assert!(UNPINNED_UNDER_CAP > UNPINNED_OVER_CAP);
}

#[test]
fn is_pinned_returns_false_without_state() {
    assert!(!is_pinned("be-a", &keyed("key-a"), None, NOW));
}

#[test]
fn is_pinned_returns_false_without_key() {
    let state = SelectionState::default();
    assert!(!is_pinned("be-a", &SelectionContext::none(), Some(&state), NOW));
}

#[test]
fn is_pinned_matches_live_pin() {
    let mut state = SelectionState::default();
    state.set_pin("key-a".to_string(), pin("be-a", NOW.plus_secs(60)));
    assert!(is_pinned("be-a", &keyed("key-a"), Some(&state), NOW));
    assert!(!is_pinned("be-b", &keyed("key-a"), Some(&state), NOW));
    assert!(!is_pinned("be-a", &keyed("key-b"), Some(&state), NOW));
}

#[test]
fn is_pinned_ignores_expired_pin() {
    let mut state = SelectionState::default();
    state.set_pin("key-a".to_string(), pin("be-a", NOW));
    assert!(!is_pinned("be-a", &keyed("key-a"), Some(&state), NOW));
}

#[test]
fn composed_score_none_reduces_to_raw() {
    let raw = 0.75;
    let bias = score_bias("be-a", &idle(), &SelectionContext::none(), None, None, NOW);
    assert_eq!(composed(raw, bias), raw);
}

#[test]
fn pinned_under_cap_beats_unpinned_under_cap() {
    let mut state = SelectionState::default();
    state.set_pin("key-a".to_string(), pin("ep-1", NOW.plus_secs(60)));
    let raw = 0.75;
    let score_pinned = composed(raw, score_bias("ep-1", &idle(), &keyed("key-a"), Some(&state), None, NOW));
    let score_unpinned = composed(raw, score_bias("ep-2", &idle(), &keyed("key-a"), Some(&state), None, NOW));
    assert_eq!(score_pinned, raw * 2.0);
    assert_eq!(score_unpinned, raw * 1.0);
    assert!(score_pinned > score_unpinned);
}

#[test]
fn tpm_over_cap_deprioritizes() {
    let mut state = SelectionState::default();
    let mut ctr = TpmCounter::new(NOW);
    ctr.check_and_debit(1000, 1000, NOW);
    state.set_counter("ep-1".to_string(), ctr);
    let capacity = CapacityPolicy {
        inflight_cap: None,
        tpm_per_minute: Some(1000),
        cooldown: Some(std::time::Duration::from_secs(3)),
    };
    let ctx = SelectionContext { key: None, input_tokens: Some(500), consistent_hash: false };
    let raw = 0.75;
    let score_over = composed(raw, score_bias("ep-1", &idle(), &ctx, Some(&state), Some(&capacity), NOW));
    let score_fresh = composed(raw, score_bias("ep-2", &idle(), &ctx, Some(&state), Some(&capacity), NOW));
    assert_eq!(score_over, raw * 0.5);
    assert_eq!(score_fresh, raw * 1.0);
    assert!(score_fresh > score_over);
}

#[test]
fn per_pod_pin_divergence() {
    let mut state_a = SelectionState::default();
    let mut state_b = SelectionState::default();
    state_a.set_pin("key-a".to_string(), pin("ep-1", NOW.plus_secs(60)));
    state_b.set_pin("key-a".to_string(), pin("ep-2", NOW.plus_secs(60)));
    let ctx = keyed("key-a");
    assert!(is_pinned("ep-1", &ctx, Some(&state_a), NOW));
    assert!(!is_pinned("ep-2", &ctx, Some(&state_a), NOW));
    assert!(is_pinned("ep-2", &ctx, Some(&state_b), NOW));
    assert!(!is_pinned("ep-1", &ctx, Some(&state_b), NOW));
}

#[test]
fn a_later_pin_takes_the_place_of_an_earlier_one() {
    let mut state = SelectionState::default();
    state.set_pin("k".to_string(), pin("ep-1", NOW.plus_secs(60)));
    state.set_pin("k".to_string(), pin("ep-2", NOW.plus_secs(60)));
    assert_eq!(state.pin("k").map(|p| p.backend_name), Some("ep-2".to_string()));
    assert!(state.pin("other").is_none());
    assert!(state.counter("ep-1").is_none());
}

#[test]
fn capacity_counts_requests_and_tokens() {
    let state = SelectionState::default();
    let ctx = SelectionContext { key: None, input_tokens: Some(10), consistent_hash: false };
    let cap = |inflight: Option<i32>, tpm: Option<i64>| CapacityPolicy {
        inflight_cap: inflight,
        tpm_per_minute: tpm,
        cooldown: None,
    };
    let busy = EndpointInfo { pending_requests: 4 };
    assert!(is_over_capacity("e", &busy, &ctx, Some(&cap(Some(4), None)), Some(&state), NOW));
    assert!(!is_over_capacity("e", &busy, &ctx, Some(&cap(Some(5), None)), Some(&state), NOW));
    assert!(!is_over_capacity("e", &busy, &ctx, None, Some(&state), NOW));
    // An endpoint without a counter has its whole budget.
    assert!(!is_over_capacity("e", &idle(), &ctx, Some(&cap(None, Some(1))), Some(&state), NOW));
    // A cap below zero is a budget without end.
    let mut used = SelectionState::default();
    let mut ctr = TpmCounter::new(NOW);
    ctr.check_and_debit(100, 1000, NOW);
    used.set_counter("e".to_string(), ctr);
    assert!(!is_over_capacity("e", &idle(), &ctx, Some(&cap(None, Some(-1))), Some(&used), NOW));
    assert!(is_over_capacity("e", &idle(), &ctx, Some(&cap(None, Some(109))), Some(&used), NOW));
}

#[test]
fn consistent_select_is_deterministic() {
    let endpoints = vec!["ep-a", "ep-b", "ep-c"];
    let first = consistent_select("key-1", &endpoints).unwrap();
    let second = consistent_select("key-1", &endpoints).unwrap();
    assert_eq!(first, second, "HRW must be deterministic for the same key");
}

#[test]
fn consistent_select_different_keys_can_differ() {
    let endpoints = vec!["ep-a", "ep-b", "ep-c"];
    let results: std::collections::HashSet<_> =
        (0..30).map(|i| consistent_select(&format!("key-{i}"), &endpoints).unwrap()).collect();
    assert!(results.len() > 1, "HRW should distribute across endpoints, not always pick the same one");
}

#[test]
fn consistent_select_empty_returns_none() {
    let result = consistent_select("key-1", &[]);
    assert!(result.is_none());
}

#[test]
fn consistent_select_is_the_greatest_hash() {
    let weight = |key: &str, name: &str| {
        let mut hasher = std::collections::hash_map::DefaultHasher::new();
        key.hash(&mut hasher);
        name.hash(&mut hasher);
        hasher.finish()
    };
    let endpoints = ["ep-a", "ep-b", "ep-c", "ep-d"];
    for i in 0..50 {
        let key = format!("key-{i}");
        let expected = endpoints.iter().copied().max_by_key(|n| weight(&key, n));
        assert_eq!(consistent_select(&key, &endpoints), expected);
    }
}

#[test]
fn consistent_select_moves_few_keys() {
    let all = ["ep-a", "ep-b", "ep-c"];
    let fewer = ["ep-a", "ep-c"];
    for i in 0..50 {
        let key = format!("key-{i}");
        let before = consistent_select(&key, &all).unwrap();
        let after = consistent_select(&key, &fewer).unwrap();
        if before != "ep-b" {
            assert_eq!(before, after);
        }
        assert_eq!(consistent_select(&key, &["ep-c", "ep-a", "ep-b"]), Some(before));
    }
}

#[test]
fn pin_entry_expiry() {
    let entry = pin("be-a", NOW);
    assert!(entry.is_expired(NOW));
    let future = pin("be-a", NOW.plus_secs(60));
    assert!(!future.is_expired(NOW));
}

#[test]
fn tpm_under_cap_debits() {
    let mut ctr = TpmCounter::new(NOW);
    let (total, over) = ctr.check_and_debit(500, 1000, NOW);
    assert_eq!(total, 500);
    assert!(!over);
    assert_eq!(ctr.debited, 500);
}

#[test]
fn tpm_over_cap_rejects_without_debit() {
    let mut ctr = TpmCounter::new(NOW);
    ctr.check_and_debit(800, 1000, NOW);
    let (total, over) = ctr.check_and_debit(300, 1000, NOW);
    assert!(over);
    assert_eq!(total, 1100);
    assert_eq!(ctr.debited, 800);
}

#[test]
fn tpm_true_up_frees_phantom_debt() {
    let mut ctr = TpmCounter::new(NOW);
    ctr.check_and_debit(1000, 1000, NOW);
    ctr.trued_up(1000, 200);
    assert_eq!(ctr.actual, 200);
    assert_eq!(ctr.debited, 0);
    let (total, over) = ctr.check_and_debit(800, 1000, NOW);
    assert!(!over);
    assert_eq!(total, 800);
}

#[test]
fn tpm_window_rolls_over_after_a_minute() {
    let mut ctr = TpmCounter::new(NOW);
    ctr.check_and_debit(1000, 1000, NOW);
    let almost = Moment { nanos: NOW.plus_secs(60).nanos - 1 };
    assert!(ctr.check(1, 1000, almost));
    assert_eq!(ctr.check_and_debit(1, 1000, almost), (1001, true));
    let later = NOW.plus_secs(60);
    assert!(!ctr.check(1, 1000, later));
    assert_eq!(ctr.check_and_debit(7, 1000, later), (7, false));
    assert_eq!(ctr.window_start_nanos, later.nanos);
    // A request larger than the whole budget is let through by the check alone.
    let stale = TpmCounter::new(NOW);
    assert!(!stale.check(2000, 1000, later));
    let mut stale = stale;
    assert_eq!(stale.check_and_debit(2000, 1000, later), (2000, true));
}

#[test]
fn tpm_counts_at_the_limits() {
    let mut ctr = TpmCounter::new(NOW);
    assert_eq!(ctr.check_and_debit(u64::MAX, u64::MAX, NOW), (u64::MAX, false));
    assert_eq!(ctr.check_and_debit(2, u64::MAX - 1, NOW), (u64::MAX, true));
    ctr.trued_up(u64::MAX, 1);
    ctr.trued_up(5, 1);
    assert_eq!(ctr.debited, 0);
    assert_eq!(ctr.actual, 2);
}

#[test]
fn tpm_accepted_debit_never_lowers_the_total() {
    let mut ctr = TpmCounter::new(NOW);
    ctr.check_and_debit(1, u64::MAX, NOW);
    assert_eq!(ctr.check_and_debit(u64::MAX, u64::MAX, NOW), (u64::MAX, false));
    assert_eq!(ctr.debited, u64::MAX);
    assert_eq!(ctr.check_and_debit(0, u64::MAX, NOW), (u64::MAX, false));
}

#[test]
fn a_bump_moves_one_generation_and_a_first_claim_gets_zero() {
    let mut registry = ProberGenerationRegistry::default();
    assert_eq!(registry.try_claim_spawn("a"), Some((0, 0)));
    registry.bump("a");
    registry.bump("b");
    registry.bump("a");
    assert_eq!(registry.generation(0), Some(2));
    assert_eq!(registry.generation(1), None);
    assert_eq!(registry.try_claim_spawn("b"), Some((1, 0)));
    assert_eq!(registry.try_claim_spawn("a"), Some((0, 2)));
}

#[test]
fn try_claim_spawn_dedups_concurrent_callers() {
    let mut registry = ProberGenerationRegistry::default();
    let k = "backend-a";
    let first = registry.try_claim_spawn(k);
    assert!(first.is_some(), "first claim should succeed");
    registry.mark_in_flight(k);
    let second = registry.try_claim_spawn(k);
    assert!(second.is_none(), "second claim while in-flight should be rejected");
    registry.clear_in_flight(k);
    let third = registry.try_claim_spawn(k);
    assert!(third.is_some(), "claim after clear should succeed");
}

#[test]
fn bump_invalidates_running_prober() {
    let mut registry = ProberGenerationRegistry::default();
    let k = "backend-b";
    let (slot, spawned_generation) = registry.try_claim_spawn(k).expect("claim succeeds");
    assert_eq!(registry.generation(slot), Some(spawned_generation));
    registry.bump(k);
    let now = registry.generation(slot).expect("the place is taken");
    assert_ne!(now, spawned_generation, "bump must diverge from captured value");
    assert_eq!(next_sweep(now, spawned_generation, BackendState::Ai), Sweep::ExitStale);
}

#[test]
fn bump_on_absent_key_is_a_noop() {
    let mut registry = ProberGenerationRegistry::default();
    registry.bump("never-spawned");
    assert_eq!(registry.generation(0), None);
    assert_eq!(registry.try_claim_spawn("never-spawned"), Some((0, 0)));
}

#[test]
fn independent_keys_do_not_interfere() {
    let mut registry = ProberGenerationRegistry::default();
    let (slot_a, spawn_a) = registry.try_claim_spawn("backend-a").expect("claim a");
    registry.mark_in_flight("backend-a");
    let (slot_b, _) = registry.try_claim_spawn("backend-b").expect("claim b");
    registry.bump("backend-b");
    assert_ne!(slot_a, slot_b);
    assert_eq!(
        registry.generation(slot_a),
        Some(spawn_a),
        "bumping a different key must not invalidate this prober"
    );
}

#[test]
fn re_claim_after_bump_uses_bumped_generation() {
    let mut registry = ProberGenerationRegistry::default();
    let k = "backend-c";
    let (slot, spawn_gen) = registry.try_claim_spawn(k).expect("first claim");
    registry.mark_in_flight(k);
    registry.clear_in_flight(k);
    registry.bump(k);
    let (slot2, spawn_gen2) = registry.try_claim_spawn(k).expect("re-claim after bump");
    assert_eq!(slot, slot2, "the place is reused across claims");
    assert_eq!(spawn_gen2, spawn_gen + 1, "re-claim captures the bumped generation value");
}

#[test]
fn sweeps_end_when_the_backend_does() {
    assert_eq!(next_sweep(1, 1, BackendState::Ai), Sweep::Probe);
    assert_eq!(next_sweep(1, 1, BackendState::Dropped), Sweep::ExitDropped);
    assert_eq!(next_sweep(1, 1, BackendState::NotAi), Sweep::ExitNotAi);
    assert_eq!(next_sweep(2, 1, BackendState::Dropped), Sweep::ExitStale);
}

#[test]
fn probes_evict_only_after_a_streak() {
    let mut failures: u64 = 0;
    let healthy = ProbeRecord { healthy: true, may_evict: false };
    let unhealthy = ProbeRecord { healthy: false, may_evict: false };
    let evicting = ProbeRecord { healthy: false, may_evict: true };
    // Below the threshold a failure counts against the health and evicts nothing.
    assert_eq!(record_outcome(false, 2, &mut failures), unhealthy);
    assert_eq!(failures, 1);
    assert_eq!(record_outcome(false, 2, &mut failures), evicting);
    assert_eq!(record_outcome(false, 2, &mut failures), evicting);
    assert_eq!(record_outcome(true, 2, &mut failures), healthy);
    assert_eq!(failures, 0);
    assert_eq!(record_outcome(false, 2, &mut failures), unhealthy);
    // A threshold of zero counts as one.
    let mut failures: u64 = 0;
    assert_eq!(record_outcome(false, 0, &mut failures), evicting);
    assert!(probe_succeeded(Some(299)));
    assert!(!probe_succeeded(Some(300)));
    assert!(!probe_succeeded(Some(199)));
    assert!(!probe_succeeded(None));
}

#[test]
fn probe_goes_to_a_known_target() {
    let host = || Some(Target::Hostname("own".to_string(), 1));
    let default = || Some(Target::Address("10.0.0.1:80".to_string()));
    let provider = |host_override: Option<Target>, default_target: Option<Target>| Provider {
        name: "p".to_string(),
        host_override,
        default_target,
    };
    let probe = probe_request(provider(host(), default())).ok().unwrap();
    assert_eq!(probe.target, host().unwrap());
    assert_eq!(probe.body, probe_body("p"));
    assert_eq!((probe.content_type, probe.accept), ("application/json", "application/json"));
    assert_eq!(probe.policies.name, "p");
    assert_eq!(probe.policies.namespace, "");
    assert_eq!(probe.policies.section, "p");
    assert_eq!(probe_request(provider(None, default())).ok().unwrap().target, default().unwrap());
    assert_eq!(
        probe_request(provider(None, None)).err().as_deref(),
        Some("custom provider p without host_override is not probeable")
    );
}

#[test]
fn probe_answers_say_why_there_is_none() {
    assert_eq!(probe_answer(CallOutcome::Answered(404)), Ok(404));
    assert_eq!(
        probe_answer(CallOutcome::Failed("refused".to_string())),
        Err("probe upstream call: refused".to_string())
    );
    assert_eq!(
        probe_answer(CallOutcome::TimedOut("2s".to_string())),
        Err("probe timed out after 2s".to_string())
    );
}

#[test]
fn probe_asks_for_one_token() {
    assert_eq!(
        probe_body("gpt \"x\""),
        r#"{"max_tokens":1,"messages":[{"content":"ping","role":"user"}],"model":"gpt \"x\"","stream":false}"#
    );
}

#[test]
fn probe_host_comes_from_the_target() {
    let named = Target::Hostname("api.example".to_string(), 443);
    assert_eq!(hostport(&named), "api.example:443");
    let plan = set_host(false, &named).ok().unwrap();
    assert_eq!(plan.authority, "api.example");
    assert_eq!(plan.host_header.as_deref(), Some("api.example:443"));
    let plan = set_host(true, &Target::Hostname("api.example".to_string(), 8080)).ok().unwrap();
    assert_eq!(plan.authority, "api.example:8080");
    assert!(plan.host_header.is_none());
    let plan = set_host(false, &Target::Address("10.0.0.1:9".to_string())).ok().unwrap();
    assert_eq!(plan.authority, "10.0.0.1:9");
    assert_eq!(plan.host_header.as_deref(), Some("10.0.0.1:9"));
    let bad = Target::Hostname("a b".to_string(), 1);
    assert_eq!(set_host(false, &bad).err(), Some(HostError::InvalidAuthority));
}
