use lume_core::command::{CommandOutcome, CommandResult};
use lume_core::effect::{Effect, EffectKind};
use lume_core::executor::plan_dispatch;
use lume_core::executor::join_outcomes;
use lume_core::registry::{HealthState, NetAddress, Registry, DEFAULT_HEALTH_WINDOW_MS};
use lume_core::timeline::{Cue, Timeline};
use lume_core::transport::{resolve_send, should_retry, SendAttempt};
use lume_core::validation::{validate, IssueKind, ValidationError};
use lume_core::{saturating_add, seconds_to_millis};

fn cue(id: u64, start_ms: u64, duration_ms: u64, kind: EffectKind, targets: Vec<u64>) -> Cue {
    Cue {
        id,
        start_ms,
        duration_ms,
        effect: Effect { kind, intensity: 100 },
        targets,
    }
}

fn addr(host: u32, port: u16) -> NetAddress {
    NetAddress { host, port }
}

fn outcome(controller_id: u64, cue_id: u64, result: CommandResult, latency_ms: u64) -> CommandOutcome {
    CommandOutcome {
        controller_id,
        cue_id,
        result,
        latency_ms,
    }
}

#[test]
fn load_accepts_ordered_cues_and_computes_duration() {
    let cues = vec![
        cue(1, 0, 1000, EffectKind::Flash, vec![0]),
        cue(2, 2000, 3000, EffectKind::Launch, vec![1]),
    ];
    let timeline = Timeline::load(7, cues).expect("well-formed cue data");
    assert_eq!(timeline.show_id, 7);
    assert_eq!(timeline.total_duration(), 5000);
}

#[test]
fn load_rejects_cue_without_targets() {
    let cues = vec![cue(1, 0, 1000, EffectKind::Flash, vec![])];
    let err = Timeline::load(1, cues).unwrap_err();
    assert!(matches!(err, ValidationError::EmptyTargets { cue_id: 1 }));
}

#[test]
fn load_rejects_end_time_overflow() {
    let cues = vec![cue(1, u64::MAX - 5, 10, EffectKind::Flash, vec![0])];
    let err = Timeline::load(1, cues).unwrap_err();
    assert!(matches!(err, ValidationError::EndTimeOverflow { cue_id: 1 }));
}

#[test]
fn load_rejects_unordered_cues() {
    let cues = vec![
        cue(1, 2000, 0, EffectKind::Flash, vec![0]),
        cue(2, 1000, 0, EffectKind::Flash, vec![0]),
    ];
    let err = Timeline::load(1, cues).unwrap_err();
    assert!(matches!(err, ValidationError::CuesNotOrdered { position: 1 }));
}

#[test]
fn load_rejects_duplicate_cue_id() {
    let cues = vec![
        cue(1, 0, 0, EffectKind::Flash, vec![0]),
        cue(1, 2000, 0, EffectKind::Flash, vec![0]),
    ];
    let err = Timeline::load(1, cues).unwrap_err();
    assert!(matches!(err, ValidationError::DuplicateCueId { cue_id: 1 }));
}

#[test]
fn cue_at_returns_cues_meeting_the_range() {
    let cues = vec![
        cue(1, 0, 1000, EffectKind::Flash, vec![0]),
        cue(2, 2000, 3000, EffectKind::Launch, vec![1]),
        cue(3, 7000, 0, EffectKind::Burst, vec![1]),
    ];
    let timeline = Timeline::load(1, cues).unwrap();
    let hits = timeline.cue_at(1500, 2500);
    assert_eq!(hits.len(), 1);
    assert_eq!(hits[0].id, 2);
    let point = timeline.cue_at(7000, 7000);
    assert_eq!(point.len(), 1);
    assert_eq!(point[0].id, 3);
    let everything = timeline.cue_at(0, 10000);
    assert_eq!(everything.len(), 3);
}

#[test]
fn register_assigns_dense_ids_and_refuses_duplicate_address() {
    let mut registry = Registry::new();
    let a = registry
        .register(addr(1, 9000), vec![EffectKind::Flash])
        .unwrap();
    let b = registry
        .register(addr(2, 9000), vec![EffectKind::Launch])
        .unwrap();
    assert_eq!(a, 0);
    assert_eq!(b, 1);
    assert_eq!(registry.health(a), Some(HealthState::Unknown));
    assert_eq!(registry.health(99), None);
    let dup = registry.register(addr(1, 9000), vec![]).unwrap_err();
    assert_eq!(dup.address, addr(1, 9000));
}

#[test]
fn update_address_moves_endpoint_and_polices_uniqueness() {
    let mut registry = Registry::new();
    let a = registry.register(addr(1, 9000), vec![]).unwrap();
    let b = registry.register(addr(2, 9000), vec![]).unwrap();
    // Moving b onto a's endpoint is refused; moving it elsewhere works,
    // and re-stating a controller's own endpoint is a harmless no-op.
    assert_eq!(
        registry.update_address(b, addr(1, 9000)).unwrap_err().address,
        addr(1, 9000)
    );
    registry.update_address(b, addr(3, 9000)).unwrap();
    registry.update_address(a, addr(1, 9000)).unwrap();
    let c = registry.register(addr(2, 9000), vec![]).unwrap();
    assert_eq!(c, 2);
}

#[test]
fn three_consecutive_timeouts_in_window_mark_unreachable() {
    let mut registry = Registry::new();
    let id = registry.register(addr(1, 9000), vec![]).unwrap();
    registry.record_outcome(&outcome(id, 1, CommandResult::Timeout, 200), 1000);
    registry.record_outcome(&outcome(id, 1, CommandResult::Timeout, 200), 2000);
    assert_eq!(registry.health(id), Some(HealthState::Unknown));
    registry.record_outcome(&outcome(id, 2, CommandResult::TransportError, 0), 3000);
    assert_eq!(registry.health(id), Some(HealthState::Unreachable));
}

#[test]
fn one_success_recovers_immediately() {
    let mut registry = Registry::new();
    let id = registry.register(addr(1, 9000), vec![]).unwrap();
    for t in [1000u64, 2000, 3000] {
        registry.record_outcome(&outcome(id, 1, CommandResult::Timeout, 200), t);
    }
    assert_eq!(registry.health(id), Some(HealthState::Unreachable));
    registry.record_outcome(&outcome(id, 3, CommandResult::Success, 20), 3500);
    assert_eq!(registry.health(id), Some(HealthState::Reachable));
}

#[test]
fn failures_spread_past_the_window_do_not_trip() {
    let mut registry = Registry::new();
    let id = registry.register(addr(1, 9000), vec![]).unwrap();
    registry.record_outcome(&outcome(id, 1, CommandResult::Timeout, 200), 0);
    registry.record_outcome(&outcome(id, 1, CommandResult::Timeout, 200), 4000);
    registry.record_outcome(
        &outcome(id, 1, CommandResult::Timeout, 200),
        DEFAULT_HEALTH_WINDOW_MS + 1000,
    );
    assert_eq!(registry.health(id), Some(HealthState::Unknown));
    // The three most recent failures now span 2100 ms, inside the window.
    registry.record_outcome(&outcome(id, 1, CommandResult::Timeout, 200), 6100);
    assert_eq!(registry.health(id), Some(HealthState::Unreachable));
}

#[test]
fn rejected_outcomes_leave_health_alone() {
    let mut registry = Registry::new();
    let id = registry.register(addr(1, 9000), vec![]).unwrap();
    for t in [1000u64, 1100, 1200, 1300] {
        registry.record_outcome(&outcome(id, 1, CommandResult::Rejected, 50), t);
    }
    assert_eq!(registry.health(id), Some(HealthState::Unknown));
}

#[test]
fn reachable_controllers_filters_unreachable_and_unknown_ids() {
    let mut registry = Registry::new();
    let a = registry.register(addr(1, 9000), vec![]).unwrap();
    let b = registry.register(addr(2, 9000), vec![]).unwrap();
    for t in [1000u64, 1100, 1200] {
        registry.record_outcome(&outcome(b, 1, CommandResult::Timeout, 200), t);
    }
    let subset = registry.reachable_controllers(&vec![a, b, 42]);
    assert_eq!(subset, vec![a]);
}

#[test]
fn retry_only_on_timeout() {
    assert!(should_retry(CommandResult::Timeout));
    assert!(!should_retry(CommandResult::Rejected));
    assert!(!should_retry(CommandResult::Success));
    assert!(!should_retry(CommandResult::TransportError));
}

#[test]
fn resolve_send_without_retry_reports_first_attempt() {
    let o = resolve_send(
        3,
        9,
        SendAttempt { result: CommandResult::Rejected, latency_ms: 40 },
        None,
    );
    assert_eq!(o, outcome(3, 9, CommandResult::Rejected, 40));
}

#[test]
fn resolve_send_with_retry_sums_latency() {
    let o = resolve_send(
        3,
        9,
        SendAttempt { result: CommandResult::Timeout, latency_ms: 200 },
        Some(SendAttempt { result: CommandResult::Success, latency_ms: 35 }),
    );
    assert_eq!(o, outcome(3, 9, CommandResult::Success, 235));
}

#[test]
fn plan_dispatch_skips_unreachable_with_zero_latency_transport_error() {
    let mut registry = Registry::new();
    let a = registry.register(addr(1, 9000), vec![EffectKind::Flash]).unwrap();
    let b = registry.register(addr(2, 9000), vec![EffectKind::Flash]).unwrap();
    for t in [1000u64, 1100, 1200] {
        registry.record_outcome(&outcome(b, 1, CommandResult::Timeout, 200), t);
    }
    let c = cue(5, 0, 0, EffectKind::Flash, vec![a, b]);
    let plan = plan_dispatch(&c, &registry);
    assert_eq!(plan.attempts, vec![a]);
    assert_eq!(plan.skipped, vec![outcome(b, 5, CommandResult::TransportError, 0)]);
    let joined = join_outcomes(plan.skipped, vec![outcome(a, 5, CommandResult::Success, 12)]);
    assert_eq!(joined.len(), 2);
    assert_eq!(joined[0].controller_id, b);
    assert_eq!(joined[1].controller_id, a);
}

#[test]
fn validate_is_deterministic_on_equal_inputs() {
    let mut registry = Registry::new();
    registry.register(addr(1, 9000), vec![EffectKind::Flash]).unwrap();
    let cues = vec![
        cue(1, 0, 1000, EffectKind::Flash, vec![0, 7]),
        cue(2, 500, 1000, EffectKind::Strobe, vec![0]),
    ];
    let timeline = Timeline::load(1, cues).unwrap();
    let first = validate(&timeline, &registry);
    let second = validate(&timeline, &registry);
    assert_eq!(first.issues, second.issues);
}

#[test]
fn validate_reports_each_finding_in_cue_order() {
    let mut registry = Registry::new();
    let a = registry.register(addr(1, 9000), vec![EffectKind::Flash]).unwrap();
    let cues = vec![
        // Unresolved reference to 7, overlap with the strobe cue below.
        cue(1, 0, 1000, EffectKind::Flash, vec![a, 7]),
        // No target declares Strobe, and it contends with the flash cue.
        cue(2, 500, 1000, EffectKind::Strobe, vec![a]),
    ];
    let timeline = Timeline::load(1, cues).unwrap();
    let report = validate(&timeline, &registry);
    assert!(report.has_errors());
    assert_eq!(
        report.issues,
        vec![
            IssueKind::UnresolvedController { cue_id: 1, controller_id: 7 },
            IssueKind::ConflictingOverlap { cue_id: 1, other_cue_id: 2 },
            IssueKind::CapabilityMismatch { cue_id: 2 },
        ]
    );
}

#[test]
fn zero_duration_overlap_on_shared_controller_warns() {
    let mut registry = Registry::new();
    let a = registry
        .register(addr(1, 9000), vec![EffectKind::Flash, EffectKind::Strobe])
        .unwrap();
    // An instantaneous strobe inside the flash's span on the same
    // controller: a degenerate overlap, still flagged as contention.
    let cues = vec![
        cue(1, 0, 1000, EffectKind::Flash, vec![a]),
        cue(2, 500, 0, EffectKind::Strobe, vec![a]),
    ];
    let timeline = Timeline::load(1, cues).unwrap();
    let report = validate(&timeline, &registry);
    assert!(!report.has_errors());
    assert_eq!(
        report.issues,
        vec![IssueKind::ConflictingOverlap { cue_id: 1, other_cue_id: 2 }]
    );
}

#[test]
fn validate_passes_a_clean_timeline() {
    let mut registry = Registry::new();
    let a = registry.register(addr(1, 9000), vec![EffectKind::Flash]).unwrap();
    let b = registry
        .register(addr(2, 9000), vec![EffectKind::Launch])
        .unwrap();
    let cues = vec![
        cue(1, 0, 1000, EffectKind::Flash, vec![a]),
        cue(2, 2000, 3000, EffectKind::Launch, vec![b]),
    ];
    let timeline = Timeline::load(1, cues).unwrap();
    let report = validate(&timeline, &registry);
    assert!(!report.has_errors());
    assert!(report.issues.is_empty());
}

#[test]
fn conversion_helpers_compute_exact_values() {
    assert_eq!(seconds_to_millis(5), 5000);
    assert_eq!(seconds_to_millis(u64::MAX), u64::MAX);
    assert_eq!(saturating_add(1, 2), 3);
    assert_eq!(saturating_add(u64::MAX - 1, 5), u64::MAX);
}
