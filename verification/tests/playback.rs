use lume_core::command::{CommandOutcome, CommandResult};
use lume_core::effect::{Effect, EffectKind};
use lume_core::export::{export_show, ExportFormat};
use lume_core::load_show;
use lume_core::registry::{NetAddress, Registry};
use lume_core::scheduler::{Scheduler, Status};
use lume_core::system::{get_memory_usage, SystemInfo};
use lume_core::timeline::Cue;
use lume_core::validation::ValidationError;

fn cue(id: u64, start_ms: u64, duration_ms: u64, kind: EffectKind, targets: Vec<u64>) -> Cue {
    Cue {
        id,
        start_ms,
        duration_ms,
        effect: Effect { kind, intensity: 100 },
        targets,
    }
}

/// The show the scenarios share: a flash on controller A at t=0 and a
/// launch on controller B at t=2s, total duration 5s.
fn demo_show() -> (Scheduler, Registry, u64, u64) {
    let mut registry = Registry::new();
    let a = registry
        .register(NetAddress { host: 1, port: 9000 }, vec![EffectKind::Flash])
        .unwrap();
    let b = registry
        .register(NetAddress { host: 2, port: 9000 }, vec![EffectKind::Launch])
        .unwrap();
    let cues = vec![
        cue(10, 0, 1000, EffectKind::Flash, vec![a]),
        cue(20, 2000, 3000, EffectKind::Launch, vec![b]),
    ];
    let scheduler = load_show(1, cues, &registry).expect("demo show validates");
    (scheduler, registry, a, b)
}

#[test]
fn advancing_to_three_seconds_leaves_only_the_launch_cue_active() {
    let (mut scheduler, _registry, a, b) = demo_show();
    scheduler.start().unwrap();
    let first = scheduler.tick(0).unwrap();
    assert_eq!(first, vec![10]);
    let second = scheduler.tick(3000).unwrap();
    assert_eq!(second, vec![20]);
    // Both controllers reachable: every send succeeds, nothing is logged.
    scheduler.note_outcome(&CommandOutcome {
        controller_id: a,
        cue_id: 10,
        result: CommandResult::Success,
        latency_ms: 12,
    });
    scheduler.note_outcome(&CommandOutcome {
        controller_id: b,
        cue_id: 20,
        result: CommandResult::Success,
        latency_ms: 15,
    });
    let status = scheduler.status_snapshot();
    assert_eq!(status.status, Status::Playing);
    assert_eq!(status.current_ms, 3000);
    assert_eq!(status.total_duration_ms, 5000);
    assert_eq!(status.active_cue_ids, vec![20]);
    assert_eq!(status.fault_count, 0);
}

#[test]
fn silent_controller_leaves_one_fault_entry_and_full_clock() {
    let (mut scheduler, mut registry, a, b) = demo_show();
    scheduler.start().unwrap();
    let mut clock: u64 = 0;
    while clock < 5000 {
        let due = scheduler.tick(250).unwrap();
        clock += 250;
        for id in due {
            // Controller B never responds: its one command times out,
            // twice counting the retry, and is logged. A succeeds.
            let (controller, result) = if id == 20 {
                (b, CommandResult::Timeout)
            } else {
                (a, CommandResult::Success)
            };
            let outcome = CommandOutcome {
                controller_id: controller,
                cue_id: id,
                result,
                latency_ms: 200,
            };
            scheduler.note_outcome(&outcome);
            registry.record_outcome(&outcome, clock);
        }
    }
    let status = scheduler.status_snapshot();
    assert_eq!(status.current_ms, 5000);
    let log = scheduler.fault_log();
    assert_eq!(log.len(), 1);
    assert_eq!(log[0].cue_id, 20);
    assert_eq!(log[0].controller_id, b);
    assert_eq!(log[0].result, CommandResult::Timeout);
}

#[test]
fn seek_past_a_cue_does_not_replay_it() {
    let (mut scheduler, _registry, _a, _b) = demo_show();
    scheduler.start().unwrap();
    assert_eq!(scheduler.tick(0).unwrap(), vec![10]);
    scheduler.pause().unwrap();
    scheduler.seek(1500).unwrap();
    scheduler.resume().unwrap();
    // The flash cue at t=0 stays behind the seek point; the launch cue
    // fires once the clock reaches 2000.
    assert_eq!(scheduler.tick(400).unwrap(), Vec::<u64>::new());
    assert_eq!(scheduler.tick(100).unwrap(), vec![20]);
}

#[test]
fn pause_and_resume_keep_clock_and_dispatched_state() {
    let (mut scheduler, _registry, _a, _b) = demo_show();
    scheduler.start().unwrap();
    scheduler.tick(500).unwrap();
    let before = scheduler.status_snapshot();
    scheduler.pause().unwrap();
    let paused = scheduler.status_snapshot();
    assert_eq!(paused.status, Status::Paused);
    assert_eq!(paused.current_ms, before.current_ms);
    assert_eq!(paused.active_cue_ids, before.active_cue_ids);
    scheduler.resume().unwrap();
    let resumed = scheduler.status_snapshot();
    assert_eq!(resumed.status, Status::Playing);
    assert_eq!(resumed.current_ms, before.current_ms);
    assert_eq!(resumed.active_cue_ids, before.active_cue_ids);
    // Nothing is re-dispatched by the pause/resume round trip.
    assert_eq!(scheduler.tick(0).unwrap(), Vec::<u64>::new());
}

#[test]
fn clock_is_monotonic_across_playing_snapshots() {
    let (mut scheduler, _registry, _a, _b) = demo_show();
    scheduler.start().unwrap();
    let mut last: u64 = scheduler.status_snapshot().current_ms;
    for elapsed in [0u64, 17, 100, 0, 2000, 50000, u64::MAX] {
        scheduler.tick(elapsed).unwrap();
        let now = scheduler.status_snapshot().current_ms;
        assert!(now >= last);
        last = now;
    }
    assert_eq!(last, u64::MAX);
}

#[test]
fn each_cue_dispatches_at_most_once_per_run() {
    let (mut scheduler, _registry, _a, _b) = demo_show();
    scheduler.start().unwrap();
    assert_eq!(scheduler.tick(2500).unwrap(), vec![10, 20]);
    assert_eq!(scheduler.tick(0).unwrap(), Vec::<u64>::new());
    assert_eq!(scheduler.tick(2500).unwrap(), Vec::<u64>::new());
    // A fresh run re-arms every cue.
    scheduler.stop().unwrap();
    scheduler.start().unwrap();
    assert_eq!(scheduler.tick(2500).unwrap(), vec![10, 20]);
}

#[test]
fn illegal_transitions_are_refused_with_the_offending_state() {
    let (mut scheduler, _registry, _a, _b) = demo_show();
    assert_eq!(scheduler.pause().unwrap_err().from, Status::Idle);
    assert_eq!(scheduler.resume().unwrap_err().from, Status::Idle);
    assert_eq!(scheduler.stop().unwrap_err().from, Status::Idle);
    scheduler.start().unwrap();
    assert_eq!(scheduler.start().unwrap_err().from, Status::Playing);
    assert_eq!(scheduler.seek(100).unwrap_err().from, Status::Playing);
    assert_eq!(scheduler.tick(10).unwrap(), vec![10]);
    scheduler.mark_faulted();
    // Faulted is terminal: only a fresh load leaves it.
    assert_eq!(scheduler.start().unwrap_err().from, Status::Faulted);
    assert_eq!(scheduler.tick(10).unwrap_err().from, Status::Faulted);
}

#[test]
fn late_outcomes_after_stop_are_discarded() {
    let (mut scheduler, _registry, a, _b) = demo_show();
    scheduler.start().unwrap();
    scheduler.tick(100).unwrap();
    scheduler.stop().unwrap();
    scheduler.note_outcome(&CommandOutcome {
        controller_id: a,
        cue_id: 10,
        result: CommandResult::Timeout,
        latency_ms: 400,
    });
    assert_eq!(scheduler.fault_log().len(), 0);
    let status = scheduler.status_snapshot();
    assert_eq!(status.status, Status::Stopped);
    assert_eq!(status.active_cue_ids, Vec::<u64>::new());
}

#[test]
fn load_show_blocks_on_unresolved_controller() {
    let registry = Registry::new();
    let cues = vec![cue(1, 0, 0, EffectKind::Flash, vec![0])];
    let err = load_show(1, cues, &registry).unwrap_err();
    match err {
        ValidationError::Rejected { report } => {
            assert!(report.has_errors());
            assert_eq!(report.issues.len(), 2);
        }
        other => panic!("expected a rejection report, got {:?}", other),
    }
}

#[test]
fn load_show_allows_warnings() {
    let mut registry = Registry::new();
    let a = registry
        .register(NetAddress { host: 1, port: 9000 }, vec![EffectKind::Flash])
        .unwrap();
    // The launch effect is not declared by its target: a warning only.
    let cues = vec![cue(1, 0, 0, EffectKind::Launch, vec![a])];
    let scheduler = load_show(1, cues, &registry).expect("warnings do not block");
    assert_eq!(scheduler.status_snapshot().status, Status::Idle);
}

#[test]
fn export_receipt_echoes_format_and_draws_full_identifier() {
    let receipt = export_show(ExportFormat::Lume);
    assert_eq!(receipt.format, ExportFormat::Lume);
    assert_eq!(receipt.export_id.len(), 36);
    let csv = export_show(ExportFormat::Csv);
    assert_eq!(csv.format, ExportFormat::Csv);
    assert_eq!(csv.export_id.len(), 36);
    assert_eq!(csv.export_id.chars().filter(|c| *c == '-').count(), 4);
}

#[test]
fn empty_show_loads_and_plays_with_nothing_to_dispatch() {
    let registry = Registry::new();
    let mut scheduler = load_show(9, vec![], &registry).expect("an empty show is valid");
    let status = scheduler.status_snapshot();
    assert_eq!(status.total_duration_ms, 0);
    scheduler.start().unwrap();
    assert_eq!(scheduler.tick(1000).unwrap(), Vec::<u64>::new());
    assert_eq!(scheduler.status_snapshot().current_ms, 1000);
}

#[test]
fn equal_start_times_dispatch_in_id_order() {
    let mut registry = Registry::new();
    let a = registry
        .register(NetAddress { host: 1, port: 9000 }, vec![EffectKind::Flash])
        .unwrap();
    let cues = vec![
        cue(5, 1000, 0, EffectKind::Flash, vec![a]),
        cue(9, 1000, 0, EffectKind::Flash, vec![a]),
    ];
    let mut scheduler = load_show(1, cues, &registry).unwrap();
    scheduler.start().unwrap();
    assert_eq!(scheduler.tick(1000).unwrap(), vec![5, 9]);
}

#[test]
fn zero_duration_cues_dispatch_but_are_never_active() {
    let mut registry = Registry::new();
    let a = registry
        .register(NetAddress { host: 1, port: 9000 }, vec![EffectKind::Flash])
        .unwrap();
    let cues = vec![cue(1, 1000, 0, EffectKind::Flash, vec![a])];
    let mut scheduler = load_show(1, cues, &registry).unwrap();
    scheduler.start().unwrap();
    assert_eq!(scheduler.tick(1000).unwrap(), vec![1]);
    assert_eq!(scheduler.status_snapshot().active_cue_ids, Vec::<u64>::new());
}

#[test]
fn system_info_carries_the_shell_strings() {
    let info = SystemInfo::new(
        String::from("1.2.3"),
        String::from("linux"),
        String::from("x86_64"),
    );
    assert_eq!(info.app_version, "1.2.3");
    assert_eq!(info.platform, "linux");
    assert_eq!(info.architecture, "x86_64");
    assert_eq!(info.memory_usage, get_memory_usage());
    assert_eq!(get_memory_usage(), 64 * 1024 * 1024);
}
