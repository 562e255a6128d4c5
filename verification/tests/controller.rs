use io_thread_controller::backends::BackendClientError;
use io_thread_controller::clock::{Duration, Instant};
use io_thread_controller::config::Config;
use io_thread_controller::controller::decisions::DecisionStep;
use io_thread_controller::controller::requests::{
    client_reply, snapshot_reply, vq_mapping_reply, DbusRequest, DbusStep,
};
use io_thread_controller::controller::{Controller, ControllerError};
use io_thread_controller::double::Double;
use io_thread_controller::engines::{
    AppliedOutcome, BlockedReason, InstanceDecision, ScaleAction,
};
use io_thread_controller::host_cpu::HostCpuSample;
use io_thread_controller::instance::{
    Instance, InstancePerfSample, InstanceStatus, ThreadPoolSnapshot,
};
use io_thread_controller::state::{StateError, VmOwnership};

fn double(value: f64) -> Double {
    Double::from_bits(value.to_bits())
}

fn ratio(busy: u64, total: u64) -> Double {
    double(busy as f64 / total as f64)
}

fn at(secs: u64) -> Instant {
    Instant::from_nanos(u128::from(secs) * 1_000_000_000)
}

fn after(now: Instant, secs: u64) -> Instant {
    now.checked_add(Duration::from_secs(secs)).unwrap()
}

fn seconds(secs: Double) -> Duration {
    Duration::from_millis((f64::from_bits(secs.to_bits()) * 1_000.0) as u64)
}

fn controller(cfg: Config) -> Controller {
    Controller::new(cfg, Ok(VmOwnership::new())).unwrap()
}

fn instance(id: &str) -> Instance {
    Instance::new(id.to_string(), 1)
}

/// Decide on one action and carry it out against a client that always agrees.
/// `target` is the client's worker count.
fn apply(controller: &mut Controller, action: ScaleAction, now: Instant, target: &mut u32) {
    match controller.apply_engine_decision(0, action, now) {
        DecisionStep::Nothing | DecisionStep::Blocked(_) => {}
        DecisionStep::DryRun(pending) => {
            controller.finish_engine_decision(0, pending, Ok(()), now, seconds);
        }
        DecisionStep::Actuate(pending) => {
            *target = pending.target;
            controller.finish_engine_decision(0, pending, Ok(()), now, seconds);
        }
    }
}

#[test]
fn actuation_enforces_vcpu_cap() {
    let mut cfg = Config::default();
    cfg.cooldown_secs = double(0.0);
    let mut controller = controller(cfg);
    let mut vm = instance("some-vcpu-limited-test-instance");
    vm.status.thread_count = 2;
    vm.status.vcpu_count = 4;
    vm.status.ownership_classification = Some(true);
    controller.instances.push(vm);
    let mut target = 2;

    apply(&mut controller, ScaleAction::Up(4), at(1), &mut target);
    assert_eq!(target, 4);
    apply(&mut controller, ScaleAction::Up(5), at(2), &mut target);
    assert_eq!(target, 4);
    apply(&mut controller, ScaleAction::Down(3), at(3), &mut target);
    assert_eq!(target, 3);

    controller.instances[0].status.ownership_classification = Some(false);
    apply(&mut controller, ScaleAction::Up(4), at(4), &mut target);
    apply(&mut controller, ScaleAction::Down(2), at(5), &mut target);
    assert_eq!(target, 3);
    assert_eq!(controller.instances[0].status.thread_count, 3);
}

#[test]
fn dry_run_skips_actuation_and_starts_cooldown() {
    let mut cfg = Config::default();
    cfg.dry_run = true;
    let mut controller = controller(cfg);
    let mut vm = instance("dry-run");
    vm.status.thread_count = 2;
    vm.status.vcpu_count = 4;
    vm.status.ownership_classification = Some(true);
    controller.instances.push(vm);
    let mut target = 2;

    apply(&mut controller, ScaleAction::Up(3), at(1), &mut target);
    assert_eq!(target, 2);
    let status = &controller.instances[0].status;
    assert_eq!(status.thread_count, 2);
    assert!(status.cooldown_until.is_some());
    assert_eq!(status.cooldown_until, Some(at(31)));
}

fn guard_controller() -> Controller {
    let mut cfg = Config::default();
    cfg.min_thread_count = 2;
    cfg.max_thread_count = 6;
    cfg.host_cpu_scale_up_ceiling = double(0.5);
    controller(cfg)
}

fn guard_status() -> InstanceStatus {
    let mut status = InstanceStatus::new();
    status.thread_count = 3;
    status.vcpu_count = 4;
    status.ownership_classification = Some(true);
    status
}

#[test]
fn blocked_reason_guards() {
    type Tweak = fn(&mut InstanceStatus);
    let in_cooldown: Tweak = |s| s.cooldown_until = Some(after(at(100), 60));
    let cases: [(&str, Tweak, ScaleAction, f64, Option<BlockedReason>); 11] = [
        ("allowed", |_| {}, ScaleAction::Up(4), 0.0, None),
        (
            "sticky",
            |s| s.manual_scaling_sticky = true,
            ScaleAction::Up(4),
            0.0,
            Some(BlockedReason::ManualOverride),
        ),
        (
            "unmanaged",
            |s| s.ownership_classification = Some(false),
            ScaleAction::Up(4),
            0.0,
            Some(BlockedReason::UnmanagedVm),
        ),
        (
            "unclassified",
            |s| s.ownership_classification = None,
            ScaleAction::Up(4),
            0.0,
            Some(BlockedReason::UnmanagedVm),
        ),
        (
            "below minimum",
            |_| {},
            ScaleAction::Down(1),
            0.0,
            Some(BlockedReason::TargetBelowMinimum),
        ),
        (
            "above maximum",
            |s| s.vcpu_count = 16,
            ScaleAction::Up(7),
            0.0,
            Some(BlockedReason::TargetExceedsMaximum),
        ),
        (
            "above vCPUs",
            |_| {},
            ScaleAction::Up(5),
            0.0,
            Some(BlockedReason::TargetExceedsVcpuCount),
        ),
        (
            "cooldown",
            in_cooldown,
            ScaleAction::Down(2),
            0.0,
            Some(BlockedReason::Cooldown),
        ),
        (
            "revert ignores cooldown",
            in_cooldown,
            ScaleAction::Revert(2),
            0.0,
            None,
        ),
        (
            "host CPU ceiling",
            |_| {},
            ScaleAction::Up(4),
            0.5,
            Some(BlockedReason::HostCpuCeiling),
        ),
        (
            "host CPU allows down",
            |_| {},
            ScaleAction::Down(2),
            0.9,
            None,
        ),
    ];

    let mut controller = guard_controller();
    for (name, tweak, action, host_cpu_util, expected) in cases {
        controller.host_cpu.util = double(host_cpu_util);
        let mut status = guard_status();
        tweak(&mut status);
        let target = action.target().unwrap();
        assert_eq!(
            controller.blocked_reason(&status, action, target, at(100)),
            expected,
            "{name}"
        );
    }
}

#[test]
fn guard_edges() {
    let mut controller = guard_controller();
    let mut status = guard_status();
    // A cooldown that ends now is over.
    status.cooldown_until = Some(at(100));
    assert_eq!(
        controller.blocked_reason(&status, ScaleAction::Down(2), 2, at(100)),
        None
    );
    // A step down to more workers passes under the ceiling guard.
    controller.host_cpu.util = double(1.0);
    assert_eq!(
        controller.blocked_reason(&status, ScaleAction::Down(4), 4, at(100)),
        None
    );
    // A step up to no more workers does too.
    assert_eq!(
        controller.blocked_reason(&status, ScaleAction::Up(3), 3, at(100)),
        None
    );
    // A ceiling of zero is switched off.
    controller.cfg.host_cpu_scale_up_ceiling = double(0.0);
    assert_eq!(
        controller.blocked_reason(&status, ScaleAction::Up(4), 4, at(100)),
        None
    );
}

fn ids(controller: &Controller) -> Vec<String> {
    controller.instances.iter().map(|i| i.id.clone()).collect()
}

#[test]
fn sync_instances_adds_retains_and_removes() {
    let mut controller = controller(Config::default());

    let mut first = instance("vm-a");
    first.status.thread_count = 1;
    let report = controller.sync_instances(vec![first]);
    assert_eq!((report.added, report.removed), (1, 0));
    assert_eq!(controller.instances.len(), 1);
    assert_eq!(report.taken, vec![true]);

    let mut duplicate = instance("vm-a");
    duplicate.status.thread_count = 9;
    let report = controller.sync_instances(vec![duplicate]);
    assert_eq!((report.added, report.removed), (0, 0));
    assert_eq!(controller.instances.len(), 1);
    assert_eq!(report.taken, vec![false]);
    assert_eq!(controller.instances[0].status.thread_count, 1);

    let report = controller.sync_instances(vec![]);
    assert_eq!((report.added, report.removed), (0, 1));
    assert!(controller.instances.is_empty());
    assert_eq!(report.stale, vec!["vm-a".to_string()]);
}

#[test]
fn sync_takes_the_first_of_a_name_and_classifies_it() {
    let ownership =
        VmOwnership::from_lists(vec!["vm-b".to_string()], vec!["vm-c".to_string()]).unwrap();
    let mut controller = Controller::new(Config::default(), Ok(ownership)).unwrap();
    controller.sync_instances(vec![instance("vm-z")]);
    let report = controller.sync_instances(vec![
        instance("vm-a"),
        instance("vm-b"),
        instance("vm-a"),
        instance("vm-c"),
    ]);
    assert_eq!((report.added, report.removed), (3, 1));
    assert_eq!(report.taken, vec![true, true, false, true]);
    assert_eq!(report.stale, vec!["vm-z".to_string()]);
    assert_eq!(ids(&controller), vec!["vm-a", "vm-b", "vm-c"]);
    let classes: Vec<_> = controller
        .instances
        .iter()
        .map(|i| i.status.ownership_classification)
        .collect();
    assert_eq!(classes, vec![None, Some(true), Some(false)]);

    let again = controller.sync_instances(vec![
        instance("vm-c"),
        instance("vm-b"),
        instance("vm-a"),
    ]);
    assert_eq!((again.added, again.removed), (0, 0));
}

#[test]
fn remove_instance_stops_tracking() {
    let mut controller = controller(Config::default());
    controller.sync_instances(vec![instance("vm-a"), instance("vm-b")]);
    assert!(!controller.remove_instance("vm-x"));
    assert!(controller.remove_instance("vm-a"));
    assert!(!controller.remove_instance("vm-a"));
    assert_eq!(ids(&controller), vec!["vm-b"]);
}

#[test]
fn set_thread_count_errors_include_context() {
    let mut controller = controller(Config::default());
    let mut vm = instance("vm-a");
    vm.status.vcpu_count = 2;
    controller.sync_instances(vec![vm]);

    let error = controller
        .handle_set_thread_count("vm-missing", 1)
        .unwrap_err()
        .message();
    assert!(error.contains("unknown VM vm-missing"), "{error}");
    assert_eq!(error, "VM error: unknown VM vm-missing");

    let error = controller
        .handle_set_thread_count("vm-a", 3)
        .unwrap_err()
        .message();
    assert!(error.contains("3 > guest vCPU count 2"), "{error}");
    assert_eq!(
        error,
        "Set thread count error: target thread count 3 > guest vCPU count 2"
    );

    let error = controller
        .handle_set_thread_count("vm-a", 0)
        .unwrap_err()
        .message();
    assert_eq!(
        error,
        "Set thread count error: target thread count must be greater than zero"
    );
    // An unknown VM is noticed first.
    assert!(matches!(
        controller.handle_set_thread_count("vm-x", 0),
        Err(ControllerError::VmError(_))
    ));
    assert_eq!(controller.handle_set_thread_count("vm-a", 2).unwrap(), 0);
}

#[test]
fn manual_count_holds_only_where_the_client_agreed() {
    let mut controller = controller(Config::default());
    let mut vm = instance("vm-a");
    vm.status.vcpu_count = 4;
    vm.status.thread_count = 1;
    controller.sync_instances(vec![vm]);
    let refusal = controller.finish_set_thread_count(
        0,
        3,
        true,
        Err(BackendClientError::Transport("boom".to_string())),
    );
    assert_eq!(refusal.unwrap_err().message(), "boom");
    assert_eq!(controller.instances[0].status.thread_count, 1);
    assert!(!controller.instances[0].status.manual_scaling_sticky);
    controller
        .finish_set_thread_count(0, 3, true, Ok(()))
        .unwrap();
    assert_eq!(controller.instances[0].status.thread_count, 3);
    assert!(controller.instances[0].status.manual_scaling_sticky);
    // The override stops the engine.
    controller.instances[0].status.ownership_classification = Some(true);
    assert_eq!(
        controller.apply_engine_decision(0, ScaleAction::Up(4), at(1)),
        DecisionStep::Blocked(BlockedReason::ManualOverride)
    );
}

#[test]
fn tick_refreshes_evaluates_and_drops_failed_instances() {
    let mut controller = controller(Config::default());
    let report = controller.sync_instances(vec![instance("ok"), instance("bad")]);
    assert_eq!(report.added, 2);

    let context = controller.tick(at(1), None, ratio);
    assert_eq!(controller.tick_index, 1);
    assert_eq!(context.tick_index, 1);
    let mut fresh = InstanceStatus::new();
    fresh.thread_count = 4;
    let failed = controller.finish_refresh(vec![Some(fresh), None]);
    assert_eq!(failed, vec!["bad".to_string()]);
    assert!(!controller.persist_new_classifications().unwrap());
    assert_eq!(controller.instances.len(), 1);
    assert!(controller.position("ok").is_some());
    assert_eq!(controller.instances[0].status.thread_count, 4);
}

#[test]
fn first_snapshot_classifies_a_vm() {
    let busy = |wall_ns: u64, _util: Double, threads: u32| wall_ns / 2 * u64::from(threads);
    let snapshot = |io: u64| ThreadPoolSnapshot {
        thread_count: 3,
        vcpu_count: 4,
        perf: Some(InstancePerfSample {
            read_io_count: io,
            write_io_count: 0,
            other_io_count: 0,
            read_bytes_total: 0,
            write_bytes_total: 0,
        }),
        per_thread_util: Some(double(0.5)),
    };
    let mut status = InstanceStatus::new();
    status.take_snapshot(&snapshot(10), true, at(1), busy);
    assert!(status.alive);
    assert_eq!((status.thread_count, status.vcpu_count), (3, 4));
    assert_eq!(status.ownership_classification, Some(true));
    assert_eq!(status.per_thread_util, double(0.5));
    assert!(status.rolling.is_empty());
    status.take_snapshot(&snapshot(30), false, at(2), busy);
    // A classification stays.
    assert_eq!(status.ownership_classification, Some(true));
    assert_eq!(status.rolling.last_delta(), Some((20, 1_500_000_000)));
    let blind = ThreadPoolSnapshot {
        perf: None,
        per_thread_util: None,
        ..snapshot(0)
    };
    status.take_snapshot(&blind, false, at(3), busy);
    assert_eq!(status.rolling.len(), 1);
    assert_eq!(status.per_thread_util, double(0.5));
    assert!(status.perf.is_none());
}

#[test]
fn plan_items_about_unknown_vms_are_passed_over() {
    let mut controller = controller(Config::default());
    let mut vm = instance("vm-a");
    vm.status.thread_count = 2;
    vm.status.vcpu_count = 4;
    controller.sync_instances(vec![vm]);
    let item = |id: &str| InstanceDecision {
        instance_id: id.to_string(),
        decision: ScaleAction::Up(3),
    };
    assert!(controller.apply_plan_item(&item("vm-b"), at(1)).is_none());
    let (index, step) = controller.apply_plan_item(&item("vm-a"), at(1)).unwrap();
    assert_eq!(index, 0);
    let reason = match step {
        DecisionStep::Blocked(reason) => reason,
        other => panic!("{other:?}"),
    };
    assert_eq!(reason, BlockedReason::UnmanagedVm);
    assert!(matches!(
        controller.report_blocked_scale(ScaleAction::Up(3), reason),
        AppliedOutcome::Blocked {
            action: ScaleAction::Up(3),
            reason: BlockedReason::UnmanagedVm
        }
    ));
}

#[test]
fn tick_fixes_the_common_context() {
    let mut controller = controller(Config::default());
    controller.tick_index = u64::MAX;
    let sample = |busy_ticks, total_ticks| {
        Some(HostCpuSample {
            busy_ticks,
            total_ticks,
        })
    };
    let context = controller.tick(at(1), sample(10, 100), ratio);
    assert_eq!(context.tick_index, 0);
    assert_eq!(context.min_thread_count, 1);
    assert_eq!(context.max_thread_count, 8);
    assert_eq!(context.host_cpu_util, double(0.0));
    let context = controller.tick(at(2), sample(85, 200), ratio);
    assert_eq!(context.tick_index, 1);
    assert_eq!(context.host_cpu_util, double(0.75));
    assert_eq!(context.now, at(2));
}

#[test]
fn classifications_are_recorded_once_and_never_change() {
    let mut controller = controller(Config::default());
    controller.sync_instances(vec![instance("a"), instance("b"), instance("c")]);
    controller.instances[0].status.ownership_classification = Some(true);
    controller.instances[2].status.ownership_classification = Some(false);
    assert!(controller.persist_new_classifications().unwrap());
    assert!(!controller.persist_new_classifications().unwrap());
    assert_eq!(controller.vm_ownership.classification("a"), Some(true));
    assert_eq!(controller.vm_ownership.classification("b"), None);
    assert_eq!(controller.vm_ownership.classification("c"), Some(false));

    controller.instances[1].status.ownership_classification = Some(true);
    controller.instances[2].status.ownership_classification = Some(true);
    let error = controller.persist_new_classifications().unwrap_err();
    assert_eq!(
        error.message(),
        "VM error: VM c ownership changed after classification"
    );
    assert_eq!(controller.vm_ownership.classification("c"), Some(false));
    // What stood before the conflict is recorded.
    assert_eq!(controller.vm_ownership.classification("b"), Some(true));
}

#[test]
fn ownership_lists_must_not_overlap() {
    let both = VmOwnership::from_lists(
        vec!["a".to_string(), "b".to_string()],
        vec!["b".to_string()],
    );
    assert_eq!(
        both.unwrap_err().message(),
        "VM is both managed and unmanaged: b"
    );
    let mut registry = VmOwnership::new();
    registry.record("a", true).unwrap();
    registry.record("a", true).unwrap();
    assert!(matches!(
        registry.record("a", false),
        Err(StateError::Overlap(id)) if id == "a"
    ));
    assert_eq!(registry.classification("a"), Some(true));
    let failed = Controller::new(
        Config::default(),
        Err(StateError::Storage("disk".to_string())),
    );
    assert_eq!(failed.unwrap_err().message(), "disk");
}

#[test]
fn outcomes_tell_what_became_of_an_action() {
    let mut controller = controller(Config::default());
    let mut vm = instance("vm-a");
    vm.status.thread_count = 2;
    vm.status.vcpu_count = 4;
    vm.status.ownership_classification = Some(true);
    vm.status.perf = Some(InstancePerfSample {
        read_io_count: 1,
        write_io_count: 2,
        other_io_count: 3,
        read_bytes_total: 0,
        write_bytes_total: 0,
    });
    controller.instances.push(vm);
    assert_eq!(
        controller.apply_engine_decision(0, ScaleAction::Hold, at(1)),
        DecisionStep::Nothing
    );
    let step = controller.apply_engine_decision(0, ScaleAction::Up(3), at(1));
    let pending = match step {
        DecisionStep::Actuate(pending) => pending,
        other => panic!("{other:?}"),
    };
    let refused = BackendClientError::Transport("refused".to_string());
    let outcome = controller.finish_engine_decision(0, pending, Err(refused), at(1), seconds);
    match outcome {
        AppliedOutcome::Failed { action, error } => {
            assert_eq!(action, ScaleAction::Up(3));
            assert!(matches!(error, BackendClientError::Transport(text) if text == "refused"));
        }
        other => panic!("{other:?}"),
    }
    assert_eq!(controller.instances[0].status.thread_count, 2);
    assert_eq!(controller.instances[0].status.cooldown_until, None);
    let outcome = controller.finish_engine_decision(0, pending, Ok(()), at(1), seconds);
    match outcome {
        AppliedOutcome::Success {
            action,
            prev_thread_count,
            prev_io_count_total,
        } => {
            assert_eq!(action, ScaleAction::Up(3));
            assert_eq!(prev_thread_count, 2);
            assert_eq!(prev_io_count_total, 6);
        }
        other => panic!("{other:?}"),
    }
    assert_eq!(controller.instances[0].status.thread_count, 3);
    // The next ordinary action waits, an undo does not.
    assert_eq!(
        controller.apply_engine_decision(0, ScaleAction::Down(2), at(30)),
        DecisionStep::Blocked(BlockedReason::Cooldown)
    );
    assert!(matches!(
        controller.apply_engine_decision(0, ScaleAction::Revert(2), at(30)),
        DecisionStep::Actuate(_)
    ));
    assert!(matches!(
        controller.apply_engine_decision(0, ScaleAction::Down(2), at(31)),
        DecisionStep::Actuate(_)
    ));
}

#[test]
fn cooldown_lasts_as_configured_and_only_after_ordinary_actions() {
    let mut cfg = Config::default();
    cfg.cooldown_secs = double(2.5);
    let mut controller = controller(cfg);
    let mut vm = instance("vm-a");
    vm.status.thread_count = 2;
    vm.status.vcpu_count = 4;
    vm.status.ownership_classification = Some(true);
    controller.instances.push(vm);
    let mut target = 2;
    apply(&mut controller, ScaleAction::Revert(3), at(10), &mut target);
    assert_eq!(target, 3);
    assert_eq!(controller.instances[0].status.cooldown_until, None);
    apply(&mut controller, ScaleAction::Up(4), at(10), &mut target);
    assert_eq!(
        controller.instances[0].status.cooldown_until,
        Some(Instant::from_nanos(12_500_000_000))
    );
    // An undo leaves the cooldown as it is.
    apply(&mut controller, ScaleAction::Revert(3), at(11), &mut target);
    assert_eq!(target, 3);
    assert_eq!(
        controller.apply_engine_decision(0, ScaleAction::Up(4), at(12)),
        DecisionStep::Blocked(BlockedReason::Cooldown)
    );
    // A guard that comes earlier is named first.
    assert_eq!(
        controller.apply_engine_decision(0, ScaleAction::Up(5), at(12)),
        DecisionStep::Blocked(BlockedReason::TargetExceedsVcpuCount)
    );
}

#[test]
fn bus_requests_lead_to_client_calls() {
    let mut controller = controller(Config::default());
    let mut vm = instance("vm-a");
    vm.status.vcpu_count = 2;
    vm.status.thread_count = 1;
    vm.status.per_thread_util = double(f64::NAN);
    controller.sync_instances(vec![instance("vm-0"), vm]);
    controller.tick_index = 7;
    let vm = || "vm-a".to_string();
    let text = |s: &str| s.to_string();

    let step: DbusStep<()> = controller.handle_dbus_request(DbusRequest::SetThreadCount {
        vm: vm(),
        threads: 2,
        sticky: true,
    });
    assert!(matches!(
        step,
        DbusStep::SetThreadCount {
            index: 1,
            threads: 2,
            sticky: true
        }
    ));
    let step: DbusStep<()> = controller.handle_dbus_request(DbusRequest::SetThreadCount {
        vm: vm(),
        threads: 3,
        sticky: true,
    });
    assert!(matches!(step, DbusStep::Refused(m)
        if m == "Set thread count error: target thread count 3 > guest vCPU count 2"));
    let step: DbusStep<()> = controller.handle_dbus_request(DbusRequest::SetThreadCount {
        vm: text("nope"),
        threads: 3,
        sticky: true,
    });
    assert!(matches!(step, DbusStep::Refused(m) if m == "VM error: unknown VM nope"));

    let step: DbusStep<()> = controller.handle_dbus_request(DbusRequest::GetVersion);
    assert!(matches!(step, DbusStep::Version));

    let step: DbusStep<()> = controller.handle_dbus_request(DbusRequest::GetStats);
    match step {
        DbusStep::Stats(stats) => {
            assert_eq!(stats.tick, 7);
            assert_eq!(stats.vms.len(), 2);
            assert_eq!(stats.vms[1].vm, "vm-a");
            assert_eq!(stats.vms[1].vcpu_count, 2);
            assert!(!stats.vms[1].scaling_allowed);
            assert_eq!(stats.vms[1].read_io_count, 0);
        }
        other => panic!("{other:?}"),
    }

    let step: DbusStep<()> = controller.handle_dbus_request(DbusRequest::GetSnapshot);
    match step {
        DbusStep::Snapshot(payload) => {
            assert_eq!(payload.vms.len(), 2);
            assert_eq!(payload.vms[1].id, "vm-a");
            assert_eq!(payload.vms[1].pid, 1);
            assert!(!payload.vms[1].perf_available);
            // Not a number cannot be shown.
            assert_eq!(payload.vms[1].per_thread_util, double(0.0));
            assert_eq!(payload.vms[1].cpu_pct_avg, Some(0));
            assert!(payload.vms[1].qd_total.is_none());
        }
        other => panic!("{other:?}"),
    }

    let step: DbusStep<()> = controller.handle_dbus_request(DbusRequest::GetIoThreadVqMapping {
        vm: vm(),
        device: text("disk0"),
    });
    assert!(matches!(step, DbusStep::GetIoThreadVqMapping { index: 1, device } if device == "disk0"));

    for (poll_max_ns, expected) in [(-1, None), (0, Some(Some(0))), (500, Some(Some(500)))] {
        let step: DbusStep<()> = controller.handle_dbus_request(DbusRequest::AddIoThread {
            vm: vm(),
            id: text("iot1"),
            poll_max_ns,
        });
        match step {
            DbusStep::AddIoThread {
                index,
                id,
                properties,
            } => {
                assert_eq!(index, 1);
                assert_eq!(id, "iot1");
                assert_eq!(properties.map(|p| p.poll_max_ns), expected);
            }
            other => panic!("{other:?}"),
        }
    }

    let step: DbusStep<()> = controller.handle_dbus_request(DbusRequest::DelIoThread {
        vm: text("nope"),
        id: text("iot1"),
    });
    assert!(matches!(step, DbusStep::Refused(m) if m == "unknown VM nope"));

    let step = controller.handle_dbus_request(DbusRequest::SetIoThreadVqMapping {
        vm: vm(),
        device: text("disk0"),
        mapping: Ok(42),
    });
    assert!(matches!(
        step,
        DbusStep::SetIoThreadVqMapping {
            index: 1,
            mapping: 42,
            ..
        }
    ));
    // A mapping that cannot be decoded is noticed before an unknown VM.
    let step: DbusStep<u8> = controller.handle_dbus_request(DbusRequest::SetIoThreadVqMapping {
        vm: text("nope"),
        device: text("disk0"),
        mapping: Err(text("expected value")),
    });
    assert!(matches!(step, DbusStep::Refused(m) if m == "parse mapping JSON: expected value"));
}

#[test]
fn replies_carry_answers_and_errors() {
    let text = |s: &str| s.to_string();
    assert_eq!(client_reply(Ok(())), Ok(()));
    assert_eq!(
        client_reply(Err(BackendClientError::InvalidState(text("busy")))),
        Err(text("busy"))
    );
    assert_eq!(vq_mapping_reply(Ok(Ok(text("[]")))), Ok(text("[]")));
    assert_eq!(
        vq_mapping_reply(Ok(Err(text("bad")))),
        Err(text("serialize mapping: bad"))
    );
    assert_eq!(
        vq_mapping_reply(Err(BackendClientError::Transport(text("gone")))),
        Err(text("gone"))
    );
    assert_eq!(snapshot_reply(Ok(text("{}"))), "{}");
    assert_eq!(snapshot_reply(Err(text("bad"))), "{\"error\":\"bad\"}");
    assert_eq!(ControllerError::Proc(text("no stat")).message(), "no stat");
}
