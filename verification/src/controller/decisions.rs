//! From an engine's proposal to an applied, blocked or failed action.
use vstd::prelude::*;

use crate::backends::BackendClientError;
use crate::clock::{Duration, Instant};
use crate::config::Config;
use crate::controller::{holds_vm, Controller};
use crate::double::{zero_double, Double};
use crate::engines::{AppliedOutcome, BlockedReason, InstanceDecision, ScaleAction};
use crate::instance::{Instance, InstanceStatus};

verus! {

/// The first controller guard that forbids an action, if one does. `util` is the
/// host's CPU utilisation.
pub open spec fn guard(
    cfg: Config,
    util: Double,
    status: InstanceStatus,
    action: ScaleAction,
    target: u32,
    now: Instant,
) -> Option<BlockedReason> {
    if status.manual_scaling_sticky {
        Some(BlockedReason::ManualOverride)
    } else if !status.managed() {
        Some(BlockedReason::UnmanagedVm)
    } else if target < cfg.min_thread_count {
        Some(BlockedReason::TargetBelowMinimum)
    } else if target > cfg.max_thread_count {
        Some(BlockedReason::TargetExceedsMaximum)
    } else if target > status.vcpu_count {
        Some(BlockedReason::TargetExceedsVcpuCount)
    } else if action.ordinary() && status.cooldown_until is Some && now.nanos
        < status.cooldown_until->0.nanos {
        Some(BlockedReason::Cooldown)
    } else if target > status.thread_count && action is Up && zero_double().below(
        cfg.host_cpu_scale_up_ceiling,
    ) && cfg.host_cpu_scale_up_ceiling.at_most(util) {
        Some(BlockedReason::HostCpuCeiling)
    } else {
        None
    }
}

/// What is to be done about one engine decision.
#[derive(Debug, Clone, Copy, PartialEq, Eq, Structural)]
pub enum DecisionStep {
    /// The engine asks for nothing.
    Nothing,
    /// A guard forbids the action; the engine is to hear of it.
    Blocked(BlockedReason),
    /// Actuation is switched off; the action counts as applied all the same.
    DryRun(PendingDecision),
    /// The backend is to be asked for the new worker count.
    Actuate(PendingDecision),
}

/// An action on its way to the backend, with the state it started from.
#[derive(Debug, Clone, Copy, PartialEq, Eq, Structural)]
pub struct PendingDecision {
    /// The action.
    pub action: ScaleAction,
    /// The worker count that it asks for.
    pub target: u32,
    /// The worker count before it.
    pub prev_thread_count: u32,
    /// I/O operations before it.
    pub prev_io_count_total: u64,
}

/// The step that an engine decision leads to.
pub open spec fn decision_step(
    cfg: Config,
    util: Double,
    status: InstanceStatus,
    action: ScaleAction,
    now: Instant,
) -> DecisionStep {
    match action.wanted() {
        None => DecisionStep::Nothing,
        Some(target) => match guard(cfg, util, status, action, target, now) {
            Some(reason) => DecisionStep::Blocked(reason),
            None => {
                let pending = PendingDecision {
                    action,
                    target,
                    prev_thread_count: status.thread_count,
                    prev_io_count_total: status.io_count(),
                };
                if cfg.dry_run {
                    DecisionStep::DryRun(pending)
                } else {
                    DecisionStep::Actuate(pending)
                }
            },
        },
    }
}

/// The status after an action went through: the new worker count unless actuation
/// is switched off, and a new cooldown after an ordinary action.
pub open spec fn applied_status(
    status: InstanceStatus,
    dry_run: bool,
    pending: PendingDecision,
    cooldown_until: Instant,
) -> InstanceStatus {
    InstanceStatus {
        thread_count: if dry_run {
            status.thread_count
        } else {
            pending.target
        },
        cooldown_until: if pending.action.ordinary() {
            Some(cooldown_until)
        } else {
            status.cooldown_until
        },
        ..status
    }
}

/// `until` is when the cooldown after an action ends that went through at `now`: so
/// much later as the configured delay is long, which `seconds` turns into a length of
/// time. Only an ordinary action has one.
pub open spec fn cooldown_ends<F: Fn(Double) -> Duration>(
    cfg: Config,
    seconds: F,
    action: ScaleAction,
    now: Instant,
    until: Instant,
) -> bool {
    action.ordinary() ==> exists|delay: Duration| #[trigger]
        call_ensures(seconds, (cfg.cooldown_secs,), delay) && until.nanos == now.nanos
            + delay.nanos
}

impl Controller {
    /// Return the first controller guard that forbids applying `action`.
    pub fn blocked_reason(
        &self,
        status: &InstanceStatus,
        action: ScaleAction,
        target: u32,
        now: Instant,
    ) -> (r: Option<BlockedReason>)
        ensures
            r == guard(self.cfg, self.host_cpu.util, *status, action, target, now),
    {
        if status.manual_scaling_sticky {
            return Some(BlockedReason::ManualOverride);
        }
        if !status.scaling_allowed() {
            return Some(BlockedReason::UnmanagedVm);
        }
        if target < self.cfg.min_thread_count {
            return Some(BlockedReason::TargetBelowMinimum);
        }
        if target > self.cfg.max_thread_count {
            return Some(BlockedReason::TargetExceedsMaximum);
        }
        if target > status.vcpu_count {
            return Some(BlockedReason::TargetExceedsVcpuCount);
        }
        if action.is_ordinary() {
            if let Some(until) = status.cooldown_until {
                if now.nanos < until.nanos {
                    return Some(BlockedReason::Cooldown);
                }
            }
        }
        let raises = match action {
            ScaleAction::Up(_) => target > status.thread_count,
            _ => false,
        };
        if raises && Double::zero().lt(self.cfg.host_cpu_scale_up_ceiling)
            && self.cfg.host_cpu_scale_up_ceiling.le(self.host_cpu.util) {
            return Some(BlockedReason::HostCpuCeiling);
        }
        None
    }

    /// Decide what one engine action leads to, after controller safety checks.
    pub fn apply_engine_decision(&self, index: usize, action: ScaleAction, now: Instant) -> (step:
        DecisionStep)
        requires
            index < self.instances@.len(),
        ensures
            step == decision_step(
                self.cfg,
                self.host_cpu.util,
                self.instances@[index as int].status,
                action,
                now,
            ),
    {
        let target: u32 = match action.target() {
            Some(target) => target,
            None => {
                return DecisionStep::Nothing;
            },
        };
        let status = &self.instances[index].status;
        let prev_thread_count: u32 = status.thread_count;
        let prev_io_count_total: u64 = match status.perf {
            Some(perf) => perf.total_io_count(),
            None => 0,
        };
        if let Some(reason) = self.blocked_reason(status, action, target, now) {
            return DecisionStep::Blocked(reason);
        }
        let pending = PendingDecision { action, target, prev_thread_count, prev_io_count_total };
        if self.cfg.dry_run {
            DecisionStep::DryRun(pending)
        } else {
            DecisionStep::Actuate(pending)
        }
    }

    /// What the engine is to hear of an action that a guard forbade.
    pub fn report_blocked_scale(&self, action: ScaleAction, reason: BlockedReason) -> (outcome:
        AppliedOutcome)
        ensures
            outcome == (AppliedOutcome::Blocked { action, reason }),
    {
        AppliedOutcome::Blocked { action, reason }
    }

    /// Decide what one item of a fleet plan leads to. An item about a VM that is not
    /// tracked leads to nothing at all.
    pub fn apply_plan_item(&self, item: &InstanceDecision, now: Instant) -> (r: Option<
        (usize, DecisionStep),
    >)
        ensures
            r is Some <==> holds_vm(self.instances@, item.instance_id@),
            r matches Some((index, step)) ==> {
                &&& index < self.instances@.len()
                &&& self.instances@[index as int].id@ == item.instance_id@
                &&& step == decision_step(
                    self.cfg,
                    self.host_cpu.util,
                    self.instances@[index as int].status,
                    item.decision,
                    now,
                )
            },
    {
        match self.position(item.instance_id.as_str()) {
            Some(index) => {
                assert(self.instances@[index as int].id@ == item.instance_id@);
                Some((index, self.apply_engine_decision(index, item.decision, now)))
            },
            None => None,
        }
    }

    /// Take in what became of an action that no guard forbade. `actuated` is the
    /// backend's answer, or `Ok` where actuation is switched off. An ordinary action
    /// that went through starts a cooldown at `now`; `seconds` turns the configured
    /// delay into a length of time. Returns what the engine is to hear.
    pub fn finish_engine_decision<F: Fn(Double) -> Duration>(
        &mut self,
        index: usize,
        pending: PendingDecision,
        actuated: Result<(), BackendClientError>,
        now: Instant,
        seconds: F,
    ) -> (outcome: AppliedOutcome)
        requires
            index < old(self).instances@.len(),
            actuated is Ok && pending.action.ordinary() ==> call_requires(
                seconds,
                (old(self).cfg.cooldown_secs,),
            ),
            actuated is Ok && pending.action.ordinary() ==> forall|delay: Duration| #[trigger]
                call_ensures(seconds, (old(self).cfg.cooldown_secs,), delay) ==> now.nanos
                    + delay.nanos <= u128::MAX,
        ensures
            final(self).cfg == old(self).cfg,
            final(self).vm_ownership == old(self).vm_ownership,
            final(self).tick_index == old(self).tick_index,
            final(self).host_cpu == old(self).host_cpu,
            actuated is Err ==> final(self).instances@ == old(self).instances@,
            actuated matches Err(error) ==> outcome == (AppliedOutcome::Failed {
                action: pending.action,
                error,
            }),
            actuated is Ok ==> exists|until: Instant| #[trigger]
                cooldown_ends(old(self).cfg, seconds, pending.action, now, until)
                    && final(self).instances@ == old(self).instances@.update(
                    index as int,
                    (Instance {
                        status: applied_status(
                            old(self).instances@[index as int].status,
                            old(self).cfg.dry_run,
                            pending,
                            until,
                        ),
                        ..old(self).instances@[index as int]
                    }),
                ),
            actuated is Ok && old(self).cfg.dry_run ==> outcome == (AppliedOutcome::DryRun {
                action: pending.action,
                prev_thread_count: pending.prev_thread_count,
                prev_io_count_total: pending.prev_io_count_total,
            }),
            actuated is Ok && !old(self).cfg.dry_run ==> outcome == (AppliedOutcome::Success {
                action: pending.action,
                prev_thread_count: pending.prev_thread_count,
                prev_io_count_total: pending.prev_io_count_total,
            }),
            old(self).wf() ==> final(self).wf(),
    {
        match actuated {
            Err(error) => AppliedOutcome::Failed { action: pending.action, error },
            Ok(_) => {
                if !self.cfg.dry_run {
                    self.instances[index].status.thread_count = pending.target;
                }
                let ghost mut end = now;
                if pending.action.is_ordinary() {
                    let delay = seconds(self.cfg.cooldown_secs);
                    let until = Instant { nanos: now.nanos + delay.nanos };
                    self.instances[index].status.cooldown_until = Some(until);
                    proof {
                        end = until;
                    }
                }
                assert(cooldown_ends(old(self).cfg, seconds, pending.action, now, end));
                if self.cfg.dry_run {
                    AppliedOutcome::DryRun {
                        action: pending.action,
                        prev_thread_count: pending.prev_thread_count,
                        prev_io_count_total: pending.prev_io_count_total,
                    }
                } else {
                    AppliedOutcome::Success {
                        action: pending.action,
                        prev_thread_count: pending.prev_thread_count,
                        prev_io_count_total: pending.prev_io_count_total,
                    }
                }
            },
        }
    }
}

/// An action reaches the backend, or counts as applied in a dry run, only on a
/// managed VM without override, with a target inside the configured range and the
/// guest's vCPU count, and for an ordinary action after the cooldown.
pub proof fn law_every_applied_action_is_within_limits(
    cfg: Config,
    util: Double,
    status: InstanceStatus,
    action: ScaleAction,
    now: Instant,
)
    ensures
        match decision_step(cfg, util, status, action, now) {
            DecisionStep::Actuate(pending) | DecisionStep::DryRun(pending) => {
                &&& pending.action == action
                &&& action.wanted() == Some(pending.target)
                &&& !status.manual_scaling_sticky
                &&& status.ownership_classification == Some(true)
                &&& cfg.min_thread_count <= pending.target <= cfg.max_thread_count
                &&& pending.target <= status.vcpu_count
                &&& action.ordinary() && status.cooldown_until is Some
                    ==> status.cooldown_until->0.nanos <= now.nanos
            },
            _ => true,
        },
{
}

/// Applying an action leaves a worker count that is inside the configured range and
/// the guest's vCPU count, or, in a dry run, the count that was there.
pub proof fn law_pool_size_stays_within_limits(
    cfg: Config,
    util: Double,
    status: InstanceStatus,
    action: ScaleAction,
    now: Instant,
    cooldown_until: Instant,
)
    ensures
        match decision_step(cfg, util, status, action, now) {
            DecisionStep::Actuate(pending) => {
                let after = applied_status(status, cfg.dry_run, pending, cooldown_until);
                &&& cfg.min_thread_count <= after.thread_count <= cfg.max_thread_count
                &&& after.thread_count <= after.vcpu_count
            },
            DecisionStep::DryRun(pending) => applied_status(
                status,
                cfg.dry_run,
                pending,
                cooldown_until,
            ).thread_count == status.thread_count,
            _ => true,
        },
{
}

/// With actuation switched off nothing is ever asked of a backend; with it switched
/// on nothing is merely pretended.
pub proof fn law_dry_run_never_actuates(
    cfg: Config,
    util: Double,
    status: InstanceStatus,
    action: ScaleAction,
    now: Instant,
)
    ensures
        cfg.dry_run ==> !(decision_step(cfg, util, status, action, now) is Actuate),
        !cfg.dry_run ==> !(decision_step(cfg, util, status, action, now) is DryRun),
{
}

/// After an ordinary action went through at `now`, in a dry run too, no ordinary
/// action goes through before the configured delay is over: it is blocked for the
/// cooldown, unless a guard that comes earlier forbids it. `delay` is a length of time
/// that the delay is at least turned into.
pub proof fn law_cooldown_separates_ordinary_actions<F: Fn(Double) -> Duration>(
    cfg: Config,
    util: Double,
    status: InstanceStatus,
    pending: PendingDecision,
    seconds: F,
    delay: Duration,
    now: Instant,
    until: Instant,
    next: ScaleAction,
    later: Instant,
)
    requires
        pending.action.ordinary(),
        next.ordinary(),
        cooldown_ends(cfg, seconds, pending.action, now, until),
        forall|d: Duration| #[trigger]
            call_ensures(seconds, (cfg.cooldown_secs,), d) ==> delay.nanos <= d.nanos,
        later.nanos < now.nanos + delay.nanos,
    ensures
        ({
            let after = applied_status(status, cfg.dry_run, pending, until);
            let rested = InstanceStatus { cooldown_until: None, ..after };
            decision_step(cfg, util, after, next, later) == DecisionStep::Blocked(
                match guard(cfg, util, rested, next, next.wanted()->0, later) {
                    None => BlockedReason::Cooldown,
                    Some(BlockedReason::HostCpuCeiling) => BlockedReason::Cooldown,
                    Some(reason) => reason,
                },
            )
        }),
{
}

/// An undo neither waits for a cooldown nor starts one.
pub proof fn law_revert_ignores_cooldown(
    cfg: Config,
    util: Double,
    status: InstanceStatus,
    target: u32,
    now: Instant,
    other_cooldown: Option<Instant>,
    pending: PendingDecision,
    cooldown_until: Instant,
)
    requires
        pending.action == ScaleAction::Revert(target),
    ensures
        decision_step(cfg, util, status, ScaleAction::Revert(target), now) == decision_step(
            cfg,
            util,
            (InstanceStatus { cooldown_until: other_cooldown, ..status }),
            ScaleAction::Revert(target),
            now,
        ),
        applied_status(status, cfg.dry_run, pending, cooldown_until).cooldown_until
            == status.cooldown_until,
{
}

/// A sticky manual override stops every engine action, whatever else holds.
pub proof fn law_manual_override_stops_the_engine(
    cfg: Config,
    util: Double,
    status: InstanceStatus,
    action: ScaleAction,
    now: Instant,
)
    requires
        status.manual_scaling_sticky,
        action.wanted() is Some,
    ensures
        decision_step(cfg, util, status, action, now) == DecisionStep::Blocked(
            BlockedReason::ManualOverride,
        ),
{
}

} // verus!
