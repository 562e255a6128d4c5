//! What the controller does, told from its inputs alone.
use vstd::prelude::*;

use crate::backends::BackendClientError;
use crate::clock::{Duration, Instant};
use crate::config::{Config, ConfigError};
use crate::controller::decisions::{
    applied_status, cooldown_ends, decision_step, guard, DecisionStep, PendingDecision,
};
use crate::controller::inventory::{
    arrivals, casualties, is_new, leavers, lemma_fleet_after_sync, stayers, survivors,
};
use crate::controller::requests::{
    properties_for, served, thread_count_complaint, DbusRequest, DbusStep,
};
use crate::controller::tick::{committed, conflicts, next_index, ownership_changed, unrecorded};
use crate::controller::{
    distinct, holds_vm, lemma_drop_last_distinct, unknown_vm, ControllerError,
};
use crate::double::Double;
use crate::engines::{BlockedReason, ScaleAction};
use crate::instance::{Instance, InstanceStatus};
use crate::rolling_laws::stopped_sum;
use crate::state::StateError;
use crate::text::decimal;

verus! {

/// What an action asks for, and which actions are ordinary.
pub proof fn law_actions_ask_for_their_target(action: ScaleAction)
    ensures
        action.wanted() is None <==> action == ScaleAction::Hold,
        action matches ScaleAction::Up(target) ==> action.wanted() == Some(target),
        action matches ScaleAction::Down(target) ==> action.wanted() == Some(target),
        action matches ScaleAction::Revert(target) ==> action.wanted() == Some(target),
        action.ordinary() <==> action is Up || action is Down,
{
}

/// Which guard speaks: each one exactly where it applies and none before it does. The
/// last one applies to an `Up` to more workers, on a host whose utilisation is at or
/// above a ceiling that is above zero.
pub proof fn law_first_guard_that_applies_speaks(
    cfg: Config,
    util: Double,
    status: InstanceStatus,
    action: ScaleAction,
    target: u32,
    now: Instant,
)
    ensures
        ({
            let told = guard(cfg, util, status, action, target, now);
            let ceiling = cfg.host_cpu_scale_up_ceiling;
            let sticky = status.manual_scaling_sticky;
            let foreign = status.ownership_classification != Some(true);
            let low = target < cfg.min_thread_count;
            let high = target > cfg.max_thread_count;
            let beyond = target > status.vcpu_count;
            let cooling = (action is Up || action is Down) && (status.cooldown_until matches Some(
                until,
            ) && now.nanos < until.nanos);
            let hot = action is Up && target > status.thread_count && !ceiling.nan()
                && !util.nan() && ceiling.value() > 0 && util.value() >= ceiling.value();
            &&& told == Some(BlockedReason::ManualOverride) <==> sticky
            &&& told == Some(BlockedReason::UnmanagedVm) <==> !sticky && foreign
            &&& told == Some(BlockedReason::TargetBelowMinimum) <==> !sticky && !foreign && low
            &&& told == Some(BlockedReason::TargetExceedsMaximum) <==> !sticky && !foreign && !low
                && high
            &&& told == Some(BlockedReason::TargetExceedsVcpuCount) <==> !sticky && !foreign
                && !low && !high && beyond
            &&& told == Some(BlockedReason::Cooldown) <==> !sticky && !foreign && !low && !high
                && !beyond && cooling
            &&& told == Some(BlockedReason::HostCpuCeiling) <==> !sticky && !foreign && !low
                && !high && !beyond && !cooling && hot
            &&& told is None <==> !sticky && !foreign && !low && !high && !beyond && !cooling
                && !hot
        }),
{
}

/// A busy host is not scaled up: with a ceiling above zero, an `Up` to more workers
/// neither reaches the backend nor counts as applied while the utilisation is at or
/// above the ceiling. What a busy host forbids, a busier one forbids too.
pub proof fn law_busy_host_is_not_scaled_up(
    cfg: Config,
    util: Double,
    busier: Double,
    status: InstanceStatus,
    target: u32,
    now: Instant,
)
    requires
        !cfg.host_cpu_scale_up_ceiling.nan(),
        cfg.host_cpu_scale_up_ceiling.value() > 0,
        !util.nan(),
        cfg.host_cpu_scale_up_ceiling.value() <= util.value(),
        target > status.thread_count,
        !busier.nan(),
        util.value() <= busier.value(),
    ensures
        ({
            let step = decision_step(cfg, util, status, ScaleAction::Up(target), now);
            &&& step is Blocked
            &&& !status.manual_scaling_sticky && status.ownership_classification == Some(true)
                && cfg.min_thread_count <= target <= cfg.max_thread_count && target
                <= status.vcpu_count && (status.cooldown_until is None
                || status.cooldown_until->0.nanos <= now.nanos) ==> step == DecisionStep::Blocked(
                BlockedReason::HostCpuCeiling,
            )
            &&& decision_step(cfg, busier, status, ScaleAction::Up(target), now) == step
        }),
{
}

/// The host's utilisation forbids nothing but an `Up` to more workers, and nothing
/// while it is below the ceiling.
pub proof fn law_ceiling_forbids_nothing_else(
    cfg: Config,
    util: Double,
    idle: Double,
    status: InstanceStatus,
    action: ScaleAction,
    now: Instant,
)
    requires
        !(action is Up) || action->Up_0 <= status.thread_count || util.below(
            cfg.host_cpu_scale_up_ceiling,
        ),
        idle.value() == 0,
        !idle.nan(),
    ensures
        decision_step(cfg, util, status, action, now) == decision_step(
            cfg,
            idle,
            status,
            action,
            now,
        ),
{
}

/// What a decision leads to: nothing without a target, a refusal where a guard speaks,
/// else a dry run or the backend. What goes on its way carries the action, its target,
/// and the worker count and the operations that it started from.
pub proof fn law_decision_leads_to_one_step(
    cfg: Config,
    util: Double,
    status: InstanceStatus,
    action: ScaleAction,
    now: Instant,
)
    ensures
        ({
            let step = decision_step(cfg, util, status, action, now);
            &&& step is Nothing <==> action is Hold
            &&& forall|target: u32|
                action.wanted() == Some(target) ==> {
                    let told = #[trigger] guard(cfg, util, status, action, target, now);
                    &&& told matches Some(reason) ==> step == DecisionStep::Blocked(reason)
                    &&& told is None && cfg.dry_run ==> step is DryRun
                    &&& told is None && !cfg.dry_run ==> step is Actuate
                }
            &&& match step {
                DecisionStep::Actuate(pending) | DecisionStep::DryRun(pending) => {
                    &&& pending.action == action
                    &&& action.wanted() == Some(pending.target)
                    &&& pending.prev_thread_count == status.thread_count
                    &&& status.perf is None ==> pending.prev_io_count_total == 0
                    &&& status.perf matches Some(perf) ==> pending.prev_io_count_total
                        == stopped_sum(
                        stopped_sum(perf.read_io_count, perf.write_io_count),
                        perf.other_io_count,
                    )
                },
                _ => true,
            }
        }),
{
}

/// Applying an action changes the worker count, unless it is a dry run, and the
/// cooldown, where the action is ordinary, and nothing else.
pub proof fn law_applying_changes_count_and_cooldown_only(
    status: InstanceStatus,
    dry_run: bool,
    pending: PendingDecision,
    until: Instant,
)
    ensures
        ({
            let after = applied_status(status, dry_run, pending, until);
            &&& dry_run ==> after.thread_count == status.thread_count
            &&& !dry_run ==> after.thread_count == pending.target
            &&& (pending.action is Up || pending.action is Down) ==> after.cooldown_until == Some(
                until,
            )
            &&& !(pending.action is Up || pending.action is Down) ==> after.cooldown_until
                == status.cooldown_until
            &&& after == (InstanceStatus {
                thread_count: after.thread_count,
                cooldown_until: after.cooldown_until,
                ..status
            })
        }),
{
}

/// A cooldown lasts as long as the configured delay, no more and no less: before its
/// end an ordinary action is held back, from its end on it is as if there were none.
pub proof fn law_cooldown_lasts_as_long_as_configured<F: Fn(Double) -> Duration>(
    cfg: Config,
    util: Double,
    status: InstanceStatus,
    pending: PendingDecision,
    seconds: F,
    delay: Duration,
    now: Instant,
    until: Instant,
    next: ScaleAction,
    later: Instant,
)
    requires
        pending.action is Up || pending.action is Down,
        cooldown_ends(cfg, seconds, pending.action, now, until),
        forall|d: Duration| #[trigger]
            call_ensures(seconds, (cfg.cooldown_secs,), d) ==> d.nanos == delay.nanos,
    ensures
        until.nanos == now.nanos + delay.nanos,
        ({
            let after = applied_status(status, cfg.dry_run, pending, until);
            let rested = InstanceStatus { cooldown_until: None, ..after };
            later.nanos >= now.nanos + delay.nanos ==> decision_step(cfg, util, after, next, later)
                == decision_step(cfg, util, rested, next, later)
        }),
{
}

/// A fleet holds a VM exactly if one of its instances has that name; it is distinct
/// exactly if no two have the same.
pub proof fn law_fleet_holds_its_names(fleet: Seq<Instance>, instance: Instance, id: Seq<char>)
    ensures
        !holds_vm(Seq::<Instance>::empty(), id),
        holds_vm(fleet.push(instance), id) <==> holds_vm(fleet, id) || instance.id@ == id,
        distinct(Seq::<Instance>::empty()),
        distinct(fleet.push(instance)) <==> distinct(fleet) && !holds_vm(fleet, instance.id@),
{
    let grown = fleet.push(instance);
    if holds_vm(fleet, id) {
        let i = choose|i: int| 0 <= i < fleet.len() && (#[trigger] fleet[i]).id@ == id;
        assert(grown[i].id@ == id);
    }
    if instance.id@ == id {
        assert(grown[fleet.len() as int].id@ == id);
    }
    if holds_vm(grown, id) && instance.id@ != id {
        let i = choose|i: int| 0 <= i < grown.len() && (#[trigger] grown[i]).id@ == id;
        assert(fleet[i].id@ == id);
    }
    if distinct(grown) {
        assert forall|i: int, j: int| 0 <= i < j < fleet.len() implies (#[trigger] fleet[i]).id@
            != (#[trigger] fleet[j]).id@ by {
            assert(grown[i].id@ != grown[j].id@);
        }
        if holds_vm(fleet, instance.id@) {
            let i = choose|i: int|
                0 <= i < fleet.len() && (#[trigger] fleet[i]).id@ == instance.id@;
            assert(grown[i].id@ != grown[fleet.len() as int].id@);
        }
    }
    if distinct(fleet) && !holds_vm(fleet, instance.id@) {
        assert forall|i: int, j: int| 0 <= i < j < grown.len() implies (#[trigger] grown[i]).id@
            != (#[trigger] grown[j]).id@ by {
            assert(grown[i] == fleet[i]);
            if j < fleet.len() {
                assert(grown[j] == fleet[j]);
            }
        }
    }
}

/// Discovery sorts the inventory: those VMs stay that were discovered, in their order;
/// the names of all others are reported, in their order.
pub proof fn law_discovery_sorts_the_inventory(fleet: Seq<Instance>, discovered: Seq<Instance>)
    ensures
        stayers(fleet, discovered) == fleet.filter(
            |instance: Instance| holds_vm(discovered, instance.id@),
        ),
        leavers(fleet, discovered) == fleet.filter(
            |instance: Instance| !holds_vm(discovered, instance.id@),
        ).map_values(|instance: Instance| instance.id@),
        stayers(fleet, discovered).len() + leavers(fleet, discovered).len() == fleet.len(),
    decreases fleet.len(),
{
    reveal(Seq::filter);
    if fleet.len() > 0 {
        law_discovery_sorts_the_inventory(fleet.drop_last(), discovered);
        let gone = fleet.drop_last().filter(
            |instance: Instance| !holds_vm(discovered, instance.id@),
        );
        assert(gone.push(fleet.last()).map_values(|instance: Instance| instance.id@)
            == gone.map_values(|instance: Instance| instance.id@).push(fleet.last().id@));
    }
    assert(leavers(fleet, discovered) == fleet.filter(
        |instance: Instance| !holds_vm(discovered, instance.id@),
    ).map_values(|instance: Instance| instance.id@));
}

/// Every VM that is gone is reported, and reported once: a name is reported exactly if
/// the inventory held it and the discovery does not.
pub proof fn law_every_vm_that_is_gone_is_reported(
    fleet: Seq<Instance>,
    discovered: Seq<Instance>,
    id: Seq<char>,
)
    requires
        distinct(fleet),
    ensures
        leavers(fleet, discovered).contains(id) <==> holds_vm(fleet, id) && !holds_vm(
            discovered,
            id,
        ),
        leavers(fleet, discovered).no_duplicates(),
    decreases fleet.len(),
{
    if fleet.len() > 0 {
        let rest = fleet.drop_last();
        let last = fleet.last();
        let before = leavers(rest, discovered);
        let all = leavers(fleet, discovered);
        lemma_drop_last_distinct(fleet);
        law_every_vm_that_is_gone_is_reported(rest, discovered, id);
        law_every_vm_that_is_gone_is_reported(rest, discovered, last.id@);
        assert(rest.push(last) == fleet);
        law_fleet_holds_its_names(rest, last, id);
        law_fleet_holds_its_names(rest, last, last.id@);
        if !holds_vm(discovered, last.id@) {
            assert(all == before.push(last.id@));
            assert(all[before.len() as int] == last.id@);
            if before.contains(id) {
                let k = choose|k: int| 0 <= k < before.len() && before[k] == id;
                assert(all[k] == id);
            }
            if all.contains(id) && id != last.id@ {
                let k = choose|k: int| 0 <= k < all.len() && all[k] == id;
                assert(before[k] == id);
            }
            assert forall|i: int, j: int| 0 <= i < all.len() && 0 <= j < all.len() && i
                != j implies all[i] != all[j] by {
                if i == before.len() {
                    assert(before.contains(before[j]));
                } else if j == before.len() {
                    assert(before.contains(before[i]));
                }
            }
        }
    }
}

/// One more discovered instance: it arrives, behind those before it, unless the
/// inventory or the discovery has its name already. It arrives as it was discovered,
/// but for the classification, which is the registry's.
pub proof fn law_one_more_discovered_instance(
    fleet: Seq<Instance>,
    discovered: Seq<Instance>,
    instance: Instance,
    ownership: Map<Seq<char>, bool>,
)
    ensures
        arrivals(fleet, Seq::<Instance>::empty(), ownership).len() == 0,
        ({
            let before = arrivals(fleet, discovered, ownership);
            let after = arrivals(fleet, discovered.push(instance), ownership);
            let known = holds_vm(fleet, instance.id@) || holds_vm(discovered, instance.id@);
            &&& is_new(fleet, discovered.push(instance), discovered.len() as int) <==> !known
            &&& known ==> after == before
            &&& !known ==> after == before.push(
                Instance {
                    id: instance.id,
                    pid: instance.pid,
                    status: InstanceStatus {
                        ownership_classification: if ownership.dom().contains(instance.id@) {
                            Some(ownership[instance.id@])
                        } else {
                            None
                        },
                        ..instance.status
                    },
                },
            )
        }),
{
    let grown = discovered.push(instance);
    assert(grown.drop_last() == discovered);
    assert(grown.take(discovered.len() as int) == discovered);
    assert(grown.last() == instance);
}

/// An instance is new exactly if no tracked VM, and no instance discovered before it,
/// has its name.
pub proof fn law_new_means_not_seen_before(
    fleet: Seq<Instance>,
    discovered: Seq<Instance>,
    i: int,
)
    requires
        0 <= i < discovered.len(),
    ensures
        is_new(fleet, discovered, i) <==> {
            &&& forall|k: int|
                0 <= k < fleet.len() ==> (#[trigger] fleet[k]).id@ != discovered[i].id@
            &&& forall|k: int|
                0 <= k < i ==> (#[trigger] discovered[k]).id@ != discovered[i].id@
        },
{
    let before = discovered.take(i);
    assert forall|k: int| 0 <= k < i implies #[trigger] before[k] == discovered[k] by {}
    if !holds_vm(before, discovered[i].id@) {
        assert forall|k: int| 0 <= k < i implies (#[trigger] discovered[k]).id@
            != discovered[i].id@ by {
            assert(before[k].id@ != discovered[i].id@);
        }
    }
}

/// After a discovery the counts add up: those who were there, without those who left,
/// with those who arrived.
pub proof fn law_discovery_counts_add_up(
    fleet: Seq<Instance>,
    discovered: Seq<Instance>,
    ownership: Map<Seq<char>, bool>,
)
    requires
        distinct(fleet),
    ensures
        ({
            let after = stayers(fleet, discovered) + arrivals(fleet, discovered, ownership);
            &&& distinct(after)
            &&& after.len() + leavers(fleet, discovered).len() == fleet.len() + arrivals(
                fleet,
                discovered,
                ownership,
            ).len()
        }),
{
    law_discovery_sorts_the_inventory(fleet, discovered);
    lemma_fleet_after_sync(fleet, discovered, ownership);
}

/// One more refreshed VM: it stays, behind those before it, with exactly the status of
/// its refresh; or its refresh failed, and its name is reported.
pub proof fn law_one_more_refreshed_vm(
    fleet: Seq<Instance>,
    instance: Instance,
    refreshed: Seq<Option<InstanceStatus>>,
)
    ensures
        survivors(Seq::<Instance>::empty(), refreshed).len() == 0,
        casualties(Seq::<Instance>::empty(), refreshed).len() == 0,
        ({
            let grown = fleet.push(instance);
            let kept = survivors(fleet, refreshed);
            let lost = casualties(fleet, refreshed);
            match refreshed[fleet.len() as int] {
                Some(status) => {
                    &&& survivors(grown, refreshed) == kept.push(
                        Instance { id: instance.id, pid: instance.pid, status },
                    )
                    &&& casualties(grown, refreshed) == lost
                },
                None => {
                    &&& survivors(grown, refreshed) == kept
                    &&& casualties(grown, refreshed) == lost.push(instance.id@)
                },
            }
        }),
{
    let grown = fleet.push(instance);
    assert(grown.drop_last() == fleet);
    assert(grown.last() == instance);
}

/// Every VM whose refresh succeeded has its fresh status afterwards, with the name and
/// the process it had; and there is no other VM.
pub proof fn law_refresh_gives_each_vm_its_status(
    fleet: Seq<Instance>,
    refreshed: Seq<Option<InstanceStatus>>,
    i: int,
)
    requires
        0 <= i < fleet.len(),
    ensures
        refreshed[i] matches Some(status) ==> survivors(fleet, refreshed).contains(
            Instance { id: fleet[i].id, pid: fleet[i].pid, status },
        ),
        survivors(fleet, refreshed).len() + casualties(fleet, refreshed).len() == fleet.len(),
        forall|k: int|
            0 <= k < survivors(fleet, refreshed).len() ==> came_through(
                fleet,
                refreshed,
                #[trigger] survivors(fleet, refreshed)[k],
            ),
    decreases fleet.len(),
{
    let rest = fleet.drop_last();
    let last = fleet[fleet.len() - 1];
    assert(rest.push(last) == fleet);
    law_one_more_refreshed_vm(rest, last, refreshed);
    let before = survivors(rest, refreshed);
    let all = survivors(fleet, refreshed);
    if rest.len() > 0 {
        let j = if i < rest.len() {
            i
        } else {
            0
        };
        law_refresh_gives_each_vm_its_status(rest, refreshed, j);
    } else {
        assert(rest == Seq::<Instance>::empty());
    }
    if let Some(status) = refreshed[i] {
        let fresh = Instance { id: fleet[i].id, pid: fleet[i].pid, status };
        if i < rest.len() {
            assert(rest[i] == fleet[i]);
            let k = choose|k: int| 0 <= k < before.len() && before[k] == fresh;
            assert(all[k] == fresh);
        } else {
            assert(all[before.len() as int] == fresh);
        }
    }
    assert forall|k: int| 0 <= k < all.len() implies came_through(
        fleet,
        refreshed,
        #[trigger] all[k],
    ) by {
        if k < before.len() {
            assert(all[k] == before[k]);
            let j = choose|j: int|
                0 <= j < rest.len() && refreshed[j] is Some && (#[trigger] rest[j]).id
                    == before[k].id && rest[j].pid == before[k].pid && refreshed[j]->0
                    == before[k].status;
            assert(fleet[j] == rest[j]);
        } else {
            assert(fleet[fleet.len() - 1].id == all[k].id);
        }
    }
}

/// `instance` is a VM of the fleet with the status of its refresh.
pub open spec fn came_through(
    fleet: Seq<Instance>,
    refreshed: Seq<Option<InstanceStatus>>,
    instance: Instance,
) -> bool {
    exists|j: int|
        0 <= j < fleet.len() && refreshed[j] is Some && (#[trigger] fleet[j]).id == instance.id
            && fleet[j].pid == instance.pid && refreshed[j]->0 == instance.status
}

/// Ticks are counted up by one, and start over after the largest number.
pub proof fn law_ticks_are_counted_up(n: u64)
    ensures
        next_index(n) == (n + 1) % 0x1_0000_0000_0000_0000,
{
}

/// What is recorded of one more VM: its classification, where it has one and the
/// registry had none for it; nothing otherwise. A conflict is a classification that
/// differs from the registry's.
pub proof fn law_one_more_classified_vm(
    ownership: Map<Seq<char>, bool>,
    fleet: Seq<Instance>,
    instance: Instance,
)
    ensures
        committed(ownership, Seq::<Instance>::empty()) == ownership,
        conflicts(ownership, instance) <==> (ownership.dom().contains(instance.id@)
            && instance.status.ownership_classification == Some(!ownership[instance.id@])),
        unrecorded(ownership, instance) <==> (!ownership.dom().contains(instance.id@)
            && instance.status.ownership_classification is Some),
        ({
            let before = committed(ownership, fleet);
            let after = committed(ownership, fleet.push(instance));
            match instance.status.ownership_classification {
                Some(managed) if !ownership.dom().contains(instance.id@) => after
                    == before.insert(instance.id@, managed),
                _ => after == before,
            }
        }),
{
    assert(fleet.push(instance).drop_last() == fleet);
    assert(fleet.push(instance).last() == instance);
}

/// Only what a VM of the fleet was classified as is recorded.
pub proof fn law_only_classifications_are_recorded(
    ownership: Map<Seq<char>, bool>,
    fleet: Seq<Instance>,
    id: Seq<char>,
)
    requires
        committed(ownership, fleet).dom().contains(id),
        !ownership.dom().contains(id),
    ensures
        exists|i: int|
            0 <= i < fleet.len() && (#[trigger] fleet[i]).id@ == id
                && fleet[i].status.ownership_classification == Some(
                committed(ownership, fleet)[id],
            ),
    decreases fleet.len(),
{
    if fleet.len() > 0 {
        let rest = fleet.drop_last();
        let last = fleet[fleet.len() - 1];
        assert(rest.push(last) == fleet);
        law_one_more_classified_vm(ownership, rest, last);
        if last.id@ == id && last.status.ownership_classification is Some {
            assert(fleet[fleet.len() - 1].id@ == id);
        } else {
            law_only_classifications_are_recorded(ownership, rest, id);
            let i = choose|i: int|
                0 <= i < rest.len() && (#[trigger] rest[i]).id@ == id
                    && rest[i].status.ownership_classification == Some(
                    committed(ownership, rest)[id],
                );
            assert(fleet[i] == rest[i]);
        }
    }
}

/// Which manual worker counts are accepted: from one up to the guest's vCPUs. Both
/// numbers stand in the refusal of a larger one.
pub proof fn law_which_manual_counts_are_accepted(threads: u32, vcpu_count: u32)
    ensures
        thread_count_complaint(threads, vcpu_count) is None <==> 1 <= threads <= vcpu_count,
        threads == 0 ==> thread_count_complaint(threads, vcpu_count) == Some(
            "target thread count must be greater than zero"@,
        ),
        threads > vcpu_count && threads > 0 ==> thread_count_complaint(threads, vcpu_count)
            == Some(
            "target thread count "@ + decimal(threads as nat) + " > guest vCPU count "@ + decimal(
                vcpu_count as nat,
            ),
        ),
{
}

/// A request about one VM: it is refused where the VM is not tracked, and else goes to
/// the client of that VM, with what the request asks for.
pub proof fn law_requests_go_to_the_client_of_their_vm<M>(
    fleet: Seq<Instance>,
    tick: u64,
    request: DbusRequest<M>,
    step: DbusStep<M>,
)
    requires
        served(fleet, tick, request, step),
    ensures
        match request {
            DbusRequest::SetThreadCount { vm, threads, sticky } => {
                &&& step is Refused || step is SetThreadCount
                &&& !holds_vm(fleet, vm@) ==> step is Refused && step->Refused_0@ == "VM error: "@
                    + ("unknown VM "@ + vm@)
                &&& step matches DbusStep::SetThreadCount { index, threads: t, sticky: s } ==> index
                    < fleet.len() && fleet[index as int].id@ == vm@ && t == threads && s == sticky
                    && 1 <= threads <= fleet[index as int].status.vcpu_count
                &&& step is Refused && holds_vm(fleet, vm@) ==> exists|i: int|
                    0 <= i < fleet.len() && (#[trigger] fleet[i]).id@ == vm@ && !(1 <= threads
                        <= fleet[i].status.vcpu_count) && (thread_count_complaint(
                        threads,
                        fleet[i].status.vcpu_count,
                    ) matches Some(words) && step->Refused_0@ == "Set thread count error: "@
                        + words)
            },
            DbusRequest::GetIoThreadVqMapping { vm, device } => if holds_vm(fleet, vm@) {
                step matches DbusStep::GetIoThreadVqMapping { index, device: d } && index
                    < fleet.len() && fleet[index as int].id@ == vm@ && d == device
            } else {
                step matches DbusStep::Refused(text) && text@ == "unknown VM "@ + vm@
            },
            DbusRequest::AddIoThread { vm, id, poll_max_ns } => if holds_vm(fleet, vm@) {
                step matches DbusStep::AddIoThread { index, id: i, properties } && index
                    < fleet.len() && fleet[index as int].id@ == vm@ && i == id && (properties
                    is None <==> poll_max_ns < 0) && (properties matches Some(p)
                    ==> p.poll_max_ns == Some(poll_max_ns))
            } else {
                step matches DbusStep::Refused(text) && text@ == "unknown VM "@ + vm@
            },
            DbusRequest::DelIoThread { vm, id } => if holds_vm(fleet, vm@) {
                step matches DbusStep::DelIoThread { index, id: i } && index < fleet.len()
                    && fleet[index as int].id@ == vm@ && i == id
            } else {
                step matches DbusStep::Refused(text) && text@ == "unknown VM "@ + vm@
            },
            DbusRequest::SetIoThreadVqMapping { vm, device, mapping } => match mapping {
                Err(error) => step matches DbusStep::Refused(text) && text@
                    == "parse mapping JSON: "@ + error@,
                Ok(mapping) => if holds_vm(fleet, vm@) {
                    step matches DbusStep::SetIoThreadVqMapping { index, device: d, mapping: m }
                        && index < fleet.len() && fleet[index as int].id@ == vm@ && d == device
                        && m == mapping
                } else {
                    step matches DbusStep::Refused(text) && text@ == "unknown VM "@ + vm@
                },
            },
            _ => true,
        },
{
}

/// Requests about the whole fleet are answered for every VM, in the inventory's order.
pub proof fn law_fleet_requests_are_answered_for_every_vm<M>(
    fleet: Seq<Instance>,
    tick: u64,
    request: DbusRequest<M>,
    step: DbusStep<M>,
)
    requires
        served(fleet, tick, request, step),
    ensures
        request is GetVersion ==> step is Version,
        request is GetSnapshot ==> (step matches DbusStep::Snapshot(payload)
            && payload.vms@.len() == fleet.len() && forall|i: int|
            0 <= i < fleet.len() ==> (#[trigger] payload.vms@[i]).id@ == fleet[i].id@
                && payload.vms@[i].shows(fleet[i])),
        request is GetStats ==> (step matches DbusStep::Stats(stats) && stats.tick == tick
            && stats.vms@.len() == fleet.len() && forall|i: int|
            0 <= i < fleet.len() ==> (#[trigger] stats.vms@[i]).vm@ == fleet[i].id@
                && stats.vms@[i].shows(fleet[i])),
{
}

/// A negative polling limit keeps the default; any other is passed on.
pub proof fn law_negative_polling_limit_keeps_the_default(poll_max_ns: i64)
    ensures
        properties_for(poll_max_ns) is None <==> poll_max_ns < 0,
        properties_for(poll_max_ns) matches Some(properties) ==> properties.poll_max_ns == Some(
            poll_max_ns,
        ),
{
}

/// Every error is told in full: the words for its kind, and behind them what went
/// wrong. A VM that is missing, or that was classified anew, is named.
pub proof fn law_errors_tell_what_went_wrong(
    controller: ControllerError,
    backend: BackendClientError,
    state: StateError,
    config: ConfigError,
    vm: Seq<char>,
)
    ensures
        unknown_vm(vm) == "unknown VM "@ + vm,
        ownership_changed(vm) == "VM "@ + vm + " ownership changed after classification"@,
        match controller {
            ControllerError::BackendClient(error) => controller.text() == error.text(),
            ControllerError::Proc(what) => controller.text() == what@,
            ControllerError::State(error) => controller.text() == error.text(),
            ControllerError::ThreadCountError(what) => controller.text()
                == "Set thread count error: "@ + what@,
            ControllerError::VmError(what) => controller.text() == "VM error: "@ + what@,
        },
        match backend {
            BackendClientError::Transport(what) => backend.text() == what@,
            BackendClientError::InvalidState(what) => backend.text() == what@,
            BackendClientError::Config(error) => backend.text() == error.text(),
            BackendClientError::Io(what) => backend.text() == what@,
            BackendClientError::Json(what) => backend.text() == what@,
        },
        match state {
            StateError::Overlap(id) => state.text() == "VM is both managed and unmanaged: "@ + id@,
            StateError::Storage(what) => state.text() == what@,
        },
        match config {
            ConfigError::InvalidValue(what) => config.text() == "invalid configuration value: "@
                + what@,
            ConfigError::Io(what) => config.text() == what@,
            ConfigError::SerdeJson(what) => config.text() == what@,
        },
{
}

} // verus!
