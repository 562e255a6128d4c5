//! One tick: sample, refresh, classify, evaluate.
use vstd::prelude::*;

use crate::clock::Instant;
use crate::controller::{distinct, holds_vm, lemma_drop_last_distinct, Controller, ControllerError};
use crate::double::Double;
use crate::engines::EngineTickContext;
use crate::host_cpu::{sampled, HostCpuSample};
use crate::instance::Instance;

verus! {

/// The number after `n`, starting over after the largest.
pub open spec fn next_index(n: u64) -> u64 {
    if n == u64::MAX {
        0
    } else {
        (n + 1) as u64
    }
}

/// An instance whose classification contradicts the registry.
pub open spec fn conflicts(ownership: Map<Seq<char>, bool>, instance: Instance) -> bool {
    instance.status.ownership_classification is Some && ownership.contains_key(instance.id@)
        && ownership[instance.id@] != instance.status.ownership_classification->0
}

/// An instance with a classification that the registry does not have yet.
pub open spec fn unrecorded(ownership: Map<Seq<char>, bool>, instance: Instance) -> bool {
    instance.status.ownership_classification is Some && !ownership.contains_key(instance.id@)
}

/// The registry with the new classifications of a fleet added.
pub open spec fn committed(ownership: Map<Seq<char>, bool>, fleet: Seq<Instance>) -> Map<
    Seq<char>,
    bool,
>
    decreases fleet.len(),
{
    if fleet.len() == 0 {
        ownership
    } else {
        let before = committed(ownership, fleet.drop_last());
        if unrecorded(ownership, fleet.last()) {
            before.insert(fleet.last().id@, fleet.last().status.ownership_classification->0)
        } else {
            before
        }
    }
}

/// The complaint about a VM whose classification changed.
pub open spec fn ownership_changed(id: Seq<char>) -> Seq<char> {
    "VM "@ + id + " ownership changed after classification"@
}

proof fn lemma_committed(ownership: Map<Seq<char>, bool>, fleet: Seq<Instance>)
    ensures
        forall|id: Seq<char>| #[trigger]
            committed(ownership, fleet).contains_key(id) ==> ownership.contains_key(id)
                || holds_vm(fleet, id),
        forall|id: Seq<char>|
            ownership.contains_key(id) ==> #[trigger] committed(ownership, fleet).contains_key(id)
                && committed(ownership, fleet)[id] == ownership[id],
    decreases fleet.len(),
{
    if fleet.len() > 0 {
        let rest = fleet.drop_last();
        lemma_committed(ownership, rest);
        assert forall|id: Seq<char>| #[trigger] committed(ownership, fleet).contains_key(
            id,
        ) implies ownership.contains_key(id) || holds_vm(fleet, id) by {
            if id == fleet.last().id@ {
                assert(fleet[fleet.len() - 1].id@ == id);
            } else if !ownership.contains_key(id) {
                assert(committed(ownership, rest).contains_key(id));
                let i = choose|i: int| 0 <= i < rest.len() && (#[trigger] rest[i]).id@ == id;
                assert(fleet[i].id@ == id);
            }
        }
        assert forall|id: Seq<char>| ownership.contains_key(id) implies #[trigger] committed(
            ownership,
            fleet,
        ).contains_key(id) && committed(ownership, fleet)[id] == ownership[id] by {
            assert(committed(ownership, rest).contains_key(id));
        }
    }
}

/// A classification survives: once recorded, no tick changes it.
pub proof fn law_recorded_classification_is_final(
    ownership: Map<Seq<char>, bool>,
    fleet: Seq<Instance>,
    id: Seq<char>,
)
    requires
        ownership.contains_key(id),
    ensures
        committed(ownership, fleet).contains_key(id),
        committed(ownership, fleet)[id] == ownership[id],
{
    lemma_committed(ownership, fleet);
    assert(committed(ownership, fleet).contains_key(id));
}

/// After a tick without conflict every classified VM of the fleet is on record,
/// with its classification; a second tick then finds nothing to record.
pub proof fn law_every_classification_is_recorded(
    ownership: Map<Seq<char>, bool>,
    fleet: Seq<Instance>,
    i: int,
)
    requires
        distinct(fleet),
        0 <= i < fleet.len(),
        fleet[i].status.ownership_classification is Some,
        !conflicts(ownership, fleet[i]),
    ensures
        committed(ownership, fleet).contains_key(fleet[i].id@),
        committed(ownership, fleet)[fleet[i].id@] == fleet[i].status.ownership_classification->0,
        !unrecorded(committed(ownership, fleet), fleet[i]),
        !conflicts(committed(ownership, fleet), fleet[i]),
    decreases fleet.len(),
{
    let rest = fleet.drop_last();
    let last = fleet.last();
    lemma_drop_last_distinct(fleet);
    lemma_committed(ownership, fleet);
    lemma_committed(ownership, rest);
    if i < fleet.len() - 1 {
        law_every_classification_is_recorded(ownership, rest, i);
        assert(fleet[i].id@ != fleet[fleet.len() - 1].id@);
    }
}

impl Controller {
    /// Start a tick: count it, take in a reading of the host's CPU counters, and
    /// fix what all evaluations of this tick have in common.
    pub fn tick<F: Fn(u64, u64) -> Double>(
        &mut self,
        now: Instant,
        host: Option<HostCpuSample>,
        ratio: F,
    ) -> (context: EngineTickContext)
        requires
            forall|busy: u64, total: u64| total > 0 ==> call_requires(ratio, (busy, total)),
        ensures
            final(self).cfg == old(self).cfg,
            final(self).vm_ownership == old(self).vm_ownership,
            final(self).instances@ == old(self).instances@,
            old(self).wf() ==> final(self).wf(),
            final(self).tick_index == next_index(old(self).tick_index),
            sampled(old(self).host_cpu, final(self).host_cpu, host, ratio),
            context == (EngineTickContext {
                now,
                min_thread_count: old(self).cfg.min_thread_count,
                max_thread_count: old(self).cfg.max_thread_count,
                host_cpu_util: final(self).host_cpu.util,
                tick_index: final(self).tick_index,
            }),
    {
        self.tick_index = self.tick_index.wrapping_add(1);
        let host_cpu_util = self.host_cpu.sample(host, ratio);
        EngineTickContext {
            now,
            min_thread_count: self.cfg.min_thread_count,
            max_thread_count: self.cfg.max_thread_count,
            host_cpu_util,
            tick_index: self.tick_index,
        }
    }

    /// Commit classifications produced by first successful backend snapshots.
    /// Returns whether the registry changed and is to be saved. The first VM whose
    /// classification contradicts the registry ends the work with an error; what
    /// stood before it is recorded.
    pub fn persist_new_classifications(&mut self) -> (r: Result<bool, ControllerError>)
        requires
            old(self).wf(),
        ensures
            final(self).wf(),
            final(self).cfg == old(self).cfg,
            final(self).instances@ == old(self).instances@,
            final(self).tick_index == old(self).tick_index,
            final(self).host_cpu == old(self).host_cpu,
            r is Ok <==> forall|i: int|
                0 <= i < old(self).instances@.len() ==> !conflicts(
                    old(self).vm_ownership@,
                    #[trigger] old(self).instances@[i],
                ),
            r matches Ok(changed) ==> {
                &&& final(self).vm_ownership@ == committed(
                    old(self).vm_ownership@,
                    old(self).instances@,
                )
                &&& changed == exists|i: int|
                    0 <= i < old(self).instances@.len() && unrecorded(
                        old(self).vm_ownership@,
                        #[trigger] old(self).instances@[i],
                    )
            },
            r matches Err(error) ==> exists|k: int|
                {
                    &&& 0 <= k < old(self).instances@.len()
                    &&& conflicts(old(self).vm_ownership@, #[trigger] old(self).instances@[k])
                    &&& forall|j: int|
                        0 <= j < k ==> !conflicts(
                            old(self).vm_ownership@,
                            #[trigger] old(self).instances@[j],
                        )
                    &&& final(self).vm_ownership@ == committed(
                        old(self).vm_ownership@,
                        old(self).instances@.take(k),
                    )
                    &&& error matches ControllerError::VmError(what) && what@ == ownership_changed(
                        old(self).instances@[k].id@,
                    )
                },
    {
        let ghost fleet = self.instances@;
        let ghost ownership = self.vm_ownership@;
        let mut changed = false;
        let mut i: usize = 0;
        assert(fleet.take(0) == Seq::<Instance>::empty());
        while i < self.instances.len()
            invariant
                i <= fleet.len(),
                self.instances@ == fleet,
                distinct(fleet),
                fleet == old(self).instances@,
                ownership == old(self).vm_ownership@,
                self.vm_ownership.wf(),
                self.cfg == old(self).cfg,
                self.tick_index == old(self).tick_index,
                self.host_cpu == old(self).host_cpu,
                self.vm_ownership@ == committed(ownership, fleet.take(i as int)),
                forall|j: int| 0 <= j < i ==> !conflicts(ownership, #[trigger] fleet[j]),
                changed == exists|j: int| 0 <= j < i && unrecorded(ownership, #[trigger] fleet[j]),
            decreases fleet.len() - i,
        {
            let ghost before = fleet.take(i as int);
            let ghost had = changed;
            let ghost here = fleet[i as int];
            proof {
                assert(fleet.take(i + 1).drop_last() == before);
                assert(fleet.take(i + 1).last() == here);
                lemma_committed(ownership, before);
                if holds_vm(before, here.id@) {
                    let k = choose|k: int| 0 <= k < before.len() && (#[trigger] before[k]).id@
                        == here.id@;
                    assert(fleet[k].id@ != fleet[i as int].id@);
                }
            }
            let id = &self.instances[i].id;
            if let Some(managed) = self.instances[i].status.ownership_classification {
                match self.vm_ownership.classification(id.as_str()) {
                    Some(persisted) => {
                        if persisted != managed {
                            assert(conflicts(ownership, fleet[i as int]));
                            return Err(
                                ControllerError::VmError(
                                    "VM ".to_owned().concat(id.as_str()).concat(
                                        " ownership changed after classification",
                                    ),
                                ),
                            );
                        }
                    },
                    None => {
                        match self.vm_ownership.record(id.as_str(), managed) {
                            Ok(_) => {},
                            Err(error) => {
                                return Err(ControllerError::State(error));
                            },
                        }
                        changed = true;
                        assert(unrecorded(ownership, fleet[i as int]));
                    },
                }
            }
            proof {
                if had {
                    let j = choose|j: int| 0 <= j < i && unrecorded(ownership, #[trigger] fleet[j]);
                    assert(0 <= j < i + 1 && unrecorded(ownership, fleet[j]));
                }
            }
            i += 1;
        }
        assert(fleet.take(fleet.len() as int) == fleet);
        Ok(changed)
    }
}

} // verus!
