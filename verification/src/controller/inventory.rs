//! Which VMs the controller knows.
use vstd::prelude::*;

use crate::controller::laws::{
    law_every_vm_that_is_gone_is_reported, law_refresh_gives_each_vm_its_status,
};
use crate::controller::{distinct, holds_vm, lemma_drop_last_distinct, Controller};
use crate::instance::{Instance, InstanceStatus};
use crate::text::{same_text, texts};

verus! {

/// What a discovery changed.
#[derive(Debug)]
pub struct SyncReport {
    /// Number of VMs that are new.
    pub added: usize,
    /// Number of VMs that are gone.
    pub removed: usize,
    /// For each discovered instance, whether it was taken in. The client of one
    /// that was not is to be closed.
    pub taken: Vec<bool>,
    /// The VMs that are gone. Their clients are to be closed and the engine is to
    /// hear of it.
    pub stale: Vec<String>,
}

/// Whether `discovered[i]` is new: the inventory does not hold it, and it is the
/// first of its name.
pub open spec fn is_new(fleet: Seq<Instance>, discovered: Seq<Instance>, i: int) -> bool {
    !holds_vm(fleet, discovered[i].id@) && !holds_vm(discovered.take(i), discovered[i].id@)
}

/// An instance with the classification that the registry has for it.
pub open spec fn adopted(instance: Instance, ownership: Map<Seq<char>, bool>) -> Instance {
    Instance {
        status: InstanceStatus {
            ownership_classification: if ownership.contains_key(instance.id@) {
                Some(ownership[instance.id@])
            } else {
                None
            },
            ..instance.status
        },
        ..instance
    }
}

/// The new ones among the discovered instances, each with its classification.
pub open spec fn arrivals(
    fleet: Seq<Instance>,
    discovered: Seq<Instance>,
    ownership: Map<Seq<char>, bool>,
) -> Seq<Instance>
    decreases discovered.len(),
{
    if discovered.len() == 0 {
        Seq::empty()
    } else {
        let before = arrivals(fleet, discovered.drop_last(), ownership);
        if is_new(fleet, discovered, discovered.len() - 1) {
            before.push(adopted(discovered.last(), ownership))
        } else {
            before
        }
    }
}

/// The VMs of a fleet that were discovered again.
pub open spec fn stayers(fleet: Seq<Instance>, discovered: Seq<Instance>) -> Seq<Instance>
    decreases fleet.len(),
{
    if fleet.len() == 0 {
        Seq::empty()
    } else {
        let before = stayers(fleet.drop_last(), discovered);
        if holds_vm(discovered, fleet.last().id@) {
            before.push(fleet.last())
        } else {
            before
        }
    }
}

/// The names of the VMs of a fleet that were not discovered again.
pub open spec fn leavers(fleet: Seq<Instance>, discovered: Seq<Instance>) -> Seq<Seq<char>>
    decreases fleet.len(),
{
    if fleet.len() == 0 {
        Seq::empty()
    } else {
        let before = leavers(fleet.drop_last(), discovered);
        if holds_vm(discovered, fleet.last().id@) {
            before
        } else {
            before.push(fleet.last().id@)
        }
    }
}

/// Pushing an instance adds its name, and no other, to what a fleet holds.
proof fn lemma_push_holds(fleet: Seq<Instance>, instance: Instance)
    ensures
        forall|id: Seq<char>| #[trigger]
            holds_vm(fleet.push(instance), id) <==> holds_vm(fleet, id) || id == instance.id@,
{
    assert forall|id: Seq<char>| #[trigger] holds_vm(fleet.push(instance), id) <==> holds_vm(
        fleet,
        id,
    ) || id == instance.id@ by {
        let grown = fleet.push(instance);
        if holds_vm(fleet, id) {
            let i = choose|i: int| 0 <= i < fleet.len() && (#[trigger] fleet[i]).id@ == id;
            assert(grown[i].id@ == id);
        }
        if id == instance.id@ {
            assert(grown[fleet.len() as int].id@ == id);
        }
        if holds_vm(grown, id) && id != instance.id@ {
            let i = choose|i: int| 0 <= i < grown.len() && (#[trigger] grown[i]).id@ == id;
            assert(fleet[i].id@ == id);
        }
    }
}

/// What two fleets hold together.
proof fn lemma_concat_holds(left: Seq<Instance>, right: Seq<Instance>)
    ensures
        forall|id: Seq<char>| #[trigger]
            holds_vm(left + right, id) <==> holds_vm(left, id) || holds_vm(right, id),
{
    assert forall|id: Seq<char>| #[trigger] holds_vm(left + right, id) <==> holds_vm(left, id)
        || holds_vm(right, id) by {
        let both = left + right;
        if holds_vm(left, id) {
            let i = choose|i: int| 0 <= i < left.len() && (#[trigger] left[i]).id@ == id;
            assert(both[i].id@ == id);
        }
        if holds_vm(right, id) {
            let i = choose|i: int| 0 <= i < right.len() && (#[trigger] right[i]).id@ == id;
            assert(both[i + left.len()].id@ == id);
        }
        if holds_vm(both, id) {
            let i = choose|i: int| 0 <= i < both.len() && (#[trigger] both[i]).id@ == id;
            if i < left.len() {
                assert(left[i].id@ == id);
            } else {
                assert(right[i - left.len()].id@ == id);
            }
        }
    }
}

/// The fleet together with its arrivals holds what either side named.
proof fn lemma_arrivals_hold(
    fleet: Seq<Instance>,
    discovered: Seq<Instance>,
    ownership: Map<Seq<char>, bool>,
)
    ensures
        forall|id: Seq<char>| #[trigger]
            holds_vm(arrivals(fleet, discovered, ownership), id) <==> holds_vm(discovered, id)
                && !holds_vm(fleet, id),
    decreases discovered.len(),
{
    let all = arrivals(fleet, discovered, ownership);
    if discovered.len() > 0 {
        let rest = discovered.drop_last();
        lemma_arrivals_hold(fleet, rest, ownership);
        assert(discovered == rest.push(discovered.last()));
        assert(discovered.take(discovered.len() - 1) == rest);
        lemma_push_holds(rest, discovered.last());
        lemma_push_holds(
            arrivals(fleet, rest, ownership),
            adopted(discovered.last(), ownership),
        );
    }
}

proof fn lemma_arrivals_distinct(
    fleet: Seq<Instance>,
    discovered: Seq<Instance>,
    ownership: Map<Seq<char>, bool>,
)
    ensures
        distinct(arrivals(fleet, discovered, ownership)),
    decreases discovered.len(),
{
    if discovered.len() > 0 {
        let rest = discovered.drop_last();
        let before = arrivals(fleet, rest, ownership);
        lemma_arrivals_distinct(fleet, rest, ownership);
        lemma_arrivals_hold(fleet, rest, ownership);
        assert(discovered.take(discovered.len() - 1) == rest);
        let all = arrivals(fleet, discovered, ownership);
        if is_new(fleet, discovered, discovered.len() - 1) {
            assert forall|i: int, j: int| 0 <= i < j < all.len() implies (#[trigger] all[i]).id@ != (
            #[trigger] all[j]).id@ by {
                if j == before.len() {
                    assert(before[i].id@ == all[i].id@);
                    assert(holds_vm(before, all[i].id@));
                }
            }
        }
    }
}

proof fn lemma_stayers_hold(fleet: Seq<Instance>, discovered: Seq<Instance>)
    ensures
        forall|id: Seq<char>| #[trigger]
            holds_vm(stayers(fleet, discovered), id) <==> holds_vm(fleet, id) && holds_vm(
                discovered,
                id,
            ),
        distinct(fleet) ==> distinct(stayers(fleet, discovered)),
    decreases fleet.len(),
{
    if fleet.len() > 0 {
        let rest = fleet.drop_last();
        let before = stayers(rest, discovered);
        lemma_stayers_hold(rest, discovered);
        assert(fleet == rest.push(fleet.last()));
        lemma_push_holds(rest, fleet.last());
        lemma_push_holds(before, fleet.last());
        let all = stayers(fleet, discovered);
        if distinct(fleet) && holds_vm(discovered, fleet.last().id@) {
            lemma_drop_last_distinct(fleet);
            assert forall|i: int, j: int| 0 <= i < j < all.len() implies (#[trigger] all[i]).id@ != (
            #[trigger] all[j]).id@ by {
                if j == before.len() {
                    assert(holds_vm(before, before[i].id@));
                    let k = choose|k: int| 0 <= k < rest.len() && (#[trigger] rest[k]).id@
                        == before[i].id@;
                    assert(fleet[k].id@ != fleet[fleet.len() - 1].id@);
                }
            }
        } else if distinct(fleet) {
            lemma_drop_last_distinct(fleet);
        }
    }
}

/// VMs that were all discovered again all stay.
proof fn lemma_stayers_append(
    fleet: Seq<Instance>,
    more: Seq<Instance>,
    discovered: Seq<Instance>,
)
    requires
        forall|i: int| 0 <= i < more.len() ==> holds_vm(discovered, (#[trigger] more[i]).id@),
    ensures
        stayers(fleet + more, discovered) == stayers(fleet, discovered) + more,
        leavers(fleet + more, discovered) == leavers(fleet, discovered),
    decreases more.len(),
{
    if more.len() == 0 {
        assert(fleet + more == fleet);
        assert(stayers(fleet, discovered) + more == stayers(fleet, discovered));
    } else {
        let rest = more.drop_last();
        lemma_stayers_append(fleet, rest, discovered);
        assert((fleet + more).drop_last() == fleet + rest);
        assert((fleet + more).last() == more.last());
        assert(holds_vm(discovered, more[more.len() - 1].id@));
        assert((stayers(fleet, discovered) + rest).push(more.last()) == stayers(fleet, discovered)
            + more);
    }
}

fn names_of(fleet: &Vec<Instance>) -> (names: Vec<String>)
    ensures
        names@.len() == fleet@.len(),
        forall|i: int| 0 <= i < fleet@.len() ==> (#[trigger] names@[i])@ == fleet@[i].id@,
{
    let mut names: Vec<String> = Vec::new();
    let mut i: usize = 0;
    while i < fleet.len()
        invariant
            i <= fleet@.len(),
            names@.len() == i,
            forall|j: int| 0 <= j < i ==> (#[trigger] names@[j])@ == fleet@[j].id@,
        decreases fleet@.len() - i,
    {
        names.push(fleet[i].id.clone());
        i += 1;
    }
    names
}

fn listed(names: &Vec<String>, id: &str) -> (r: bool)
    ensures
        r == exists|i: int| 0 <= i < names@.len() && (#[trigger] names@[i])@ == id@,
{
    let mut i: usize = 0;
    while i < names.len()
        invariant
            i <= names@.len(),
            forall|j: int| 0 <= j < i ==> (#[trigger] names@[j])@ != id@,
        decreases names@.len() - i,
    {
        if same_text(names[i].as_str(), id) {
            return true;
        }
        i += 1;
    }
    false
}

impl Controller {
    /// Reconcile a complete discovery result with the live inventory.
    pub fn sync_instances(&mut self, discovered: Vec<Instance>) -> (report: SyncReport)
        requires
            old(self).wf(),
        ensures
            final(self).wf(),
            final(self).cfg == old(self).cfg,
            final(self).vm_ownership == old(self).vm_ownership,
            final(self).tick_index == old(self).tick_index,
            final(self).host_cpu == old(self).host_cpu,
            final(self).instances@ == stayers(old(self).instances@, discovered@) + arrivals(
                old(self).instances@,
                discovered@,
                old(self).vm_ownership@,
            ),
            report.taken@.len() == discovered@.len(),
            forall|i: int|
                0 <= i < discovered@.len() ==> #[trigger] report.taken@[i] == is_new(
                    old(self).instances@,
                    discovered@,
                    i,
                ),
            texts(report.stale@) == leavers(old(self).instances@, discovered@),
            report.added == arrivals(
                old(self).instances@,
                discovered@,
                old(self).vm_ownership@,
            ).len(),
            report.removed == report.stale@.len(),
            forall|id: Seq<char>| #[trigger]
                texts(report.stale@).contains(id) <==> holds_vm(old(self).instances@, id)
                    && !holds_vm(discovered@, id),
            texts(report.stale@).no_duplicates(),
    {
        let ghost fleet = self.instances@;
        let ghost all = discovered@;
        let ghost ownership = self.vm_ownership@;
        let seen: Vec<String> = names_of(&discovered);
        let total: usize = seen.len();
        let mut added: usize = 0;
        let mut taken: Vec<bool> = Vec::new();
        assert(fleet + Seq::<Instance>::empty() == fleet);
        for instance in it: discovered
            invariant
                it.seq() == all,
                self.vm_ownership.wf(),
                self.vm_ownership@ == ownership,
                self.vm_ownership == old(self).vm_ownership,
                self.cfg == old(self).cfg,
                self.tick_index == old(self).tick_index,
                self.host_cpu == old(self).host_cpu,
                self.instances@ == fleet + arrivals(fleet, all.take(it.index()), ownership),
                added == arrivals(fleet, all.take(it.index()), ownership).len(),
                added <= it.index(),
                taken@.len() == it.index(),
                total == all.len(),
                forall|i: int|
                    0 <= i < it.index() ==> #[trigger] taken@[i] == is_new(fleet, all, i),
        {
            let ghost k = it.index();
            proof {
                let before = all.take(k);
                assert(all.take(k + 1).drop_last() == before);
                assert(all.take(k + 1).last() == instance);
                assert(all.take(k + 1).take(k) == before);
                lemma_arrivals_hold(fleet, before, ownership);
                lemma_concat_holds(fleet, arrivals(fleet, before, ownership));
            }
            if self.position(instance.id.as_str()).is_some() {
                taken.push(false);
            } else {
                let classification = self.vm_ownership.classification(instance.id.as_str());
                let mut instance = instance;
                instance.status.ownership_classification = classification;
                self.instances.push(instance);
                added += 1;
                taken.push(true);
            }
        }
        proof {
            assert(all.take(all.len() as int) == all);
        }
        let ghost grown = self.instances@;
        let mut stale: Vec<String> = Vec::new();
        let mut i: usize = 0;
        let ghost mut k: int = 0;
        assert(grown.skip(0) == grown);
        while i < self.instances.len()
            invariant
                0 <= k <= grown.len(),
                self.vm_ownership == old(self).vm_ownership,
                self.cfg == old(self).cfg,
                self.tick_index == old(self).tick_index,
                self.host_cpu == old(self).host_cpu,
                self.instances@ == stayers(grown.take(k), all) + grown.skip(k),
                i == stayers(grown.take(k), all).len(),
                texts(stale@) == leavers(grown.take(k), all),
                seen@.len() == all.len(),
                forall|j: int| 0 <= j < all.len() ==> (#[trigger] seen@[j])@ == all[j].id@,
            decreases grown.len() - k,
        {
            proof {
                assert(self.instances@[i as int] == grown[k]);
                assert(grown.take(k + 1).drop_last() == grown.take(k));
                assert(grown.take(k + 1).last() == grown[k]);
                assert(grown.skip(k).drop_first() == grown.skip(k + 1));
            }
            let here = listed(&seen, self.instances[i].id.as_str());
            proof {
                if holds_vm(all, grown[k].id@) {
                    let j = choose|j: int| 0 <= j < all.len() && (#[trigger] all[j]).id@
                        == grown[k].id@;
                    assert(seen@[j]@ == grown[k].id@);
                }
                if here {
                    let j = choose|j: int| 0 <= j < seen@.len() && (#[trigger] seen@[j])@
                        == grown[k].id@;
                    assert(all[j].id@ == grown[k].id@);
                }
            }
            if here {
                i += 1;
                assert(self.instances@ == stayers(grown.take(k + 1), all) + grown.skip(k + 1));
            } else {
                let gone = self.instances.remove(i);
                assert(self.instances@ == stayers(grown.take(k + 1), all) + grown.skip(k + 1));
                let ghost before = stale@;
                stale.push(gone.id);
                assert(texts(stale@) == texts(before).push(grown[k].id@));
            }
            proof {
                k = k + 1;
            }
        }
        proof {
            assert(grown.take(k) == grown);
            let fresh = arrivals(fleet, all, ownership);
            lemma_arrivals_hold(fleet, all, ownership);
            assert forall|j: int| 0 <= j < fresh.len() implies holds_vm(
                all,
                (#[trigger] fresh[j]).id@,
            ) by {
                assert(holds_vm(fresh, fresh[j].id@));
            }
            lemma_stayers_append(fleet, fresh, all);
            assert(self.instances@ == stayers(fleet, all) + fresh);
            lemma_fleet_after_sync(fleet, all, ownership);
            assert forall|id: Seq<char>| #[trigger]
                texts(stale@).contains(id) <==> holds_vm(fleet, id) && !holds_vm(all, id) by {
                law_every_vm_that_is_gone_is_reported(fleet, all, id);
            }
            law_every_vm_that_is_gone_is_reported(fleet, all, Seq::empty());
        }
        let removed: usize = stale.len();
        SyncReport { added, removed, taken, stale }
    }
}

pub proof fn lemma_fleet_after_sync(
    fleet: Seq<Instance>,
    discovered: Seq<Instance>,
    ownership: Map<Seq<char>, bool>,
)
    requires
        distinct(fleet),
    ensures
        distinct(stayers(fleet, discovered) + arrivals(fleet, discovered, ownership)),
        forall|id: Seq<char>| #[trigger]
            holds_vm(
                stayers(fleet, discovered) + arrivals(fleet, discovered, ownership),
                id,
            ) <==> holds_vm(discovered, id),
{
    let old_ones = stayers(fleet, discovered);
    let new_ones = arrivals(fleet, discovered, ownership);
    lemma_stayers_hold(fleet, discovered);
    lemma_arrivals_hold(fleet, discovered, ownership);
    lemma_arrivals_distinct(fleet, discovered, ownership);
    lemma_concat_holds(old_ones, new_ones);
    let both = old_ones + new_ones;
    assert forall|i: int, j: int| 0 <= i < j < both.len() implies (#[trigger] both[i]).id@ != (
    #[trigger] both[j]).id@ by {
        if i < old_ones.len() && j >= old_ones.len() {
            assert(holds_vm(old_ones, old_ones[i].id@));
            assert(holds_vm(new_ones, new_ones[j - old_ones.len()].id@));
        } else if j < old_ones.len() {
            assert(old_ones[i].id@ != old_ones[j].id@);
        } else {
            assert(new_ones[i - old_ones.len()].id@ != new_ones[j - old_ones.len()].id@);
        }
    }
}

/// After a discovery the inventory holds exactly the VMs that were discovered.
pub proof fn law_sync_follows_discovery(
    fleet: Seq<Instance>,
    discovered: Seq<Instance>,
    ownership: Map<Seq<char>, bool>,
    id: Seq<char>,
)
    requires
        distinct(fleet),
    ensures
        holds_vm(
            stayers(fleet, discovered) + arrivals(fleet, discovered, ownership),
            id,
        ) <==> holds_vm(discovered, id),
{
    lemma_fleet_after_sync(fleet, discovered, ownership);
}

/// A VM that stays keeps its state: discovering it again changes nothing about it.
pub proof fn law_sync_retains_known_instances(
    fleet: Seq<Instance>,
    discovered: Seq<Instance>,
    ownership: Map<Seq<char>, bool>,
    i: int,
)
    requires
        0 <= i < fleet.len(),
        holds_vm(discovered, fleet[i].id@),
    ensures
        (stayers(fleet, discovered) + arrivals(fleet, discovered, ownership)).contains(fleet[i]),
    decreases fleet.len(),
{
    let rest = fleet.drop_last();
    let after = stayers(fleet, discovered) + arrivals(fleet, discovered, ownership);
    if i == fleet.len() - 1 {
        let k = stayers(rest, discovered).len();
        assert(after[k as int] == fleet[i]);
    } else {
        lemma_stayers_contain(rest, discovered, i);
        let before = stayers(rest, discovered);
        let k = choose|k: int| 0 <= k < before.len() && before[k] == rest[i];
        assert(after[k] == fleet[i]);
    }
}

proof fn lemma_stayers_contain(fleet: Seq<Instance>, discovered: Seq<Instance>, i: int)
    requires
        0 <= i < fleet.len(),
        holds_vm(discovered, fleet[i].id@),
    ensures
        stayers(fleet, discovered).contains(fleet[i]),
    decreases fleet.len(),
{
    let rest = fleet.drop_last();
    let all = stayers(fleet, discovered);
    if i == fleet.len() - 1 {
        assert(all[all.len() - 1] == fleet[i]);
    } else {
        lemma_stayers_contain(rest, discovered, i);
        let before = stayers(rest, discovered);
        let k = choose|k: int| 0 <= k < before.len() && before[k] == rest[i];
        assert(all[k] == fleet[i]);
    }
}

/// Repeating a discovery adds nothing, removes nothing and changes nothing.
pub proof fn law_sync_is_idempotent(
    fleet: Seq<Instance>,
    discovered: Seq<Instance>,
    again: Seq<Instance>,
    ownership: Map<Seq<char>, bool>,
)
    requires
        distinct(fleet),
        forall|id: Seq<char>| #[trigger] holds_vm(again, id) <==> holds_vm(discovered, id),
    ensures
        ({
            let once = stayers(fleet, discovered) + arrivals(fleet, discovered, ownership);
            &&& stayers(once, again) == once
            &&& arrivals(once, again, ownership).len() == 0
            &&& leavers(once, again).len() == 0
        }),
{
    let once = stayers(fleet, discovered) + arrivals(fleet, discovered, ownership);
    lemma_fleet_after_sync(fleet, discovered, ownership);
    assert forall|i: int| 0 <= i < once.len() implies holds_vm(again, (#[trigger] once[i]).id@) by {
        assert(holds_vm(once, once[i].id@));
    }
    lemma_stayers_append(Seq::empty(), once, again);
    assert(Seq::<Instance>::empty() + once == once);
    lemma_arrivals_hold(once, again, ownership);
    let fresh = arrivals(once, again, ownership);
    if fresh.len() > 0 {
        assert(holds_vm(fresh, fresh[0].id@));
    }
}

/// The VMs whose refresh succeeded, each with its new status.
pub open spec fn survivors(
    fleet: Seq<Instance>,
    refreshed: Seq<Option<InstanceStatus>>,
) -> Seq<Instance>
    decreases fleet.len(),
{
    if fleet.len() == 0 {
        Seq::empty()
    } else {
        let before = survivors(fleet.drop_last(), refreshed);
        match refreshed[fleet.len() - 1] {
            Some(status) => before.push(Instance { status, ..fleet.last() }),
            None => before,
        }
    }
}

/// The names of the VMs whose refresh failed.
pub open spec fn casualties(
    fleet: Seq<Instance>,
    refreshed: Seq<Option<InstanceStatus>>,
) -> Seq<Seq<char>>
    decreases fleet.len(),
{
    if fleet.len() == 0 {
        Seq::empty()
    } else {
        let before = casualties(fleet.drop_last(), refreshed);
        match refreshed[fleet.len() - 1] {
            Some(_) => before,
            None => before.push(fleet.last().id@),
        }
    }
}

proof fn lemma_survivors_hold(fleet: Seq<Instance>, refreshed: Seq<Option<InstanceStatus>>)
    ensures
        forall|id: Seq<char>| #[trigger]
            holds_vm(survivors(fleet, refreshed), id) ==> holds_vm(fleet, id),
        distinct(fleet) ==> distinct(survivors(fleet, refreshed)),
    decreases fleet.len(),
{
    if fleet.len() > 0 {
        let rest = fleet.drop_last();
        let before = survivors(rest, refreshed);
        let all = survivors(fleet, refreshed);
        lemma_survivors_hold(rest, refreshed);
        assert(fleet == rest.push(fleet.last()));
        lemma_push_holds(rest, fleet.last());
        if let Some(status) = refreshed[fleet.len() - 1] {
            lemma_push_holds(before, Instance { status, ..fleet.last() });
        }
        if distinct(fleet) {
            lemma_drop_last_distinct(fleet);
            assert forall|i: int, j: int| 0 <= i < j < all.len() implies (#[trigger] all[i]).id@ != (
            #[trigger] all[j]).id@ by {
                assert(before[i].id@ == all[i].id@);
                if j == before.len() {
                    assert(holds_vm(before, before[i].id@));
                    let k = choose|k: int| 0 <= k < rest.len() && (#[trigger] rest[k]).id@
                        == before[i].id@;
                    assert(fleet[k].id@ != fleet[fleet.len() - 1].id@);
                } else {
                    assert(before[j].id@ == all[j].id@);
                }
            }
        }
    }
}

/// A refresh drops exactly the VMs that it failed for.
pub proof fn law_refresh_drops_exactly_the_failed(
    fleet: Seq<Instance>,
    refreshed: Seq<Option<InstanceStatus>>,
    i: int,
)
    requires
        distinct(fleet),
        refreshed.len() == fleet.len(),
        0 <= i < fleet.len(),
    ensures
        holds_vm(survivors(fleet, refreshed), fleet[i].id@) <==> refreshed[i] is Some,
        casualties(fleet, refreshed).contains(fleet[i].id@) <==> refreshed[i] is None,
{
    lemma_refresh_sorts_out(fleet, refreshed, i);
}

proof fn lemma_refresh_sorts_out(
    fleet: Seq<Instance>,
    refreshed: Seq<Option<InstanceStatus>>,
    i: int,
)
    requires
        distinct(fleet),
        0 <= i < fleet.len(),
    ensures
        holds_vm(survivors(fleet, refreshed), fleet[i].id@) <==> refreshed[i] is Some,
        casualties(fleet, refreshed).contains(fleet[i].id@) <==> refreshed[i] is None,
    decreases fleet.len(),
{
    let rest = fleet.drop_last();
    let last = fleet.last();
    let id = fleet[i].id@;
    let kept = survivors(rest, refreshed);
    let lost = casualties(rest, refreshed);
    lemma_drop_last_distinct(fleet);
    if let Some(status) = refreshed[fleet.len() - 1] {
        lemma_push_holds(kept, Instance { status, ..last });
    } else {
        let all = casualties(fleet, refreshed);
        assert(all == lost.push(last.id@));
        assert(all[lost.len() as int] == last.id@);
        if lost.contains(id) {
            let k = choose|k: int| 0 <= k < lost.len() && lost[k] == id;
            assert(all[k] == id);
        }
        if all.contains(id) && id != last.id@ {
            let k = choose|k: int| 0 <= k < all.len() && all[k] == id;
            assert(lost[k] == id);
        }
    }
    if i < fleet.len() - 1 {
        lemma_refresh_sorts_out(rest, refreshed, i);
        assert(rest[i] == fleet[i]);
        assert(fleet[i].id@ != fleet[fleet.len() - 1].id@);
    } else {
        lemma_survivors_hold(rest, refreshed);
        lemma_casualties_come_from(rest, refreshed);
        if holds_vm(rest, id) {
            let k = choose|k: int| 0 <= k < rest.len() && (#[trigger] rest[k]).id@ == id;
            assert(fleet[k].id@ != fleet[i].id@);
        }
    }
}

proof fn lemma_casualties_come_from(fleet: Seq<Instance>, refreshed: Seq<Option<InstanceStatus>>)
    ensures
        forall|id: Seq<char>| #[trigger]
            casualties(fleet, refreshed).contains(id) ==> holds_vm(fleet, id),
    decreases fleet.len(),
{
    if fleet.len() > 0 {
        let rest = fleet.drop_last();
        lemma_casualties_come_from(rest, refreshed);
        assert(fleet == rest.push(fleet.last()));
        lemma_push_holds(rest, fleet.last());
        assert forall|id: Seq<char>| #[trigger] casualties(fleet, refreshed).contains(
            id,
        ) implies holds_vm(fleet, id) by {
            let all = casualties(fleet, refreshed);
            let before = casualties(rest, refreshed);
            let k = choose|k: int| 0 <= k < all.len() && all[k] == id;
            if k < before.len() {
                assert(before[k] == id);
                assert(before.contains(id));
            }
        }
    }
}

impl Controller {
    /// Stop tracking a VM. Returns whether it was tracked: only then is its client
    /// to be closed and the engine to hear of it.
    pub fn remove_instance(&mut self, id: &str) -> (r: bool)
        requires
            old(self).wf(),
        ensures
            final(self).wf(),
            final(self).cfg == old(self).cfg,
            final(self).vm_ownership == old(self).vm_ownership,
            final(self).tick_index == old(self).tick_index,
            final(self).host_cpu == old(self).host_cpu,
            r == holds_vm(old(self).instances@, id@),
            !r ==> final(self).instances@ == old(self).instances@,
            r ==> exists|i: int|
                0 <= i < old(self).instances@.len() && (#[trigger] old(self).instances@[i]).id@
                    == id@ && final(self).instances@ == old(self).instances@.remove(i),
            !holds_vm(final(self).instances@, id@),
    {
        match self.position(id) {
            Some(i) => {
                let ghost before = self.instances@;
                let _ = self.instances.remove(i);
                proof {
                    let after = self.instances@;
                    assert(after == before.remove(i as int));
                    assert(before[i as int].id@ == id@);
                    assert forall|a: int, b: int| 0 <= a < b < after.len() implies (
                    #[trigger] after[a]).id@ != (#[trigger] after[b]).id@ by {
                        let x = if a < i {
                            a
                        } else {
                            a + 1
                        };
                        let y = if b < i {
                            b
                        } else {
                            b + 1
                        };
                        assert(before[x].id@ != before[y].id@);
                    }
                    if holds_vm(after, id@) {
                        let a = choose|a: int| 0 <= a < after.len() && (#[trigger] after[a]).id@
                            == id@;
                        if a < i {
                            assert(before[a].id@ != before[i as int].id@);
                        } else {
                            assert(before[i as int].id@ != before[a + 1].id@);
                        }
                    }
                }
                true
            },
            None => false,
        }
    }

    /// Take in one refresh of every VM, nothing where it failed. A VM whose refresh
    /// failed is no longer tracked; the names of those are returned, for their
    /// clients to be closed and the engine to hear of it.
    pub fn finish_refresh(&mut self, refreshed: Vec<Option<InstanceStatus>>) -> (failed: Vec<
        String,
    >)
        requires
            old(self).wf(),
            refreshed@.len() == old(self).instances@.len(),
        ensures
            final(self).wf(),
            final(self).cfg == old(self).cfg,
            final(self).vm_ownership == old(self).vm_ownership,
            final(self).tick_index == old(self).tick_index,
            final(self).host_cpu == old(self).host_cpu,
            final(self).instances@ == survivors(old(self).instances@, refreshed@),
            texts(failed@) == casualties(old(self).instances@, refreshed@),
            forall|i: int|
                #![trigger refreshed@[i]]
                0 <= i < refreshed@.len() && refreshed@[i] is Some
                    ==> final(self).instances@.contains(
                    (Instance { status: refreshed@[i]->0, ..old(self).instances@[i] }),
                ),
            final(self).instances@.len() + failed@.len() == old(self).instances@.len(),
    {
        let ghost fleet = self.instances@;
        let ghost all = refreshed@;
        let mut failed: Vec<String> = Vec::new();
        let mut i: usize = 0;
        assert(survivors(fleet.take(0), all) + fleet.skip(0) == fleet);
        for outcome in it: refreshed
            invariant
                it.seq() == all,
                all.len() == fleet.len(),
                self.cfg == old(self).cfg,
                self.vm_ownership == old(self).vm_ownership,
                self.tick_index == old(self).tick_index,
                self.host_cpu == old(self).host_cpu,
                self.instances@ == survivors(fleet.take(it.index()), all) + fleet.skip(
                    it.index(),
                ),
                i == survivors(fleet.take(it.index()), all).len(),
                texts(failed@) == casualties(fleet.take(it.index()), all),
        {
            let ghost k = it.index();
            proof {
                assert(fleet.take(k + 1).drop_last() == fleet.take(k));
                assert(fleet.take(k + 1).last() == fleet[k]);
                assert(self.instances@[i as int] == fleet[k]);
                assert(fleet.skip(k).drop_first() == fleet.skip(k + 1));
            }
            match outcome {
                Some(status) => {
                    self.instances[i].status = status;
                    let known: usize = self.instances.len();
                    assert(i < known);
                    i += 1;
                    assert(self.instances@ == survivors(fleet.take(k + 1), all) + fleet.skip(
                        k + 1,
                    ));
                },
                None => {
                    let gone = self.instances.remove(i);
                    assert(self.instances@ == survivors(fleet.take(k + 1), all) + fleet.skip(
                        k + 1,
                    ));
                    let ghost before = failed@;
                    failed.push(gone.id);
                    assert(texts(failed@) == texts(before).push(fleet[k].id@));
                },
            }
        }
        proof {
            assert(fleet.take(fleet.len() as int) == fleet);
            assert(survivors(fleet, all) + fleet.skip(fleet.len() as int) == survivors(
                fleet,
                all,
            ));
            lemma_survivors_hold(fleet, all);
            assert forall|i: int|
                #![trigger all[i]]
                0 <= i < all.len() && all[i] is Some implies self.instances@.contains(
                Instance { status: all[i]->0, ..fleet[i] },
            ) by {
                law_refresh_gives_each_vm_its_status(fleet, all, i);
            }
            if fleet.len() > 0 {
                law_refresh_gives_each_vm_its_status(fleet, all, 0);
            }
            assert(failed@.len() == texts(failed@).len());
        }
        failed
    }
}

} // verus!
