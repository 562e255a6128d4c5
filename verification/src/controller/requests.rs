//! Requests from the bus, served in-line with the tick loop.
use vstd::prelude::*;

use crate::backends::{BackendClientError, IoThreadProperties};
use crate::controller::{holds_vm, unknown_vm, Controller, ControllerError};
use crate::instance::{Instance, InstanceStatus};
use crate::snapshot::{FleetStats, SnapshotPayload, SnapshotVm, StatsVm};
use crate::text::{decimal, decimal_text};

verus! {

/// One request. `M` is a decoded virtqueue mapping.
#[derive(Debug)]
pub enum DbusRequest<M> {
    /// Set a VM's worker count by hand.
    SetThreadCount { vm: String, threads: u32, sticky: bool },
    /// Show the whole fleet, for machines.
    GetSnapshot,
    /// Name the running version.
    GetVersion,
    /// Show the whole fleet, in short.
    GetStats,
    /// Show a device's virtqueue mapping.
    GetIoThreadVqMapping { vm: String, device: String },
    /// Create a named IOThread; a negative `poll_max_ns` keeps the default.
    AddIoThread { vm: String, id: String, poll_max_ns: i64 },
    /// Delete a named IOThread.
    DelIoThread { vm: String, id: String },
    /// Replace a device's virtqueue mapping. `mapping` is what decoding the
    /// request gave.
    SetIoThreadVqMapping { vm: String, device: String, mapping: Result<M, String> },
}

/// What a request leads to. An `index` is a place in the inventory.
#[derive(Debug)]
pub enum DbusStep<M> {
    /// The request is answered with an error.
    Refused(String),
    /// Answer with the fleet snapshot.
    Snapshot(SnapshotPayload),
    /// Answer with the running version.
    Version,
    /// Answer with the fleet statistics.
    Stats(FleetStats),
    /// Ask the client for a new worker count.
    SetThreadCount { index: usize, threads: u32, sticky: bool },
    /// Ask the client for a mapping.
    GetIoThreadVqMapping { index: usize, device: String },
    /// Ask the client to create an IOThread.
    AddIoThread { index: usize, id: String, properties: Option<IoThreadProperties> },
    /// Ask the client to delete an IOThread.
    DelIoThread { index: usize, id: String },
    /// Ask the client to replace a mapping.
    SetIoThreadVqMapping { index: usize, device: String, mapping: M },
}

/// Why a manual worker count is refused for a guest with `vcpu_count` vCPUs.
pub open spec fn thread_count_complaint(threads: u32, vcpu_count: u32) -> Option<Seq<char>> {
    if threads == 0 {
        Some("target thread count must be greater than zero"@)
    } else if threads > vcpu_count {
        Some(
            "target thread count "@ + decimal(threads as nat) + " > guest vCPU count "@ + decimal(
                vcpu_count as nat,
            ),
        )
    } else {
        None
    }
}

/// The IOThread properties that a polling limit stands for.
pub open spec fn properties_for(poll_max_ns: i64) -> Option<IoThreadProperties> {
    if poll_max_ns >= 0 {
        Some(IoThreadProperties { poll_max_ns: Some(poll_max_ns) })
    } else {
        None
    }
}

/// `index` is where a fleet has the VM `vm`.
pub open spec fn located(fleet: Seq<Instance>, vm: Seq<char>, index: usize) -> bool {
    index < fleet.len() && fleet[index as int].id@ == vm
}

/// `step` refuses a request, with the given words.
pub open spec fn refuses<M>(step: DbusStep<M>, words: Seq<char>) -> bool {
    step matches DbusStep::Refused(text) && text@ == words
}

impl FleetStats {
    /// These statistics show `fleet`, VM by VM.
    pub open spec fn shows(self, tick: u64, fleet: Seq<Instance>) -> bool {
        &&& self.tick == tick
        &&& self.vms@.len() == fleet.len()
        &&& forall|i: int| 0 <= i < fleet.len() ==> (#[trigger] self.vms@[i]).shows(fleet[i])
    }
}

impl SnapshotPayload {
    /// This snapshot shows `fleet`, VM by VM.
    pub open spec fn shows(self, fleet: Seq<Instance>) -> bool {
        &&& self.vms@.len() == fleet.len()
        &&& forall|i: int| 0 <= i < fleet.len() ==> (#[trigger] self.vms@[i]).shows(fleet[i])
    }
}

/// `step` is what `request` leads to, for a fleet after `tick` ticks.
pub open spec fn served<M>(
    fleet: Seq<Instance>,
    tick: u64,
    request: DbusRequest<M>,
    step: DbusStep<M>,
) -> bool {
    match request {
        DbusRequest::SetThreadCount { vm, threads, sticky } => if !holds_vm(fleet, vm@) {
            refuses(step, "VM error: "@ + unknown_vm(vm@))
        } else {
            exists|index: usize| #[trigger]
                located(fleet, vm@, index) && match thread_count_complaint(
                    threads,
                    fleet[index as int].status.vcpu_count,
                ) {
                    Some(words) => refuses(step, "Set thread count error: "@ + words),
                    None => step == (DbusStep::<M>::SetThreadCount { index, threads, sticky }),
                }
        },
        DbusRequest::GetSnapshot => step matches DbusStep::Snapshot(payload) && payload.shows(
            fleet,
        ),
        DbusRequest::GetVersion => step is Version,
        DbusRequest::GetStats => step matches DbusStep::Stats(stats) && stats.shows(tick, fleet),
        DbusRequest::GetIoThreadVqMapping { vm, device } => if !holds_vm(fleet, vm@) {
            refuses(step, unknown_vm(vm@))
        } else {
            exists|index: usize| #[trigger]
                located(fleet, vm@, index) && step == (DbusStep::<M>::GetIoThreadVqMapping {
                    index,
                    device,
                })
        },
        DbusRequest::AddIoThread { vm, id, poll_max_ns } => if !holds_vm(fleet, vm@) {
            refuses(step, unknown_vm(vm@))
        } else {
            exists|index: usize| #[trigger]
                located(fleet, vm@, index) && step == (DbusStep::<M>::AddIoThread {
                    index,
                    id,
                    properties: properties_for(poll_max_ns),
                })
        },
        DbusRequest::DelIoThread { vm, id } => if !holds_vm(fleet, vm@) {
            refuses(step, unknown_vm(vm@))
        } else {
            exists|index: usize| #[trigger]
                located(fleet, vm@, index) && step == (DbusStep::<M>::DelIoThread { index, id })
        },
        DbusRequest::SetIoThreadVqMapping { vm, device, mapping } => match mapping {
            Err(error) => refuses(step, "parse mapping JSON: "@ + error@),
            Ok(mapping) => if !holds_vm(fleet, vm@) {
                refuses(step, unknown_vm(vm@))
            } else {
                exists|index: usize| #[trigger]
                    located(fleet, vm@, index) && step == (DbusStep::<M>::SetIoThreadVqMapping {
                        index,
                        device,
                        mapping,
                    })
            },
        },
    }
}

/// Turn a polling limit into IOThread properties; a negative one keeps the default.
pub fn io_thread_properties(poll_max_ns: i64) -> (properties: Option<IoThreadProperties>)
    ensures
        properties == properties_for(poll_max_ns),
{
    if poll_max_ns >= 0 {
        Some(IoThreadProperties { poll_max_ns: Some(poll_max_ns) })
    } else {
        None
    }
}

/// The reply to a request that a client carried out, or failed to.
pub fn client_reply(answer: Result<(), BackendClientError>) -> (reply: Result<(), String>)
    ensures
        reply is Ok <==> answer is Ok,
        answer matches Err(error) ==> reply->Err_0@ == error.text(),
{
    match answer {
        Ok(_) => Ok(()),
        Err(error) => Err(error.message()),
    }
}

/// The reply to a request for a mapping: what the client said, and where it gave a
/// mapping, what encoding that gave.
pub fn vq_mapping_reply(encoded: Result<Result<String, String>, BackendClientError>) -> (reply:
    Result<String, String>)
    ensures
        match encoded {
            Ok(Ok(text)) => reply is Ok && reply->Ok_0@ == text@,
            Ok(Err(error)) => reply is Err && reply->Err_0@ == "serialize mapping: "@ + error@,
            Err(error) => reply is Err && reply->Err_0@ == error.text(),
        },
{
    match encoded {
        Ok(Ok(text)) => Ok(text),
        Ok(Err(error)) => Err("serialize mapping: ".to_owned().concat(error.as_str())),
        Err(error) => Err(error.message()),
    }
}

/// The reply to a request for the snapshot. One that cannot be encoded is replaced
/// by a note of why.
pub fn snapshot_reply(encoded: Result<String, String>) -> (reply: String)
    ensures
        encoded matches Ok(text) ==> reply@ == text@,
        encoded matches Err(error) ==> reply@ == "{\"error\":\""@ + error@ + "\"}"@,
{
    match encoded {
        Ok(text) => text,
        Err(error) => "{\"error\":\"".to_owned().concat(error.as_str()).concat("\"}"),
    }
}

impl Controller {
    /// Decide what one bus request leads to.
    pub fn handle_dbus_request<M>(&self, request: DbusRequest<M>) -> (step: DbusStep<M>)
        ensures
            served(self.instances@, self.tick_index, request, step),
    {
        match request {
            DbusRequest::SetThreadCount { vm, threads, sticky } => {
                match self.handle_set_thread_count(vm.as_str(), threads) {
                    Ok(index) => {
                        assert(located(self.instances@, vm@, index));
                        DbusStep::SetThreadCount { index, threads, sticky }
                    },
                    Err(error) => {
                        proof {
                            if holds_vm(self.instances@, vm@) {
                                let index = choose|index: usize| #[trigger]
                                    located(self.instances@, vm@, index)
                                        && thread_count_complaint(
                                        threads,
                                        self.instances@[index as int].status.vcpu_count,
                                    ) == Some(error->ThreadCountError_0@);
                                assert(located(self.instances@, vm@, index));
                            }
                        }
                        DbusStep::Refused(error.message())
                    },
                }
            },
            DbusRequest::GetSnapshot => DbusStep::Snapshot(self.handle_get_snapshot()),
            DbusRequest::GetVersion => DbusStep::Version,
            DbusRequest::GetStats => DbusStep::Stats(self.handle_get_stats()),
            DbusRequest::GetIoThreadVqMapping { vm, device } => {
                match self.instance(vm.as_str()) {
                    Ok(index) => {
                        assert(located(self.instances@, vm@, index));
                        DbusStep::GetIoThreadVqMapping { index, device }
                    },
                    Err(text) => DbusStep::Refused(text),
                }
            },
            DbusRequest::AddIoThread { vm, id, poll_max_ns } => {
                match self.instance(vm.as_str()) {
                    Ok(index) => {
                        assert(located(self.instances@, vm@, index));
                        DbusStep::AddIoThread {
                            index,
                            id,
                            properties: io_thread_properties(poll_max_ns),
                        }
                    },
                    Err(text) => DbusStep::Refused(text),
                }
            },
            DbusRequest::DelIoThread { vm, id } => {
                match self.instance(vm.as_str()) {
                    Ok(index) => {
                        assert(located(self.instances@, vm@, index));
                        DbusStep::DelIoThread { index, id }
                    },
                    Err(text) => DbusStep::Refused(text),
                }
            },
            DbusRequest::SetIoThreadVqMapping { vm, device, mapping } => {
                match mapping {
                    Err(error) => DbusStep::Refused(
                        "parse mapping JSON: ".to_owned().concat(error.as_str()),
                    ),
                    Ok(mapping) => match self.instance(vm.as_str()) {
                        Ok(index) => {
                            assert(located(self.instances@, vm@, index));
                            DbusStep::SetIoThreadVqMapping { index, device, mapping }
                        },
                        Err(text) => DbusStep::Refused(text),
                    },
                }
            },
        }
    }

    /// Check a debug-only manual thread-count request. Returns where the VM stands
    /// in the inventory: its client is to be asked for the new count.
    pub fn handle_set_thread_count(&self, vm: &str, threads: u32) -> (r: Result<
        usize,
        ControllerError,
    >)
        ensures
            r matches Ok(index) ==> located(self.instances@, vm@, index) && thread_count_complaint(
                threads,
                self.instances@[index as int].status.vcpu_count,
            ) is None,
            !holds_vm(self.instances@, vm@) ==> r is Err && r->Err_0 is VmError
                && r->Err_0->VmError_0@ == unknown_vm(vm@),
            r is Err && holds_vm(self.instances@, vm@) ==> {
                &&& r->Err_0 is ThreadCountError
                &&& exists|index: usize| #[trigger]
                    located(self.instances@, vm@, index) && thread_count_complaint(
                        threads,
                        self.instances@[index as int].status.vcpu_count,
                    ) == Some(r->Err_0->ThreadCountError_0@)
            },
    {
        let index: usize = match self.instance(vm) {
            Ok(index) => index,
            Err(text) => {
                return Err(ControllerError::VmError(text));
            },
        };
        assert(located(self.instances@, vm@, index));
        let vcpu_count: u32 = self.instances[index].status.vcpu_count;
        if threads == 0 {
            return Err(
                ControllerError::ThreadCountError(
                    "target thread count must be greater than zero".to_owned(),
                ),
            );
        }
        if threads > vcpu_count {
            return Err(
                ControllerError::ThreadCountError(
                    "target thread count ".to_owned().concat(
                        decimal_text(threads as u64).as_str(),
                    ).concat(" > guest vCPU count ").concat(
                        decimal_text(vcpu_count as u64).as_str(),
                    ),
                ),
            );
        }
        Ok(index)
    }

    /// Take in what the client answered to a manual thread-count request. The count
    /// and the override hold only where the client agreed.
    pub fn finish_set_thread_count(
        &mut self,
        index: usize,
        threads: u32,
        sticky: bool,
        answer: Result<(), BackendClientError>,
    ) -> (r: Result<(), ControllerError>)
        requires
            index < old(self).instances@.len(),
        ensures
            final(self).cfg == old(self).cfg,
            final(self).vm_ownership == old(self).vm_ownership,
            final(self).tick_index == old(self).tick_index,
            final(self).host_cpu == old(self).host_cpu,
            old(self).wf() ==> final(self).wf(),
            r is Ok <==> answer is Ok,
            answer matches Err(error) ==> r->Err_0 == ControllerError::BackendClient(error)
                && final(self).instances@ == old(self).instances@,
            answer is Ok ==> final(self).instances@ == old(self).instances@.update(
                index as int,
                (Instance {
                    status: (InstanceStatus {
                        thread_count: threads,
                        manual_scaling_sticky: sticky,
                        ..old(self).instances@[index as int].status
                    }),
                    ..old(self).instances@[index as int]
                }),
            ),
    {
        match answer {
            Err(error) => Err(ControllerError::BackendClient(error)),
            Ok(_) => {
                self.instances[index].status.thread_count = threads;
                self.instances[index].status.manual_scaling_sticky = sticky;
                Ok(())
            },
        }
    }

    /// Assemble the fleet statistics.
    pub fn handle_get_stats(&self) -> (stats: FleetStats)
        ensures
            stats.shows(self.tick_index, self.instances@),
    {
        let mut vms: Vec<StatsVm> = Vec::new();
        let mut i: usize = 0;
        while i < self.instances.len()
            invariant
                i <= self.instances@.len(),
                vms@.len() == i,
                forall|j: int| 0 <= j < i ==> (#[trigger] vms@[j]).shows(self.instances@[j]),
            decreases self.instances@.len() - i,
        {
            vms.push(StatsVm::of(&self.instances[i]));
            i += 1;
        }
        FleetStats { tick: self.tick_index, vms }
    }

    /// Assemble the machine-readable fleet snapshot.
    pub fn handle_get_snapshot(&self) -> (payload: SnapshotPayload)
        ensures
            payload.shows(self.instances@),
    {
        let mut vms: Vec<SnapshotVm> = Vec::new();
        let mut i: usize = 0;
        while i < self.instances.len()
            invariant
                i <= self.instances@.len(),
                vms@.len() == i,
                forall|j: int| 0 <= j < i ==> (#[trigger] vms@[j]).shows(self.instances@[j]),
            decreases self.instances@.len() - i,
        {
            vms.push(SnapshotVm::of(&self.instances[i]));
            i += 1;
        }
        SnapshotPayload { vms }
    }
}

} // verus!
