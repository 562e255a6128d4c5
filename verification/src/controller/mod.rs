//! Engine-agnostic fleet inventory, sampling, and actuation.
use vstd::prelude::*;

use crate::backends::BackendClientError;
use crate::config::Config;
use crate::double::zero_double;
use crate::host_cpu::HostCpuMonitor;
use crate::instance::Instance;
use crate::state::{StateError, VmOwnership};
use crate::text::same_text;

pub mod decisions;
pub mod inventory;
pub mod laws;
pub mod requests;
pub mod tick;

verus! {

/// What can go wrong in the controller.
#[derive(Debug)]
pub enum ControllerError {
    /// A backend refused.
    BackendClient(BackendClientError),
    /// Host counters could not be read.
    Proc(String),
    /// The ownership registry could not be read, written or extended.
    State(StateError),
    /// A requested worker count is out of range.
    ThreadCountError(String),
    /// A VM is unknown, or is not what it was.
    VmError(String),
}

impl ControllerError {
    /// What the error says.
    pub open spec fn text(self) -> Seq<char> {
        match self {
            ControllerError::BackendClient(error) => error.text(),
            ControllerError::Proc(what) => what@,
            ControllerError::State(error) => error.text(),
            ControllerError::ThreadCountError(what) => "Set thread count error: "@ + what@,
            ControllerError::VmError(what) => "VM error: "@ + what@,
        }
    }

    /// Render the error for people.
    pub fn message(&self) -> (m: String)
        ensures
            m@ == self.text(),
    {
        match self {
            ControllerError::BackendClient(error) => error.message(),
            ControllerError::Proc(what) => what.clone(),
            ControllerError::State(error) => error.message(),
            ControllerError::ThreadCountError(what) => "Set thread count error: ".to_owned().concat(
                what.as_str(),
            ),
            ControllerError::VmError(what) => "VM error: ".to_owned().concat(what.as_str()),
        }
    }
}

/// Live VM inventory and per-tick driver.
#[derive(Debug)]
pub struct Controller {
    /// Effective daemon configuration.
    pub cfg: Config,
    /// Restart-surviving managed and unmanaged VM sets, loaded once.
    pub vm_ownership: VmOwnership,
    /// Tracked VMs, no two with the same identifier.
    pub instances: Vec<Instance>,
    /// Monotonically increasing tick sequence.
    pub tick_index: u64,
    /// Host CPU utilisation used by the scale-up ceiling guard.
    pub host_cpu: HostCpuMonitor,
}

/// Whether a fleet holds the VM `id`.
pub open spec fn holds_vm(fleet: Seq<Instance>, id: Seq<char>) -> bool {
    exists|i: int| 0 <= i < fleet.len() && (#[trigger] fleet[i]).id@ == id
}

/// No two VMs of a fleet have the same identifier.
pub open spec fn distinct(fleet: Seq<Instance>) -> bool {
    forall|i: int, j: int|
        0 <= i < j < fleet.len() ==> (#[trigger] fleet[i]).id@ != (#[trigger] fleet[j]).id@
}

/// Dropping the last VM keeps a fleet distinct.
pub proof fn lemma_drop_last_distinct(fleet: Seq<Instance>)
    requires
        distinct(fleet),
        fleet.len() > 0,
    ensures
        distinct(fleet.drop_last()),
{
    let rest = fleet.drop_last();
    assert forall|i: int, j: int| 0 <= i < j < rest.len() implies (#[trigger] rest[i]).id@ != (
    #[trigger] rest[j]).id@ by {
        assert(fleet[i].id@ != fleet[j].id@);
    }
}

/// The answer to a request about a VM that is not tracked.
pub open spec fn unknown_vm(vm: Seq<char>) -> Seq<char> {
    "unknown VM "@ + vm
}

fn unknown_vm_text(vm: &str) -> (m: String)
    ensures
        m@ == unknown_vm(vm@),
{
    "unknown VM ".to_owned().concat(vm)
}

impl Controller {
    /// No VM is tracked twice, and no VM is both managed and unmanaged.
    pub open spec fn wf(&self) -> bool {
        self.vm_ownership.wf() && distinct(self.instances@)
    }

    /// Construct an empty controller around an ownership registry that was loaded
    /// once.
    pub fn new(cfg: Config, loaded: Result<VmOwnership, StateError>) -> (r: Result<
        Controller,
        ControllerError,
    >)
        requires
            loaded matches Ok(registry) ==> registry.wf(),
        ensures
            r is Ok <==> loaded is Ok,
            r matches Ok(c) ==> {
                &&& c.wf()
                &&& c.cfg == cfg
                &&& c.vm_ownership == loaded->Ok_0
                &&& c.instances@.len() == 0
                &&& c.tick_index == 0
                &&& c.host_cpu.last is None
                &&& c.host_cpu.util == zero_double()
            },
            r matches Err(e) ==> e == ControllerError::State(loaded->Err_0),
    {
        match loaded {
            Ok(vm_ownership) => Ok(
                Controller {
                    cfg,
                    vm_ownership,
                    instances: Vec::new(),
                    tick_index: 0,
                    host_cpu: HostCpuMonitor::new(),
                },
            ),
            Err(error) => Err(ControllerError::State(error)),
        }
    }

    /// Where a VM stands in the inventory.
    pub fn position(&self, vm: &str) -> (r: Option<usize>)
        ensures
            r matches Some(i) ==> i < self.instances@.len() && self.instances@[i as int].id@ == vm@,
            r is None <==> !holds_vm(self.instances@, vm@),
    {
        let mut i: usize = 0;
        while i < self.instances.len()
            invariant
                i <= self.instances@.len(),
                forall|j: int| 0 <= j < i ==> (#[trigger] self.instances@[j]).id@ != vm@,
            decreases self.instances@.len() - i,
        {
            if same_text(self.instances[i].id.as_str(), vm) {
                return Some(i);
            }
            i += 1;
        }
        None
    }

    /// Look up a tracked VM for a request.
    pub fn instance(&self, vm: &str) -> (r: Result<usize, String>)
        ensures
            r is Ok <==> holds_vm(self.instances@, vm@),
            r matches Ok(i) ==> i < self.instances@.len() && self.instances@[i as int].id@ == vm@,
            r matches Err(m) ==> m@ == unknown_vm(vm@),
    {
        match self.position(vm) {
            Some(i) => {
                assert(self.instances@[i as int].id@ == vm@);
                Ok(i)
            },
            None => Err(unknown_vm_text(vm)),
        }
    }
}

} // verus!
