//! What a scaling engine proposes, and what it hears back.
use vstd::prelude::*;

use crate::backends::BackendClientError;
use crate::clock::Instant;
use crate::double::Double;

verus! {

/// One engine verdict for one VM.
#[derive(Debug, Clone, Copy, PartialEq, Eq, Structural)]
pub enum ScaleAction {
    /// Leave the pool alone.
    Hold,
    /// Grow the pool to the given worker count.
    Up(u32),
    /// Shrink the pool to the given worker count.
    Down(u32),
    /// Undo an earlier action by going back to the given worker count.
    Revert(u32),
}

impl ScaleAction {
    /// The worker count that the action asks for.
    pub open spec fn wanted(self) -> Option<u32> {
        match self {
            ScaleAction::Hold => None,
            ScaleAction::Up(target) => Some(target),
            ScaleAction::Down(target) => Some(target),
            ScaleAction::Revert(target) => Some(target),
        }
    }

    /// Whether the action is a fresh step up or down, as opposed to an undo.
    pub open spec fn ordinary(self) -> bool {
        self is Up || self is Down
    }

    /// The worker count that the action asks for.
    pub fn target(&self) -> (target: Option<u32>)
        ensures
            target == self.wanted(),
    {
        match *self {
            ScaleAction::Hold => None,
            ScaleAction::Up(target) => Some(target),
            ScaleAction::Down(target) => Some(target),
            ScaleAction::Revert(target) => Some(target),
        }
    }

    /// Whether the action is a fresh step up or down, as opposed to an undo.
    pub fn is_ordinary(&self) -> (r: bool)
        ensures
            r == self.ordinary(),
    {
        match *self {
            ScaleAction::Up(_) => true,
            ScaleAction::Down(_) => true,
            _ => false,
        }
    }
}

/// One item of a fleet plan.
#[derive(Debug)]
pub struct InstanceDecision {
    /// The VM that it is about.
    pub instance_id: String,
    /// What the engine proposes.
    pub decision: ScaleAction,
}

/// Why the controller refused to apply an action.
#[derive(Debug, Clone, Copy, PartialEq, Eq, Structural)]
pub enum BlockedReason {
    /// A sticky manual override suppresses automatic scaling.
    ManualOverride,
    /// The VM is not classified as managed.
    UnmanagedVm,
    /// The target lies below the configured minimum.
    TargetBelowMinimum,
    /// The target lies above the configured maximum.
    TargetExceedsMaximum,
    /// The target lies above the guest's vCPU count.
    TargetExceedsVcpuCount,
    /// An earlier action is still cooling down.
    Cooldown,
    /// The host is too busy to scale up.
    HostCpuCeiling,
}

/// What became of a proposed action.
#[derive(Debug)]
pub enum AppliedOutcome {
    /// The backend took the new worker count.
    Success { action: ScaleAction, prev_thread_count: u32, prev_io_count_total: u64 },
    /// The action would have been applied, but actuation is switched off.
    DryRun { action: ScaleAction, prev_thread_count: u32, prev_io_count_total: u64 },
    /// The backend refused.
    Failed { action: ScaleAction, error: BackendClientError },
    /// A controller guard refused.
    Blocked { action: ScaleAction, reason: BlockedReason },
}

/// What every evaluation of one tick has in common.
#[derive(Debug, Clone, Copy, PartialEq, Eq, Structural)]
pub struct EngineTickContext {
    /// When the tick started.
    pub now: Instant,
    /// Lowest worker count accepted from an engine.
    pub min_thread_count: u32,
    /// Highest worker count accepted from an engine.
    pub max_thread_count: u32,
    /// Fraction of host CPU in use.
    pub host_cpu_util: Double,
    /// Sequence number of the tick.
    pub tick_index: u64,
}

} // verus!
