//! One tracked VM and its freshest state.
use vstd::prelude::*;

use crate::clock::{capped, Instant};
use crate::double::{zero_double, Double};
use crate::rolling::{RollingMetrics, RollingView};

verus! {

/// Cumulative I/O counters of one VM.
#[derive(Debug, Clone, Copy, PartialEq, Eq, Structural)]
pub struct InstancePerfSample {
    pub read_io_count: u64,
    pub write_io_count: u64,
    pub other_io_count: u64,
    pub read_bytes_total: u64,
    pub write_bytes_total: u64,
}

impl InstancePerfSample {
    /// All I/O operations together, capped to what a counter can hold.
    pub open spec fn io_total(self) -> u64 {
        capped(
            self.read_io_count as nat + self.write_io_count as nat + self.other_io_count as nat,
        )
    }

    /// All I/O operations together, capped to what a counter can hold.
    pub fn total_io_count(&self) -> (total: u64)
        ensures
            total == self.io_total(),
    {
        self.read_io_count.saturating_add(self.write_io_count).saturating_add(self.other_io_count)
    }
}

/// Per-tick rates of one VM.
#[derive(Debug, Clone, Copy, PartialEq, Eq, Structural)]
pub struct InstanceRates {
    pub read_iops: u64,
    pub write_iops: u64,
    pub other_iops: u64,
    pub read_bytes_per_second: u64,
    pub write_bytes_per_second: u64,
}

/// Per-worker CPU utilisation of one VM, in percent.
#[derive(Debug, Clone, Copy, PartialEq, Eq, Structural)]
pub struct CpuStats {
    pub avg_pct: u64,
    pub median_pct: u64,
    pub total_pct: u64,
}

/// One backend answer about a VM's worker pool.
#[derive(Debug, Clone, Copy, PartialEq, Eq, Structural)]
pub struct ThreadPoolSnapshot {
    /// Current worker count.
    pub thread_count: u32,
    /// Guest vCPU count.
    pub vcpu_count: u32,
    /// I/O counters, when the backend has them.
    pub perf: Option<InstancePerfSample>,
    /// Average utilisation per worker, when the backend computes it itself.
    pub per_thread_util: Option<Double>,
}

/// Freshest state of one VM.
#[derive(Debug)]
pub struct InstanceStatus {
    /// Current effective worker count.
    pub thread_count: u32,
    /// Guest vCPU count.
    pub vcpu_count: u32,
    /// Whether the most recent refresh succeeded.
    pub alive: bool,
    /// I/O counters, when the backend supplied trustworthy ones.
    pub perf: Option<InstancePerfSample>,
    /// Average utilisation per worker, as a fraction.
    pub per_thread_util: Double,
    /// Whether a sticky manual override suppresses automatic scaling.
    pub manual_scaling_sticky: bool,
    /// `true` for a managed VM, `false` for an unmanaged one, nothing before the
    /// first successful snapshot.
    pub ownership_classification: Option<bool>,
    /// Until when ordinary actions are held back.
    pub cooldown_until: Option<Instant>,
    /// Per-tick rates.
    pub rates: InstanceRates,
    /// Per-worker CPU utilisation.
    pub cpu: CpuStats,
    /// Longer-term history.
    pub rolling: RollingMetrics,
}

impl InstanceStatus {
    /// Nothing is known yet: all counts and rates are zero, and all else is absent.
    pub open spec fn unrefreshed(self) -> bool {
        &&& self.thread_count == 0
        &&& self.vcpu_count == 0
        &&& !self.alive
        &&& self.perf is None
        &&& self.per_thread_util == zero_double()
        &&& !self.manual_scaling_sticky
        &&& self.ownership_classification is None
        &&& self.cooldown_until is None
        &&& self.rates == InstanceRates {
            read_iops: 0,
            write_iops: 0,
            other_iops: 0,
            read_bytes_per_second: 0,
            write_bytes_per_second: 0,
        }
        &&& self.cpu == CpuStats { avg_pct: 0, median_pct: 0, total_pct: 0 }
        &&& self.rolling@ == RollingView::nothing()
    }

    /// A status before the first refresh.
    pub fn new() -> (status: InstanceStatus)
        ensures
            status.unrefreshed(),
    {
        InstanceStatus {
            thread_count: 0,
            vcpu_count: 0,
            alive: false,
            perf: None,
            per_thread_util: Double::zero(),
            manual_scaling_sticky: false,
            ownership_classification: None,
            cooldown_until: None,
            rates: InstanceRates {
                read_iops: 0,
                write_iops: 0,
                other_iops: 0,
                read_bytes_per_second: 0,
                write_bytes_per_second: 0,
            },
            cpu: CpuStats { avg_pct: 0, median_pct: 0, total_pct: 0 },
            rolling: RollingMetrics::new(),
        }
    }

    /// Only a VM classified as managed may be scaled.
    pub open spec fn managed(self) -> bool {
        self.ownership_classification == Some(true)
    }

    /// Whether the controller may scale this VM at all.
    pub fn scaling_allowed(&self) -> (r: bool)
        ensures
            r == self.managed(),
    {
        match self.ownership_classification {
            Some(managed) => managed,
            None => false,
        }
    }

    /// Take in one snapshot of the worker pool. A VM without classification gets the
    /// one that its client gives the pool at first sight. Where the backend counts
    /// I/O and computes utilisation, one interval is added to the history; `busy_ns`
    /// gives the CPU time that a number of workers consume at a utilisation in an
    /// interval of the given length.
    pub fn take_snapshot<F: Fn(u64, Double, u32) -> u64>(
        &mut self,
        snapshot: &ThreadPoolSnapshot,
        initially_managed: bool,
        now: Instant,
        busy_ns: F,
    )
        requires
            forall|wall_ns: u64, util: Double, threads: u32|
                call_requires(busy_ns, (wall_ns, util, threads)),
        ensures
            final(self).thread_count == snapshot.thread_count,
            final(self).vcpu_count == snapshot.vcpu_count,
            final(self).alive,
            final(self).perf == snapshot.perf,
            final(self).per_thread_util == match snapshot.per_thread_util {
                Some(util) => util,
                None => old(self).per_thread_util,
            },
            final(self).manual_scaling_sticky == old(self).manual_scaling_sticky,
            final(self).ownership_classification == match old(self).ownership_classification {
                Some(managed) => Some(managed),
                None => Some(initially_managed),
            },
            final(self).cooldown_until == old(self).cooldown_until,
            final(self).rates == old(self).rates,
            final(self).cpu == old(self).cpu,
            snapshot.perf is None || snapshot.per_thread_util is None ==> final(self).rolling
                == old(self).rolling,
            snapshot.perf is Some && snapshot.per_thread_util is Some ==> {
                let io_ops = snapshot.perf->0.io_total();
                let before = old(self).rolling@;
                match before.backend_interval(now, io_ops) {
                    None => final(self).rolling@ == before.rebased(now, Some(io_ops), None),
                    Some(wall_ns) => exists|cpu_ns: u64| #[trigger]
                        call_ensures(
                            busy_ns,
                            (
                                wall_ns,
                                snapshot.per_thread_util->0.clamped(),
                                snapshot.thread_count,
                            ),
                            cpu_ns,
                        ) && final(self).rolling@ == before.extended(now, io_ops, None, cpu_ns),
                }
            },
    {
        self.thread_count = snapshot.thread_count;
        self.vcpu_count = snapshot.vcpu_count;
        self.alive = true;
        self.perf = snapshot.perf;
        if self.ownership_classification.is_none() {
            self.ownership_classification = Some(initially_managed);
        }
        if let Some(util) = snapshot.per_thread_util {
            self.per_thread_util = util;
            if let Some(perf) = snapshot.perf {
                self.rolling.push_from_backend_util(
                    now,
                    perf.total_io_count(),
                    util,
                    snapshot.thread_count,
                    busy_ns,
                );
            }
        }
    }

    /// I/O operations so far, zero without counters.
    pub open spec fn io_count(self) -> u64 {
        match self.perf {
            Some(perf) => perf.io_total(),
            None => 0,
        }
    }
}

/// One tracked VM.
#[derive(Debug)]
pub struct Instance {
    /// Stable identifier.
    pub id: String,
    /// Backend worker PID.
    pub pid: i32,
    /// Freshest state.
    pub status: InstanceStatus,
}

impl Instance {
    /// A VM before its first refresh.
    pub fn new(id: String, pid: i32) -> (instance: Instance)
        ensures
            instance.id == id,
            instance.pid == pid,
            instance.status.unrefreshed(),
    {
        Instance { id, pid, status: InstanceStatus::new() }
    }
}

/// All operations together are the three counters added up, stopped at the largest
/// value.
pub proof fn law_operations_are_added_up(perf: InstancePerfSample)
    ensures
        ({
            let sum = perf.read_io_count + perf.write_io_count + perf.other_io_count;
            perf.io_total() == if sum > 0xFFFF_FFFF_FFFF_FFFF {
                0xFFFF_FFFF_FFFF_FFFF
            } else {
                sum
            }
        }),
{
}

/// Of a VM that was not refreshed nothing is known, and the controller leaves it alone.
pub proof fn law_nothing_is_known_before_the_first_refresh(status: InstanceStatus)
    requires
        status.unrefreshed(),
    ensures
        status.thread_count == 0 && status.vcpu_count == 0,
        !status.alive && !status.managed() && !status.manual_scaling_sticky,
        status.perf is None && status.ownership_classification is None,
        status.cooldown_until is None,
        status.per_thread_util.bits == 0,
        status.rates.read_iops == 0 && status.rates.write_iops == 0 && status.rates.other_iops
            == 0,
        status.rates.read_bytes_per_second == 0 && status.rates.write_bytes_per_second == 0,
        status.cpu.avg_pct == 0 && status.cpu.median_pct == 0 && status.cpu.total_pct == 0,
        status.rolling@.samples.len() == 0,
{
}

} // verus!
