//! Machine-readable views of the whole fleet.
use vstd::prelude::*;

use crate::double::{zero_double, Double};
use crate::instance::Instance;

verus! {

/// Container for the `GetSnapshot` reply.
#[derive(Debug, Clone, Default)]
pub struct SnapshotPayload {
    /// One entry per tracked instance.
    pub vms: Vec<SnapshotVm>,
}

/// One tracked instance's freshest state.
#[derive(Debug, Clone, Default)]
pub struct SnapshotVm {
    /// Instance / vm identifier.
    pub id: String,
    /// Guest vCPU count reported by the backend.
    pub vcpu_count: u32,
    /// Backend worker PID.
    pub pid: i32,
    /// Current effective thread-pool size.
    pub thread_count: u32,
    /// Whether the most recent refresh succeeded.
    pub alive: bool,
    /// Whether the backend supplied trustworthy performance data.
    pub perf_available: bool,
    /// Average utilisation per worker, as a fraction.
    pub per_thread_util: Double,
    /// Whether a sticky manual override suppresses automatic scaling.
    pub manual_scaling_sticky: bool,
    /// Per-tick read operation rate.
    pub read_iops: u64,
    /// Per-tick write operation rate.
    pub write_iops: u64,
    /// Per-tick non-read/write operation rate.
    pub other_iops: u64,
    /// Per-tick read bandwidth in bytes per second.
    pub read_bw_bps: u64,
    /// Per-tick write bandwidth in bytes per second.
    pub write_bw_bps: u64,
    /// Read-latency histogram digest, when available.
    pub read_latency_us: Option<SnapshotLatency>,
    /// Write-latency histogram digest, when available.
    pub write_latency_us: Option<SnapshotLatency>,
    /// Number of queues represented by `per_vq_depth`.
    pub num_queues: Option<u32>,
    /// One in-flight depth reading per virtqueue.
    pub per_vq_depth: Option<Vec<u64>>,
    /// Aggregate virtqueue depth.
    pub qd_total: Option<u64>,
    /// Average virtqueue depth multiplied by 100.
    pub qd_avg_x100: Option<u64>,
    /// Median virtqueue depth.
    pub qd_median: Option<u64>,
    /// Mean per-worker CPU utilisation, in percent.
    pub cpu_pct_avg: Option<u64>,
    /// Median per-worker CPU utilisation, in percent.
    pub cpu_pct_median: Option<u64>,
    /// Sum of per-worker CPU utilisation, in percent.
    pub cpu_pct_total: Option<u64>,
}

/// Latency histogram digest.
#[derive(Debug, Clone, Copy, Default, PartialEq, Eq, Structural)]
pub struct SnapshotLatency {
    /// Median latency in microseconds.
    pub p50: u64,
    /// 95th-percentile latency in microseconds.
    pub p95: u64,
    /// 99th-percentile latency in microseconds.
    pub p99: u64,
    /// Histogram-derived arithmetic mean in microseconds.
    pub avg: u64,
}

impl SnapshotVm {
    /// This entry shows `instance`. A utilisation that no JSON number can hold is
    /// shown as zero; latencies and virtqueue depths are not known.
    pub open spec fn shows(self, instance: Instance) -> bool {
        &&& self.id@ == instance.id@
        &&& self.vcpu_count == instance.status.vcpu_count
        &&& self.pid == instance.pid
        &&& self.thread_count == instance.status.thread_count
        &&& self.alive == instance.status.alive
        &&& self.perf_available == (instance.status.perf is Some)
        &&& self.per_thread_util == if instance.status.per_thread_util.finite() {
            instance.status.per_thread_util
        } else {
            zero_double()
        }
        &&& self.manual_scaling_sticky == instance.status.manual_scaling_sticky
        &&& self.read_iops == instance.status.rates.read_iops
        &&& self.write_iops == instance.status.rates.write_iops
        &&& self.other_iops == instance.status.rates.other_iops
        &&& self.read_bw_bps == instance.status.rates.read_bytes_per_second
        &&& self.write_bw_bps == instance.status.rates.write_bytes_per_second
        &&& self.read_latency_us is None
        &&& self.write_latency_us is None
        &&& self.num_queues is None
        &&& self.per_vq_depth is None
        &&& self.qd_total is None
        &&& self.qd_avg_x100 is None
        &&& self.qd_median is None
        &&& self.cpu_pct_avg == Some(instance.status.cpu.avg_pct)
        &&& self.cpu_pct_median == Some(instance.status.cpu.median_pct)
        &&& self.cpu_pct_total == Some(instance.status.cpu.total_pct)
    }

    /// Show one instance.
    pub fn of(instance: &Instance) -> (entry: SnapshotVm)
        ensures
            entry.shows(*instance),
    {
        let s = &instance.status;
        SnapshotVm {
            id: instance.id.clone(),
            vcpu_count: s.vcpu_count,
            pid: instance.pid,
            thread_count: s.thread_count,
            alive: s.alive,
            perf_available: s.perf.is_some(),
            per_thread_util: if s.per_thread_util.is_finite() {
                s.per_thread_util
            } else {
                Double::zero()
            },
            manual_scaling_sticky: s.manual_scaling_sticky,
            read_iops: s.rates.read_iops,
            write_iops: s.rates.write_iops,
            other_iops: s.rates.other_iops,
            read_bw_bps: s.rates.read_bytes_per_second,
            write_bw_bps: s.rates.write_bytes_per_second,
            read_latency_us: None,
            write_latency_us: None,
            num_queues: None,
            per_vq_depth: None,
            qd_total: None,
            qd_avg_x100: None,
            qd_median: None,
            cpu_pct_avg: Some(s.cpu.avg_pct),
            cpu_pct_median: Some(s.cpu.median_pct),
            cpu_pct_total: Some(s.cpu.total_pct),
        }
    }
}

/// The `GetStats` reply.
#[derive(Debug)]
pub struct FleetStats {
    /// Sequence number of the latest tick.
    pub tick: u64,
    /// One entry per tracked instance.
    pub vms: Vec<StatsVm>,
}

/// One tracked instance in the `GetStats` reply.
#[derive(Debug)]
pub struct StatsVm {
    pub vm: String,
    pub thread_count: u32,
    pub manual_scaling_sticky: bool,
    pub scaling_allowed: bool,
    pub vcpu_count: u32,
    pub per_thread_util: Double,
    pub read_io_count: u64,
    pub write_io_count: u64,
    pub other_io_count: u64,
}

impl StatsVm {
    /// This entry shows `instance`; counters are zero where the backend has none.
    pub open spec fn shows(self, instance: Instance) -> bool {
        &&& self.vm@ == instance.id@
        &&& self.thread_count == instance.status.thread_count
        &&& self.manual_scaling_sticky == instance.status.manual_scaling_sticky
        &&& self.scaling_allowed == instance.status.managed()
        &&& self.vcpu_count == instance.status.vcpu_count
        &&& self.per_thread_util == instance.status.per_thread_util
        &&& match instance.status.perf {
            Some(perf) => {
                &&& self.read_io_count == perf.read_io_count
                &&& self.write_io_count == perf.write_io_count
                &&& self.other_io_count == perf.other_io_count
            },
            None => self.read_io_count == 0 && self.write_io_count == 0 && self.other_io_count
                == 0,
        }
    }

    /// Show one instance.
    pub fn of(instance: &Instance) -> (entry: StatsVm)
        ensures
            entry.shows(*instance),
    {
        let s = &instance.status;
        let (read_io_count, write_io_count, other_io_count) = match s.perf {
            Some(perf) => (perf.read_io_count, perf.write_io_count, perf.other_io_count),
            None => (0, 0, 0),
        };
        StatsVm {
            vm: instance.id.clone(),
            thread_count: s.thread_count,
            manual_scaling_sticky: s.manual_scaling_sticky,
            scaling_allowed: s.scaling_allowed(),
            vcpu_count: s.vcpu_count,
            per_thread_util: s.per_thread_util,
            read_io_count,
            write_io_count,
            other_io_count,
        }
    }
}

/// A snapshot entry tells of its VM, each field from where it belongs. Utilisation that
/// is not a finite number is shown as zero.
pub proof fn law_snapshot_entry_tells_of_its_vm(entry: SnapshotVm, instance: Instance)
    requires
        entry.shows(instance),
    ensures
        entry.id@ == instance.id@,
        entry.pid == instance.pid,
        entry.vcpu_count == instance.status.vcpu_count,
        entry.thread_count == instance.status.thread_count,
        entry.alive == instance.status.alive,
        entry.manual_scaling_sticky == instance.status.manual_scaling_sticky,
        entry.perf_available <==> instance.status.perf is Some,
        instance.status.per_thread_util.finite() ==> entry.per_thread_util
            == instance.status.per_thread_util,
        !instance.status.per_thread_util.finite() ==> entry.per_thread_util.bits == 0,
        entry.per_thread_util.finite(),
        entry.read_iops == instance.status.rates.read_iops,
        entry.write_iops == instance.status.rates.write_iops,
        entry.other_iops == instance.status.rates.other_iops,
        entry.read_bw_bps == instance.status.rates.read_bytes_per_second,
        entry.write_bw_bps == instance.status.rates.write_bytes_per_second,
        entry.cpu_pct_avg == Some(instance.status.cpu.avg_pct),
        entry.cpu_pct_median == Some(instance.status.cpu.median_pct),
        entry.cpu_pct_total == Some(instance.status.cpu.total_pct),
        entry.read_latency_us is None && entry.write_latency_us is None,
        entry.num_queues is None && entry.per_vq_depth is None && entry.qd_total is None,
        entry.qd_avg_x100 is None && entry.qd_median is None,
{
}

/// A statistics entry tells of its VM, each field from where it belongs. Without
/// counters all of them are zero.
pub proof fn law_stats_entry_tells_of_its_vm(entry: StatsVm, instance: Instance)
    requires
        entry.shows(instance),
    ensures
        entry.vm@ == instance.id@,
        entry.thread_count == instance.status.thread_count,
        entry.vcpu_count == instance.status.vcpu_count,
        entry.manual_scaling_sticky == instance.status.manual_scaling_sticky,
        entry.scaling_allowed <==> instance.status.ownership_classification == Some(true),
        entry.per_thread_util == instance.status.per_thread_util,
        instance.status.perf is None ==> entry.read_io_count == 0 && entry.write_io_count == 0
            && entry.other_io_count == 0,
        instance.status.perf matches Some(perf) ==> entry.read_io_count == perf.read_io_count
            && entry.write_io_count == perf.write_io_count && entry.other_io_count
            == perf.other_io_count,
{
}

} // verus!
