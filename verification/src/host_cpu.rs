//! Host CPU utilisation across successive ticks.
use vstd::prelude::*;

use crate::clock::capped;
use crate::double::{
    lemma_in_unit_is_finite, lemma_unsigned_order, one_double, zero_double, Double,
};

verus! {

/// Host-wide CPU time by kind, in ticks since boot. Kernels that do not count a
/// kind leave it out.
#[derive(Debug, Clone, Copy, PartialEq, Eq, Structural)]
pub struct CpuTimes {
    pub user: u64,
    pub nice: u64,
    pub system: u64,
    pub idle: u64,
    pub iowait: Option<u64>,
    pub irq: Option<u64>,
    pub softirq: Option<u64>,
    pub steal: Option<u64>,
    pub guest: Option<u64>,
    pub guest_nice: Option<u64>,
}

/// A counter that may be missing, zero when it is.
pub open spec fn counted(ticks: Option<u64>) -> nat {
    match ticks {
        Some(ticks) => ticks as nat,
        None => 0,
    }
}

impl CpuTimes {
    /// All ticks together, capped to what a counter can hold.
    pub open spec fn total(self) -> u64 {
        capped(
            self.user as nat + self.nice as nat + self.system as nat + self.idle as nat + counted(
                self.iowait,
            ) + counted(self.irq) + counted(self.softirq) + counted(self.steal) + counted(
                self.guest,
            ) + counted(self.guest_nice),
        )
    }

    /// Ticks without work, capped to what a counter can hold.
    pub open spec fn resting(self) -> u64 {
        capped(self.idle as nat + counted(self.iowait))
    }
}

/// Host-wide cumulative CPU counters.
#[derive(Debug, Clone, Copy, PartialEq, Eq, Structural)]
pub struct HostCpuSample {
    pub busy_ticks: u64,
    pub total_ticks: u64,
}

/// `later - earlier`, zero where the counter went backwards.
pub open spec fn advance(earlier: u64, later: u64) -> u64 {
    if later >= earlier {
        (later - earlier) as u64
    } else {
        0
    }
}

impl HostCpuSample {
    /// Sum up aggregate host CPU counters.
    pub fn from_times(times: CpuTimes) -> (sample: HostCpuSample)
        ensures
            sample.total_ticks == times.total(),
            sample.busy_ticks == times.total() - times.resting(),
    {
        let iowait: u64 = times.iowait.unwrap_or(0);
        let idle_ticks: u64 = times.idle.saturating_add(iowait);
        let total_ticks: u64 = times.user.saturating_add(times.nice).saturating_add(
            times.system,
        ).saturating_add(times.idle).saturating_add(iowait).saturating_add(
            times.irq.unwrap_or(0),
        ).saturating_add(times.softirq.unwrap_or(0)).saturating_add(
            times.steal.unwrap_or(0),
        ).saturating_add(times.guest.unwrap_or(0)).saturating_add(times.guest_nice.unwrap_or(0));
        HostCpuSample { busy_ticks: total_ticks.saturating_sub(idle_ticks), total_ticks }
    }

    /// Fraction of host CPU that was busy between `previous` and `self`, where
    /// `ratio` divides busy ticks by total ticks.
    pub fn utilisation_since<F: Fn(u64, u64) -> Double>(
        self,
        previous: HostCpuSample,
        ratio: F,
    ) -> (util: Double)
        requires
            forall|busy: u64, total: u64| total > 0 ==> call_requires(ratio, (busy, total)),
        ensures
            utilisation(self, previous, ratio, util),
    {
        let delta_busy: u64 = self.busy_ticks.saturating_sub(previous.busy_ticks);
        let delta_total: u64 = self.total_ticks.saturating_sub(previous.total_ticks);
        assert(delta_busy == advance(previous.busy_ticks, self.busy_ticks));
        assert(delta_total == advance(previous.total_ticks, self.total_ticks));
        if delta_total == 0 {
            Double::zero()
        } else {
            let quotient = ratio(delta_busy, delta_total);
            assert(call_ensures(ratio, (delta_busy, delta_total), quotient));
            quotient.clamp_unit()
        }
    }
}

/// `util` is the fraction of host CPU that was busy from `previous` to `current`:
/// zero where no tick passed, else the quotient of the two advances, moved into
/// the unit interval.
pub open spec fn utilisation<F: Fn(u64, u64) -> Double>(
    current: HostCpuSample,
    previous: HostCpuSample,
    ratio: F,
    util: Double,
) -> bool {
    let busy = advance(previous.busy_ticks, current.busy_ticks);
    let total = advance(previous.total_ticks, current.total_ticks);
    if total == 0 {
        util == zero_double()
    } else {
        exists|quotient: Double| #[trigger]
            call_ensures(ratio, (busy, total), quotient) && util == quotient.clamped()
    }
}

/// Tracks host CPU utilisation across successive ticks.
#[derive(Debug, Clone, Copy, PartialEq, Eq, Structural)]
pub struct HostCpuMonitor {
    /// Previous host CPU sample.
    pub last: Option<HostCpuSample>,
    /// Fraction of host CPU consumed between the last two samples; zero until two
    /// samples exist.
    pub util: Double,
}

impl HostCpuMonitor {
    /// A monitor that has not sampled yet.
    pub fn new() -> (monitor: HostCpuMonitor)
        ensures
            monitor.last is None,
            monitor.util == zero_double(),
    {
        HostCpuMonitor { last: None, util: Double::zero() }
    }

    /// Take a new sample and return the latest utilisation.
    ///
    /// A failed read, which gives no sample, keeps the previous value.
    pub fn sample<F: Fn(u64, u64) -> Double>(
        &mut self,
        read: Option<HostCpuSample>,
        ratio: F,
    ) -> (util: Double)
        requires
            forall|busy: u64, total: u64| total > 0 ==> call_requires(ratio, (busy, total)),
        ensures
            sampled(*old(self), *final(self), read, ratio),
            util == final(self).util,
    {
        if let Some(current) = read {
            if let Some(previous) = self.last {
                self.util = current.utilisation_since(previous, ratio);
            }
            self.last = Some(current);
        }
        self.util
    }
}

/// What one reading does to a monitor.
pub open spec fn sampled<F: Fn(u64, u64) -> Double>(
    before: HostCpuMonitor,
    after: HostCpuMonitor,
    read: Option<HostCpuSample>,
    ratio: F,
) -> bool {
    match read {
        None => after == before,
        Some(current) => {
            &&& after.last == Some(current)
            &&& match before.last {
                None => after.util == before.util,
                Some(previous) => utilisation(current, previous, ratio, after.util),
            }
        },
    }
}

/// Utilisation is a fraction: where the quotients are numbers, it is a finite number
/// in the unit interval.
pub proof fn law_utilisation_is_a_fraction<F: Fn(u64, u64) -> Double>(
    current: HostCpuSample,
    previous: HostCpuSample,
    ratio: F,
    util: Double,
)
    requires
        utilisation(current, previous, ratio, util),
        forall|busy: u64, total: u64, quotient: Double|
            total > 0 && #[trigger] call_ensures(ratio, (busy, total), quotient)
                ==> !quotient.nan(),
    ensures
        !util.nan(),
        util.finite(),
        util.in_unit(),
{
    lemma_unsigned_order(zero_double(), one_double());
    lemma_in_unit_is_finite(util);
}

/// A monitor always shows a fraction: it starts with one, and no reading ends that
/// where the quotients are numbers.
pub proof fn law_monitor_shows_a_fraction<F: Fn(u64, u64) -> Double>(
    before: HostCpuMonitor,
    after: HostCpuMonitor,
    read: Option<HostCpuSample>,
    ratio: F,
)
    requires
        sampled(before, after, read, ratio),
        before.util.in_unit(),
        forall|busy: u64, total: u64, quotient: Double|
            total > 0 && #[trigger] call_ensures(ratio, (busy, total), quotient)
                ==> !quotient.nan(),
    ensures
        zero_double().in_unit(),
        after.util.in_unit(),
        after.util.finite(),
{
    lemma_unsigned_order(zero_double(), one_double());
    lemma_in_unit_is_finite(after.util);
    if let (Some(current), Some(previous)) = (read, before.last) {
        law_utilisation_is_a_fraction(current, previous, ratio, after.util);
    }
}

/// All kinds of time are counted, each once, and stopped at the largest counter; a kind
/// that the kernel does not count is nothing. Without an overflow, what is not idle and
/// not waiting for I/O is busy.
pub proof fn law_all_kinds_of_time_are_counted(times: CpuTimes)
    ensures
        ({
            let of = |ticks: Option<u64>|
                match ticks {
                    Some(n) => n as int,
                    None => 0int,
                };
            let busy = times.user + times.nice + times.system + of(times.irq) + of(times.softirq)
                + of(times.steal) + of(times.guest) + of(times.guest_nice);
            let rest = times.idle + of(times.iowait);
            &&& times.total() == if busy + rest > 0xFFFF_FFFF_FFFF_FFFF {
                0xFFFF_FFFF_FFFF_FFFF
            } else {
                busy + rest
            }
            &&& times.resting() == if rest > 0xFFFF_FFFF_FFFF_FFFF {
                0xFFFF_FFFF_FFFF_FFFF
            } else {
                rest
            }
            &&& busy + rest <= 0xFFFF_FFFF_FFFF_FFFF ==> times.total() - times.resting() == busy
        }),
{
}

/// Utilisation is the quotient of what the busy ticks and all ticks gained, brought
/// into the unit interval: a quotient in it stays, one outside goes to the nearer end.
/// Counters that went backwards gained nothing, and where no tick passed there is no
/// utilisation.
pub proof fn law_utilisation_is_the_quotient_of_the_gains<F: Fn(u64, u64) -> Double>(
    current: HostCpuSample,
    previous: HostCpuSample,
    ratio: F,
    util: Double,
    busy: u64,
    total: u64,
    quotient: Double,
)
    requires
        utilisation(current, previous, ratio, util),
        current.busy_ticks >= previous.busy_ticks ==> busy == current.busy_ticks
            - previous.busy_ticks,
        current.busy_ticks < previous.busy_ticks ==> busy == 0,
        current.total_ticks >= previous.total_ticks ==> total == current.total_ticks
            - previous.total_ticks,
        current.total_ticks < previous.total_ticks ==> total == 0,
        forall|q: Double| #[trigger] call_ensures(ratio, (busy, total), q) ==> q == quotient,
    ensures
        total == 0 ==> util.bits == 0,
        total > 0 ==> {
            &&& quotient.in_unit() ==> util == quotient
            &&& quotient.below(zero_double()) ==> util == zero_double()
            &&& one_double().below(quotient) ==> util == one_double()
        },
{
    lemma_unsigned_order(zero_double(), one_double());
}

/// A reading is remembered; a failed one changes nothing. The first one leaves the
/// utilisation as it is, and each later one gives it anew from the one before.
pub proof fn law_readings_are_remembered<F: Fn(u64, u64) -> Double>(
    before: HostCpuMonitor,
    after: HostCpuMonitor,
    read: Option<HostCpuSample>,
    ratio: F,
)
    requires
        sampled(before, after, read, ratio),
    ensures
        read is None ==> after.last == before.last && after.util == before.util,
        read is Some ==> after.last == read,
        before.last is None ==> after.util == before.util,
        read is Some && before.last is Some ==> utilisation(
            read->0,
            before.last->0,
            ratio,
            after.util,
        ),
{
}

} // verus!
