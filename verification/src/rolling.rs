//! Bounded per-VM history for uptime-style 1m/5m/15m metrics.
use std::collections::VecDeque;

use vstd::prelude::*;

use crate::clock::{capped, lemma_capped_add, Duration, Instant};
use crate::double::{lemma_clamped, one_double, zero_double, Double};
use crate::text::{decimal, decimal_text};

verus! {

/// Longest retained status window, in nanoseconds: fifteen minutes.
pub const MAX_WINDOW_NANOS: u128 = 900_000_000_000;

/// Delta recorded for one successful sampling interval.
#[derive(Debug, Clone, Copy)]
pub struct TickSample {
    /// When the interval ended.
    pub sampled_at: Instant,
    /// I/O operations completed in the interval.
    pub io_ops_delta: u64,
    /// CPU time consumed in the interval.
    pub cpu_ns_delta: u64,
    /// Length of the interval.
    pub wall_dt_ns: u64,
}

/// Rolling deltas plus the cumulative-counter baseline for the next tick.
#[derive(Debug, Clone)]
pub struct RollingMetrics {
    samples: VecDeque<TickSample>,
    previous_wall_ts: Option<Instant>,
    previous_io_ops: Option<u64>,
    previous_cpu_ticks: Option<u64>,
}

/// What a history holds.
#[verifier::ext_equal]
pub struct RollingView {
    /// Retained intervals, oldest first.
    pub samples: Seq<TickSample>,
    /// When the baseline was taken.
    pub previous_wall_ts: Option<Instant>,
    /// Cumulative I/O operations at the baseline.
    pub previous_io_ops: Option<u64>,
    /// Cumulative CPU ticks at the baseline.
    pub previous_cpu_ticks: Option<u64>,
}

/// The samples that are left when those before `cutoff` leave from the front.
pub open spec fn drop_before(samples: Seq<TickSample>, cutoff: int) -> Seq<TickSample>
    decreases samples.len(),
{
    if samples.len() > 0 && samples[0].sampled_at.nanos < cutoff {
        drop_before(samples.drop_first(), cutoff)
    } else {
        samples
    }
}

/// The sum of one quantity over the samples taken at `cutoff` or later.
pub open spec fn sum_since(
    samples: Seq<TickSample>,
    cutoff: int,
    quantity: spec_fn(TickSample) -> u64,
) -> nat
    decreases samples.len(),
{
    if samples.len() == 0 {
        0
    } else {
        let rest = sum_since(samples.drop_last(), cutoff, quantity);
        if samples.last().sampled_at.nanos >= cutoff {
            rest + quantity(samples.last()) as nat
        } else {
            rest
        }
    }
}

pub open spec fn io_ops_of() -> spec_fn(TickSample) -> u64 {
    |s: TickSample| s.io_ops_delta
}

pub open spec fn cpu_ns_of() -> spec_fn(TickSample) -> u64 {
    |s: TickSample| s.cpu_ns_delta
}

pub open spec fn wall_ns_of() -> spec_fn(TickSample) -> u64 {
    |s: TickSample| s.wall_dt_ns
}

/// The time between two readings, capped to what a sample can hold.
pub open spec fn interval_ns(from: Instant, to: Instant) -> u64 {
    capped((to.nanos - from.nanos) as nat)
}

/// Whether a tick rate can be divided by: it does not lie at or below zero.
pub open spec fn usable_rate(ticks_per_second: Double) -> bool {
    !ticks_per_second.at_most(zero_double())
}

impl RollingView {
    /// A history that has seen nothing.
    pub open spec fn nothing() -> RollingView {
        RollingView {
            samples: Seq::empty(),
            previous_wall_ts: None,
            previous_io_ops: None,
            previous_cpu_ticks: None,
        }
    }

    /// The same samples on a new baseline.
    pub open spec fn rebased(
        self,
        now: Instant,
        io_ops: Option<u64>,
        cpu_ticks: Option<u64>,
    ) -> RollingView {
        RollingView {
            samples: self.samples,
            previous_wall_ts: Some(now),
            previous_io_ops: io_ops,
            previous_cpu_ticks: cpu_ticks,
        }
    }

    /// One more sample, with what then lies beyond the longest window gone.
    pub open spec fn recorded(
        self,
        now: Instant,
        io_ops_delta: u64,
        cpu_ns_delta: u64,
        wall_dt_ns: u64,
    ) -> RollingView {
        let sample = TickSample { sampled_at: now, io_ops_delta, cpu_ns_delta, wall_dt_ns };
        RollingView {
            samples: drop_before(self.samples.push(sample), now.nanos - MAX_WINDOW_NANOS),
            ..self
        }
    }

    /// The interval from the baseline to now added, and the baseline moved here.
    pub open spec fn extended(
        self,
        now: Instant,
        io_ops: u64,
        cpu_ticks: Option<u64>,
        cpu_ns_delta: u64,
    ) -> RollingView {
        self.recorded(
            now,
            (io_ops - self.previous_io_ops->0) as u64,
            cpu_ns_delta,
            interval_ns(self.previous_wall_ts->0, now),
        ).rebased(now, Some(io_ops), cpu_ticks)
    }

    /// The CPU ticks of the interval that ends now. Nothing where no interval can
    /// be told: there is no complete baseline, the clock or a counter went
    /// backwards, or the tick rate is not positive.
    pub open spec fn procfs_interval(
        self,
        now: Instant,
        io_ops: u64,
        cpu_ticks: u64,
        rate_usable: bool,
    ) -> Option<u64> {
        if self.previous_wall_ts is None || self.previous_io_ops is None
            || self.previous_cpu_ticks is None {
            None
        } else if now.nanos < self.previous_wall_ts->0.nanos || io_ops < self.previous_io_ops->0
            || cpu_ticks < self.previous_cpu_ticks->0 || !rate_usable {
            None
        } else {
            Some((cpu_ticks - self.previous_cpu_ticks->0) as u64)
        }
    }

    /// The length of the interval that ends now, for a backend that reports
    /// utilisation itself. Nothing where no interval can be told.
    pub open spec fn backend_interval(self, now: Instant, io_ops: u64) -> Option<u64> {
        if self.previous_wall_ts is None || self.previous_io_ops is None {
            None
        } else if now.nanos < self.previous_wall_ts->0.nanos || io_ops < self.previous_io_ops->0 {
            None
        } else {
            Some(interval_ns(self.previous_wall_ts->0, now))
        }
    }

    /// The length of the interval that ends now, whatever the counters hold.
    pub open spec fn plain_interval(self, now: Instant) -> Option<u64> {
        if self.previous_wall_ts is None || now.nanos < self.previous_wall_ts->0.nanos {
            None
        } else {
            Some(interval_ns(self.previous_wall_ts->0, now))
        }
    }

    /// The earliest time that belongs to `window`, which ends at the newest sample.
    pub open spec fn window_start(self, window: Duration) -> int {
        self.samples.last().sampled_at.nanos - window.nanos
    }

    /// I/O operations, CPU time and wall time inside `window`, each capped.
    pub open spec fn totals(self, window: Duration) -> Option<(u64, u64, u64)> {
        if self.samples.len() == 0 {
            None
        } else {
            let start = self.window_start(window);
            Some(
                (
                    capped(sum_since(self.samples, start, io_ops_of())),
                    capped(sum_since(self.samples, start, cpu_ns_of())),
                    capped(sum_since(self.samples, start, wall_ns_of())),
                ),
            )
        }
    }

    /// Average I/O operations per second inside `window`.
    pub open spec fn iops(self, window: Duration) -> Option<u64> {
        match self.totals(window) {
            Some((io_ops, _, wall_ns)) => if wall_ns > 0 {
                Some(capped(io_ops as nat * 1_000_000_000 / wall_ns as nat))
            } else {
                None
            },
            None => None,
        }
    }

    /// Average CPU microseconds per I/O operation inside `window`.
    pub open spec fn cpu_us_per_io(self, window: Duration) -> Option<u64> {
        match self.totals(window) {
            Some((io_ops, cpu_ns, _)) => if io_ops > 0 {
                Some((cpu_ns / io_ops / 1_000) as u64)
            } else {
                None
            },
            None => None,
        }
    }
}

impl View for RollingMetrics {
    type V = RollingView;

    closed spec fn view(&self) -> RollingView {
        RollingView {
            samples: self.samples@,
            previous_wall_ts: self.previous_wall_ts,
            previous_io_ops: self.previous_io_ops,
            previous_cpu_ticks: self.previous_cpu_ticks,
        }
    }
}

impl Default for RollingMetrics {
    /// An empty history.
    fn default() -> (metrics: RollingMetrics)
        ensures
            metrics@ == RollingView::nothing(),
    {
        RollingMetrics::new()
    }
}

impl RollingMetrics {
    /// Construct an empty history.
    pub fn new() -> (metrics: RollingMetrics)
        ensures
            metrics@ == RollingView::nothing(),
    {
        RollingMetrics {
            samples: VecDeque::new(),
            previous_wall_ts: None,
            previous_io_ops: None,
            previous_cpu_ticks: None,
        }
    }

    /// Diff cumulative backend and `/proc` counters and append one interval.
    ///
    /// The first call establishes a baseline. A counter reset also replaces the
    /// baseline without manufacturing a large wrapped delta, and so does a tick rate
    /// that is not positive. `ticks_to_ns` turns a number of ticks at a rate into
    /// nanoseconds.
    pub fn push_from_procfs_delta<F: Fn(u64, Double) -> u64>(
        &mut self,
        now: Instant,
        io_ops_cumulative: u64,
        cpu_ticks_cumulative: u64,
        clock_ticks_per_second: Double,
        ticks_to_ns: F,
    )
        requires
            forall|ticks: u64, rate: Double| call_requires(ticks_to_ns, (ticks, rate)),
        ensures
            old(self)@.procfs_interval(
                now,
                io_ops_cumulative,
                cpu_ticks_cumulative,
                usable_rate(clock_ticks_per_second),
            ) is None ==> final(self)@ == old(self)@.rebased(
                now,
                Some(io_ops_cumulative),
                Some(cpu_ticks_cumulative),
            ),
            old(self)@.procfs_interval(
                now,
                io_ops_cumulative,
                cpu_ticks_cumulative,
                usable_rate(clock_ticks_per_second),
            ) matches Some(ticks) ==> exists|cpu_ns: u64| #[trigger]
                call_ensures(ticks_to_ns, (ticks, clock_ticks_per_second), cpu_ns) && final(self)@ == old(self)@.extended(
                    now,
                    io_ops_cumulative,
                    Some(cpu_ticks_cumulative),
                    cpu_ns,
                ),
    {
        let (previous_wall_ts, previous_io_ops, previous_cpu_ticks) = match (
            self.previous_wall_ts,
            self.previous_io_ops,
            self.previous_cpu_ticks,
        ) {
            (Some(wall), Some(io), Some(cpu)) => (wall, io, cpu),
            _ => {
                self.set_baseline(now, io_ops_cumulative, cpu_ticks_cumulative);
                return ;
            },
        };
        let elapsed = match now.checked_duration_since(previous_wall_ts) {
            Some(elapsed) => elapsed,
            None => {
                self.set_baseline(now, io_ops_cumulative, cpu_ticks_cumulative);
                return ;
            },
        };
        if io_ops_cumulative < previous_io_ops || cpu_ticks_cumulative < previous_cpu_ticks
            || clock_ticks_per_second.le(Double::zero()) {
            self.set_baseline(now, io_ops_cumulative, cpu_ticks_cumulative);
            return ;
        }
        let cpu_tick_delta: u64 = cpu_ticks_cumulative - previous_cpu_ticks;
        let cpu_ns_delta: u64 = ticks_to_ns(cpu_tick_delta, clock_ticks_per_second);
        self.samples.push_back(
            TickSample {
                sampled_at: now,
                io_ops_delta: io_ops_cumulative - previous_io_ops,
                cpu_ns_delta,
                wall_dt_ns: elapsed.capped_nanos(),
            },
        );
        self.set_baseline(now, io_ops_cumulative, cpu_ticks_cumulative);
        self.trim(now);
        proof {
            let interval = old(self)@.procfs_interval(
                now,
                io_ops_cumulative,
                cpu_ticks_cumulative,
                usable_rate(clock_ticks_per_second),
            );
            assert(interval->0 == cpu_tick_delta);
            assert(call_ensures(
                ticks_to_ns,
                (interval->0, clock_ticks_per_second),
                cpu_ns_delta,
            ));
        }
    }

    /// Append an interval from backend-computed per-thread utilisation.
    ///
    /// The utilisation is moved into the unit interval first; `busy_ns` gives the CPU
    /// time that a number of workers consume at a utilisation in an interval of the
    /// given length.
    pub fn push_from_backend_util<F: Fn(u64, Double, u32) -> u64>(
        &mut self,
        now: Instant,
        io_ops_cumulative: u64,
        per_thread_util: Double,
        thread_count: u32,
        busy_ns: F,
    )
        requires
            forall|wall_ns: u64, util: Double, threads: u32|
                call_requires(busy_ns, (wall_ns, util, threads)),
        ensures
            old(self)@.backend_interval(now, io_ops_cumulative) is None ==> final(self)@ == old(
                self,
            )@.rebased(now, Some(io_ops_cumulative), None),
            old(self)@.backend_interval(now, io_ops_cumulative) matches Some(wall_ns)
                ==> exists|cpu_ns: u64| #[trigger]
                call_ensures(busy_ns, (wall_ns, per_thread_util.clamped(), thread_count), cpu_ns) && final(self)@ == old(
                    self,
                )@.extended(now, io_ops_cumulative, None, cpu_ns),
    {
        let (previous_wall_ts, previous_io_ops) = match (
            self.previous_wall_ts,
            self.previous_io_ops,
        ) {
            (Some(wall), Some(io)) => (wall, io),
            _ => {
                self.set_backend_baseline(now, io_ops_cumulative);
                return ;
            },
        };
        let elapsed = match now.checked_duration_since(previous_wall_ts) {
            Some(elapsed) => elapsed,
            None => {
                self.set_backend_baseline(now, io_ops_cumulative);
                return ;
            },
        };
        if io_ops_cumulative < previous_io_ops {
            self.set_backend_baseline(now, io_ops_cumulative);
            return ;
        }
        let wall_dt_ns: u64 = elapsed.capped_nanos();
        let cpu_ns_delta: u64 = busy_ns(wall_dt_ns, per_thread_util.clamp_unit(), thread_count);
        self.samples.push_back(
            TickSample {
                sampled_at: now,
                io_ops_delta: io_ops_cumulative - previous_io_ops,
                cpu_ns_delta,
                wall_dt_ns,
            },
        );
        self.set_backend_baseline(now, io_ops_cumulative);
        self.trim(now);
    }

    /// Append an already-computed delta, used by fleet aggregation.
    pub fn push_delta(&mut self, now: Instant, io_ops_delta: u64, cpu_ns_delta: u64)
        ensures
            match old(self)@.plain_interval(now) {
                None => final(self)@ == old(self)@.rebased(
                    now,
                    old(self)@.previous_io_ops,
                    old(self)@.previous_cpu_ticks,
                ),
                Some(wall_ns) => final(self)@ == old(self)@.recorded(
                    now,
                    io_ops_delta,
                    cpu_ns_delta,
                    wall_ns,
                ).rebased(now, old(self)@.previous_io_ops, old(self)@.previous_cpu_ticks),
            },
    {
        let previous_wall_ts = match self.previous_wall_ts {
            Some(wall) => wall,
            None => {
                self.previous_wall_ts = Some(now);
                return ;
            },
        };
        let elapsed = match now.checked_duration_since(previous_wall_ts) {
            Some(elapsed) => elapsed,
            None => {
                self.previous_wall_ts = Some(now);
                return ;
            },
        };
        self.samples.push_back(
            TickSample {
                sampled_at: now,
                io_ops_delta,
                cpu_ns_delta,
                wall_dt_ns: elapsed.capped_nanos(),
            },
        );
        self.previous_wall_ts = Some(now);
        self.trim(now);
    }

    /// Return the newest I/O and CPU deltas.
    pub fn last_delta(&self) -> (delta: Option<(u64, u64)>)
        ensures
            delta == if self@.samples.len() == 0 {
                None
            } else {
                Some((self@.samples.last().io_ops_delta, self@.samples.last().cpu_ns_delta))
            },
    {
        let n: usize = self.samples.len();
        if n == 0 {
            None
        } else {
            let sample = self.samples[n - 1];
            Some((sample.io_ops_delta, sample.cpu_ns_delta))
        }
    }

    /// Average IOPS over retained intervals inside `window`.
    pub fn iops_over(&self, window: Duration) -> (iops: Option<u64>)
        ensures
            iops == self@.iops(window),
    {
        let (io_ops, _, wall_ns) = match self.totals(window) {
            Some(totals) => totals,
            None => {
                return None;
            },
        };
        if wall_ns > 0 {
            let rate: u128 = io_ops as u128 * 1_000_000_000 / wall_ns as u128;
            Some(
                if rate > u64::MAX as u128 {
                    u64::MAX
                } else {
                    rate as u64
                },
            )
        } else {
            None
        }
    }

    /// CPU microseconds consumed per completed I/O inside `window`.
    pub fn cpu_us_per_io_over(&self, window: Duration) -> (cpu_us: Option<u64>)
        ensures
            cpu_us == self@.cpu_us_per_io(window),
    {
        let (io_ops, cpu_ns, _) = match self.totals(window) {
            Some(totals) => totals,
            None => {
                return None;
            },
        };
        if io_ops > 0 {
            Some(cpu_ns / io_ops / 1_000)
        } else {
            None
        }
    }

    /// Number of retained sampling intervals.
    pub fn len(&self) -> (n: usize)
        ensures
            n == self@.samples.len(),
    {
        self.samples.len()
    }

    /// Whether no complete sampling interval has been retained.
    pub fn is_empty(&self) -> (r: bool)
        ensures
            r == (self@.samples.len() == 0),
    {
        self.samples.len() == 0
    }

    fn set_baseline(&mut self, now: Instant, io_ops: u64, cpu_ticks: u64)
        ensures
            final(self)@ == old(self)@.rebased(now, Some(io_ops), Some(cpu_ticks)),
    {
        self.previous_wall_ts = Some(now);
        self.previous_io_ops = Some(io_ops);
        self.previous_cpu_ticks = Some(cpu_ticks);
    }

    fn set_backend_baseline(&mut self, now: Instant, io_ops: u64)
        ensures
            final(self)@ == old(self)@.rebased(now, Some(io_ops), None),
    {
        self.previous_wall_ts = Some(now);
        self.previous_io_ops = Some(io_ops);
        self.previous_cpu_ticks = None;
    }

    fn trim(&mut self, now: Instant)
        ensures
            final(self)@ == (RollingView {
                samples: drop_before(old(self)@.samples, now.nanos - MAX_WINDOW_NANOS),
                ..old(self)@
            }),
    {
        // Within the longest window of the clock's origin, every sample stays.
        let cutoff = match now.checked_sub(Duration { nanos: MAX_WINDOW_NANOS }) {
            Some(cutoff) => cutoff,
            None => {
                return ;
            },
        };
        while self.samples.len() > 0 && self.samples[0].sampled_at.nanos < cutoff.nanos
            invariant
                cutoff.nanos == now.nanos - MAX_WINDOW_NANOS,
                drop_before(self.samples@, cutoff.nanos as int) == drop_before(
                    old(self).samples@,
                    cutoff.nanos as int,
                ),
                self.previous_wall_ts == old(self).previous_wall_ts,
                self.previous_io_ops == old(self).previous_io_ops,
                self.previous_cpu_ticks == old(self).previous_cpu_ticks,
            decreases self.samples@.len(),
        {
            proof {
                assert(self.samples@.drop_first() == self.samples@.subrange(
                    1,
                    self.samples@.len() as int,
                ));
            }
            let _ = self.samples.pop_front();
        }
    }

    fn totals(&self, window: Duration) -> (totals: Option<(u64, u64, u64)>)
        ensures
            totals == self@.totals(window),
    {
        let n: usize = self.samples.len();
        if n == 0 {
            return None;
        }
        // A window that reaches past the clock's origin takes in every sample.
        let newest = self.samples[n - 1].sampled_at;
        let cutoff: u128 = match newest.checked_sub(window) {
            Some(cutoff) => cutoff.nanos,
            None => 0,
        };
        let ghost start = self@.window_start(window);
        let mut io_ops: u64 = 0;
        let mut cpu_ns: u64 = 0;
        let mut wall_ns: u64 = 0;
        let mut i: usize = 0;
        while i < n
            invariant
                n == self.samples@.len(),
                i <= n,
                start <= cutoff,
                cutoff == 0 || start == cutoff,
                io_ops == capped(sum_since(self.samples@.take(i as int), start, io_ops_of())),
                cpu_ns == capped(sum_since(self.samples@.take(i as int), start, cpu_ns_of())),
                wall_ns == capped(sum_since(self.samples@.take(i as int), start, wall_ns_of())),
            decreases n - i,
        {
            let sample = self.samples[i];
            proof {
                let before = self.samples@.take(i as int);
                let after = self.samples@.take(i + 1);
                assert(after.drop_last() == before);
                lemma_capped_add(sum_since(before, start, io_ops_of()), sample.io_ops_delta);
                lemma_capped_add(sum_since(before, start, cpu_ns_of()), sample.cpu_ns_delta);
                lemma_capped_add(sum_since(before, start, wall_ns_of()), sample.wall_dt_ns);
            }
            if sample.sampled_at.nanos >= cutoff {
                io_ops = io_ops.saturating_add(sample.io_ops_delta);
                cpu_ns = cpu_ns.saturating_add(sample.cpu_ns_delta);
                wall_ns = wall_ns.saturating_add(sample.wall_dt_ns);
            }
            i += 1;
        }
        assert(self.samples@.take(n as int) == self.samples@);
        Some((io_ops, cpu_ns, wall_ns))
    }
}

/// The three status windows: one, five and fifteen minutes.
pub open spec fn window_minutes(index: int) -> Duration {
    if index == 0 {
        Duration { nanos: 60_000_000_000 }
    } else if index == 1 {
        Duration { nanos: 300_000_000_000 }
    } else {
        Duration { nanos: 900_000_000_000 }
    }
}

/// The three status windows, shortest first.
pub fn windows() -> (windows: [Duration; 3])
    ensures
        forall|i: int| 0 <= i < 3 ==> #[trigger] windows@[i] == window_minutes(i),
{
    [Duration::from_secs(60), Duration::from_secs(300), Duration::from_secs(900)]
}

/// One cell: the number in decimal, or `-` where there is none.
pub open spec fn cell_text(cell: Option<u64>) -> Seq<char> {
    match cell {
        Some(value) => decimal(value as nat),
        None => seq!['-'],
    }
}

/// Three cells with slashes between them.
pub open spec fn cells_text(
    first: Option<u64>,
    second: Option<u64>,
    third: Option<u64>,
) -> Seq<char> {
    cell_text(first).push('/') + cell_text(second).push('/') + cell_text(third)
}

fn format_cell(cell: Option<u64>) -> (text: String)
    ensures
        text@ == cell_text(cell),
{
    match cell {
        Some(value) => decimal_text(value),
        None => {
            let mut text: String = String::new();
            text.push('-');
            text
        },
    }
}

/// Render three cells, using `-` for those without a value.
pub fn format_cells(cells: [Option<u64>; 3]) -> (text: String)
    ensures
        text@ == cells_text(cells@[0], cells@[1], cells@[2]),
{
    let mut text: String = format_cell(cells[0]);
    text.push('/');
    text.append(format_cell(cells[1]).as_str());
    text.push('/');
    text.append(format_cell(cells[2]).as_str());
    assert(text@ == cells_text(cells@[0], cells@[1], cells@[2]));
    text
}

/// Render 1m/5m/15m cells, using `-` until a window has a sample.
pub fn format_1_5_15<F: Fn(&RollingMetrics, Duration) -> Option<u64>>(
    metrics: &RollingMetrics,
    getter: F,
) -> (text: String)
    requires
        forall|window: Duration| call_requires(getter, (metrics, window)),
    ensures
        exists|first: Option<u64>, second: Option<u64>, third: Option<u64>|
            {
                &&& call_ensures(getter, (metrics, window_minutes(0)), first)
                &&& call_ensures(getter, (metrics, window_minutes(1)), second)
                &&& call_ensures(getter, (metrics, window_minutes(2)), third)
                &&& text@ == #[trigger] cells_text(first, second, third)
            },
{
    let windows = windows();
    assert(windows@[0] == window_minutes(0));
    assert(windows@[1] == window_minutes(1));
    assert(windows@[2] == window_minutes(2));
    let first = getter(metrics, windows[0]);
    let second = getter(metrics, windows[1]);
    let third = getter(metrics, windows[2]);
    let text = format_cells([first, second, third]);
    assert(text@ == cells_text(first, second, third));
    text
}

/// The samples stand in the order of their times.
pub open spec fn in_time_order(samples: Seq<TickSample>) -> bool {
    forall|i: int, j: int|
        0 <= i <= j < samples.len() ==> (#[trigger] samples[i]).sampled_at.nanos <= (
        #[trigger] samples[j]).sampled_at.nanos
}

impl RollingView {
    /// The samples stand in time order, and none is newer than the baseline.
    pub open spec fn chronological(self) -> bool {
        &&& in_time_order(self.samples)
        &&& self.samples.len() > 0 ==> self.previous_wall_ts is Some
            && self.samples.last().sampled_at.nanos <= self.previous_wall_ts->0.nanos
    }

    /// No sample is older than the longest window before the newest one.
    pub open spec fn within_longest_window(self) -> bool {
        forall|i: int|
            0 <= i < self.samples.len() ==> self.samples.last().sampled_at.nanos
                - MAX_WINDOW_NANOS <= (#[trigger] self.samples[i]).sampled_at.nanos
    }
}

proof fn lemma_drop_before_suffix(samples: Seq<TickSample>, cutoff: int)
    ensures
        drop_before(samples, cutoff).len() <= samples.len(),
        drop_before(samples, cutoff) == samples.skip(
            samples.len() - drop_before(samples, cutoff).len(),
        ),
        drop_before(samples, cutoff).len() > 0 ==> drop_before(
            samples,
            cutoff,
        )[0].sampled_at.nanos >= cutoff,
        samples.len() > 0 && samples.last().sampled_at.nanos >= cutoff ==> drop_before(
            samples,
            cutoff,
        ).len() > 0,
    decreases samples.len(),
{
    if samples.len() > 0 && samples[0].sampled_at.nanos < cutoff {
        let rest = samples.drop_first();
        lemma_drop_before_suffix(rest, cutoff);
        let kept = drop_before(samples, cutoff);
        assert(rest.skip(rest.len() - kept.len()) == samples.skip(samples.len() - kept.len()));
        if rest.len() > 0 {
            assert(rest.last() == samples.last());
        }
    } else {
        assert(samples.skip(0) == samples);
    }
}

/// The newest interval is always retained: recording a sample makes it the last one.
pub proof fn law_newest_sample_is_retained(
    history: RollingView,
    now: Instant,
    io_ops_delta: u64,
    cpu_ns_delta: u64,
    wall_dt_ns: u64,
)
    ensures
        history.recorded(now, io_ops_delta, cpu_ns_delta, wall_dt_ns).samples.len() > 0,
        history.recorded(now, io_ops_delta, cpu_ns_delta, wall_dt_ns).samples.last() == (TickSample {
            sampled_at: now,
            io_ops_delta,
            cpu_ns_delta,
            wall_dt_ns,
        }),
{
    let sample = TickSample { sampled_at: now, io_ops_delta, cpu_ns_delta, wall_dt_ns };
    lemma_drop_before_suffix(history.samples.push(sample), now.nanos - MAX_WINDOW_NANOS);
}

/// The first sample of any kind only establishes a baseline: no interval ends there.
pub proof fn law_first_sample_ends_no_interval(
    now: Instant,
    io_ops: u64,
    cpu_ticks: u64,
    rate_usable: bool,
    window: Duration,
)
    ensures
        RollingView::nothing().procfs_interval(now, io_ops, cpu_ticks, rate_usable) is None,
        RollingView::nothing().backend_interval(now, io_ops) is None,
        RollingView::nothing().plain_interval(now) is None,
        RollingView::nothing().rebased(now, Some(io_ops), Some(cpu_ticks)).samples.len() == 0,
        RollingView::nothing().rebased(now, Some(io_ops), Some(cpu_ticks)).iops(window) is None,
        RollingView::nothing().rebased(now, Some(io_ops), Some(cpu_ticks)).cpu_us_per_io(
            window,
        ) is None,
{
}

/// A counter that went backwards, or a tick rate that is not positive, keeps the
/// samples and replaces the baseline: the next deltas are counted from there.
pub proof fn law_reset_keeps_samples_and_replaces_baseline(
    history: RollingView,
    now: Instant,
    io_ops: u64,
    cpu_ticks: u64,
    rate_usable: bool,
    later: Instant,
    later_io_ops: u64,
    later_cpu_ticks: u64,
    cpu_ns: u64,
)
    requires
        history.previous_io_ops is Some && io_ops < history.previous_io_ops->0
            || history.previous_cpu_ticks is Some && cpu_ticks < history.previous_cpu_ticks->0
            || !rate_usable,
        now.nanos <= later.nanos,
        io_ops <= later_io_ops,
        cpu_ticks <= later_cpu_ticks,
    ensures
        history.procfs_interval(now, io_ops, cpu_ticks, rate_usable) is None,
        ({
            let reset = history.rebased(now, Some(io_ops), Some(cpu_ticks));
            let next = reset.extended(later, later_io_ops, Some(later_cpu_ticks), cpu_ns);
            &&& reset.samples == history.samples
            &&& reset.procfs_interval(later, later_io_ops, later_cpu_ticks, true) == Some(
                (later_cpu_ticks - cpu_ticks) as u64,
            )
            &&& next.samples.len() > 0
            &&& next.samples.last().io_ops_delta == later_io_ops - io_ops
            &&& next.samples.last().cpu_ns_delta == cpu_ns
        }),
{
    let reset = history.rebased(now, Some(io_ops), Some(cpu_ticks));
    law_newest_sample_is_retained(
        reset,
        later,
        (later_io_ops - io_ops) as u64,
        cpu_ns,
        interval_ns(now, later),
    );
}

/// Two samples on a fresh history give, over any window, the rate of that one
/// interval in real elapsed time.
pub proof fn law_two_samples_give_the_elapsed_rate(
    start: Instant,
    io_ops: u64,
    cpu_ticks: u64,
    end: Instant,
    later_io_ops: u64,
    later_cpu_ticks: u64,
    cpu_ns: u64,
    window: Duration,
)
    requires
        start.nanos <= end.nanos,
        io_ops <= later_io_ops,
        cpu_ticks <= later_cpu_ticks,
    ensures
        ({
            let first = RollingView::nothing().rebased(start, Some(io_ops), Some(cpu_ticks));
            let second = first.extended(end, later_io_ops, Some(later_cpu_ticks), cpu_ns);
            let io_delta = (later_io_ops - io_ops) as nat;
            let wall_ns = interval_ns(start, end);
            &&& first.procfs_interval(end, later_io_ops, later_cpu_ticks, true) == Some(
                (later_cpu_ticks - cpu_ticks) as u64,
            )
            &&& second.samples.len() == 1
            &&& second.iops(window) == if wall_ns > 0 {
                Some(capped(io_delta * 1_000_000_000 / wall_ns as nat))
            } else {
                None
            }
            &&& second.cpu_us_per_io(window) == if io_delta > 0 {
                Some((cpu_ns as nat / io_delta / 1_000) as u64)
            } else {
                None
            }
        }),
{
    let first = RollingView::nothing().rebased(start, Some(io_ops), Some(cpu_ticks));
    let second = first.extended(end, later_io_ops, Some(later_cpu_ticks), cpu_ns);
    let io_delta = (later_io_ops - io_ops) as u64;
    let wall_ns = interval_ns(start, end);
    law_newest_sample_is_retained(first, end, io_delta, cpu_ns, wall_ns);
    let sample = second.samples.last();
    lemma_drop_before_suffix(first.samples.push(sample), end.nanos - MAX_WINDOW_NANOS);
    assert(second.samples.len() == 1);
    let from = second.window_start(window);
    assert(second.samples.drop_last().len() == 0);
    reveal_with_fuel(sum_since, 2);
    assert(sum_since(second.samples, from, io_ops_of()) == io_delta);
    assert(sum_since(second.samples, from, cpu_ns_of()) == cpu_ns);
    assert(sum_since(second.samples, from, wall_ns_of()) == wall_ns);
}

/// The history is bounded: as long as the clock runs forward, recording keeps the
/// samples in time order and none older than the longest window.
pub proof fn law_history_is_bounded(
    history: RollingView,
    now: Instant,
    io_ops_delta: u64,
    cpu_ns_delta: u64,
    wall_dt_ns: u64,
    io_ops: Option<u64>,
    cpu_ticks: Option<u64>,
)
    requires
        history.chronological(),
        history.previous_wall_ts is Some ==> history.previous_wall_ts->0.nanos <= now.nanos,
    ensures
        ({
            let next = history.recorded(now, io_ops_delta, cpu_ns_delta, wall_dt_ns).rebased(
                now,
                io_ops,
                cpu_ticks,
            );
            next.chronological() && next.within_longest_window()
        }),
        history.rebased(now, io_ops, cpu_ticks).chronological(),
        RollingView::nothing().chronological(),
        RollingView::nothing().within_longest_window(),
{
    let sample = TickSample { sampled_at: now, io_ops_delta, cpu_ns_delta, wall_dt_ns };
    let grown = history.samples.push(sample);
    assert(in_time_order(grown)) by {
        assert forall|i: int, j: int| 0 <= i <= j < grown.len() implies (
        #[trigger] grown[i]).sampled_at.nanos <= (#[trigger] grown[j]).sampled_at.nanos by {
            if j == history.samples.len() && i < j {
                assert(history.samples[i].sampled_at.nanos
                    <= history.samples.last().sampled_at.nanos);
            }
        }
    }
    let cutoff = now.nanos - MAX_WINDOW_NANOS;
    lemma_drop_before_suffix(grown, cutoff);
    law_newest_sample_is_retained(history, now, io_ops_delta, cpu_ns_delta, wall_dt_ns);
    let kept = drop_before(grown, cutoff);
    let gone = grown.len() - kept.len();
    assert forall|i: int, j: int| 0 <= i <= j < kept.len() implies (
    #[trigger] kept[i]).sampled_at.nanos <= (#[trigger] kept[j]).sampled_at.nanos by {
        assert(kept[i] == grown[i + gone]);
        assert(kept[j] == grown[j + gone]);
    }
    assert forall|i: int| 0 <= i < kept.len() implies cutoff <= (
    #[trigger] kept[i]).sampled_at.nanos by {
        assert(kept[0].sampled_at.nanos <= kept[i].sampled_at.nanos);
    }
}

/// The longest window takes in the whole retained history.
pub proof fn law_longest_window_covers_history(
    history: RollingView,
    quantity: spec_fn(TickSample) -> u64,
)
    requires
        history.within_longest_window(),
        history.samples.len() > 0,
    ensures
        sum_since(
            history.samples,
            history.window_start(Duration { nanos: MAX_WINDOW_NANOS }),
            quantity,
        ) == sum_since(history.samples, 0, quantity),
{
    let start = history.window_start(Duration { nanos: MAX_WINDOW_NANOS });
    assert forall|i: int| 0 <= i < history.samples.len() implies start <= (
    #[trigger] history.samples[i]).sampled_at.nanos by {}
    lemma_sum_since_all(history.samples, start, quantity);
    lemma_sum_since_all(history.samples, 0, quantity);
}

proof fn lemma_sum_since_all(
    samples: Seq<TickSample>,
    cutoff: int,
    quantity: spec_fn(TickSample) -> u64,
)
    requires
        forall|i: int|
            0 <= i < samples.len() ==> cutoff <= (#[trigger] samples[i]).sampled_at.nanos,
    ensures
        sum_since(samples, cutoff, quantity) == sum_since(samples, 0, quantity),
    decreases samples.len(),
{
    if samples.len() > 0 {
        lemma_sum_since_all(samples.drop_last(), cutoff, quantity);
    }
}

/// Of a utilisation counts only the part in the unit interval: where `busy_ns` gives
/// one answer per question, a utilisation and its part in the unit interval lead to
/// the same history. What lies above one counts as one. Where idle workers consume
/// nothing, a utilisation at or below zero, and a pool without workers, consume
/// nothing.
pub proof fn law_backend_utilisation_is_clamped<F: Fn(u64, Double, u32) -> u64>(
    history: RollingView,
    now: Instant,
    io_ops: u64,
    util: Double,
    thread_count: u32,
    busy_ns: F,
    cpu_ns: u64,
    clamped_cpu_ns: u64,
)
    requires
        history.backend_interval(now, io_ops) is Some,
        call_ensures(
            busy_ns,
            (history.backend_interval(now, io_ops)->0, util.clamped(), thread_count),
            cpu_ns,
        ),
        call_ensures(
            busy_ns,
            (history.backend_interval(now, io_ops)->0, util.clamped().clamped(), thread_count),
            clamped_cpu_ns,
        ),
        forall|wall_ns: u64, u: Double, threads: u32, one: u64, other: u64|
            #![trigger
                call_ensures(busy_ns, (wall_ns, u, threads), one),
                call_ensures(busy_ns, (wall_ns, u, threads), other)]
            call_ensures(busy_ns, (wall_ns, u, threads), one) && call_ensures(
                busy_ns,
                (wall_ns, u, threads),
                other,
            ) ==> one == other,
    ensures
        history.extended(now, io_ops, None, cpu_ns) == history.extended(
            now,
            io_ops,
            None,
            clamped_cpu_ns,
        ),
        ({
            let after = history.extended(now, io_ops, None, cpu_ns);
            &&& after.samples.len() > 0
            &&& after.samples.last().io_ops_delta == io_ops - history.previous_io_ops->0
            &&& after.samples.last().cpu_ns_delta == cpu_ns
        }),
        one_double().at_most(util) ==> util.clamped() == one_double(),
        (forall|wall_ns: u64, u: Double, threads: u32, ns: u64|
            (u.value() == 0 || threads == 0) && #[trigger] call_ensures(
                busy_ns,
                (wall_ns, u, threads),
                ns,
            ) ==> ns == 0) && (util.at_most(zero_double()) || thread_count == 0) ==> cpu_ns == 0,
{
    lemma_clamped(util);
    law_newest_sample_is_retained(
        history,
        now,
        (io_ops - history.previous_io_ops->0) as u64,
        cpu_ns,
        history.backend_interval(now, io_ops)->0,
    );
}

} // verus!
