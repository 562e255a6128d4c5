//! What a history holds, and what its rates are, told from the samples alone.
use vstd::prelude::*;

use crate::clock::{capped, Duration, Instant};
use crate::double::Double;
use crate::rolling::{
    cell_text, cells_text, cpu_ns_of, drop_before, io_ops_of, sum_since, usable_rate,
    wall_ns_of, window_minutes, RollingView, TickSample,
};
use crate::text::{decimal, digit_char};

verus! {

/// The sum of two counters that stops at the largest value.
pub open spec fn stopped_sum(a: u64, b: u64) -> u64 {
    if a + b > 0xFFFF_FFFF_FFFF_FFFF {
        0xFFFF_FFFF_FFFF_FFFF
    } else {
        (a + b) as u64
    }
}

proof fn lemma_sum_with_older(
    older: TickSample,
    samples: Seq<TickSample>,
    cutoff: int,
    quantity: spec_fn(TickSample) -> u64,
)
    ensures
        sum_since(seq![older] + samples, cutoff, quantity) == sum_since(samples, cutoff, quantity)
            + if older.sampled_at.nanos >= cutoff {
            quantity(older) as nat
        } else {
            0
        },
    decreases samples.len(),
{
    let all = seq![older] + samples;
    if samples.len() == 0 {
        assert(all.drop_last() == Seq::<TickSample>::empty());
        assert(all.last() == older);
        reveal_with_fuel(sum_since, 2);
    } else {
        lemma_sum_with_older(older, samples.drop_last(), cutoff, quantity);
        assert(all.drop_last() == seq![older] + samples.drop_last());
        assert(all.last() == samples.last());
    }
}

/// A history has totals exactly if it has samples. With one sample they are that
/// sample's, whatever the window.
pub proof fn law_totals_of_one_sample(history: RollingView, window: Duration)
    ensures
        history.totals(window) is None <==> history.samples.len() == 0,
        history.samples.len() == 1 ==> history.totals(window) == Some(
            (
                history.samples[0].io_ops_delta,
                history.samples[0].cpu_ns_delta,
                history.samples[0].wall_dt_ns,
            ),
        ),
{
    if history.samples.len() == 1 {
        let sample = history.samples[0];
        let start = history.window_start(window);
        assert(history.samples == seq![sample] + Seq::<TickSample>::empty());
        lemma_sum_with_older(sample, Seq::empty(), start, io_ops_of());
        lemma_sum_with_older(sample, Seq::empty(), start, cpu_ns_of());
        lemma_sum_with_older(sample, Seq::empty(), start, wall_ns_of());
    }
}

/// Each sample counts once: a sample in front of the others adds its operations, its
/// CPU time and its length to the totals if it was taken no longer before the newest
/// one than the window is long, and adds nothing otherwise.
pub proof fn law_every_sample_in_the_window_counts(
    history: RollingView,
    older: TickSample,
    window: Duration,
)
    requires
        history.samples.len() > 0,
    ensures
        ({
            let longer = RollingView { samples: seq![older] + history.samples, ..history };
            let newest = history.samples[history.samples.len() - 1];
            let (io_ops, cpu_ns, wall_ns) = history.totals(window)->0;
            longer.totals(window) == if newest.sampled_at.nanos - older.sampled_at.nanos
                <= window.nanos {
                Some(
                    (
                        stopped_sum(io_ops, older.io_ops_delta),
                        stopped_sum(cpu_ns, older.cpu_ns_delta),
                        stopped_sum(wall_ns, older.wall_dt_ns),
                    ),
                )
            } else {
                Some((io_ops, cpu_ns, wall_ns))
            }
        }),
{
    let longer = RollingView { samples: seq![older] + history.samples, ..history };
    assert(longer.samples.last() == history.samples.last());
    let start = history.window_start(window);
    lemma_sum_with_older(older, history.samples, start, io_ops_of());
    lemma_sum_with_older(older, history.samples, start, cpu_ns_of());
    lemma_sum_with_older(older, history.samples, start, wall_ns_of());
}

/// Operations per second are the operations of the window by its time, rounded down,
/// and stopped at the largest counter. There are none exactly if there are no samples,
/// or no time.
pub proof fn law_iops_are_operations_by_time(history: RollingView, window: Duration)
    ensures
        history.iops(window) is Some <==> (history.totals(window) matches Some((_, _, wall_ns))
            && wall_ns > 0),
        history.iops(window) matches Some(rate) ==> {
            let (io_ops, _, wall_ns) = history.totals(window)->0;
            &&& rate * wall_ns <= io_ops * 1_000_000_000
            &&& rate < 0xFFFF_FFFF_FFFF_FFFF ==> io_ops * 1_000_000_000 < (rate + 1) * wall_ns
        },
{
    if let Some((io_ops, _, wall_ns)) = history.totals(window) {
        if wall_ns > 0 {
            let n = io_ops as nat * 1_000_000_000;
            let d = wall_ns as nat;
            let q = n / d;
            assert(q * d <= n < (q + 1) * d) by (nonlinear_arith)
                requires
                    d > 0,
                    q == n / d,
            ;
            let rate = capped(q);
            assert(rate * d <= q * d) by (nonlinear_arith)
                requires
                    rate <= q,
                    d > 0,
            ;
        }
    }
}

/// CPU microseconds per operation are the CPU time of the window by its operations,
/// rounded down. There are none exactly if there are no samples, or no operations.
pub proof fn law_cpu_per_io_is_cpu_time_by_operations(history: RollingView, window: Duration)
    ensures
        history.cpu_us_per_io(window) is Some <==> (history.totals(window) matches Some(
            (io_ops, _, _),
        ) && io_ops > 0),
        history.cpu_us_per_io(window) matches Some(micros) ==> {
            let (io_ops, cpu_ns, _) = history.totals(window)->0;
            &&& micros * (1_000 * io_ops) <= cpu_ns
            &&& cpu_ns < (micros + 1) * (1_000 * io_ops)
        },
{
    if let Some((io_ops, cpu_ns, _)) = history.totals(window) {
        if io_ops > 0 {
            let n = cpu_ns as nat;
            let d = io_ops as nat;
            let q = n / d;
            let m = q / 1_000;
            assert(q * d <= n < (q + 1) * d) by (nonlinear_arith)
                requires
                    d > 0,
                    q == n / d,
            ;
            assert(m * 1_000 <= q < (m + 1) * 1_000);
            assert(m * (1_000 * d) <= n) by (nonlinear_arith)
                requires
                    m * 1_000 <= q,
                    q * d <= n,
                    d > 0,
            ;
            assert(n < (m + 1) * (1_000 * d)) by (nonlinear_arith)
                requires
                    q + 1 <= (m + 1) * 1_000,
                    n < (q + 1) * d,
                    d > 0,
            ;
            assert(q <= n) by (nonlinear_arith)
                requires
                    q * d <= n,
                    d >= 1,
            ;
        }
    }
}

/// Two samples inside a window: their operations together by their time together, and
/// their CPU time together by their operations together.
pub proof fn law_two_samples_are_taken_together(history: RollingView, window: Duration)
    requires
        history.samples.len() == 2,
        history.samples[1].sampled_at.nanos - history.samples[0].sampled_at.nanos <= window.nanos,
        history.samples[0].io_ops_delta + history.samples[1].io_ops_delta
            <= 0xFFFF_FFFF_FFFF_FFFF,
        history.samples[0].cpu_ns_delta + history.samples[1].cpu_ns_delta
            <= 0xFFFF_FFFF_FFFF_FFFF,
        history.samples[0].wall_dt_ns + history.samples[1].wall_dt_ns <= 0xFFFF_FFFF_FFFF_FFFF,
    ensures
        ({
            let first = history.samples[0];
            let second = history.samples[1];
            let io_ops = first.io_ops_delta + second.io_ops_delta;
            let cpu_ns = first.cpu_ns_delta + second.cpu_ns_delta;
            let wall_ns = first.wall_dt_ns + second.wall_dt_ns;
            &&& io_ops > 0 ==> history.cpu_us_per_io(window) == Some(
                (cpu_ns / io_ops / 1_000) as u64,
            )
            &&& wall_ns > 0 && io_ops * 1_000_000_000 / wall_ns <= 0xFFFF_FFFF_FFFF_FFFF
                ==> history.iops(window) == Some((io_ops * 1_000_000_000 / wall_ns) as u64)
        }),
{
    let first = history.samples[0];
    let newest = RollingView { samples: seq![history.samples[1]], ..history };
    law_totals_of_one_sample(newest, window);
    law_every_sample_in_the_window_counts(newest, first, window);
    assert(seq![first] + newest.samples == history.samples);
}

/// Recording takes the new sample in at the end and lets go, from the front, only of
/// samples that lie more than fifteen minutes back; where the front one that stays is
/// younger, all after it stay. The baseline is not touched.
pub proof fn law_recording_lets_go_of_what_is_too_old(
    history: RollingView,
    now: Instant,
    io_ops_delta: u64,
    cpu_ns_delta: u64,
    wall_dt_ns: u64,
)
    ensures
        ({
            let after = history.recorded(now, io_ops_delta, cpu_ns_delta, wall_dt_ns);
            let gone = history.samples.len() + 1 - after.samples.len();
            &&& 0 <= gone <= history.samples.len()
            &&& forall|i: int|
                0 <= i < gone ==> (#[trigger] history.samples[i]).sampled_at.nanos
                    + 900_000_000_000 < now.nanos
            &&& after.samples[0].sampled_at.nanos + 900_000_000_000 >= now.nanos
            &&& forall|i: int|
                0 <= i < after.samples.len() - 1 ==> #[trigger] after.samples[i]
                    == history.samples[i + gone]
            &&& after.samples[after.samples.len() - 1] == (TickSample {
                sampled_at: now,
                io_ops_delta,
                cpu_ns_delta,
                wall_dt_ns,
            })
            &&& after.previous_wall_ts == history.previous_wall_ts
            &&& after.previous_io_ops == history.previous_io_ops
            &&& after.previous_cpu_ticks == history.previous_cpu_ticks
        }),
{
    let sample = TickSample { sampled_at: now, io_ops_delta, cpu_ns_delta, wall_dt_ns };
    let grown = history.samples.push(sample);
    let cutoff = now.nanos - 900_000_000_000;
    lemma_front_dropped(grown, cutoff);
    let after = history.recorded(now, io_ops_delta, cpu_ns_delta, wall_dt_ns);
    assert(after.samples == drop_before(grown, cutoff));
    let gone = grown.len() - after.samples.len();
    if gone > history.samples.len() {
        assert(grown[history.samples.len() as int] == sample);
    }
    assert forall|i: int| 0 <= i < gone implies (#[trigger] history.samples[i]).sampled_at.nanos
        + 900_000_000_000 < now.nanos by {
        assert(grown[i] == history.samples[i]);
    }
    assert forall|i: int| 0 <= i < after.samples.len() - 1 implies #[trigger] after.samples[i]
        == history.samples[i + gone] by {
        assert(after.samples[i] == grown[i + gone]);
    }
    assert(after.samples[after.samples.len() - 1] == grown[grown.len() - 1]);
}

proof fn lemma_front_dropped(samples: Seq<TickSample>, cutoff: int)
    ensures
        ({
            let kept = drop_before(samples, cutoff);
            let gone = samples.len() - kept.len();
            &&& 0 <= gone
            &&& forall|i: int|
                0 <= i < gone ==> (#[trigger] samples[i]).sampled_at.nanos < cutoff
            &&& kept.len() > 0 ==> kept[0].sampled_at.nanos >= cutoff
            &&& forall|i: int| 0 <= i < kept.len() ==> #[trigger] kept[i] == samples[i + gone]
        }),
    decreases samples.len(),
{
    if samples.len() > 0 && samples[0].sampled_at.nanos < cutoff {
        let rest = samples.drop_first();
        lemma_front_dropped(rest, cutoff);
        let kept = drop_before(samples, cutoff);
        let gone = samples.len() - kept.len();
        assert forall|i: int| 0 <= i < gone implies (#[trigger] samples[i]).sampled_at.nanos
            < cutoff by {
            if i > 0 {
                assert(rest[i - 1] == samples[i]);
            }
        }
        assert forall|i: int| 0 <= i < kept.len() implies #[trigger] kept[i] == samples[i
            + gone] by {
            assert(kept[i] == rest[i + gone - 1]);
        }
    }
}

/// The interval that is added runs from the baseline to now: its operations are what
/// the counter gained, its length is the time that passed, stopped at the largest
/// counter. The baseline moves to now.
pub proof fn law_extension_counts_from_the_baseline(
    history: RollingView,
    now: Instant,
    io_ops: u64,
    cpu_ticks: Option<u64>,
    cpu_ns: u64,
)
    requires
        history.previous_wall_ts is Some,
        history.previous_wall_ts->0.nanos <= now.nanos,
        history.previous_io_ops is Some,
        history.previous_io_ops->0 <= io_ops,
    ensures
        ({
            let after = history.extended(now, io_ops, cpu_ticks, cpu_ns);
            let newest = after.samples[after.samples.len() - 1];
            let passed = now.nanos - history.previous_wall_ts->0.nanos;
            &&& after.samples.len() > 0
            &&& newest.sampled_at == now
            &&& newest.io_ops_delta + history.previous_io_ops->0 == io_ops
            &&& newest.cpu_ns_delta == cpu_ns
            &&& newest.wall_dt_ns == if passed > 0xFFFF_FFFF_FFFF_FFFF {
                0xFFFF_FFFF_FFFF_FFFF
            } else {
                passed
            }
            &&& after.previous_wall_ts == Some(now)
            &&& after.previous_io_ops == Some(io_ops)
            &&& after.previous_cpu_ticks == cpu_ticks
        }),
{
    law_recording_lets_go_of_what_is_too_old(
        history,
        now,
        (io_ops - history.previous_io_ops->0) as u64,
        cpu_ns,
        capped((now.nanos - history.previous_wall_ts->0.nanos) as nat),
    );
}

/// When an interval can be told. From host counters: there is a complete baseline,
/// neither the clock nor a counter went backwards, and the rate can be used; its ticks
/// are what the counter gained. From a backend: there is a baseline for time and
/// operations, and neither went backwards. For given deltas: time did not.
pub proof fn law_when_an_interval_can_be_told(
    history: RollingView,
    now: Instant,
    io_ops: u64,
    cpu_ticks: u64,
    rate_usable: bool,
)
    ensures
        ({
            let timed = history.previous_wall_ts is Some && history.previous_wall_ts->0.nanos
                <= now.nanos;
            let counted = history.previous_io_ops is Some && history.previous_io_ops->0 <= io_ops;
            let ticked = history.previous_cpu_ticks is Some && history.previous_cpu_ticks->0
                <= cpu_ticks;
            let passed = now.nanos - history.previous_wall_ts->0.nanos;
            let length = if passed > 0xFFFF_FFFF_FFFF_FFFF {
                0xFFFF_FFFF_FFFF_FFFF
            } else {
                passed
            };
            &&& history.procfs_interval(now, io_ops, cpu_ticks, rate_usable) is Some <==> timed
                && counted && ticked && rate_usable
            &&& history.procfs_interval(now, io_ops, cpu_ticks, rate_usable) matches Some(
                ticks,
            ) ==> ticks + history.previous_cpu_ticks->0 == cpu_ticks
            &&& history.backend_interval(now, io_ops) is Some <==> timed && counted
            &&& history.backend_interval(now, io_ops) matches Some(wall_ns) ==> wall_ns == length
            &&& history.plain_interval(now) is Some <==> timed
            &&& history.plain_interval(now) matches Some(wall_ns) ==> wall_ns == length
        }),
{
}

/// A new baseline keeps every sample.
pub proof fn law_new_baseline_keeps_the_samples(
    history: RollingView,
    now: Instant,
    io_ops: Option<u64>,
    cpu_ticks: Option<u64>,
    window: Duration,
)
    ensures
        ({
            let after = history.rebased(now, io_ops, cpu_ticks);
            &&& after.samples == history.samples
            &&& after.previous_wall_ts == Some(now)
            &&& after.previous_io_ops == io_ops
            &&& after.previous_cpu_ticks == cpu_ticks
            &&& after.totals(window) == history.totals(window)
            &&& after.iops(window) == history.iops(window)
            &&& after.cpu_us_per_io(window) == history.cpu_us_per_io(window)
        }),
{
}

/// The status windows are one, five and fifteen minutes.
pub proof fn law_windows_are_one_five_and_fifteen_minutes()
    ensures
        window_minutes(0).nanos == 1 * 60 * 1_000_000_000,
        window_minutes(1).nanos == 5 * 60 * 1_000_000_000,
        window_minutes(2).nanos == 15 * 60 * 1_000_000_000,
{
}

/// The number that a row of decimal digits stands for.
pub open spec fn number_of(digits: Seq<char>) -> int
    decreases digits.len(),
{
    if digits.len() == 0 {
        0
    } else {
        10 * number_of(digits.drop_last()) + (digits.last() as int - '0' as int)
    }
}

/// A number in decimal reads back as that number, is made of digits only, and starts
/// with a zero only if it is zero.
pub proof fn law_decimal_reads_back(n: nat)
    ensures
        number_of(decimal(n)) == n,
        decimal(n).len() > 0,
        forall|i: int|
            0 <= i < decimal(n).len() ==> '0' <= #[trigger] decimal(n)[i] && decimal(n)[i] <= '9',
        decimal(n)[0] == '0' ==> decimal(n) == seq!['0'],
        decimal(n) == seq!['0'] ==> n == 0,
    decreases n,
{
    reveal_with_fuel(number_of, 2);
    assert(digit_char(n % 10) as int - '0' as int == n % 10);
    if n < 10 {
        assert(decimal(n).drop_last() == Seq::<char>::empty());
        assert(decimal(n).last() == digit_char(n));
        assert(decimal(n) =~= seq![digit_char(n)]);
    } else {
        law_decimal_reads_back(n / 10);
        let text = decimal(n);
        assert(text.drop_last() == decimal(n / 10));
        assert(text.last() == digit_char(n % 10));
        assert(text[0] == decimal(n / 10)[0]);
        assert(text.len() >= 2);
        assert forall|i: int| 0 <= i < text.len() implies '0' <= #[trigger] text[i] && text[i]
            <= '9' by {
            if i < text.len() - 1 {
                assert(text[i] == decimal(n / 10)[i]);
            }
        }
        if decimal(n / 10) == seq!['0'] {
            assert(n / 10 == 0);
        }
    }
}

/// A cell without a value is a dash; one with a value is its number.
pub proof fn law_cell_reads_back(cell: Option<u64>)
    ensures
        cell is None ==> cell_text(cell) == seq!['-'],
        cell matches Some(value) ==> number_of(cell_text(cell)) == value && cell_text(cell)
            == decimal(value as nat),
        !cell_text(cell).contains('/'),
{
    if let Some(value) = cell {
        law_decimal_reads_back(value as nat);
    }
}

/// Three cells, cut at the slashes, are the three cells in their order.
pub proof fn law_cells_are_parted_by_slashes(
    first: Option<u64>,
    second: Option<u64>,
    third: Option<u64>,
)
    ensures
        crate::paths::pieces(cells_text(first, second, third)) == seq![
            cell_text(first),
            cell_text(second),
            cell_text(third),
        ],
{
    law_cell_reads_back(first);
    law_cell_reads_back(second);
    law_cell_reads_back(third);
    let a = cell_text(first);
    let b = cell_text(second);
    let c = cell_text(third);
    crate::paths::law_slash_free_text_is_one_piece(a);
    crate::paths::law_text_after_a_slash_is_a_piece(a, b);
    crate::paths::law_text_after_a_slash_is_a_piece(a.push('/') + b, c);
    assert((a.push('/') + b).push('/') + c == cells_text(first, second, third));
    assert(seq![a].push(b).push(c) == seq![a, b, c]);
}

/// A rate can be used unless it is a number at or below zero.
pub proof fn law_which_rates_can_be_used(rate: Double)
    ensures
        usable_rate(rate) <==> rate.nan() || rate.value() > 0,
{
}

} // verus!
