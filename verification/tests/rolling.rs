use io_thread_controller::clock::{Duration, Instant};
use io_thread_controller::double::Double;
use io_thread_controller::rolling::{format_1_5_15, format_cells, windows, RollingMetrics};

fn double(value: f64) -> Double {
    Double::from_bits(value.to_bits())
}

fn ticks_to_ns(ticks: u64, rate: Double) -> u64 {
    (ticks as f64 * 1_000_000_000.0 / f64::from_bits(rate.to_bits())) as u64
}

fn busy_ns(wall_ns: u64, util: Double, threads: u32) -> u64 {
    (wall_ns as f64 * f64::from_bits(util.to_bits()) * f64::from(threads)).min(u64::MAX as f64)
        as u64
}

fn millis(ms: u64) -> Instant {
    Instant::from_nanos(1_000_000_000_000_000 + u128::from(ms) * 1_000_000)
}

fn push(metrics: &mut RollingMetrics, now: Instant, io: u64, cpu: u64, hz: f64) {
    metrics.push_from_procfs_delta(now, io, cpu, double(hz), ticks_to_ns);
}

#[test]
fn first_sample_leaves_the_window_empty() {
    for io_ops in [0, 1, 7_000, u64::MAX] {
        for cpu_ticks in [0, 1, 9, u64::MAX] {
            for hz in [
                100.0,
                0.0,
                -0.0,
                -3.5,
                f64::NAN,
                f64::INFINITY,
                f64::NEG_INFINITY,
                f64::MIN_POSITIVE,
            ] {
                let mut metrics = RollingMetrics::new();
                push(&mut metrics, millis(0), io_ops, cpu_ticks, hz);
                assert!(metrics.is_empty());
                assert!(metrics.iops_over(Duration::from_secs(60)).is_none());
                assert!(metrics.cpu_us_per_io_over(Duration::from_secs(60)).is_none());
            }
        }
    }
}

#[test]
fn backwards_counter_or_non_positive_hz_keeps_len_and_resets_baseline() {
    let hz = 100.0;
    for (io0, cpu0, io_delta, cpu_delta, elapsed_ms) in [
        (1, 1, 0, 0, 1),
        (1, 1, 9_999, 9_999, 4_999),
        (999_999, 999_999, 17, 3, 250),
        (12_345, 678, 5_000, 1, 1_000),
    ] {
        for reset_kind in 0..3 {
            let mut metrics = RollingMetrics::new();
            let io1 = io0 + io_delta;
            let cpu1 = cpu0 + cpu_delta;
            push(&mut metrics, millis(0), io0, cpu0, hz);
            push(&mut metrics, millis(elapsed_ms), io1, cpu1, hz);
            assert_eq!(metrics.len(), 1);

            let t_reset = elapsed_ms + 1;
            let (base_io, base_cpu) = match reset_kind {
                0 => {
                    push(&mut metrics, millis(t_reset), io1 - 1, cpu1, hz);
                    (io1 - 1, cpu1)
                }
                1 => {
                    push(&mut metrics, millis(t_reset), io1, cpu1 - 1, hz);
                    (io1, cpu1 - 1)
                }
                _ => {
                    push(&mut metrics, millis(t_reset), io1 + 1, cpu1 + 1, 0.0);
                    (io1 + 1, cpu1 + 1)
                }
            };
            assert_eq!(metrics.len(), 1);

            push(
                &mut metrics,
                millis(t_reset + elapsed_ms),
                base_io + io_delta,
                base_cpu + cpu_delta,
                hz,
            );
            let (observed_io, observed_cpu_ns) = metrics.last_delta().unwrap();
            assert_eq!(observed_io, io_delta);
            assert_eq!(
                observed_cpu_ns,
                (cpu_delta as f64 * 1_000_000_000.0 / hz) as u64
            );
        }
    }
}

#[test]
fn monotonic_pair_matches_elapsed_rate_formula() {
    for (io0, cpu0, io_delta, cpu_delta, elapsed_ms, hz) in [
        (0, 0, 1, 0, 1, 1.0),
        (999_999, 999_999, 99_999, 99_999, 59_999, 9_999.5),
        (5, 7, 1_000, 50, 500, 100.0),
        (10, 20, 3, 99, 33, 250.0),
    ] {
        let mut metrics = RollingMetrics::new();
        push(&mut metrics, millis(0), io0, cpu0, hz);
        push(
            &mut metrics,
            millis(elapsed_ms),
            io0 + io_delta,
            cpu0 + cpu_delta,
            hz,
        );
        let wall_ns = elapsed_ms * 1_000_000;
        let expected_iops = (u128::from(io_delta) * 1_000_000_000 / u128::from(wall_ns)) as u64;
        assert_eq!(
            metrics.iops_over(Duration::from_secs(60)),
            Some(expected_iops)
        );
        let cpu_ns = (cpu_delta as f64 * 1_000_000_000.0 / hz) as u64;
        assert_eq!(
            metrics.cpu_us_per_io_over(Duration::from_secs(60)),
            Some(cpu_ns / io_delta / 1_000)
        );
    }
}

#[test]
fn exact_rates_over_one_interval() {
    let mut metrics = RollingMetrics::new();
    push(&mut metrics, millis(0), 100, 10, 100.0);
    push(&mut metrics, millis(2_000), 1_100, 60, 100.0);
    // 1000 operations in two seconds; fifty ticks of ten milliseconds.
    assert_eq!(metrics.iops_over(Duration::from_secs(60)), Some(500));
    assert_eq!(metrics.last_delta(), Some((1_000, 500_000_000)));
    assert_eq!(
        metrics.cpu_us_per_io_over(Duration::from_secs(60)),
        Some(500)
    );
}

#[test]
fn time_that_runs_backwards_replaces_the_baseline() {
    let mut metrics = RollingMetrics::new();
    push(&mut metrics, millis(1_000), 100, 10, 100.0);
    push(&mut metrics, millis(500), 200, 20, 100.0);
    assert!(metrics.is_empty());
    push(&mut metrics, millis(1_500), 300, 30, 100.0);
    assert_eq!(metrics.last_delta(), Some((100, 100_000_000)));
}

#[test]
fn backend_util_derives_cpu_time_from_elapsed_time_and_workers() {
    let mut metrics = RollingMetrics::new();
    metrics.push_from_backend_util(millis(0), 10, double(0.5), 4, busy_ns);
    assert!(metrics.is_empty());
    metrics.push_from_backend_util(millis(1_000), 30, double(0.5), 4, busy_ns);
    assert_eq!(metrics.last_delta(), Some((20, 2_000_000_000)));
    // More than all of a worker counts as all of it, less than nothing as nothing.
    metrics.push_from_backend_util(millis(2_000), 30, double(7.0), 2, busy_ns);
    assert_eq!(metrics.last_delta(), Some((0, 2_000_000_000)));
    metrics.push_from_backend_util(millis(3_000), 31, double(-1.0), 2, busy_ns);
    assert_eq!(metrics.last_delta(), Some((1, 0)));
    // A counter reset keeps the samples.
    metrics.push_from_backend_util(millis(4_000), 5, double(0.5), 2, busy_ns);
    assert_eq!(metrics.len(), 3);
}

#[test]
fn plain_deltas_are_recorded_as_given() {
    let mut metrics = RollingMetrics::new();
    metrics.push_delta(millis(0), 1, 2);
    assert!(metrics.is_empty());
    assert_eq!(metrics.last_delta(), None);
    metrics.push_delta(millis(1_000), 3, 4);
    assert_eq!(metrics.last_delta(), Some((3, 4)));
    metrics.push_delta(millis(500), 5, 6);
    assert_eq!(metrics.len(), 1);
    assert!(!metrics.is_empty());
}

#[test]
fn history_is_bounded_by_the_longest_window() {
    let mut metrics = RollingMetrics::new();
    for minute in 0..40u64 {
        metrics.push_delta(millis(minute * 60_000), 60, 0);
    }
    // The newest, and those up to fifteen minutes before it.
    assert_eq!(metrics.len(), 16);
    assert_eq!(metrics.iops_over(Duration::from_secs(900)), Some(1));
    assert_eq!(metrics.last_delta(), Some((60, 0)));
}

#[test]
fn windows_count_only_recent_samples() {
    let mut metrics = RollingMetrics::new();
    metrics.push_delta(millis(0), 0, 0);
    metrics.push_delta(millis(60_000), 600, 0);
    metrics.push_delta(millis(180_000), 0, 0);
    assert_eq!(metrics.iops_over(Duration::from_secs(60)), Some(0));
    assert_eq!(metrics.iops_over(Duration::from_secs(300)), Some(3));
    assert_eq!(metrics.cpu_us_per_io_over(Duration::from_secs(60)), None);
}

#[test]
fn cells_render_numbers_and_dashes() {
    assert_eq!(format_cells([None, Some(0), Some(1_234)]), "-/0/1234");
    assert_eq!(
        format_cells([Some(u64::MAX), None, Some(10)]),
        "18446744073709551615/-/10"
    );
    let mut metrics = RollingMetrics::new();
    let text = format_1_5_15(&metrics, |m: &RollingMetrics, w: Duration| m.iops_over(w));
    assert_eq!(text, "-/-/-");
    metrics.push_delta(millis(0), 0, 0);
    metrics.push_delta(millis(1_000), 7, 0);
    let text = format_1_5_15(&metrics, |m: &RollingMetrics, w: Duration| m.iops_over(w));
    assert_eq!(text, "7/7/7");
    assert_eq!(
        windows().map(|w| w.nanos),
        [60_000_000_000, 300_000_000_000, 900_000_000_000]
    );
}
