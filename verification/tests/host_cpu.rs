use io_thread_controller::double::Double;
use io_thread_controller::host_cpu::{CpuTimes, HostCpuMonitor, HostCpuSample};

fn ratio(busy: u64, total: u64) -> Double {
    Double::from_bits((busy as f64 / total as f64).to_bits())
}

fn number(value: Double) -> f64 {
    f64::from_bits(value.to_bits())
}

fn sample(busy_ticks: u64, total_ticks: u64) -> HostCpuSample {
    HostCpuSample {
        busy_ticks,
        total_ticks,
    }
}

#[test]
fn counters_are_summed_up() {
    let times = CpuTimes {
        user: 1,
        nice: 2,
        system: 4,
        idle: 8,
        iowait: Some(16),
        irq: Some(32),
        softirq: Some(64),
        steal: Some(128),
        guest: Some(256),
        guest_nice: Some(512),
    };
    assert_eq!(HostCpuSample::from_times(times), sample(1023 - 24, 1023));
    let sparse = CpuTimes {
        iowait: None,
        irq: None,
        softirq: None,
        steal: None,
        guest: None,
        guest_nice: None,
        ..times
    };
    assert_eq!(HostCpuSample::from_times(sparse), sample(7, 15));
    let huge = CpuTimes {
        user: u64::MAX,
        ..times
    };
    assert_eq!(
        HostCpuSample::from_times(huge),
        sample(u64::MAX - 24, u64::MAX)
    );
}

#[test]
fn utilisation_is_the_busy_fraction() {
    assert_eq!(
        number(sample(30, 200).utilisation_since(sample(10, 100), ratio)),
        0.2
    );
    assert_eq!(
        number(sample(30, 100).utilisation_since(sample(10, 100), ratio)),
        0.0
    );
    // Counters that went backwards count as standing still.
    assert_eq!(
        number(sample(5, 300).utilisation_since(sample(10, 100), ratio)),
        0.0
    );
    // More busy ticks than ticks count as all of them.
    assert_eq!(
        number(sample(300, 150).utilisation_since(sample(0, 100), ratio)),
        1.0
    );
}

#[test]
fn monitor_needs_two_samples_and_keeps_its_value() {
    let mut monitor = HostCpuMonitor::new();
    assert_eq!(number(monitor.sample(Some(sample(10, 100)), ratio)), 0.0);
    assert_eq!(number(monitor.sample(Some(sample(60, 200)), ratio)), 0.5);
    assert_eq!(number(monitor.sample(None, ratio)), 0.5);
    assert_eq!(monitor.last, Some(sample(60, 200)));
    assert_eq!(number(monitor.sample(Some(sample(60, 300)), ratio)), 0.0);
}
