use io_thread_controller::clock::Instant;
use io_thread_controller::config::Config;
use io_thread_controller::instance::{CpuStats, Instance, InstanceRates};
use io_thread_controller::status::{emit_instance_status, emit_legend, emit_status_lines};

fn at(secs: u64) -> Instant {
    Instant::from_nanos(u128::from(secs) * 1_000_000_000)
}

fn fleet() -> Vec<Instance> {
    let mut b = Instance::new("vm-b".to_string(), 0);
    b.status.thread_count = 3;
    b.status.rates = InstanceRates {
        read_iops: 10,
        write_iops: 20,
        other_iops: 0,
        read_bytes_per_second: 2_999_999,
        write_bytes_per_second: 999_999,
    };
    b.status.cpu = CpuStats {
        avg_pct: 40,
        median_pct: 35,
        total_pct: 120,
    };
    b.status.rolling.push_delta(at(0), 0, 0);
    b.status.rolling.push_delta(at(10), 500, 1_000_000);
    let mut a = Instance::new("vm-a \t".to_string(), 0);
    a.status.thread_count = 2;
    a.status.rolling.push_delta(at(0), 0, 0);
    a.status.rolling.push_delta(at(10), 70, 0);
    let c = Instance::new("vm".to_string(), 0);
    vec![b, a, c]
}

#[test]
fn lines_stand_in_the_order_of_names() {
    let report = emit_status_lines(&Config::default(), &fleet());
    let names: Vec<&str> = report.lines.iter().map(|l| l.vm.as_str()).collect();
    assert_eq!(names, vec!["vm", "vm-a", "vm-b"]);
}

#[test]
fn line_shows_one_vm() {
    let report = emit_status_lines(&Config::default(), &fleet());
    let line = &report.lines[2];
    assert_eq!(line.thr, 3);
    assert_eq!(line.iops, "10/20/0");
    assert_eq!(line.iops_1_5_15m, "50/50/50");
    assert_eq!(line.bw_mb_s, "2/0");
    assert_eq!(line.cpu, "40/35/120");
    assert_eq!(line.cpu_us_per_io_1_5_15m, "2/2/2");
    assert_eq!(report.lines[0].iops_1_5_15m, "-/-/-");
    assert_eq!(report.lines[0].cpu_us_per_io_1_5_15m, "-/-/-");
}

#[test]
fn line_shows_the_rates_it_is_given() {
    let line = emit_instance_status(&fleet()[0], [Some(1), None, Some(3)]);
    assert_eq!(line.iops_1_5_15m, "1/-/3");
    assert_eq!(line.cpu_us_per_io_1_5_15m, "2/2/2");
}

#[test]
fn aggregate_adds_up_the_fleet() {
    let report = emit_status_lines(&Config::default(), &fleet());
    let line = report.aggregate.unwrap();
    assert_eq!(line.tracked_vms, 3);
    assert_eq!(line.total_threads, 5);
    assert_eq!(line.iops_1_5_15m, "57/57/57");
    let empty = emit_status_lines(&Config::default(), &Vec::new());
    assert_eq!(empty.aggregate.unwrap().iops_1_5_15m, "-/-/-");
}

#[test]
fn aggregate_rate_is_capped() {
    let mut fleet = Vec::new();
    for id in ["a", "b"] {
        let mut vm = Instance::new(id.to_string(), 0);
        vm.status.rolling.push_delta(at(0), 0, 0);
        vm.status.rolling.push_delta(at(1), u64::MAX, 0);
        fleet.push(vm);
    }
    let report = emit_status_lines(&Config::default(), &fleet);
    assert_eq!(
        report.aggregate.unwrap().iops_1_5_15m,
        "18446744073709551615/18446744073709551615/18446744073709551615"
    );
}

#[test]
fn lines_can_be_switched_off() {
    let mut cfg = Config::default();
    cfg.enable_per_vm_status_line = false;
    let report = emit_status_lines(&cfg, &fleet());
    assert!(report.lines.is_empty());
    assert!(report.aggregate.is_some());
    cfg.enable_aggregate_status_line = false;
    assert!(emit_status_lines(&cfg, &fleet()).aggregate.is_none());
}

#[test]
fn legend_names_the_fields() {
    let (line, aggregate) = emit_legend();
    assert_eq!(
        line,
        "# vm=<id> thr=<threads> iops=<read>/<write>/<other> \
         iops_1_5_15m=<1m>/<5m>/<15m> bw_mb_s=<read>/<write> \
         cpu=<average>/<median>/<total> cpu_us_per_io_1_5_15m=<1m>/<5m>/<15m>"
    );
    assert_eq!(
        aggregate,
        "# aggregate tracked=<instances> total_threads=<threads> \
         iops_1_5_15m=<1m>/<5m>/<15m>"
    );
}
