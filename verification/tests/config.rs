use io_thread_controller::config::{
    default_cooldown_secs, default_host_cpu_scale_up_ceiling, default_max_thread_count,
    default_min_thread_count, default_true, validate_config, Config, ConfigError,
};
use io_thread_controller::double::Double;

fn double(value: f64) -> Double {
    Double::from_bits(value.to_bits())
}

fn number(value: Double) -> f64 {
    f64::from_bits(value.to_bits())
}

#[test]
fn default_config_is_valid() {
    let cfg = Config::default();
    assert_eq!(cfg.engine, "threshold");
    assert!((number(cfg.scale_poll_secs) - 10.0).abs() < f64::EPSILON);
    validate_config(&cfg).unwrap();
}

#[test]
fn controller_policy_defaults_round_trip() {
    assert_eq!(default_min_thread_count(), 1);
    assert_eq!(default_max_thread_count(), 8);
    assert!((number(default_host_cpu_scale_up_ceiling()) - 0.9).abs() < f64::EPSILON);
    assert_eq!(number(default_cooldown_secs()), 30.0);
    assert!(default_true());

    // What a file leaves out is what a daemon without a file gets.
    let cfg = Config::default();
    assert_eq!(cfg.min_thread_count, default_min_thread_count());
    assert_eq!(cfg.max_thread_count, default_max_thread_count());
    assert_eq!(
        cfg.host_cpu_scale_up_ceiling,
        default_host_cpu_scale_up_ceiling()
    );
    assert_eq!(cfg.cooldown_secs, default_cooldown_secs());
    assert_eq!(cfg.enable_per_vm_status_line, default_true());
    assert_eq!(cfg.enable_aggregate_status_line, default_true());
}

#[test]
fn default_config_fields() {
    let cfg = Config::default();
    assert_eq!(cfg.engine_config_dir, "/etc/io-thread-controller.d/engines");
    assert_eq!(
        cfg.backend_config_dir,
        "/etc/io-thread-controller.d/backends"
    );
    assert_eq!(
        cfg.vm_state_path,
        "/run/io-thread-controller/vm-ownership.json"
    );
    assert_eq!(cfg.min_thread_count, 1);
    assert_eq!(cfg.max_thread_count, 8);
    assert_eq!(number(cfg.host_cpu_scale_up_ceiling), 0.9);
    assert_eq!(number(cfg.cooldown_secs), 30.0);
    assert!(cfg.enable_per_vm_status_line);
    assert!(cfg.enable_aggregate_status_line);
    assert!(!cfg.print_status_header);
    assert!(!cfg.dry_run);
}

fn complaint(change: fn(&mut Config)) -> Option<String> {
    let mut cfg = Config::default();
    change(&mut cfg);
    match validate_config(&cfg) {
        Ok(()) => None,
        Err(error) => {
            assert!(matches!(error, ConfigError::InvalidValue(_)));
            Some(error.message())
        }
    }
}

#[test]
fn invalid_values_are_named() {
    let poll = Some("invalid configuration value: scale_poll_secs must be > 0".to_string());
    assert_eq!(complaint(|c| c.scale_poll_secs = double(0.0)), poll);
    assert_eq!(complaint(|c| c.scale_poll_secs = double(-0.0)), poll);
    assert_eq!(complaint(|c| c.scale_poll_secs = double(-1.0)), poll);
    assert_eq!(complaint(|c| c.scale_poll_secs = double(f64::NAN)), poll);
    assert_eq!(
        complaint(|c| c.scale_poll_secs = double(f64::INFINITY)),
        poll
    );
    assert_eq!(complaint(|c| c.scale_poll_secs = double(5e-324)), None);

    assert_eq!(
        complaint(|c| c.engine = String::new()),
        Some("invalid configuration value: engine must be non-empty".to_string())
    );

    let bounds = Some(
        "invalid configuration value: thread-count bounds must satisfy 0 < min_thread_count <= max_thread_count"
            .to_string(),
    );
    assert_eq!(complaint(|c| c.min_thread_count = 0), bounds);
    assert_eq!(complaint(|c| c.min_thread_count = 9), bounds);
    assert_eq!(complaint(|c| c.min_thread_count = 8), None);

    let ceiling = Some(
        "invalid configuration value: host_cpu_scale_up_ceiling_percent must be in [0, 100]"
            .to_string(),
    );
    assert_eq!(
        complaint(|c| c.host_cpu_scale_up_ceiling = double(-0.1)),
        ceiling
    );
    assert_eq!(
        complaint(|c| c.host_cpu_scale_up_ceiling = double(1.0000001)),
        ceiling
    );
    assert_eq!(
        complaint(|c| c.host_cpu_scale_up_ceiling = double(f64::NAN)),
        ceiling
    );
    assert_eq!(
        complaint(|c| c.host_cpu_scale_up_ceiling = double(0.0)),
        None
    );
    assert_eq!(
        complaint(|c| c.host_cpu_scale_up_ceiling = double(-0.0)),
        None
    );
    assert_eq!(
        complaint(|c| c.host_cpu_scale_up_ceiling = double(1.0)),
        None
    );

    let cooldown = Some(
        "invalid configuration value: cooldown_secs must be finite and non-negative".to_string(),
    );
    assert_eq!(complaint(|c| c.cooldown_secs = double(-1e-9)), cooldown);
    assert_eq!(
        complaint(|c| c.cooldown_secs = double(f64::NEG_INFINITY)),
        cooldown
    );
    assert_eq!(complaint(|c| c.cooldown_secs = double(f64::NAN)), cooldown);
    assert_eq!(complaint(|c| c.cooldown_secs = double(0.0)), None);
}

#[test]
fn first_fault_is_reported() {
    assert_eq!(
        complaint(|c| {
            c.cooldown_secs = double(-1.0);
            c.engine = String::new();
        }),
        Some("invalid configuration value: engine must be non-empty".to_string())
    );
}

#[test]
fn load_errors_speak_for_themselves() {
    assert_eq!(ConfigError::Io("gone".to_string()).message(), "gone");
    assert_eq!(
        ConfigError::SerdeJson("unknown field".to_string()).message(),
        "unknown field"
    );
}

#[test]
fn double_comparisons_agree_with_floating_point() {
    let values = [
        0.0,
        -0.0,
        1.0,
        -1.0,
        0.5,
        0.9,
        5e-324,
        -5e-324,
        1e308,
        -1e308,
        f64::MIN_POSITIVE,
        f64::INFINITY,
        f64::NEG_INFINITY,
        f64::NAN,
    ];
    for a in values {
        assert_eq!(double(a).is_finite(), a.is_finite());
        assert_eq!(double(a).is_nan(), a.is_nan());
        let clamped = a.clamp(0.0, 1.0);
        assert_eq!(double(a).clamp_unit().to_bits(), clamped.to_bits());
        for b in values {
            assert_eq!(double(a).lt(double(b)), a < b, "{a} < {b}");
            assert_eq!(double(a).le(double(b)), a <= b, "{a} <= {b}");
        }
    }
    assert_eq!(number(Double::zero()), 0.0);
    assert_eq!(number(Double::one()), 1.0);
}
