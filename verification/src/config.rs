//! Configuration for the io-thread-controller daemon.
use vstd::prelude::*;

use crate::double::{lemma_unsigned_order, one_double, zero_double, Double};

verus! {

/// Why a configuration was refused.
#[derive(Debug)]
pub enum ConfigError {
    /// A value that the controller cannot work with.
    InvalidValue(String),
    /// The file could not be read.
    Io(String),
    /// The file does not hold a configuration.
    SerdeJson(String),
}

impl ConfigError {
    /// What the error says.
    pub open spec fn text(self) -> Seq<char> {
        match self {
            ConfigError::InvalidValue(what) => "invalid configuration value: "@ + what@,
            ConfigError::Io(what) => what@,
            ConfigError::SerdeJson(what) => what@,
        }
    }

    /// Render the error for people.
    pub fn message(&self) -> (m: String)
        ensures
            m@ == self.text(),
    {
        match self {
            ConfigError::InvalidValue(what) => "invalid configuration value: ".to_owned().concat(
                what.as_str(),
            ),
            ConfigError::Io(what) => what.clone(),
            ConfigError::SerdeJson(what) => what.clone(),
        }
    }
}

/// Tunable parameters for the controller.
#[derive(Debug, Clone)]
pub struct Config {
    /// Which registered scaling engine drives decisions.
    pub engine: String,
    /// Directory to look for `<engine>.json` engine-specific config files.
    pub engine_config_dir: String,
    /// Directory containing backend-owned configuration files.
    pub backend_config_dir: String,
    /// JSON file containing the managed and unmanaged VM lists.
    ///
    /// The default is below `/run`, so state survives daemon restarts but not a
    /// host reboot.
    pub vm_state_path: String,
    /// Lowest worker count accepted from a scaling engine.
    pub min_thread_count: u32,
    /// Highest worker count accepted from a scaling engine.
    pub max_thread_count: u32,
    /// Host CPU utilisation at or above which ordinary scale-up is blocked, as a
    /// fraction. Zero disables this guard.
    pub host_cpu_scale_up_ceiling: Double,
    /// Per-VM delay after ordinary successful scale actions, in seconds.
    pub cooldown_secs: Double,
    /// Poll cadence in seconds.
    pub scale_poll_secs: Double,
    /// Emit a status line per tracked instance on every tick.
    pub enable_per_vm_status_line: bool,
    /// Emit a single aggregate status line on every tick.
    pub enable_aggregate_status_line: bool,
    /// Emit a one-time legend for status-line fields at startup.
    pub print_status_header: bool,
    /// When true, log the scaling verdict but skip actuation.
    pub dry_run: bool,
}

/// Value of a switch that a configuration file leaves out.
pub fn default_true() -> (r: bool)
    ensures
        r,
{
    true
}

/// Value of `min_thread_count` that a configuration file leaves out.
pub fn default_min_thread_count() -> (r: u32)
    ensures
        r == 1,
{
    1
}

/// Value of `max_thread_count` that a configuration file leaves out.
pub fn default_max_thread_count() -> (r: u32)
    ensures
        r == 8,
{
    8
}

/// Nine tenths, the default ceiling.
pub open spec fn nine_tenths() -> Double {
    Double { bits: 0x3FEC_CCCC_CCCC_CCCD }
}

/// Thirty, the default cooldown.
pub open spec fn thirty() -> Double {
    Double { bits: 0x403E_0000_0000_0000 }
}

/// Ten, the default poll cadence.
pub open spec fn ten() -> Double {
    Double { bits: 0x4024_0000_0000_0000 }
}

/// Value of `host_cpu_scale_up_ceiling` that a configuration file leaves out.
pub fn default_host_cpu_scale_up_ceiling() -> (r: Double)
    ensures
        r == nine_tenths(),
{
    Double { bits: 0x3FEC_CCCC_CCCC_CCCD }
}

/// Value of `cooldown_secs` that a configuration file leaves out.
pub fn default_cooldown_secs() -> (r: Double)
    ensures
        r == thirty(),
{
    Double { bits: 0x403E_0000_0000_0000 }
}

impl Default for Config {
    /// The configuration of a daemon that was given none.
    fn default() -> (cfg: Config)
        ensures
            cfg.engine@ == "threshold"@,
            cfg.engine_config_dir@ == "/etc/io-thread-controller.d/engines"@,
            cfg.backend_config_dir@ == "/etc/io-thread-controller.d/backends"@,
            cfg.vm_state_path@ == "/run/io-thread-controller/vm-ownership.json"@,
            cfg.min_thread_count == 1,
            cfg.max_thread_count == 8,
            cfg.host_cpu_scale_up_ceiling == nine_tenths(),
            cfg.cooldown_secs == thirty(),
            cfg.scale_poll_secs == ten(),
            cfg.enable_per_vm_status_line,
            cfg.enable_aggregate_status_line,
            !cfg.print_status_header,
            !cfg.dry_run,
            cfg.coherent(),
    {
        proof {
            reveal_strlit("threshold");
            lemma_unsigned_order(zero_double(), ten());
            lemma_unsigned_order(zero_double(), thirty());
            lemma_unsigned_order(zero_double(), nine_tenths());
            lemma_unsigned_order(nine_tenths(), one_double());
        }
        Config {
            engine: "threshold".to_owned(),
            engine_config_dir: "/etc/io-thread-controller.d/engines".to_owned(),
            backend_config_dir: "/etc/io-thread-controller.d/backends".to_owned(),
            scale_poll_secs: Double { bits: 0x4024_0000_0000_0000 },
            min_thread_count: 1,
            max_thread_count: 8,
            host_cpu_scale_up_ceiling: Double { bits: 0x3FEC_CCCC_CCCC_CCCD },
            cooldown_secs: Double { bits: 0x403E_0000_0000_0000 },
            vm_state_path: "/run/io-thread-controller/vm-ownership.json".to_owned(),
            enable_per_vm_status_line: true,
            enable_aggregate_status_line: true,
            print_status_header: false,
            dry_run: false,
        }
    }
}

impl Config {
    /// The first thing wrong with the configuration, in the order in which the
    /// fields are looked at.
    pub open spec fn fault(self) -> Option<Seq<char>> {
        if !(self.scale_poll_secs.finite() && zero_double().below(self.scale_poll_secs)) {
            Some("scale_poll_secs must be > 0"@)
        } else if self.engine@.len() == 0 {
            Some("engine must be non-empty"@)
        } else if !(0 < self.min_thread_count <= self.max_thread_count) {
            Some(
                "thread-count bounds must satisfy 0 < min_thread_count <= max_thread_count"@,
            )
        } else if !(self.host_cpu_scale_up_ceiling.finite()
            && self.host_cpu_scale_up_ceiling.in_unit()) {
            Some("host_cpu_scale_up_ceiling_percent must be in [0, 100]"@)
        } else if !(self.cooldown_secs.finite() && zero_double().at_most(self.cooldown_secs)) {
            Some("cooldown_secs must be finite and non-negative"@)
        } else {
            None
        }
    }

    /// A configuration that the controller can work with.
    pub open spec fn coherent(self) -> bool {
        &&& self.scale_poll_secs.finite() && zero_double().below(self.scale_poll_secs)
        &&& self.engine@.len() > 0
        &&& 0 < self.min_thread_count <= self.max_thread_count
        &&& self.host_cpu_scale_up_ceiling.finite() && self.host_cpu_scale_up_ceiling.in_unit()
        &&& self.cooldown_secs.finite() && zero_double().at_most(self.cooldown_secs)
    }
}

/// Ensures configuration is internally coherent.
pub fn validate_config(cfg: &Config) -> (r: Result<(), ConfigError>)
    ensures
        r is Ok <==> cfg.coherent(),
        r is Ok <==> cfg.fault() is None,
        r matches Err(e) ==> e matches ConfigError::InvalidValue(what) && what@ == cfg.fault()->0,
{
    if !cfg.scale_poll_secs.is_finite() || cfg.scale_poll_secs.le(Double::zero()) {
        return Err(ConfigError::InvalidValue("scale_poll_secs must be > 0".to_owned()));
    }
    if cfg.engine.as_str().is_empty() {
        return Err(ConfigError::InvalidValue("engine must be non-empty".to_owned()));
    }
    if !(cfg.min_thread_count > 0 && cfg.min_thread_count <= cfg.max_thread_count) {
        return Err(
            ConfigError::InvalidValue(
                "thread-count bounds must satisfy 0 < min_thread_count <= max_thread_count".to_owned(),
            ),
        );
    }
    if !(cfg.host_cpu_scale_up_ceiling.is_finite() && Double::zero().le(
        cfg.host_cpu_scale_up_ceiling,
    ) && cfg.host_cpu_scale_up_ceiling.le(Double::one())) {
        return Err(
            ConfigError::InvalidValue(
                "host_cpu_scale_up_ceiling_percent must be in [0, 100]".to_owned(),
            ),
        );
    }
    if !(cfg.cooldown_secs.is_finite() && Double::zero().le(cfg.cooldown_secs)) {
        return Err(
            ConfigError::InvalidValue("cooldown_secs must be finite and non-negative".to_owned()),
        );
    }
    Ok(())
}

/// What is wrong with a configuration is the first of these that holds: the poll
/// cadence is not a finite number above zero; the engine has no name; the worker counts
/// do not run from at least one upward; the ceiling is not a number from zero to one;
/// the cooldown is not a finite number from zero on. Without any it is coherent.
pub proof fn law_first_fault_is_told(cfg: Config)
    ensures
        ({
            let poll = cfg.scale_poll_secs.finite() && cfg.scale_poll_secs.value() > 0;
            let engine = cfg.engine@.len() > 0;
            let bounds = 1 <= cfg.min_thread_count && cfg.min_thread_count <= cfg.max_thread_count;
            let ceiling = cfg.host_cpu_scale_up_ceiling.finite() && 0
                <= cfg.host_cpu_scale_up_ceiling.value() <= one_double().value();
            let cooldown = cfg.cooldown_secs.finite() && cfg.cooldown_secs.value() >= 0;
            &&& cfg.fault() is None <==> poll && engine && bounds && ceiling && cooldown
            &&& cfg.coherent() <==> cfg.fault() is None
            &&& !poll ==> cfg.fault() == Some("scale_poll_secs must be > 0"@)
            &&& poll && !engine ==> cfg.fault() == Some("engine must be non-empty"@)
            &&& poll && engine && !bounds ==> cfg.fault() == Some(
                "thread-count bounds must satisfy 0 < min_thread_count <= max_thread_count"@,
            )
            &&& poll && engine && bounds && !ceiling ==> cfg.fault() == Some(
                "host_cpu_scale_up_ceiling_percent must be in [0, 100]"@,
            )
            &&& poll && engine && bounds && ceiling && !cooldown ==> cfg.fault() == Some(
                "cooldown_secs must be finite and non-negative"@,
            )
        }),
{
    lemma_unsigned_order(zero_double(), one_double());
}

} // verus!
