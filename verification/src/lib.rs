//! Decision core of an IO-thread controller, and of the mock filesystem that its
//! component tests run on.

pub mod backends;
pub mod clock;
pub mod config;
pub mod controller;
pub mod double;
pub mod engines;
pub mod host_cpu;
pub mod instance;
pub mod mockfs;
pub mod paths;
pub mod rolling;
pub mod rolling_laws;
pub mod snapshot;
pub mod state;
pub mod status;
pub mod text;
