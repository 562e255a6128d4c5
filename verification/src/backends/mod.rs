//! Fleet adapters.
use vstd::prelude::*;

use crate::config::ConfigError;

pub mod fake;

verus! {

/// Why a backend refused.
#[derive(Debug)]
pub enum BackendClientError {
    /// The backend could not be reached.
    Transport(String),
    /// The backend is not in a state to answer.
    InvalidState(String),
    /// The backend's configuration cannot be used.
    Config(ConfigError),
    /// A file could not be read or written.
    Io(String),
    /// A file does not hold what it should.
    Json(String),
}

impl BackendClientError {
    /// What the error says.
    pub open spec fn text(self) -> Seq<char> {
        match self {
            BackendClientError::Transport(what) => what@,
            BackendClientError::InvalidState(what) => what@,
            BackendClientError::Config(error) => error.text(),
            BackendClientError::Io(what) => what@,
            BackendClientError::Json(what) => what@,
        }
    }

    /// Render the error for people.
    pub fn message(&self) -> (m: String)
        ensures
            m@ == self.text(),
    {
        match self {
            BackendClientError::Transport(what) => what.clone(),
            BackendClientError::InvalidState(what) => what.clone(),
            BackendClientError::Config(error) => error.message(),
            BackendClientError::Io(what) => what.clone(),
            BackendClientError::Json(what) => what.clone(),
        }
    }
}

/// Tunables of an IOThread, nothing where the default holds.
#[derive(Debug, Clone, Copy, PartialEq, Eq, Structural)]
pub struct IoThreadProperties {
    /// Longest busy-polling time in nanoseconds.
    pub poll_max_ns: Option<i64>,
}

} // verus!
