//! The unified log-query model every backend adapter works against: one
//! query shape, one normalized entry shape, one error taxonomy.

use vstd::prelude::*;
use vstd::string::StringExecFns;
use crate::level::Level;

verus! {

/// A backend-independent log query.
#[derive(Clone, Debug)]
pub struct LogQuery {
    pub query: String,
    pub max_results: usize,
    pub start_time: Option<String>,
    pub end_time: Option<String>,
    pub level: Option<String>,
    pub service: Option<String>,
    pub index_pattern: Option<String>,
}

/// One normalized log entry. The level is one of the six normalized levels
/// by construction, whatever the backend's native representation was.
#[derive(Clone, Debug)]
pub struct LogEntry {
    pub timestamp: String,
    pub level: Level,
    pub message: String,
    pub service: Option<String>,
    pub trace_id: Option<String>,
    pub labels: Vec<(String, String)>,
}

/// The adapter error taxonomy: transport failures, non-success statuses with
/// their body, and undecodable responses. Adapters never retry.
#[derive(Clone, Debug)]
pub enum BackendError {
    Transport(String),
    Status { code: u16, body: String },
    Decode(String),
}

impl BackendError {
    /// A short human-readable description of the error.
    pub fn describe(&self) -> String {
        match self {
            BackendError::Transport(m) => {
                let mut s = String::new();
                s.append("transport error: ");
                s.append(m.as_str());
                s
            },
            BackendError::Status { code: _, body } => {
                let mut s = String::new();
                s.append("backend returned an error status: ");
                s.append(body.as_str());
                s
            },
            BackendError::Decode(m) => {
                let mut s = String::new();
                s.append("undecodable backend response: ");
                s.append(m.as_str());
                s
            },
        }
    }
}

/// The views of an optional string.
pub open spec fn view_opt(o: Option<String>) -> Option<Seq<char>> {
    match o {
        Some(s) => Some(s@),
        None => None,
    }
}

/// The view of an optional string, with `None` read as empty.
pub open spec fn spec_or_empty(o: Option<String>) -> Seq<char> {
    match o {
        Some(s) => s@,
        None => Seq::empty(),
    }
}

/// The ceiling every query's `max_results` is clamped into before it reaches
/// a backend.
pub const MAX_RESULTS_CAP: usize = 200;

/// What clamping `max_results` yields: always within 1..=200.
pub open spec fn spec_clamp_max_results(n: int) -> int {
    if n < 1 {
        1
    } else if n > 200 {
        200
    } else {
        n
    }
}

/// Clamps a requested result count into the 1..=200 window.
pub fn clamp_max_results(n: usize) -> (r: usize)
    ensures
        r as int == spec_clamp_max_results(n as int),
        1 <= r <= 200,
{
    if n < 1 {
        1
    } else if n > MAX_RESULTS_CAP {
        MAX_RESULTS_CAP
    } else {
        n
    }
}

/// The level a probed free-text level field normalizes to, a missing field
/// defaulting to `Info`.
pub open spec fn spec_level_of(o: Option<String>) -> Level {
    match o {
        Some(s) => crate::level::spec_normalize(s@),
        None => Level::Info,
    }
}

/// Normalizes a probed level field, a missing field defaulting to `Info`.
pub fn level_of(o: &Option<String>) -> (r: Level)
    ensures
        r == spec_level_of(*o),
{
    match o {
        Some(s) => crate::level::normalize_level(s.as_str()),
        None => Level::Info,
    }
}

} // verus!
