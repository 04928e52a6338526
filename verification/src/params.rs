//! Per-record settings: the byte budget, what to do when it is exceeded, and
//! the severities under which failures and overflows are counted.

use vstd::prelude::*;

verus! {

/// Severity attached to a counted event.
#[derive(Clone, Copy, Debug, PartialEq, Eq, Structural)]
pub enum Level {
    Trace,
    Debug,
    Info,
    Warn,
    Error,
}

/// What to do with a record whose encoding exceeds its byte budget.
#[derive(Clone, Copy, Debug, PartialEq, Eq, Structural)]
pub enum OnOverflow {
    /// Drop the record.
    Skip,
    /// Keep the record, with its payload cut short and marked.
    Truncate,
}

/// Settings that accompany one record.
#[derive(Clone, Copy, Debug)]
pub struct DumpParams {
    /// Byte budget for the encoded record.
    pub max_size: usize,
    /// Policy applied when the budget is exceeded.
    pub on_overflow: OnOverflow,
    /// Severity of a failed record; `None` keeps failures out of the report.
    pub on_failure_log: Option<Level>,
    /// Severity of an overflowing record; `None` keeps overflows out of the report.
    pub on_overflow_log: Option<Level>,
}

/// Byte budget of a record when nothing else is configured.
pub const DEFAULT_MAX_SIZE: usize = 65536;

impl Default for DumpParams {
    fn default() -> (params: Self)
        ensures
            params.max_size == DEFAULT_MAX_SIZE,
            params.on_overflow == OnOverflow::Skip,
            params.on_failure_log == Some(Level::Warn),
            params.on_overflow_log == Some(Level::Warn),
    {
        DumpParams {
            max_size: DEFAULT_MAX_SIZE,
            on_overflow: OnOverflow::Skip,
            on_failure_log: Some(Level::Warn),
            on_overflow_log: Some(Level::Warn),
        }
    }
}

} // verus!
