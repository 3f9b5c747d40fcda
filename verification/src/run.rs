//! The start of a run: nothing is dispatched unless the directory that is to
//! receive the files exists.

use crate::config::{ConfigError, RunConfig};
use crate::report::{missing_directory_message, missing_directory_text};
use crate::scheduler::{Scheduler, SchedulerState};
use vstd::prelude::*;
use vstd::string::StringExecFns;

verus! {

/// Why a run does not start.
#[derive(Clone, Debug, PartialEq, Eq)]
pub enum RunError {
    /// The directory that is to receive the files does not exist.
    MissingDirectory { dir: String },
}

/// The words for settings that are refused.
pub open spec fn config_error_text(e: ConfigError) -> Seq<char> {
    match e {
        ConfigError::TranscodeWithoutDecompress => "comma-delimited output needs decompression"@,
        ConfigError::ZeroConcurrency => "concurrency must be at least 1"@,
    }
}

/// The words for settings that are refused.
pub fn config_error_message(e: ConfigError) -> (s: String)
    ensures
        s@ == config_error_text(e),
{
    match e {
        ConfigError::TranscodeWithoutDecompress => String::from_str(
            "comma-delimited output needs decompression",
        ),
        ConfigError::ZeroConcurrency => String::from_str("concurrency must be at least 1"),
    }
}

impl RunError {
    /// The words for this error.
    pub fn message(&self) -> (s: String)
        ensures
            s@ == match self {
                RunError::MissingDirectory { dir } => missing_directory_text(dir@),
            },
    {
        match self {
            RunError::MissingDirectory { dir } => missing_directory_message(dir.as_str()),
        }
    }
}

/// Starts a run of `total` keys into the directory `dir`. The caller says
/// whether the directory exists; where it does not, the run fails here, with
/// no scheduler and so with nothing dispatched.
pub fn begin(config: &RunConfig, dir: &str, dir_exists: bool, total: usize) -> (r: Result<
    Scheduler,
    RunError,
>)
    ensures
        match r {
            Ok(scheduler) => dir_exists && scheduler@ == SchedulerState::init(
                total as nat,
                config@.concurrency as nat,
                config@.throttle_ms as nat,
            ) && scheduler@.wf(),
            Err(RunError::MissingDirectory { dir: missing }) => !dir_exists && missing@ == dir@,
        },
{
    if !dir_exists {
        return Err(RunError::MissingDirectory { dir: String::from_str(dir) });
    }
    Ok(Scheduler::new(total, config))
}

} // verus!
