//! The log of the daemon that the control panel starts, and how that daemon is
//! found and stopped.

use vstd::prelude::*;

verus! {

/// How long a log may grow before it is moved aside.
pub const MAX_DAEMON_LOG_BYTES: u64 = 8_388_608;

/// How often a daemon that was asked to stop is looked at before it is killed.
pub const STOP_POLLS: u32 = 12;

/// What stands at a path.
#[derive(Clone, Copy, PartialEq, Eq, Structural, Debug)]
pub enum LogEntry {
    Missing,
    /// A regular file of this length.
    Regular(u64),
    /// Something else: a link, a directory.
    Other,
}

/// Why a log cannot be opened.
#[derive(Clone, Copy, PartialEq, Eq, Structural, Debug)]
pub enum LogError {
    NotRegular,
    PreviousNotRegular,
}

impl LogError {
    /// The wording of the failure.
    pub fn message(self) -> (m: &'static str)
        ensures
            m@ == (match self {
                LogError::NotRegular => "daemon log path must be a regular file"@,
                LogError::PreviousNotRegular => "previous daemon log path must be a regular file"@,
            }),
    {
        match self {
            LogError::NotRegular => "daemon log path must be a regular file",
            LogError::PreviousNotRegular => "previous daemon log path must be a regular file",
        }
    }
}

/// What is done before the log is appended to.
#[derive(Clone, Copy, PartialEq, Eq, Structural, Debug)]
pub enum LogPlan {
    /// Nothing.
    Append,
    /// The log is moved aside; what was moved aside before is removed first.
    Rotate { remove_previous: bool },
}

/// Whether a log has to be moved aside: it is not empty and has reached its limit.
pub open spec fn full(current: LogEntry, max_bytes: u64) -> bool {
    current matches LogEntry::Regular(len) && len >= max_bytes && len > 0
}

/// Decides what is done before the log is appended to. Neither the log nor what
/// was moved aside before may be anything but a regular file.
pub fn plan_log_rotation(current: LogEntry, previous: LogEntry, max_bytes: u64) -> (r: Result<
    LogPlan,
    LogError,
>)
    ensures
        r == (if current == LogEntry::Other {
            Err::<LogPlan, LogError>(LogError::NotRegular)
        } else if !full(current, max_bytes) {
            Ok::<LogPlan, LogError>(LogPlan::Append)
        } else if previous == LogEntry::Other {
            Err::<LogPlan, LogError>(LogError::PreviousNotRegular)
        } else {
            Ok::<LogPlan, LogError>(
                LogPlan::Rotate { remove_previous: previous != LogEntry::Missing },
            )
        }),
{
    match current {
        LogEntry::Other => Err(LogError::NotRegular),
        LogEntry::Missing => Ok(LogPlan::Append),
        LogEntry::Regular(len) => {
            if len < max_bytes || len == 0 {
                return Ok(LogPlan::Append);
            }
            match previous {
                LogEntry::Other => Err(LogError::PreviousNotRegular),
                LogEntry::Missing => Ok(LogPlan::Rotate { remove_previous: false }),
                LogEntry::Regular(_) => Ok(LogPlan::Rotate { remove_previous: true }),
            }
        },
    }
}

/// Where the end of a log starts, and how long it is, when no more than some
/// bytes of it are wanted.
pub fn log_tail_window(length: u64, max_bytes: u64) -> (window: (u64, u64))
    ensures
        window.0 + window.1 == length,
        window.1 == (if length <= max_bytes {
            length
        } else {
            max_bytes
        }),
{
    let len: u64 = if length <= max_bytes {
        length
    } else {
        max_bytes
    };
    (length - len, len)
}

/// What is done with a daemon that was asked to stop.
#[derive(Clone, Copy, PartialEq, Eq, Structural, Debug)]
pub enum StopStep {
    /// It has stopped.
    Done,
    /// It is looked at again after a while.
    Wait,
    /// It is killed.
    Kill,
}

/// Decides what is done with a daemon that was looked at `polls` times before.
pub fn stop_step(polls: u32, exited: bool) -> (step: StopStep)
    ensures
        step == (if polls >= STOP_POLLS {
            StopStep::Kill
        } else if exited {
            StopStep::Done
        } else {
            StopStep::Wait
        }),
{
    if polls >= STOP_POLLS {
        StopStep::Kill
    } else if exited {
        StopStep::Done
    } else {
        StopStep::Wait
    }
}

/// Where the daemon's program is: where the environment says, beside the panel,
/// in the user's own programs, or wherever the system finds it. The candidates
/// are given only if they are files.
pub fn choose_binary(
    from_environment: Option<String>,
    beside: Option<String>,
    local: Option<String>,
) -> (path: String)
    ensures
        path@ == (match (from_environment, beside, local) {
            (Some(p), _, _) => p@,
            (None, Some(p), _) => p@,
            (None, None, Some(p)) => p@,
            (None, None, None) => "nexkvm"@,
        }),
{
    match from_environment {
        Some(p) => p,
        None => match beside {
            Some(p) => p,
            None => match local {
                Some(p) => p,
                None => "nexkvm".to_owned(),
            },
        },
    }
}

/// A log is full once it holds as many bytes as it may, and one without content never
/// is.
pub proof fn law_logs_are_full_at_their_limit(current: LogEntry, max_bytes: u64)
    ensures
        full(current, max_bytes) <==> current is Regular && current->0 > 0 && current->0
            >= max_bytes,
        !full(LogEntry::Regular(0), max_bytes),
        !full(LogEntry::Missing, max_bytes),
{
}

} // verus!
