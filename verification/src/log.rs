//! Log level policy: which messages pass the configured threshold and
//! how a log line is laid out.
//!
//! Delivering lines to a sink is the surrounding application's
//! business; the decisions here are pure and verified.

use vstd::prelude::*;
use vstd::string::StringExecFns;

verus! {

/// The severity of a log message, most severe first.
#[derive(Debug, Clone, Copy, PartialEq, Eq, PartialOrd, Ord)]
pub enum LogLevel {
    /// A failure occurred and there is no recovering from it: the app
    /// closes or enters some error state right after.
    Critical,
    /// Something went wrong, but the error is not critical and the app
    /// can keep going.
    Warning,
    /// Information about the state of the app, when everything is
    /// going smoothly.
    Info,
    /// Additional detail for debugging work only.
    Debug,
}

/// Numeric severity rank: 0 is the most severe, and a message passes
/// a threshold when its rank does not exceed the threshold's.
pub open spec fn severity(level: LogLevel) -> nat {
    match level {
        LogLevel::Critical => 0,
        LogLevel::Warning => 1,
        LogLevel::Info => 2,
        LogLevel::Debug => 3,
    }
}

/// The display name of a level, as it appears at the front of a log
/// line.
pub open spec fn level_name(level: LogLevel) -> Seq<char> {
    match level {
        LogLevel::Critical => "CRITICAL"@,
        LogLevel::Warning => "WARNING"@,
        LogLevel::Info => "INFO"@,
        LogLevel::Debug => "DEBUG"@,
    }
}

impl LogLevel {
    /// The severity rank, as a runtime value.
    pub fn rank(&self) -> (r: u8)
        ensures
            r == severity(*self),
    {
        match *self {
            LogLevel::Critical => 0,
            LogLevel::Warning => 1,
            LogLevel::Info => 2,
            LogLevel::Debug => 3,
        }
    }

    /// The display name, as a runtime value.
    pub fn name(&self) -> (r: &'static str)
        ensures
            r@ == level_name(*self),
    {
        match *self {
            LogLevel::Critical => "CRITICAL",
            LogLevel::Warning => "WARNING",
            LogLevel::Info => "INFO",
            LogLevel::Debug => "DEBUG",
        }
    }

    /// Whether a message at this level passes a logger configured to
    /// let through everything up to `max_logged_level`.
    pub fn passes(&self, max_logged_level: LogLevel) -> (r: bool)
        ensures
            r == (severity(*self) <= severity(max_logged_level)),
    {
        self.rank() <= max_logged_level.rank()
    }
}

/// Lays out one log line: the level's display name, prefixed with a
/// hash mark, then the message, then a line break.
pub fn format_log_line(level: LogLevel, message: &str) -> (r: String)
    ensures
        r@ == "#"@ + level_name(level) + ": "@ + message@ + "\n"@,
{
    let mut line = String::new();
    line.append("#");
    line.append(level.name());
    line.append(": ");
    line.append(message);
    line.append("\n");
    proof {
        assert(line@ =~= "#"@ + level_name(level) + ": "@ + message@ + "\n"@);
    }
    line
}

} // verus!
