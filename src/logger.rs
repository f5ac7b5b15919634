//! Log levels and the shape of a log line.
use vstd::prelude::*;
use vstd::string::StringExecFns;

verus! {

/// How serious a logged message is.
#[derive(Clone, Copy, PartialEq, Eq, Debug)]
pub enum LogLevel {
    Debug,
    Warning,
    Error,
    Fatal,
}

impl LogLevel {
    /// The level's name as it appears in a log line.
    pub open spec fn name(&self) -> &'static str {
        match self {
            LogLevel::Debug => "Debug",
            LogLevel::Warning => "Warning",
            LogLevel::Error => "Error",
            LogLevel::Fatal => "Fatal",
        }
    }

    /// The level's name as it appears in a log line.
    pub fn as_str(&self) -> (r: &'static str)
        ensures
            r@ == self.name()@,
    {
        match self {
            LogLevel::Debug => "Debug",
            LogLevel::Warning => "Warning",
            LogLevel::Error => "Error",
            LogLevel::Fatal => "Fatal",
        }
    }
}

/// A log line: `[level][timestamp] message` and a line break.
pub open spec fn log_line_of(level: LogLevel, timestamp: Seq<char>, message: Seq<char>) -> Seq<char> {
    seq!['['] + level.name()@ + seq![']', '['] + timestamp + seq![']', ' '] + message + seq!['\n']
}

/// Builds the log line for `message` at `level`, stamped with `timestamp`.
pub fn format_log_line(level: LogLevel, timestamp: &str, message: &str) -> (r: String)
    ensures
        r@ == log_line_of(level, timestamp@, message@),
{
    let mut out = String::new();
    out.append("[");
    out.append(level.as_str());
    out.append("][");
    out.append(timestamp);
    out.append("] ");
    out.append(message);
    out.append("\n");
    proof {
        reveal_strlit("[");
        reveal_strlit("][");
        reveal_strlit("] ");
        reveal_strlit("\n");
        assert(out@ =~= log_line_of(level, timestamp@, message@));
    }
    out
}

} // verus!
