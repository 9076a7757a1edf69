use vstd::prelude::*;

verus! {

/// Severity of a log line.
#[derive(Debug, Clone, Copy, PartialEq, Eq, Structural)]
pub enum LogLevel {
    Error,
    Warning,
    Info,
    Debug,
    /// Marks the path along which an error travelled.
    Trace,
}

impl LogLevel {
    /// The ASCII letter that stands for the level in a log line: E, W, I, D, T.
    pub fn code(&self) -> (c: u8)
        ensures
            c == match self {
                LogLevel::Error => 69u8,
                LogLevel::Warning => 87u8,
                LogLevel::Info => 73u8,
                LogLevel::Debug => 68u8,
                LogLevel::Trace => 84u8,
            },
    {
        match self {
            LogLevel::Error => 69u8,
            LogLevel::Warning => 87u8,
            LogLevel::Info => 73u8,
            LogLevel::Debug => 68u8,
            LogLevel::Trace => 84u8,
        }
    }
}

/// The hours, minutes and seconds of the time of day (UTC) that a log line
/// shows for `secs` seconds since the Unix epoch.
pub fn clock_fields(secs: u64) -> (r: (u64, u64, u64))
    ensures
        r.0 == (secs / 3600) % 24,
        r.1 == (secs / 60) % 60,
        r.2 == secs % 60,
        r.0 < 24 && r.1 < 60 && r.2 < 60,
{
    ((secs / 3600) % 24, (secs / 60) % 60, secs % 60)
}

} // verus!
