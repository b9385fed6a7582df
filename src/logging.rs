use vstd::prelude::*;

verus! {

/// Verbosity levels of the service's log.
#[derive(Debug, Clone, Copy, PartialEq, Eq)]
pub enum LogLevel {
    Error,
    Warn,
    Info,
    Debug,
    Trace,
}

/// Verbosity levels of the HTTP layer's log.
#[derive(Debug, Clone, Copy, PartialEq, Eq)]
pub enum ServerLogLevel {
    Critical,
    Normal,
    Debug,
}

/// The log level for a count of `-v` flags: none is info, one is debug, more
/// is trace.
pub fn log_level(i: u64) -> (l: LogLevel)
    ensures
        i == 0 ==> l is Info,
        i == 1 ==> l is Debug,
        i >= 2 ==> l is Trace,
{
    match i {
        0 => LogLevel::Info,
        1 => LogLevel::Debug,
        _ => LogLevel::Trace,
    }
}

/// The HTTP layer's level that matches a service log level.
pub fn translate_level(tl: LogLevel) -> (l: ServerLogLevel)
    ensures
        (tl is Debug || tl is Trace) ==> l is Debug,
        (tl is Info || tl is Warn) ==> l is Normal,
        tl is Error ==> l is Critical,
{
    match tl {
        LogLevel::Debug | LogLevel::Trace => ServerLogLevel::Debug,
        LogLevel::Info | LogLevel::Warn => ServerLogLevel::Normal,
        LogLevel::Error => ServerLogLevel::Critical,
    }
}

} // verus!
