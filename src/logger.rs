use vstd::prelude::*;

verus! {

/// The severity of a log entry.
#[derive(Clone, Copy, PartialEq, Eq, Debug)]
pub enum Level {
    Info,
    Warning,
    Error,
    Debug,
}

/// Logging configuration: debug entries are shown only when verbose.
#[derive(Clone, Copy, Debug)]
pub struct Logger {
    pub verbose: bool,
}

/// The logging configuration for a run, verbose or not.
pub fn init_verbose(enabled: bool) -> (r: Logger)
    ensures
        r.verbose == enabled,
{
    Logger { verbose: enabled }
}

impl Logger {
    /// Whether an entry of `level` is shown: all are, but debug entries only
    /// when verbose.
    pub fn emits(&self, level: Level) -> (r: bool)
        ensures
            r == (level != Level::Debug || self.verbose),
    {
        match level {
            Level::Debug => self.verbose,
            _ => true,
        }
    }

    /// The label an entry of `level` is printed under.
    pub fn label(level: Level) -> (r: &'static str)
        ensures
            level == Level::Info ==> r@ == "INFO"@,
            level == Level::Warning ==> r@ == "WARNING"@,
            level == Level::Error ==> r@ == "ERROR"@,
            level == Level::Debug ==> r@ == "DEBUG"@,
    {
        match level {
            Level::Info => "INFO",
            Level::Warning => "WARNING",
            Level::Error => "ERROR",
            Level::Debug => "DEBUG",
        }
    }
}

} // verus!
