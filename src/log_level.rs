//! The process-wide diagnostic level that the host selects by name.
use vstd::prelude::*;

use crate::text::same_text;

verus! {

/// A diagnostic verbosity of the engine.
#[derive(Clone, Copy, Debug, PartialEq, Eq, Structural)]
pub enum LogLevel {
    Off,
    Error,
    Warn,
    Info,
    Debug,
    Trace,
}

/// The lower-case form of `s`, as std's `str::to_lowercase` computes it.
pub uninterp spec fn lowercase_of(s: Seq<char>) -> Seq<char>;

/// Relies on str::to_lowercase: the lower-case form depends on the
/// characters alone.
#[verifier::external_body]
fn to_lowercase(s: &str) -> (r: String)
    ensures
        r@ == lowercase_of(s@),
{
    s.to_lowercase()
}

/// The level that an already lower-cased name selects, if any.
pub open spec fn level_named(name: Seq<char>) -> Option<LogLevel> {
    if name == "error"@ {
        Some(LogLevel::Error)
    } else if name == "warn"@ {
        Some(LogLevel::Warn)
    } else if name == "info"@ {
        Some(LogLevel::Info)
    } else if name == "debug"@ {
        Some(LogLevel::Debug)
    } else if name == "trace"@ {
        Some(LogLevel::Trace)
    } else if name == "off"@ {
        Some(LogLevel::Off)
    } else {
        None
    }
}

/// The level that `name` selects, ignoring case.
pub open spec fn level_for(name: Seq<char>) -> Option<LogLevel> {
    level_named(lowercase_of(name))
}

/// The level that a lower-cased name selects, if any.
pub fn log_level_named(name: &str) -> (r: Option<LogLevel>)
    ensures
        r == level_named(name@),
{
    if same_text(name, "error") {
        Some(LogLevel::Error)
    } else if same_text(name, "warn") {
        Some(LogLevel::Warn)
    } else if same_text(name, "info") {
        Some(LogLevel::Info)
    } else if same_text(name, "debug") {
        Some(LogLevel::Debug)
    } else if same_text(name, "trace") {
        Some(LogLevel::Trace)
    } else if same_text(name, "off") {
        Some(LogLevel::Off)
    } else {
        None
    }
}

/// The level that `name` selects, in any mix of cases: one of `error`,
/// `warn`, `info`, `debug`, `trace` and `off`.
pub fn log_level_from_name(name: &str) -> (r: Option<LogLevel>)
    ensures
        r == level_for(name@),
{
    let lower = to_lowercase(name);
    log_level_named(lower.as_str())
}

/// The current diagnostic level, changed only by a recognised name.
pub struct LogControl {
    pub level: LogLevel,
}

impl LogControl {
    /// Control that starts at `level`.
    pub fn new(level: LogLevel) -> (r: LogControl)
        ensures
            r.level == level,
    {
        LogControl { level }
    }

    /// Selects the level that `name` names and returns it, for the engine to
    /// apply. An unrecognised name is no failure: it leaves the level as it
    /// was and returns `None`.
    pub fn set_log_level(&mut self, name: &str) -> (r: Option<LogLevel>)
        ensures
            r == level_for(name@),
            r matches Some(l) ==> final(self).level == l,
            level_for(name@) is None ==> final(self).level == old(self).level,
    {
        let r = log_level_from_name(name);
        if let Some(l) = r {
            self.level = l;
        }
        r
    }
}

} // verus!
