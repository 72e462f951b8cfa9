//! The log level named on the command line.
use vstd::prelude::*;
use crate::text::{lowercase, same_text, to_lowercase};

verus! {

/// How much is logged, from least to most.
#[derive(Clone, Copy, Debug, PartialEq, Eq, Structural)]
pub enum LogLevel {
    Error,
    Warn,
    Info,
    Debug,
    Trace,
}

/// Declares `anyhow::Error`, the error type of the start-up code, so that a
/// result may carry it. Nothing is claimed of its values.
#[verifier::external_type_specification]
#[verifier::external_body]
pub struct ExAnyhowError(anyhow::Error);

/// The level that a lower-case name stands for; any other text stands for
/// `Info`.
pub open spec fn level_named(name: Seq<char>) -> LogLevel {
    if name == "error"@ {
        LogLevel::Error
    } else if name == "warn"@ {
        LogLevel::Warn
    } else if name == "info"@ {
        LogLevel::Info
    } else if name == "debug"@ {
        LogLevel::Debug
    } else if name == "trace"@ {
        LogLevel::Trace
    } else {
        LogLevel::Info
    }
}

/// The level that a lower-case name stands for.
pub fn level_from_name(name: &str) -> (r: LogLevel)
    ensures
        r == level_named(name@),
{
    if same_text(name, "error") {
        LogLevel::Error
    } else if same_text(name, "warn") {
        LogLevel::Warn
    } else if same_text(name, "info") {
        LogLevel::Info
    } else if same_text(name, "debug") {
        LogLevel::Debug
    } else if same_text(name, "trace") {
        LogLevel::Trace
    } else {
        LogLevel::Info
    }
}

/// The level that `log_level` names, in any mix of upper and lower case. It
/// never fails: an unknown name gives `Info`.
pub fn parse_log_level(log_level: &str) -> (r: Result<LogLevel, anyhow::Error>)
    ensures
        r is Ok,
        r->Ok_0 == level_named(lowercase(log_level@)),
{
    let lower = to_lowercase(log_level);
    Ok(level_from_name(lower.as_str()))
}

} // verus!
