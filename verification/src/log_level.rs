//! How much the runtime logs.
use vstd::prelude::*;

verus! {

/// Log level of the runtime.
#[derive(Clone, Copy, Debug, PartialEq, Eq, Structural)]
pub enum LogLevel {
    /// Most verbose.
    Trace,
    Debug,
    Info,
    Warn,
    /// The default.
    Error,
    /// Least verbose.
    Fatal,
}

impl Default for LogLevel {
    fn default() -> (r: LogLevel)
        ensures
            r == LogLevel::Error,
    {
        LogLevel::Error
    }
}

#[verifier::external_type_specification]
#[verifier::external_body]
pub struct ExLevel(tracing::Level);

/// What `tracing::Level::as_str` says of a level.
pub uninterp spec fn level_text(level: tracing::Level) -> Seq<char>;

/// The constant `tracing::Level::TRACE`, of which `as_str` says "TRACE".
#[verifier::external_body]
fn level_trace() -> (r: tracing::Level)
    ensures
        level_text(r) == "TRACE"@,
{
    tracing::Level::TRACE
}

/// The constant `tracing::Level::DEBUG`, of which `as_str` says "DEBUG".
#[verifier::external_body]
fn level_debug() -> (r: tracing::Level)
    ensures
        level_text(r) == "DEBUG"@,
{
    tracing::Level::DEBUG
}

/// The constant `tracing::Level::INFO`, of which `as_str` says "INFO".
#[verifier::external_body]
fn level_info() -> (r: tracing::Level)
    ensures
        level_text(r) == "INFO"@,
{
    tracing::Level::INFO
}

/// The constant `tracing::Level::WARN`, of which `as_str` says "WARN".
#[verifier::external_body]
fn level_warn() -> (r: tracing::Level)
    ensures
        level_text(r) == "WARN"@,
{
    tracing::Level::WARN
}

/// The constant `tracing::Level::ERROR`, of which `as_str` says "ERROR".
#[verifier::external_body]
fn level_error() -> (r: tracing::Level)
    ensures
        level_text(r) == "ERROR"@,
{
    tracing::Level::ERROR
}

/// The text of the `tracing` level for a log level. There is none for `Fatal`:
/// it goes with `Error`.
pub open spec fn tracing_text(level: LogLevel) -> Seq<char> {
    match level {
        LogLevel::Trace => "TRACE"@,
        LogLevel::Debug => "DEBUG"@,
        LogLevel::Info => "INFO"@,
        LogLevel::Warn => "WARN"@,
        LogLevel::Error => "ERROR"@,
        LogLevel::Fatal => "ERROR"@,
    }
}

impl LogLevel {
    /// The `tracing` level for the log level.
    pub fn to_tracing_level(self) -> (r: tracing::Level)
        ensures
            level_text(r) == tracing_text(self),
    {
        match self {
            LogLevel::Trace => level_trace(),
            LogLevel::Debug => level_debug(),
            LogLevel::Info => level_info(),
            LogLevel::Warn => level_warn(),
            LogLevel::Error => level_error(),
            LogLevel::Fatal => level_error(),
        }
    }
}

/// Only `Error` and `Fatal` share a `tracing` level.
pub proof fn tracing_levels_differ(a: LogLevel, b: LogLevel)
    requires
        a != b,
    ensures
        tracing_text(a) == tracing_text(b) <==> (a == LogLevel::Error || a == LogLevel::Fatal) && (b
            == LogLevel::Error || b == LogLevel::Fatal),
{
    reveal_strlit("TRACE");
    reveal_strlit("DEBUG");
    reveal_strlit("INFO");
    reveal_strlit("WARN");
    reveal_strlit("ERROR");
    assert("TRACE"@[0] != "DEBUG"@[0]);
    assert("TRACE"@[0] != "ERROR"@[0]);
    assert("DEBUG"@[0] != "ERROR"@[0]);
    assert("INFO"@[0] != "WARN"@[0]);
}

/// Each log level goes with the `tracing` level of its name, and `Fatal` with that for
/// errors.
pub proof fn levels_go_by_name()
    ensures
        tracing_text(LogLevel::Trace) == "TRACE"@,
        tracing_text(LogLevel::Debug) == "DEBUG"@,
        tracing_text(LogLevel::Info) == "INFO"@,
        tracing_text(LogLevel::Warn) == "WARN"@,
        tracing_text(LogLevel::Error) == "ERROR"@,
        tracing_text(LogLevel::Fatal) == tracing_text(LogLevel::Error),
{
}

}
