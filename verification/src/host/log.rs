//! Logging from a sandbox.
//!
//! The library decides whether a message may be logged and what line is
//! written where; writing the line is left to the caller.

use vstd::prelude::*;
use vstd::string::*;
use crate::capability::{CapabilitySet, CapabilityType, CapabilityScope, CapabilityGrant};
use crate::host::{HostCallResult, check_capability, gated, failed_with, succeeded_empty};
use crate::text::join2;

verus! {

/// Longest message a sandbox may log, in bytes.
pub const MAX_LOG_MESSAGE_LENGTH: usize = 65536;

/// Severity of a log message, from least to most severe.
#[derive(Debug, Clone, Copy, PartialEq, Eq, PartialOrd, Ord, Hash, Structural)]
pub enum LogLevel {
    Trace,
    Debug,
    Info,
    Warn,
    Error,
}

/// The number of a level: 0 for Trace up to 4 for Error.
pub open spec fn level_code(l: LogLevel) -> u8 {
    match l {
        LogLevel::Trace => 0,
        LogLevel::Debug => 1,
        LogLevel::Info => 2,
        LogLevel::Warn => 3,
        LogLevel::Error => 4,
    }
}

/// The level with number `v`, if there is one.
pub open spec fn level_of_code(v: u8) -> Option<LogLevel> {
    if v == 0 { Some(LogLevel::Trace) }
    else if v == 1 { Some(LogLevel::Debug) }
    else if v == 2 { Some(LogLevel::Info) }
    else if v == 3 { Some(LogLevel::Warn) }
    else if v == 4 { Some(LogLevel::Error) }
    else { None }
}

/// The upper-case name of a level.
pub open spec fn level_name(l: LogLevel) -> Seq<char> {
    match l {
        LogLevel::Trace => "TRACE"@,
        LogLevel::Debug => "DEBUG"@,
        LogLevel::Info => "INFO"@,
        LogLevel::Warn => "WARN"@,
        LogLevel::Error => "ERROR"@,
    }
}

impl LogLevel {
    /// The level with number `value`: 0 Trace, 1 Debug, 2 Info, 3 Warn,
    /// 4 Error; no level for any other number.
    pub fn from_u8(value: u8) -> (r: Option<LogLevel>)
        ensures
            r == level_of_code(value),
    {
        match value {
            0 => Some(LogLevel::Trace),
            1 => Some(LogLevel::Debug),
            2 => Some(LogLevel::Info),
            3 => Some(LogLevel::Warn),
            4 => Some(LogLevel::Error),
            _ => None,
        }
    }

    /// The number of this level.
    pub fn code(&self) -> (r: u8)
        ensures
            r == level_code(*self),
    {
        match self {
            LogLevel::Trace => 0,
            LogLevel::Debug => 1,
            LogLevel::Info => 2,
            LogLevel::Warn => 3,
            LogLevel::Error => 4,
        }
    }

    /// The upper-case name of this level.
    pub fn as_str(&self) -> (r: &'static str)
        ensures
            r@ == level_name(*self),
    {
        match self {
            LogLevel::Trace => {
                proof { reveal_strlit("TRACE"); }
                "TRACE"
            },
            LogLevel::Debug => {
                proof { reveal_strlit("DEBUG"); }
                "DEBUG"
            },
            LogLevel::Info => {
                proof { reveal_strlit("INFO"); }
                "INFO"
            },
            LogLevel::Warn => {
                proof { reveal_strlit("WARN"); }
                "WARN"
            },
            LogLevel::Error => {
                proof { reveal_strlit("ERROR"); }
                "ERROR"
            },
        }
    }
}

/// Where a log line goes.
#[derive(Debug, Clone, Copy, PartialEq, Eq, Structural)]
pub enum LogStream {
    Stdout,
    Stderr,
}

/// A line to be written to a stream.
#[derive(Debug, Clone, PartialEq, Eq)]
pub struct LogLine {
    pub stream: LogStream,
    pub text: String,
}

/// Info and Warn go to standard output, the other levels to standard error.
pub open spec fn level_stream(l: LogLevel) -> LogStream {
    match l {
        LogLevel::Info | LogLevel::Warn => LogStream::Stdout,
        _ => LogStream::Stderr,
    }
}

/// The line written for `message` at level `l`: "[VUDO:LEVEL] message".
pub open spec fn log_line_text(l: LogLevel, message: Seq<char>) -> Seq<char> {
    "[VUDO:"@ + level_name(l) + "] "@ + message
}

/// What `host_log_line` may answer for a message of `byte_len` bytes
/// holding `text`.
pub open spec fn log_answer(caps: Seq<CapabilityGrant>, level: LogLevel, text: Seq<char>, byte_len: usize,
    out: (HostCallResult, Option<LogLine>)) -> bool {
    &&& gated(caps, CapabilityType::ActuatorLog, CapabilityScope::Global, out.0,
        (byte_len > MAX_LOG_MESSAGE_LENGTH ==> failed_with(out.0,
            "Log message exceeds maximum length of 65536 bytes"@) && out.1 is None)
        && (byte_len <= MAX_LOG_MESSAGE_LENGTH ==> succeeded_empty(out.0)
            && out.1 is Some && out.1->Some_0.stream == level_stream(level)
            && out.1->Some_0.text@ == log_line_text(level, text)))
    &&& !out.0.success ==> out.1 is None
}

/// Decides a log request of a sandbox.
///
/// Requires ActuatorLog at Global scope. A message longer than
/// `MAX_LOG_MESSAGE_LENGTH` bytes is refused. Otherwise the answer is a
/// success, together with the line to write and its stream.
pub fn host_log_line(caps: &CapabilitySet, level: LogLevel, message: &str) -> (out: (HostCallResult, Option<LogLine>))
    ensures
        log_answer(caps@, level, message@, message.len(), out),
{
    if !check_capability(caps, CapabilityType::ActuatorLog, CapabilityScope::Global) {
        return (HostCallResult::capability_denied(CapabilityType::ActuatorLog), None);
    }
    if message.len() > MAX_LOG_MESSAGE_LENGTH {
        return (HostCallResult::error("Log message exceeds maximum length of 65536 bytes"), None);
    }
    let stream = match level {
        LogLevel::Info | LogLevel::Warn => LogStream::Stdout,
        _ => LogStream::Stderr,
    };
    let head = join2("[VUDO:", level.as_str());
    let head = join2(head.as_str(), "] ");
    let text = join2(head.as_str(), message);
    assert(text@ == log_line_text(level, message@));
    (HostCallResult::success(), Some(LogLine { stream, text }))
}

} // verus!
