//! Errors of sandboxed execution: resource limits broken and runtime
//! failures.

use vstd::prelude::*;
use vstd::string::*;
use std::time::Duration;
use crate::text::{decimal, text_with_number, join2};

verus! {

/// `Duration`'s `Debug` text (`format!("{:?}", d)`). Nothing is stated of
/// the text: `Duration` is opaque here.
#[verifier::external_body]
fn duration_debug(d: &Duration) -> (s: String) {
    format!("{:?}", d)
}

/// Failures of a sandboxed execution.
#[derive(Debug)]
pub enum SandboxError {
    /// Memory grew beyond its limit.
    OutOfMemory,
    /// Fuel use went beyond the quota.
    CpuQuotaExceeded { consumed: u64, limit: u64 },
    /// An operation lacked its capability.
    CapabilityDenied { capability: String, reason: String },
    /// The guest trapped.
    WasmTrap(String),
    /// Execution ran past its time limit.
    Timeout { max_duration: Duration },
    /// The module is malformed or unsupported.
    InvalidModule(String),
}

/// The text of an error, as its display shows it; for a timeout, the part
/// before the duration.
pub open spec fn error_text(e: SandboxError) -> Seq<char> {
    match e {
        SandboxError::OutOfMemory => "Out of memory: allocation exceeded limit"@,
        SandboxError::CpuQuotaExceeded { consumed, limit } =>
            "CPU quota exceeded: consumed "@ + decimal(consumed as nat) + ", limit "@ + decimal(limit as nat),
        SandboxError::CapabilityDenied { capability, reason } =>
            "Capability denied: "@ + capability@ + " - "@ + reason@,
        SandboxError::WasmTrap(m) => "WASM trap: "@ + m@,
        SandboxError::Timeout { .. } => "Execution timeout: exceeded "@,
        SandboxError::InvalidModule(m) => "Invalid module: "@ + m@,
    }
}

impl SandboxError {
    /// The message of this error. A timeout's message is its text followed
    /// by the duration's `Debug` form.
    pub fn message(&self) -> (s: String)
        ensures
            !(self is Timeout) ==> s@ == error_text(*self),
            self is Timeout ==> s@.len() >= error_text(*self).len()
                && s@.subrange(0, error_text(*self).len() as int) == error_text(*self),
    {
        match self {
            SandboxError::OutOfMemory => {
                proof { reveal_strlit("Out of memory: allocation exceeded limit"); }
                String::from_str("Out of memory: allocation exceeded limit")
            },
            SandboxError::CpuQuotaExceeded { consumed, limit } => {
                let mut s = text_with_number("CPU quota exceeded: consumed ", *consumed);
                let l = text_with_number(", limit ", *limit);
                s.append(l.as_str());
                s
            },
            SandboxError::CapabilityDenied { capability, reason } => {
                let mut s = join2("Capability denied: ", capability.as_str());
                s.append(" - ");
                s.append(reason.as_str());
                s
            },
            SandboxError::WasmTrap(m) => join2("WASM trap: ", m.as_str()),
            SandboxError::Timeout { max_duration } => {
                let d = duration_debug(max_duration);
                let s = join2("Execution timeout: exceeded ", d.as_str());
                assert(s@.subrange(0, error_text(*self).len() as int) =~= error_text(*self));
                s
            },
            SandboxError::InvalidModule(m) => join2("Invalid module: ", m.as_str()),
        }
    }
}

} // verus!
