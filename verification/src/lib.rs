//! VUDO VM: a capability-based sandbox runtime for WebAssembly Spirits.
//!
//! The library holds the rules of the runtime: fuel metering, the capability
//! system, the credit ledger, the host functions that the sandbox exposes to
//! guest code, and the sandbox lifecycle. Each rule carries a contract that
//! Verus checks.

pub mod text;
pub mod bytes;
pub mod clock;
pub mod fuel;
pub mod capability;
pub mod error;
pub mod limits;
pub mod shared;
pub mod host;
pub mod linker;
pub mod sandbox;

pub use error::SandboxError;
pub use limits::ResourceLimits;
pub use capability::{CapabilityGrant, CapabilityScope, CapabilitySet, CapabilityType, MINIMAL_CAPABILITIES,
    NETWORK_SPIRIT_CAPABILITIES, SYSTEM_SPIRIT_CAPABILITIES};
pub use host::{HostCallResult, HostInterface, InMemoryStorage, LogLevel, StorageBackend};
