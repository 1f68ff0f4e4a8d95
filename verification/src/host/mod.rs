//! The host interface: the functions a sandbox offers to guest code.
//!
//! Every host function is gated by a capability and answers with a
//! `HostCallResult`.

use vstd::prelude::*;
use vstd::string::*;
pub use crate::capability::{CapabilityType, CapabilitySet, CapabilityScope};
use crate::capability::{capability_name, grants_allow};
use crate::text::join2;

pub mod credit;
pub mod log;
pub mod network;
pub mod random;
pub mod storage;
pub mod time;

pub use crate::capability::CapabilityGrant;
pub use credit::{host_credit_available, host_credit_balance, host_credit_consume, host_credit_release,
    host_credit_reserve, host_credit_transfer, CreditBackend, InMemoryCreditLedger, PublicKey};
pub use log::{host_log_line, LogLevel};
pub use network::{host_network_broadcast, host_network_connect, host_network_listen, ConnectionHandle,
    ListenerHandle, MockNetworkBackend, NetworkBackend};
pub use random::host_random_bytes;
pub use storage::{host_storage_delete, host_storage_read, host_storage_write, InMemoryStorage, StorageBackend};
pub use time::host_time_now;

verus! {

/// The answer of a host function.
#[derive(Debug, Clone, PartialEq, Eq)]
pub struct HostCallResult {
    pub success: bool,
    pub return_value: Option<Vec<u8>>,
    pub error: Option<String>,
}

/// `r` is a success carrying no value.
pub open spec fn succeeded_empty(r: HostCallResult) -> bool {
    r.success && r.return_value is None && r.error is None
}

/// `r` is a success carrying the bytes `v`.
pub open spec fn succeeded_with(r: HostCallResult, v: Seq<u8>) -> bool {
    r.success && r.error is None && (r.return_value matches Some(x) && x@ == v)
}

/// `r` is a failure with the message `msg`.
pub open spec fn failed_with(r: HostCallResult, msg: Seq<char>) -> bool {
    !r.success && r.return_value is None && (r.error matches Some(e) && e@ == msg)
}

/// `r` is a failure whose message is `prefix` followed by some text.
pub open spec fn failed_with_prefix(r: HostCallResult, prefix: Seq<char>) -> bool {
    exists|rest: Seq<char>| #[trigger] failed_with(r, prefix + rest)
}

/// The message of a capability refusal.
pub open spec fn denied_text(c: CapabilityType) -> Seq<char> {
    "Capability denied: "@ + capability_name(c)
}

/// Whether `allowed` is what a capability check of `caps` for `cap` at
/// `scope` answers at some time.
pub open spec fn capability_check(caps: Seq<crate::capability::CapabilityGrant>, cap: CapabilityType,
    scope: CapabilityScope, allowed: bool) -> bool {
    exists|now: u64| #[trigger] grants_allow(caps, cap, scope, now) == allowed
}

/// The answer `r` of a host function gated by `cap` at `scope`: a
/// refusal where the capability check failed, and otherwise an answer of
/// which `rest` holds.
pub open spec fn gated(caps: Seq<crate::capability::CapabilityGrant>, cap: CapabilityType,
    scope: CapabilityScope, r: HostCallResult, rest: bool) -> bool {
    ||| capability_check(caps, cap, scope, false) && failed_with(r, denied_text(cap))
    ||| capability_check(caps, cap, scope, true) && rest
}

impl HostCallResult {
    /// A success with no value.
    pub fn success() -> (r: Self)
        ensures
            succeeded_empty(r),
    {
        HostCallResult { success: true, return_value: None, error: None }
    }

    /// A success carrying `value`.
    pub fn success_with_value(value: Vec<u8>) -> (r: Self)
        ensures
            succeeded_with(r, value@),
    {
        HostCallResult { success: true, return_value: Some(value), error: None }
    }

    /// A failure with the message `message`.
    pub fn error(message: &str) -> (r: Self)
        ensures
            failed_with(r, message@),
    {
        HostCallResult { success: false, return_value: None, error: Some(String::from_str(message)) }
    }

    /// The failure that refuses an operation for want of `capability`.
    pub fn capability_denied(capability: CapabilityType) -> (r: Self)
        ensures
            failed_with(r, denied_text(capability)),
    {
        let msg = join2("Capability denied: ", capability.name());
        HostCallResult::error(msg.as_str())
    }
}

/// Nothing escapes a sandbox without an explicit grant: with no grants,
/// every host function answers with the refusal for want of its capability.
pub proof fn law_no_grants_denies(cap: CapabilityType, scope: CapabilityScope, r: HostCallResult, rest: bool)
    requires
        gated(Seq::empty(), cap, scope, r, rest),
    ensures
        failed_with(r, denied_text(cap)),
        !r.success,
{
    if capability_check(Seq::empty(), cap, scope, true) {
        let now = choose|now: u64| #[trigger] grants_allow(Seq::empty(), cap, scope, now) == true;
        assert(!grants_allow(Seq::<crate::capability::CapabilityGrant>::empty(), cap, scope, now));
    }
}

/// Checks `caps` for `cap` at `scope` by the system clock.
pub fn check_capability(caps: &CapabilitySet, cap: CapabilityType, scope: CapabilityScope) -> (allowed: bool)
    ensures
        capability_check(caps@, cap, scope, allowed),
{
    caps.has_capability(cap, scope)
}

/// The system-call interface a host offers to sandboxes: one method per
/// host function. Implementations decide how each call is served.
pub trait HostInterface {
    /// The current time.
    fn host_time_now(&self, caps: &CapabilitySet) -> HostCallResult;

    /// `count` random bytes.
    fn host_random_bytes(&self, caps: &CapabilitySet, count: u32) -> HostCallResult;

    /// Logs `message` at `level`.
    fn host_log(&self, caps: &CapabilitySet, level: LogLevel, message: &str) -> HostCallResult;

    /// Reads `key` from storage.
    fn host_storage_read(&self, caps: &CapabilitySet, key: &[u8]) -> HostCallResult;

    /// Writes `value` under `key` in storage.
    fn host_storage_write(&self, caps: &CapabilitySet, key: &[u8], value: &[u8]) -> HostCallResult;

    /// Deletes `key` from storage.
    fn host_storage_delete(&self, caps: &CapabilitySet, key: &[u8]) -> HostCallResult;

    /// Connects to `address`.
    fn host_network_connect(&self, caps: &CapabilitySet, address: &str) -> HostCallResult;

    /// Listens on `port`.
    fn host_network_listen(&self, caps: &CapabilitySet, port: u16) -> HostCallResult;

    /// Broadcasts `message` to the connected peers.
    fn host_network_broadcast(&self, caps: &CapabilitySet, message: &[u8]) -> HostCallResult;

    /// The credit balance of `account`.
    fn host_credit_balance(&self, caps: &CapabilitySet, account: &[u8; 32]) -> HostCallResult;

    /// Moves `amount` credits from `from` to `to`.
    fn host_credit_transfer(&self, caps: &CapabilitySet, from: &[u8; 32], to: &[u8; 32], amount: u64) -> HostCallResult;

    /// Reserves `amount` credits of `account`.
    fn host_credit_reserve(&self, caps: &CapabilitySet, account: &[u8; 32], amount: u64) -> HostCallResult;

    /// Releases a reservation.
    fn host_credit_release(&self, caps: &CapabilitySet, reservation_id: u64) -> HostCallResult;

    /// Consumes a reservation.
    fn host_credit_consume(&self, caps: &CapabilitySet, reservation_id: u64) -> HostCallResult;

    /// The available credit balance of `account`.
    fn host_credit_available(&self, caps: &CapabilitySet, account: &[u8; 32]) -> HostCallResult;
}

} // verus!
