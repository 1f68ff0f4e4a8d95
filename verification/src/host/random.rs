//! The random-bytes host function.

use vstd::prelude::*;
use vstd::string::*;
use crate::capability::{CapabilitySet, CapabilityType, CapabilityScope, CapabilityGrant};
use crate::host::{HostCallResult, check_capability, gated, failed_with, failed_with_prefix, succeeded_with};
use crate::text::join2;

verus! {

/// Largest number of random bytes one call may ask for (1 MiB).
pub const MAX_RANDOM_BYTES: u32 = 1048576;

/// Fills `buf` with bytes from the operating system's secure random source
/// (`getrandom::getrandom`), or answers the text of its error.
///
/// Claimed: the length of `buf` is unchanged. The bytes are chance and are
/// not stated.
#[verifier::external_body]
fn fill_random(buf: &mut Vec<u8>) -> (r: Result<(), String>)
    ensures
        final(buf)@.len() == old(buf)@.len(),
{
    match getrandom::getrandom(buf.as_mut_slice()) {
        Ok(()) => Ok(()),
        Err(e) => Err(format!("{}", e)),
    }
}

/// What `host_random_bytes` may answer for `count` bytes.
pub open spec fn random_answer(caps: Seq<CapabilityGrant>, count: u32, r: HostCallResult) -> bool {
    gated(caps, CapabilityType::SensorRandom, CapabilityScope::Global, r,
        (count == 0 ==> failed_with(r, "Count must be greater than 0"@))
        && (count > MAX_RANDOM_BYTES ==> failed_with(r, "Count exceeds maximum of 1048576 bytes"@))
        && (0 < count <= MAX_RANDOM_BYTES ==> (exists|v: Seq<u8>| v.len() == count
            && #[trigger] succeeded_with(r, v))
            || failed_with_prefix(r, "Failed to generate random bytes: "@)))
}

/// `count` cryptographically secure random bytes.
///
/// Requires SensorRandom at Global scope. Refuses zero and more than
/// `MAX_RANDOM_BYTES`. A failure of the random source is reported as
/// "Failed to generate random bytes: " followed by its message.
pub fn host_random_bytes(caps: &CapabilitySet, count: u32) -> (r: HostCallResult)
    ensures
        random_answer(caps@, count, r),
{
    if !check_capability(caps, CapabilityType::SensorRandom, CapabilityScope::Global) {
        return HostCallResult::capability_denied(CapabilityType::SensorRandom);
    }
    if count == 0 {
        return HostCallResult::error("Count must be greater than 0");
    }
    if count > MAX_RANDOM_BYTES {
        return HostCallResult::error("Count exceeds maximum of 1048576 bytes");
    }
    let mut bytes: Vec<u8> = vec![0u8; count as usize];
    match fill_random(&mut bytes) {
        Ok(()) => {
            let ghost v = bytes@;
            let r = HostCallResult::success_with_value(bytes);
            assert(succeeded_with(r, v));
            r
        },
        Err(e) => {
            let msg = join2("Failed to generate random bytes: ", e.as_str());
            let r = HostCallResult::error(msg.as_str());
            assert(failed_with(r, "Failed to generate random bytes: "@ + e@));
            r
        },
    }
}

} // verus!
