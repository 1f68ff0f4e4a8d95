//! The time host function.

use vstd::prelude::*;
use vstd::string::*;
use crate::capability::{CapabilitySet, CapabilityType, CapabilityScope, CapabilityGrant};
use crate::host::{HostCallResult, check_capability, gated, failed_with, failed_with_prefix, succeeded_with};
use crate::clock::{system_time_since_epoch, to_nanos, nanos_since_epoch};
use crate::bytes::{le_bytes, u64_to_le_vec};
use crate::text::join2;

verus! {

/// What `host_time_now` may answer: a refusal for want of SensorTime, the
/// clock's reading in nanoseconds (cut to 64 bits) as eight little-endian
/// bytes, or a clock error.
pub open spec fn time_now_answer(caps: Seq<CapabilityGrant>, r: HostCallResult) -> bool {
    gated(caps, CapabilityType::SensorTime, CapabilityScope::Global, r,
        (exists|secs: u64, nanos: u32| nanos < 1_000_000_000
            && #[trigger] succeeded_with(r, le_bytes(nanos_since_epoch(secs, nanos))))
        || failed_with_prefix(r, "System time error: "@))
}

/// The current Unix time in nanoseconds, as eight little-endian bytes.
///
/// Requires SensorTime at Global scope. The value is the clock's reading in
/// nanoseconds cut to 64 bits; a clock set before the epoch is reported as
/// "System time error: " followed by the clock's message.
pub fn host_time_now(caps: &CapabilitySet) -> (r: HostCallResult)
    ensures
        time_now_answer(caps@, r),
{
    if !check_capability(caps, CapabilityType::SensorTime, CapabilityScope::Global) {
        return HostCallResult::capability_denied(CapabilityType::SensorTime);
    }
    match system_time_since_epoch() {
        Ok((secs, nanos)) => {
            let n = to_nanos(secs, nanos);
            let r = HostCallResult::success_with_value(u64_to_le_vec(n));
            assert(succeeded_with(r, le_bytes(nanos_since_epoch(secs, nanos))));
            r
        },
        Err(e) => {
            let msg = join2("System time error: ", e.as_str());
            let r = HostCallResult::error(msg.as_str());
            assert(failed_with(r, "System time error: "@ + e@));
            r
        },
    }
}

} // verus!
