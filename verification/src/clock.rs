//! The system clock.
//!
//! One trusted reading of the clock, `system_time_since_epoch`, and what the
//! library computes from it.

use vstd::prelude::*;

verus! {

/// Reads the system clock: `SystemTime::now().duration_since(UNIX_EPOCH)`,
/// as whole seconds and the nanoseconds past them, or the text of the
/// error when the clock is set before the epoch.
///
/// Claimed: the nanosecond part is below one billion (`Duration`'s
/// `subsec_nanos` documents this). The reading itself is whatever the
/// clock says and is not stated.
#[verifier::external_body]
pub(crate) fn system_time_since_epoch() -> (r: Result<(u64, u32), String>)
    ensures
        r matches Ok((secs, nanos)) ==> nanos < 1_000_000_000,
{
    match std::time::SystemTime::now().duration_since(std::time::UNIX_EPOCH) {
        Ok(d) => Ok((d.as_secs(), d.subsec_nanos())),
        Err(e) => Err(format!("{}", e)),
    }
}

/// Nanoseconds since the epoch for a reading of `secs` seconds and `nanos`
/// nanoseconds, cut to 64 bits as `as_nanos() as u64` does.
pub open spec fn nanos_since_epoch(secs: u64, nanos: u32) -> u64 {
    ((secs as int) * 1_000_000_000 + (nanos as int)) as u64
}

/// Computes `nanos_since_epoch`.
pub fn to_nanos(secs: u64, nanos: u32) -> (r: u64)
    ensures
        r == nanos_since_epoch(secs, nanos),
{
    assert((secs as u128) * 1_000_000_000u128 + (nanos as u128) < 0x1_0000_0000_0000_0000_0000_0000u128)
        by (nonlinear_arith);
    let total: u128 = (secs as u128) * 1_000_000_000u128 + (nanos as u128);
    total as u64
}

/// The current Unix time in whole seconds; a clock set before the epoch
/// reads as 0.
pub fn current_timestamp() -> (now: u64) {
    match system_time_since_epoch() {
        Ok((secs, _)) => secs,
        Err(_) => 0,
    }
}

} // verus!
