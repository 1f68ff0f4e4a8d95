//! The codes host functions return to guest code: 0 for success, negative
//! for each kind of failure.

use vstd::prelude::*;

verus! {

/// The operation succeeded.
pub const SUCCESS: i32 = 0;

/// The sandbox lacks the capability the operation needs.
pub const CAPABILITY_DENIED: i32 = -1;

/// A pointer or length lies outside guest memory.
pub const INVALID_MEMORY: i32 = -2;

/// An argument has a value the operation does not accept.
pub const INVALID_PARAMETER: i32 = -3;

/// The storage backend failed.
pub const STORAGE_ERROR: i32 = -4;

/// The network backend failed.
pub const NETWORK_ERROR: i32 = -5;

/// The credit ledger failed.
pub const CREDIT_ERROR: i32 = -6;

/// The guest's output buffer is too small for the result.
pub const BUFFER_TOO_SMALL: i32 = -7;

/// The host failed internally.
pub const INTERNAL_ERROR: i32 = -8;

} // verus!
