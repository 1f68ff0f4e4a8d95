//! Resource limits for a sandboxed execution.

use vstd::prelude::*;
use std::time::Duration;

verus! {

/// `Duration::from_nanos`: a duration of `nanos` nanoseconds. Nothing is
/// stated of the value: `Duration` is opaque here.
#[verifier::external_body]
fn duration_from_nanos(nanos: u64) -> (d: Duration) {
    Duration::from_nanos(nanos)
}

/// Limits on the resources of a sandboxed execution: linear memory in
/// bytes, CPU quota and fuel in fuel units, wall-clock time in nanoseconds,
/// table elements and module instances.
#[derive(Debug, Clone, Copy)]
pub struct ResourceLimits {
    pub memory_bytes: usize,
    pub cpu_quota: u64,
    pub max_fuel: u64,
    pub max_duration_nanos: u64,
    pub max_table_elements: u32,
    pub max_instances: u32,
}

impl Default for ResourceLimits {
    /// General-purpose limits: 16 MiB, a quota and fuel of one million
    /// units, 10 seconds, 10,000 table elements, 10 instances.
    fn default() -> (l: Self)
        ensures
            l.memory_bytes == 16777216 && l.cpu_quota == 1_000_000 && l.max_fuel == 1_000_000
                && l.max_duration_nanos == 10_000_000_000
                && l.max_table_elements == 10_000 && l.max_instances == 10,
    {
        ResourceLimits {
            memory_bytes: 16777216,
            cpu_quota: 1_000_000,
            max_fuel: 1_000_000,
            max_duration_nanos: 10_000_000_000,
            max_table_elements: 10_000,
            max_instances: 10,
        }
    }
}

impl ResourceLimits {
    /// Limits with the given values.
    pub fn new(memory_bytes: usize, cpu_quota: u64, max_fuel: u64, max_duration_nanos: u64,
        max_table_elements: u32, max_instances: u32) -> (l: Self)
        ensures
            l == (ResourceLimits { memory_bytes, cpu_quota, max_fuel, max_duration_nanos, max_table_elements,
                max_instances }),
    {
        ResourceLimits { memory_bytes, cpu_quota, max_fuel, max_duration_nanos, max_table_elements, max_instances }
    }

    /// The wall-clock limit as a `Duration` of `max_duration_nanos`
    /// nanoseconds.
    pub fn max_duration(&self) -> Duration {
        duration_from_nanos(self.max_duration_nanos)
    }

    /// Permissive limits for testing only: 1 GiB, a quota and fuel of one
    /// hundred million units, 300 seconds, a million table elements, 1,000
    /// instances.
    pub fn for_testing() -> (l: Self)
        ensures
            l.memory_bytes == 1073741824 && l.cpu_quota == 100_000_000 && l.max_fuel == 100_000_000
                && l.max_duration_nanos == 300_000_000_000
                && l.max_table_elements == 1_000_000 && l.max_instances == 1_000,
    {
        ResourceLimits {
            memory_bytes: 1073741824,
            cpu_quota: 100_000_000,
            max_fuel: 100_000_000,
            max_duration_nanos: 300_000_000_000,
            max_table_elements: 1_000_000,
            max_instances: 1_000,
        }
    }

    /// Restrictive limits for untrusted code: 1 MiB, a quota and fuel of
    /// one hundred thousand units, 1 second, 100 table elements, 1
    /// instance.
    pub fn restrictive() -> (l: Self)
        ensures
            l.memory_bytes == 1048576 && l.cpu_quota == 100_000 && l.max_fuel == 100_000
                && l.max_duration_nanos == 1_000_000_000
                && l.max_table_elements == 100 && l.max_instances == 1,
    {
        ResourceLimits {
            memory_bytes: 1048576,
            cpu_quota: 100_000,
            max_fuel: 100_000,
            max_duration_nanos: 1_000_000_000,
            max_table_elements: 100,
            max_instances: 1,
        }
    }
}

} // verus!
