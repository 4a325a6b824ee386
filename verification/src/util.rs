//! Platform detection and polling-interval policy.

use vstd::prelude::*;

verus! {

/// The deployment target is a Raspberry Pi: the processor architecture, the
/// operating system family and the C runtime family must all match at once.
/// The three facts come from the build's own platform metadata; the caller
/// passes them in so that this decision is checked for every combination.
pub fn is_rpi(arch_is_arm: bool, os_is_linux: bool, env_is_gnu: bool) -> (r: bool)
    ensures
        r == (arch_is_arm && os_is_linux && env_is_gnu),
{
    arch_is_arm && os_is_linux && env_is_gnu
}

/// Milliseconds between poll ticks: short in a test or debug build, a full
/// minute in a release build.
pub fn get_interval_ms(debug_build: bool) -> (r: u64)
    ensures
        r == if debug_build { 5_000u64 } else { 60_000u64 },
{
    if debug_build {
        5_000
    } else {
        60_000
    }
}

} // verus!
