//! An in-memory store for a small home-automation backend: a collection of
//! heating zones and a collection of devices, each keyed by a 128-bit
//! identifier, with partial-merge updates and relational filtering.
//!
//! Setpoints are carried as the raw bit pattern of an IEEE double
//! (`f64::to_bits`); the store only ever copies them, so the encoding is
//! lossless. Callers at the HTTP boundary convert with `f64::from_bits`.

use vstd::prelude::*;

pub mod device;
pub mod store;
pub mod zone;

verus! {

/// Bit pattern of the default setpoint, 16.0 as an IEEE double.
pub const SETPOINT_DEFAULT_BITS: u64 = 0x4030_0000_0000_0000;

/// The health-check greeting served at the root path.
pub fn index() -> (r: &'static str)
    ensures
        r@ == "Hello, World!"@,
{
    "Hello, World!"
}

} // verus!
