//! Trace and span identifier generation.
//!
//! Identifiers carry only 64 bits of randomness, so that numeric values stay
//! compatible with other implementations of the same wire protocol even
//! where a trace id is stored in a wider representation.  The all-zero
//! identifier is reserved to mean "absent" and is never returned as a valid
//! id.  Randomness comes from a thread-local generator, so concurrent
//! threads never contend on shared state.

use vstd::prelude::*;

verus! {

/// Relies on `rand::random::<u64>`: one draw from the thread-local
/// generator.  Nothing can be promised of a random value.
#[verifier::external_body]
fn random_u64() -> u64 {
    rand::random::<u64>()
}

/// Replace the reserved all-zero draw with the smallest valid id.
fn nonzero_id(raw: u64) -> (r: u64)
    ensures
        r != 0,
        raw != 0 ==> r == raw,
{
    if raw == 0 {
        1
    } else {
        raw
    }
}

/// Generates trace and span ids backed by 64 bits of randomness.
#[derive(Debug, Clone, Copy, PartialEq, Eq)]
pub struct ReducedIdGenerator;

impl ReducedIdGenerator {
    /// A fresh trace id: non-zero, and zero in every bit above the 64-bit
    /// compatibility width.
    pub fn new_trace_id(&self) -> (r: u128)
        ensures
            r != 0,
            r < 0x1_0000_0000_0000_0000,
    {
        let raw = nonzero_id(random_u64());
        raw as u128
    }

    /// A fresh span id: non-zero.
    pub fn new_span_id(&self) -> (r: u64)
        ensures
            r != 0,
    {
        nonzero_id(random_u64())
    }
}

} // verus!
