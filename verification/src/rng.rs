//! The library's one source of randomness, behind a single trusted
//! call, with verified shaping on top.

use vstd::prelude::*;
use crate::fx::FX_ONE;

verus! {

/// Relies on `rand::random`: a fresh 64-bit value from the thread-local
/// generator. Nothing can be promised of a random result.
#[verifier::external_body]
fn rand_u64() -> u64 {
    rand::random::<u64>()
}

/// A fixed-point value in `[0, 1)`, standing for a uniform unit draw.
pub fn rand_unit() -> (r: i128)
    ensures
        0 <= r < FX_ONE,
{
    let v: u64 = rand_u64();
    (v % 65536) as i128
}

/// A fixed-point value in `[-1, 1)`, standing for a symmetric draw.
pub fn rand_sym() -> (r: i128)
    ensures
        -FX_ONE <= r < FX_ONE,
{
    let v: u64 = rand_u64();
    ((v % 131072) as i128) - 65536
}

} // verus!
