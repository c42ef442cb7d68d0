//! The pseudo-random stream: a 32-bit xorshift generator. It supplies every
//! random choice of the simulation, so that a run is fixed by its seed and
//! the calls made.

use vstd::prelude::*;

verus! {

/// Seed of the random stream of a fresh universe.
pub const SEED: u32 = 0xB45BE;

/// One step of the 32-bit xorshift generator with shifts 13, 17 and 5.
pub open spec fn xorshift(x: u32) -> u32 {
    let a = x ^ (x << 13);
    let b = a ^ (a >> 17);
    b ^ (b << 5)
}

/// Computes the value that follows `x` in the random stream.
pub fn next_random(x: u32) -> (y: u32)
    ensures
        y == xorshift(x),
{
    let a: u32 = x ^ (x << 13);
    let b: u32 = a ^ (a >> 17);
    b ^ (b << 5)
}

/// The stream never runs dry: zero is the one state the generator cannot
/// leave, and from no other state does it ever reach zero.
pub proof fn lemma_xorshift_zero(x: u32)
    by (bit_vector)
    ensures
        xorshift(x) == 0 <==> x == 0,
{
}

} // verus!
