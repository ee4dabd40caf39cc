//! The random source behind every stochastic rule.

use vstd::prelude::*;

verus! {

/// Draws a uniform integer below `bound` from the process-wide generator.
///
/// Trusted: calls `macroquad::rand::gen_range` with a lower end of zero. That
/// function scales a 32-bit draw `k` to `bound * k / 2^32` in double precision
/// and truncates, which is below `bound` for every `k`. Nothing is claimed about
/// which value comes back.
#[verifier::external_body]
pub(crate) fn random_below(bound: u32) -> (r: u32)
    requires
        bound > 0,
    ensures
        r < bound,
{
    macroquad::rand::gen_range(0u32, bound)
}

} // verus!
