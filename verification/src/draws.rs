//! Random draws used by value generation and by the operation mix. These
//! are the only places the library touches the random number generator; what
//! is done with a draw is verified for every value the contracts admit.

use rand::Rng;
use rand::RngCore;
use vstd::prelude::*;

verus! {

/// Relies on rand's `Rng::gen_range` over `0..100`: the sampled value lies
/// in the given half-open range. Picks the operation of one run-phase
/// iteration.
#[verifier::external_body]
pub(crate) fn draw_percent() -> (r: u8)
    ensures
        r < 100,
{
    rand::thread_rng().gen_range(0..100u8)
}

/// Relies on rand's `Rng::gen_range` over `0..n`: the sampled value lies in
/// the given half-open range, which must not be empty.
#[verifier::external_body]
pub(crate) fn draw_index(n: usize) -> (r: usize)
    requires
        n > 0,
    ensures
        r < n,
{
    rand::thread_rng().gen_range(0..n)
}

/// Relies on rand's `Rng::fill_bytes`: it overwrites the buffer in place and
/// neither grows nor shrinks it.
#[verifier::external_body]
pub(crate) fn fill_random(buf: &mut Vec<u8>)
    ensures
        final(buf)@.len() == old(buf)@.len(),
{
    rand::thread_rng().fill_bytes(buf.as_mut_slice());
}

} // verus!
