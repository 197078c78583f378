//! The source of chance: the thread-local generator of the `rand` crate.
//!
//! Nothing here is proved. The contracts say what the source of `rand` shows
//! of the two functions, and the walk of a fractal rests on them.

use vstd::prelude::*;
use rand::rngs::ThreadRng;
use rand::Rng;

verus! {

/// The handle of `rand` to the generator of a thread. What it holds is not
/// seen here: a value of it is only carried from one call to the next.
#[verifier::external_type_specification]
#[verifier::external_body]
pub struct ExThreadRng(rand::rngs::ThreadRng);

/// `rand::thread_rng` hands out a handle to the generator of the calling
/// thread, which the operating system seeds. Nothing is claimed of the handle.
/// The call panics where the operating system cannot seed the generator; no
/// argument decides that, so no precondition can rule it out.
pub assume_specification[ rand::thread_rng ]() -> (rng: ThreadRng);

/// `Rng::gen_range` on the half-open range from zero to `n`: the index drawn
/// lies below `n`. The call panics on an empty range, so `n` must be positive.
/// Which index comes is left open, and so is the state of the generator
/// afterwards. The generator of a thread seeds itself anew from the operating
/// system after every 64 KiB that it has given out, and after a fork; the
/// call panics where the operating system then gives no entropy. No argument
/// decides that, so no precondition can rule it out.
#[verifier::external_body]
pub(crate) fn draw_index(rng: &mut ThreadRng, n: usize) -> (i: usize)
    requires
        n > 0,
    ensures
        i < n,
{
    rng.gen_range(0..n)
}

} // verus!
