//! The random draws behind the swap decisions, taken from the `rand` crate.
//! Nothing in this file is proved, and nothing is claimed of a draw.

use vstd::prelude::*;
use rand::rngs::ThreadRng;
use rand::Rng;

verus! {

/// The thread-local generator of the `rand` crate, as a value that is only
/// handed on.
#[verifier::external_type_specification]
#[verifier::external_body]
pub struct ExThreadRng(ThreadRng);

/// `rand::thread_rng`: the handle of this thread's generator. Trusted, with
/// nothing claimed of the handle.
pub assume_specification[ rand::thread_rng ]() -> (rng: ThreadRng)
;

/// One draw with `rand::Rng::gen`: any `usize` may come back, and two calls
/// need not agree.
#[verifier::external_body]
pub(crate) fn next_draw(rng: &mut ThreadRng) -> (draw: usize) {
    rng.gen::<usize>()
}

} // verus!
