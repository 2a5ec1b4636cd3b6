//! The source of chance.

use vstd::prelude::*;
use rand::Rng;

verus! {

/// Draws a number from the thread's random number generator
/// (`rand::thread_rng`, then `Rng::gen`). Nothing is claimed of the number:
/// every `usize` may come back, and two draws need not agree. The generator
/// seeds itself from the operating system when a thread first uses it.
#[verifier::external_body]
pub(crate) fn random_index() -> (draw: usize) {
    let mut rng = rand::thread_rng();
    rng.gen()
}

} // verus!
