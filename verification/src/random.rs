//! The source of chance behind the weaker difficulty levels.

use vstd::prelude::*;
use rand::Rng;

verus! {

/// Draws a number below `bound` from the thread-local generator of the
/// `rand` crate, by `rand::thread_rng` and `Rng::gen_range(0, bound)`.
///
/// Trusted, not proved: `gen_range` returns a value of the half-open range
/// from its first argument to its second, and panics where the range is
/// empty, which `bound > 0` excludes. Nothing more is claimed of the value:
/// two draws with one bound may differ.
#[verifier::external_body]
pub(crate) fn draw_below(bound: usize) -> (drawn: usize)
    requires
        bound > 0,
    ensures
        drawn < bound,
{
    rand::thread_rng().gen_range(0, bound)
}

} // verus!
