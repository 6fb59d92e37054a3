//! The source of random cells.

use vstd::prelude::*;

verus! {

/// One draw from `quad_rand::gen_range` on `u8`, which reads and advances the
/// process-wide generator. That function scales the generator's next 32-bit
/// output by `(high - low) / 2^32`, adds `low` and drops the fraction, so for
/// `low < high` the draw is at least `low` and below `high`. Which value
/// comes is not stated: it depends on the generator's state.
#[verifier::external_body]
pub(crate) fn gen_range(low: u8, high: u8) -> (draw: u8)
    requires
        low < high,
    ensures
        low <= draw < high,
{
    quad_rand::gen_range(low, high)
}

} // verus!
