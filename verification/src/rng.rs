//! The one place the crate draws randomness from.

use vstd::prelude::*;

verus! {

/// Relies on rand::Rng::gen_range over rand::thread_rng: a value drawn
/// uniformly from `0..bound`. The range must not be empty — gen_range
/// panics on an empty range — so a positive bound is required. Nothing more
/// is promised of the result than its bound: every draw may differ.
#[verifier::external_body]
pub(crate) fn random_below(bound: u32) -> (r: u32)
    requires
        bound > 0,
    ensures
        r < bound,
{
    let mut rng = rand::thread_rng();
    rand::Rng::gen_range(&mut rng, 0..bound)
}

} // verus!
