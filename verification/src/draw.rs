//! The source of the random numbers that spread the delays of a reverb.
use vstd::prelude::*;
use rand::Rng;

verus! {

/// A random number below `bound`.
///
/// Calls `Rng::gen_range` of the crate `rand` on the generator of the
/// current thread, with the range from zero up to and without `bound`. The
/// contract claims what `gen_range` documents of every draw: the number lies
/// in the range. It claims nothing of which number comes, so two calls may
/// differ. An empty range makes `gen_range` panic and is left out.
#[verifier::external_body]
pub(crate) fn draw_below(bound: u32) -> (r: u32)
    requires
        bound > 0,
    ensures
        r < bound,
{
    rand::thread_rng().gen_range(0..bound)
}

} // verus!
