//! The blend of the dry signal with the wet signal of a reverb.
use vstd::prelude::*;
use crate::sample::has_neutral_elements;
use crate::sample::one;
use crate::sample::zero;
use crate::sample::Sample;

verus! {

/// The blend of an input sample with a wet sample: the input times the dry
/// gain plus the wet gain times the wet sample, divided by the sum of the
/// two gains where that sum is above one.
pub open spec fn mix_spec<T: Sample>(input: T, wet_sample: T, dry: T, wet: T) -> T {
    let blend = input.times_spec(dry).plus_spec(wet.times_spec(wet_sample));
    let total = dry.plus_spec(wet);
    if one::<T>().lt_spec(total) {
        blend.over_spec(total)
    } else {
        blend
    }
}

/// Blends an input sample with the wet sample that a reverb made of it.
pub fn mix<T: Sample>(input: T, wet_sample: T, dry: T, wet: T) -> (r: T)
    ensures
        r == mix_spec(input, wet_sample, dry, wet),
{
    let blend: T = input.times(dry).plus(wet.times(wet_sample));
    let total: T = dry.plus(wet);
    if T::ratio(1, 1).lt(total) {
        blend.over(total)
    } else {
        blend
    }
}

/// With a dry gain of one and a wet gain of zero the blend is the input,
/// whatever the wet sample is.
pub proof fn lemma_dry_mix_is_input<T: Sample>(input: T, wet_sample: T)
    requires
        has_neutral_elements::<T>(),
    ensures
        mix_spec(input, wet_sample, one::<T>(), zero::<T>()) == input,
{
}

} // verus!
