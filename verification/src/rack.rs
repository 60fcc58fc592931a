//! The four reverbs that a host keeps side by side, one per topology, so
//! that it can change from one to another between two samples.
use vstd::prelude::*;
use crate::comb::CombType;
use crate::mix::lemma_dry_mix_is_input;
use crate::mix::mix;
use crate::mix::mix_spec;
use crate::reverb::made_from_draws;
use crate::reverb::Reverb;
use crate::reverb::ReverbType;
use crate::reverb::ReverbView;
use crate::sample::has_neutral_elements;
use crate::sample::one;
use crate::sample::zero;
use crate::sample::Sample;
use crate::side::Side;

verus! {

/// One reverb of each topology.
///
/// Only the reverb of the topology that is in use takes parameters and
/// samples. The others keep what they remember, so that a host that comes
/// back to one of them finds it as it left it.
pub struct Rack<T> {
    comb: Reverb<T>,
    schroeder: Reverb<T>,
    lpf_comb: Reverb<T>,
    moorer: Reverb<T>,
}

/// What a rack holds.
pub struct RackView<T> {
    pub comb: ReverbView<T>,
    pub schroeder: ReverbView<T>,
    pub lpf_comb: ReverbView<T>,
    pub moorer: ReverbView<T>,
}

impl<T> View for Rack<T> {
    type V = RackView<T>;

    closed spec fn view(&self) -> RackView<T> {
        RackView {
            comb: self.comb@,
            schroeder: self.schroeder@,
            lpf_comb: self.lpf_comb@,
            moorer: self.moorer@,
        }
    }
}

impl<T: Copy> Clone for Rack<T> {
    /// A second rack with the same reverbs and the same memory.
    fn clone(&self) -> (r: Self)
        ensures
            r@ == self@,
    {
        Rack {
            comb: self.comb.clone(),
            schroeder: self.schroeder.clone(),
            lpf_comb: self.lpf_comb.clone(),
            moorer: self.moorer.clone(),
        }
    }
}

impl<T: Sample> RackView<T> {
    /// The reverb of a topology.
    pub open spec fn engine(self, reverb_type: ReverbType) -> ReverbView<T> {
        match reverb_type {
            ReverbType::Comb => self.comb,
            ReverbType::Schroeder => self.schroeder,
            ReverbType::LpfComb => self.lpf_comb,
            ReverbType::Moorer => self.moorer,
        }
    }

    /// The rack with the reverb of one topology replaced.
    pub open spec fn with_engine(self, reverb_type: ReverbType, engine: ReverbView<T>) -> Self {
        match reverb_type {
            ReverbType::Comb => RackView { comb: engine, ..self },
            ReverbType::Schroeder => RackView { schroeder: engine, ..self },
            ReverbType::LpfComb => RackView { lpf_comb: engine, ..self },
            ReverbType::Moorer => RackView { moorer: engine, ..self },
        }
    }

    /// Whether the rack holds a reverb of each topology in its place.
    pub open spec fn sorted(self) -> bool {
        &&& self.comb.reverb_type == ReverbType::Comb
        &&& self.schroeder.reverb_type == ReverbType::Schroeder
        &&& self.lpf_comb.reverb_type == ReverbType::LpfComb
        &&& self.moorer.reverb_type == ReverbType::Moorer
    }

    /// The rack after the reverb of one topology has taken new parameters.
    /// The plain comb filters take no damping, and only the two damped
    /// topologies turn the low-pass of their comb filters on.
    pub open spec fn retuned(
        self,
        reverb_type: ReverbType,
        decay: T,
        damping: T,
        comb_type: CombType,
    ) -> Self {
        let engine = self.engine(reverb_type);
        self.with_engine(
            reverb_type,
            match reverb_type {
                ReverbType::Comb => engine.retuned(decay, zero::<T>(), false, comb_type),
                ReverbType::Schroeder => engine.retuned(decay, damping, false, comb_type),
                ReverbType::LpfComb | ReverbType::Moorer => engine.retuned(
                    decay,
                    damping,
                    true,
                    comb_type,
                ),
            },
        )
    }

    /// The sample that leaves the rack for the input `x`: the blend of `x`
    /// with the wet sample of the reverb in use.
    pub open spec fn output(self, reverb_type: ReverbType, side: Side, x: T, dry: T, wet: T) -> T {
        mix_spec(x, self.engine(reverb_type).wet(side, x), dry, wet)
    }

    /// The rack after the reverb in use has taken the input `x`.
    pub open spec fn after(self, reverb_type: ReverbType, side: Side, x: T) -> Self {
        self.with_engine(reverb_type, self.engine(reverb_type).after(side, x))
    }

    /// The rack with every reverb fitted to a new sample rate.
    pub open spec fn resized(self, sample_rate: T) -> Self {
        RackView {
            comb: self.comb.resized(sample_rate),
            schroeder: self.schroeder.resized(sample_rate),
            lpf_comb: self.lpf_comb.resized(sample_rate),
            moorer: self.moorer.resized(sample_rate),
        }
    }
}

/// With a dry gain of one and a wet gain of zero a rack hands every input
/// sample on as it is, whichever topology is in use.
pub proof fn lemma_dry_rack_passes_input<T: Sample>(
    v: RackView<T>,
    reverb_type: ReverbType,
    side: Side,
    x: T,
)
    requires
        has_neutral_elements::<T>(),
    ensures
        v.output(reverb_type, side, x, one::<T>(), zero::<T>()) == x,
{
    lemma_dry_mix_is_input(x, v.engine(reverb_type).wet(side, x));
}

/// The reverbs that are not in use stay as they are, through samples and
/// through changes of parameters: a host that comes back to one of them
/// finds all that it remembered.
pub proof fn lemma_rack_keeps_the_others<T: Sample>(
    v: RackView<T>,
    in_use: ReverbType,
    other: ReverbType,
    side: Side,
    x: T,
    decay: T,
    damping: T,
    comb_type: CombType,
)
    requires
        in_use != other,
    ensures
        v.after(in_use, side, x).engine(other) == v.engine(other),
        v.retuned(in_use, decay, damping, comb_type).engine(other) == v.engine(other),
{
}

impl<T: Sample> Rack<T> {
    /// A rack of four reverbs for `sample_rate` samples per second, each
    /// made with the decay time `decay` and the damping `damp`, and each with
    /// random draws of its own.
    pub fn new(sample_rate: T, decay: T, damp: T) -> (r: Self)
        ensures
            made_from_draws(r@.comb, sample_rate, decay, ReverbType::Comb, damp),
            made_from_draws(r@.schroeder, sample_rate, decay, ReverbType::Schroeder, damp),
            made_from_draws(r@.lpf_comb, sample_rate, decay, ReverbType::LpfComb, damp),
            made_from_draws(r@.moorer, sample_rate, decay, ReverbType::Moorer, damp),
            r@.sorted(),
    {
        Rack {
            comb: Reverb::new(sample_rate, decay, ReverbType::Comb, damp),
            schroeder: Reverb::new(sample_rate, decay, ReverbType::Schroeder, damp),
            lpf_comb: Reverb::new(sample_rate, decay, ReverbType::LpfComb, damp),
            moorer: Reverb::new(sample_rate, decay, ReverbType::Moorer, damp),
        }
    }

    /// Fits every reverb to a new sample rate. All that the rack remembers
    /// is then silence.
    pub fn resize_buffers(&mut self, sample_rate: T)
        ensures
            final(self)@ == old(self)@.resized(sample_rate),
    {
        self.comb.resize_buffers(sample_rate);
        self.schroeder.resize_buffers(sample_rate);
        self.lpf_comb.resize_buffers(sample_rate);
        self.moorer.resize_buffers(sample_rate);
    }

    /// Whether the reverb of a topology can process a sample.
    pub fn is_ready(&self, reverb_type: ReverbType) -> (r: bool)
        ensures
            r == self@.engine(reverb_type).ready(),
    {
        match reverb_type {
            ReverbType::Comb => self.comb.is_ready(),
            ReverbType::Schroeder => self.schroeder.is_ready(),
            ReverbType::LpfComb => self.lpf_comb.is_ready(),
            ReverbType::Moorer => self.moorer.is_ready(),
        }
    }

    /// Hands the parameters of the coming block to the reverb in use.
    pub fn set_params(&mut self, reverb_type: ReverbType, decay: T, damping: T, comb_type: CombType)
        ensures
            final(self)@ == old(self)@.retuned(reverb_type, decay, damping, comb_type),
            old(self)@.engine(reverb_type).ready() ==> final(self)@.engine(reverb_type).ready(),
    {
        match reverb_type {
            ReverbType::Comb => self.comb.set_params_comb(decay, comb_type),
            ReverbType::Schroeder => self.schroeder.set_params_schroeder(decay, damping, comb_type),
            ReverbType::LpfComb => self.lpf_comb.set_params_lpfcomb(decay, damping, comb_type),
            ReverbType::Moorer => self.moorer.set_params_moorer(decay, damping, comb_type),
        }
    }

    /// Takes one sample of the left channel through the reverb in use and
    /// returns it blended with the wet sample.
    pub fn process_left(&mut self, reverb_type: ReverbType, x: T, dry: T, wet: T) -> (y: T)
        requires
            old(self)@.engine(reverb_type).ready(),
        ensures
            y == old(self)@.output(reverb_type, Side::Left, x, dry, wet),
            final(self)@ == old(self)@.after(reverb_type, Side::Left, x),
            final(self)@.engine(reverb_type).ready(),
    {
        let wet_sample: T = match reverb_type {
            ReverbType::Comb => self.comb.process_left(x),
            ReverbType::Schroeder => self.schroeder.process_left(x),
            ReverbType::LpfComb => self.lpf_comb.process_left(x),
            ReverbType::Moorer => self.moorer.process_left(x),
        };
        mix(x, wet_sample, dry, wet)
    }

    /// Takes one sample of the right channel through the reverb in use and
    /// returns it blended with the wet sample.
    pub fn process_right(&mut self, reverb_type: ReverbType, x: T, dry: T, wet: T) -> (y: T)
        requires
            old(self)@.engine(reverb_type).ready(),
        ensures
            y == old(self)@.output(reverb_type, Side::Right, x, dry, wet),
            final(self)@ == old(self)@.after(reverb_type, Side::Right, x),
            final(self)@.engine(reverb_type).ready(),
    {
        let wet_sample: T = match reverb_type {
            ReverbType::Comb => self.comb.process_right(x),
            ReverbType::Schroeder => self.schroeder.process_right(x),
            ReverbType::LpfComb => self.lpf_comb.process_right(x),
            ReverbType::Moorer => self.moorer.process_right(x),
        };
        mix(x, wet_sample, dry, wet)
    }
}

} // verus!
