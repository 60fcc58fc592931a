//! The reverb engine: banks of comb and all-pass filters wired into one of
//! four topologies.
use vstd::prelude::*;
use crate::allpass::AllPassView;
use crate::allpass::DelayingAllPass;
use crate::comb::CombFilter;
use crate::comb::CombType;
use crate::comb::CombView;
use crate::delay::delay_samples_spec;
use crate::draw::draw_below;
use crate::fixed::lemma_exp10_is_ordered;
use crate::fixed::lemma_exp10_of_nonpositive;
use crate::fixed::lemma_quotient_is_ordered;
use crate::fixed::quotient;
use crate::fixed::lemma_quotient_sign;
use crate::fixed::Fixed;
use crate::fixed::ONE_BITS;
use crate::sample::clamp;
use crate::sample::clamp_spec;
use crate::sample::one;
use crate::sample::zero;
use crate::sample::Sample;
use crate::side::Side;

verus! {

/// The way the filters of a reverb are wired.
#[derive(Clone, Copy, Debug, PartialEq, Eq, Structural)]
pub enum ReverbType {
    /// Four comb filters, summed.
    Comb,
    /// Four comb filters, summed with alternating signs, then four
    /// all-pass filters in a row.
    Schroeder,
    /// Six damped comb filters, summed with alternating signs.
    LpfComb,
    /// Six damped comb filters, summed with alternating signs, then four
    /// all-pass filters in a row.
    Moorer,
}

/// The number of random draws that go into a reverb.
pub const DRAWS: usize = 8;

/// A draw counts as a fraction of 23 bits: what a draw holds from this bound
/// on is left aside, and only its remainder counts.
pub const DRAW_BOUND: u32 = 8388608;

impl ReverbType {
    /// The place of the topology among its kind, from zero for the plain
    /// comb filters to three for the last.
    pub open spec fn index_spec(self) -> usize {
        match self {
            ReverbType::Comb => 0,
            ReverbType::Schroeder => 1,
            ReverbType::LpfComb => 2,
            ReverbType::Moorer => 3,
        }
    }

    /// The names of the topologies as a user reads them, in the order of
    /// their places.
    pub fn variants() -> (r: &'static [&'static str])
        ensures
            r@.len() == 4,
            r@[0]@ == "Comb"@,
            r@[1]@ == "Schroeder"@,
            r@[2]@ == "Low-Pass Comb"@,
            r@[3]@ == "Moorer"@,
    {
        &["Comb", "Schroeder", "Low-Pass Comb", "Moorer"]
    }

    /// The names under which the topologies are stored, in the order of
    /// their places.
    pub fn ids() -> (r: Option<&'static [&'static str]>)
        ensures
            r is Some,
            r->0@.len() == 4,
            r->0@[0]@ == "comb"@,
            r->0@[1]@ == "schroeder"@,
            r->0@[2]@ == "lpfcomb"@,
            r->0@[3]@ == "moorer"@,
    {
        Some(&["comb", "schroeder", "lpfcomb", "moorer"])
    }

    /// The place of the topology among its kind.
    pub fn to_index(self) -> (r: usize)
        ensures
            r == self.index_spec(),
    {
        match self {
            ReverbType::Comb => 0,
            ReverbType::Schroeder => 1,
            ReverbType::LpfComb => 2,
            ReverbType::Moorer => 3,
        }
    }

    /// The topology at a place.
    pub fn from_index(index: usize) -> (r: Self)
        requires
            index < 4,
        ensures
            r.index_spec() == index,
    {
        if index == 0 {
            ReverbType::Comb
        } else if index == 1 {
            ReverbType::Schroeder
        } else if index == 2 {
            ReverbType::LpfComb
        } else {
            ReverbType::Moorer
        }
    }

    /// The number of comb filters per channel.
    pub open spec fn comb_count_spec(self) -> usize {
        match self {
            ReverbType::Comb | ReverbType::Schroeder => 4,
            ReverbType::LpfComb | ReverbType::Moorer => 6,
        }
    }

    /// The number of all-pass filters per channel.
    pub open spec fn allpass_count_spec(self) -> usize {
        match self {
            ReverbType::Comb | ReverbType::LpfComb => 0,
            ReverbType::Schroeder | ReverbType::Moorer => 4,
        }
    }

    /// Whether every second comb filter is taken from the sum, not added.
    pub open spec fn alternates_spec(self) -> bool {
        self != ReverbType::Comb
    }

    /// Whether the sum of the comb filters runs through the all-pass
    /// filters.
    pub open spec fn diffuses_spec(self) -> bool {
        self == ReverbType::Schroeder || self == ReverbType::Moorer
    }

    /// Whether the comb filters are damped when the reverb is made.
    pub open spec fn damps_spec(self) -> bool {
        self == ReverbType::LpfComb || self == ReverbType::Moorer
    }

    /// The number of comb filters per channel.
    pub fn comb_count(self) -> (r: usize)
        ensures
            r == self.comb_count_spec(),
    {
        match self {
            ReverbType::Comb | ReverbType::Schroeder => 4,
            ReverbType::LpfComb | ReverbType::Moorer => 6,
        }
    }

    /// The number of all-pass filters per channel.
    pub fn allpass_count(self) -> (r: usize)
        ensures
            r == self.allpass_count_spec(),
    {
        match self {
            ReverbType::Comb | ReverbType::LpfComb => 0,
            ReverbType::Schroeder | ReverbType::Moorer => 4,
        }
    }

    /// Whether every second comb filter is taken from the sum, not added.
    pub fn alternates(self) -> (r: bool)
        ensures
            r == self.alternates_spec(),
    {
        match self {
            ReverbType::Comb => false,
            _ => true,
        }
    }

    /// Whether the sum of the comb filters runs through the all-pass
    /// filters.
    pub fn diffuses(self) -> (r: bool)
        ensures
            r == self.diffuses_spec(),
    {
        match self {
            ReverbType::Schroeder | ReverbType::Moorer => true,
            _ => false,
        }
    }

    /// Whether the comb filters are damped when the reverb is made.
    pub fn damps(self) -> (r: bool)
        ensures
            r == self.damps_spec(),
    {
        match self {
            ReverbType::LpfComb | ReverbType::Moorer => true,
            _ => false,
        }
    }
}

/// The feedback gain with which a comb filter of delay `delay_ms` dies away
/// by 60 dB in `decay` milliseconds: ten to the power of minus three times
/// the delay over the decay, both taken in seconds.
pub open spec fn decay_gain_spec<T: Sample>(delay_ms: T, decay: T) -> T {
    let thousand = T::ratio_spec(1000, 1);
    T::ratio_spec(-3i64, 1).times_spec(delay_ms).over_spec(thousand).over_spec(
        decay.over_spec(thousand),
    ).exp10_spec()
}

/// Computes the feedback gain of a comb filter from its delay and the decay
/// time, both in milliseconds.
pub fn decay_gain<T: Sample>(delay_ms: T, decay: T) -> (g: T)
    ensures
        g == decay_gain_spec(delay_ms, decay),
{
    let thousand: T = T::ratio(1000, 1);
    T::ratio(-3, 1).times(delay_ms).over(thousand).over(decay.over(thousand)).exp10()
}

/// In fixed point, the gain of a comb filter lies between zero and one
/// whenever neither its delay nor the decay time is negative: no echo is
/// louder than the one before.
pub proof fn lemma_fixed_gain_does_not_amplify(delay_ms: Fixed, decay: Fixed)
    requires
        delay_ms.bits >= 0,
        decay.bits >= 0,
    ensures
        0 <= decay_gain_spec(delay_ms, decay).bits <= ONE_BITS,
{
    let thousand = Fixed::ratio_spec(1000, 1);
    let minus_three = Fixed::ratio_spec(-3i64, 1);
    assert(thousand.bits == 1000 * ONE_BITS) by {
        assert(1000 * ONE_BITS / 1 == 1000 * ONE_BITS);
    }
    assert(minus_three.bits == -3 * ONE_BITS) by {
        assert(3 * ONE_BITS / 1 == 3 * ONE_BITS);
    }
    let scaled = minus_three.times_spec(delay_ms);
    assert(scaled.bits <= 0) by {
        assert(minus_three.bits * delay_ms.bits <= 0) by (nonlinear_arith)
            requires
                minus_three.bits < 0,
                delay_ms.bits >= 0,
        ;
        lemma_quotient_sign(minus_three.bits * delay_ms.bits, ONE_BITS as int);
    }
    let seconds = scaled.over_spec(thousand);
    assert(seconds.bits <= 0) by {
        assert(scaled.bits * ONE_BITS <= 0);
        lemma_quotient_sign(scaled.bits * ONE_BITS, thousand.bits as int);
    }
    let span = decay.over_spec(thousand);
    assert(span.bits >= 0) by {
        assert(decay.bits * ONE_BITS >= 0);
        lemma_quotient_sign(decay.bits * ONE_BITS, thousand.bits as int);
    }
    let power = seconds.over_spec(span);
    assert(power.bits <= 0) by {
        if span.bits != 0 {
            assert(seconds.bits * ONE_BITS <= 0);
            lemma_quotient_sign(seconds.bits * ONE_BITS, span.bits as int);
        }
    }
    lemma_exp10_of_nonpositive(power.bits as int);
}

/// In fixed point, a longer decay time and a shorter delay never give the
/// lesser gain: of two comb filters tuned to one decay time the one with the
/// longer delay has the gain that is no greater, and a filter's gain does
/// not fall when the decay time grows.
pub proof fn lemma_fixed_gain_is_ordered(
    short_delay: Fixed,
    long_delay: Fixed,
    short_decay: Fixed,
    long_decay: Fixed,
)
    requires
        0 <= short_delay.bits <= long_delay.bits,
        0 <= short_decay.bits <= long_decay.bits,
    ensures
        decay_gain_spec(long_delay, short_decay).bits <= decay_gain_spec(
            short_delay,
            long_decay,
        ).bits,
{
    let one = ONE_BITS as int;
    let thousand = Fixed::ratio_spec(1000, 1);
    let minus_three = Fixed::ratio_spec(-3i64, 1);
    assert(thousand.bits == 1000 * ONE_BITS) by {
        assert(1000 * ONE_BITS / 1 == 1000 * ONE_BITS);
    }
    assert(minus_three.bits == -3 * ONE_BITS) by {
        assert(3 * ONE_BITS / 1 == 3 * ONE_BITS);
    }
    // minus three times the delay: the longer delay gives the lesser
    let low = minus_three.times_spec(long_delay);
    let high = minus_three.times_spec(short_delay);
    assert(low.bits <= high.bits <= 0) by {
        assert(minus_three.bits * long_delay.bits <= minus_three.bits * short_delay.bits <= 0)
            by (nonlinear_arith)
            requires
                minus_three.bits < 0,
                0 <= short_delay.bits <= long_delay.bits,
        ;
        lemma_quotient_is_ordered(
            minus_three.bits * long_delay.bits,
            minus_three.bits * short_delay.bits,
            one,
        );
        lemma_quotient_sign(minus_three.bits * short_delay.bits, one);
    }
    // in seconds
    let low_seconds = low.over_spec(thousand);
    let high_seconds = high.over_spec(thousand);
    assert(low_seconds.bits <= high_seconds.bits <= 0) by {
        lemma_quotient_is_ordered(low.bits * one, high.bits * one, thousand.bits as int);
        lemma_quotient_sign(high.bits * one, thousand.bits as int);
    }
    // the decay times in seconds
    let short_span = short_decay.over_spec(thousand);
    let long_span = long_decay.over_spec(thousand);
    assert(0 <= short_span.bits <= long_span.bits) by {
        lemma_quotient_is_ordered(
            short_decay.bits * one,
            long_decay.bits * one,
            thousand.bits as int,
        );
        lemma_quotient_sign(short_decay.bits * one, thousand.bits as int);
    }
    // the power
    let low_power = low_seconds.over_spec(short_span);
    let high_power = high_seconds.over_spec(long_span);
    assert(low_power.bits <= high_power.bits) by {
        if long_span.bits == 0 {
        } else if short_span.bits == 0 {
            if low_seconds.bits == 0 {
                assert(high_seconds.bits == 0);
                assert(quotient(0 * one, long_span.bits as int) == 0) by {
                    vstd::arithmetic::div_mod::lemma_div_basics_1(long_span.bits as int);
                }
            }
        } else {
            let n1 = -(low_seconds.bits * one);
            let n2 = -(high_seconds.bits * one);
            let d1 = short_span.bits as int;
            let d2 = long_span.bits as int;
            assert(0 <= n2 <= n1);
            vstd::arithmetic::div_mod::lemma_div_is_ordered(n2, n1, d1);
            vstd::arithmetic::div_mod::lemma_div_is_ordered_by_denominator(n2, d1, d2);
            assert(n2 / d2 <= n1 / d1);
            vstd::arithmetic::div_mod::lemma_div_basics_4(n2, d2);
            vstd::arithmetic::div_mod::lemma_div_basics_4(n1, d1);
            assert(quotient(low_seconds.bits * one, d1) == -(n1 / d1)) by {
                if n1 == 0 {
                    vstd::arithmetic::div_mod::lemma_div_basics_1(d1);
                }
            }
            assert(quotient(high_seconds.bits * one, d2) == -(n2 / d2)) by {
                if n2 == 0 {
                    vstd::arithmetic::div_mod::lemma_div_basics_1(d2);
                }
            }
        }
    }
    lemma_exp10_is_ordered(low_power.bits as int, high_power.bits as int);
}

/// The largest coefficient that the damping takes.
pub open spec fn damp_limit<T: Sample>() -> T {
    T::ratio_spec(9999, 10000)
}

/// A comb filter with the parameters that a decay time, a damping and a
/// type give it. The gain follows from the filter's own delay. Where the
/// filter is damped, the damping is held between zero and its limit, and the
/// gain is scaled by one minus the damping; where it is not, the damping is
/// stored as it is given and the low-pass stays off.
pub open spec fn tuned<T: Sample>(
    comb: CombView<T>,
    decay: T,
    damp: T,
    damped: bool,
    comb_type: CombType,
) -> CombView<T> {
    let g = decay_gain_spec(comb.delay_ms, decay);
    if damped {
        let held = clamp_spec(damp, zero::<T>(), damp_limit::<T>());
        comb.with_params(g.times_spec(one::<T>().minus_spec(held)), true, held, comb_type)
    } else {
        comb.with_params(g, false, damp, comb_type)
    }
}

/// A bank of comb filters, each with new parameters.
pub open spec fn tuned_bank<T: Sample>(
    bank: Seq<CombView<T>>,
    decay: T,
    damp: T,
    damped: bool,
    comb_type: CombType,
) -> Seq<CombView<T>> {
    Seq::new(bank.len(), |i: int| tuned(bank[i], decay, damp, damped, comb_type))
}

/// The nominal delay, in milliseconds, of the comb filter at `index` in the
/// topology of plain comb filters.
pub open spec fn base_delay_spec(index: int) -> i64 {
    if index == 0 {
        21
    } else if index == 1 {
        26
    } else if index == 2 {
        31
    } else {
        37
    }
}

/// The offset, in milliseconds, that a draw adds to a nominal delay: the
/// draw as a fraction of its bound, less one half. It is at least minus one
/// half and less than one half, whatever the draw.
pub open spec fn jitter_spec<T: Sample>(draw: u32) -> T {
    T::ratio_spec((draw % DRAW_BOUND - 4194304) as i64, 8388608)
}

/// The delay, in milliseconds, that a draw gives an all-pass filter: one
/// plus four times the draw as a fraction of its bound. It is at least one
/// and less than five, whatever the draw.
pub open spec fn allpass_delay_spec<T: Sample>(draw: u32) -> T {
    T::ratio_spec((draw % DRAW_BOUND + 2097152) as i64, 2097152)
}

/// In fixed point every draw, whatever it holds, moves a delay by at least
/// minus half a millisecond and by less than half a millisecond, and gives
/// an all-pass filter a delay of at least one millisecond and less than
/// five.
pub proof fn lemma_fixed_draws_stay_in_range(draw: u32)
    ensures
        -(ONE_BITS / 2) <= jitter_spec::<Fixed>(draw).bits < ONE_BITS / 2,
        ONE_BITS <= allpass_delay_spec::<Fixed>(draw).bits < 5 * ONE_BITS,
{
    let fraction = draw % DRAW_BOUND;
    assert(0 <= fraction < 8388608);
    let moved = (fraction - 4194304) as int;
    assert(jitter_spec::<Fixed>(draw).bits == moved * 512) by {
        if moved < 0 {
            assert((-moved * 4294967296) / 8388608 == -moved * 512);
        } else {
            assert((moved * 4294967296) / 8388608 == moved * 512);
        }
    }
    let raised = (fraction + 2097152) as int;
    assert(allpass_delay_spec::<Fixed>(draw).bits == raised * 2048) by {
        assert((raised * 4294967296) / 2097152 == raised * 2048);
    }
}

/// In fixed point and at 44100 samples per second, the delays of the four
/// plain comb filters of a channel lie in four ranges of samples that do not
/// meet, whatever the draws: no two of the filters echo an impulse at the
/// same sample for the first time.
pub proof fn lemma_fixed_comb_delays_do_not_meet(draws: Seq<u32>, side: Side, index: int)
    requires
        draws.len() == DRAWS,
        0 <= index < 4,
    ensures
        ({
            let delay = delay_samples_spec(
                comb_delay_spec::<Fixed>(ReverbType::Comb, side, index, draws),
                Fixed::ratio_spec(44100, 1),
            );
            &&& index == 0 ==> 904 <= delay <= 948
            &&& index == 1 ==> 1125 <= delay <= 1169
            &&& index == 2 ==> 1345 <= delay <= 1389
            &&& index == 3 ==> 1610 <= delay <= 1654
        }),
{
    let draw = draws[draw_index(side, index)];
    lemma_fixed_draws_stay_in_range(draw);
    let base = Fixed::ratio_spec(base_delay_spec(index), 1);
    assert(base.bits == base_delay_spec(index) * ONE_BITS) by {
        assert(base_delay_spec(index) * ONE_BITS / 1 == base_delay_spec(index) * ONE_BITS);
    }
    let delay_ms = base.plus_spec(jitter_spec::<Fixed>(draw));
    let thousand = Fixed::ratio_spec(1000, 1);
    assert(thousand.bits == 1000 * ONE_BITS) by {
        assert(1000 * ONE_BITS / 1 == 1000 * ONE_BITS);
    }
    let rate = Fixed::ratio_spec(44100, 1);
    assert(rate.bits == 44100 * ONE_BITS) by {
        assert(44100 * ONE_BITS / 1 == 44100 * ONE_BITS);
    }
    let ms = delay_ms.bits as int;
    assert(20 * 4294967296 <= ms <= 38 * 4294967296);
    let seconds = delay_ms.over_spec(thousand);
    let wide_seconds = ms * 4294967296;
    assert(quotient(wide_seconds, 4294967296000) == wide_seconds / 4294967296000);
    let s = seconds.bits as int;
    assert(s == wide_seconds / 4294967296000);
    assert(0 <= s <= 4294967296);
    let samples = seconds.times_spec(rate);
    let wide_samples = s * 189408057753600;
    assert(s * rate.bits == wide_samples);
    assert(quotient(wide_samples, 4294967296) == wide_samples / 4294967296);
    assert(samples.bits == wide_samples / 4294967296);
}

/// The delay, in milliseconds, from which the delays of a channel grow.
pub open spec fn seed_delay_spec<T: Sample>(side: Side) -> T {
    match side {
        Side::Left => T::ratio_spec(1502, 100),
        Side::Right => T::ratio_spec(1501, 100),
    }
}

/// `seed` multiplied by three halves, `steps` times over.
pub open spec fn grown_spec<T: Sample>(seed: T, steps: nat) -> T
    decreases steps,
{
    if steps == 0 {
        seed
    } else {
        grown_spec(seed, (steps - 1) as nat).times_spec(T::ratio_spec(3, 2))
    }
}

/// The place of a channel's draw for the filter at `index`: the draws of the
/// two channels take turns, the left one first.
pub open spec fn draw_index(side: Side, index: int) -> int {
    match side {
        Side::Left => 2 * index,
        Side::Right => 2 * index + 1,
    }
}

/// The delay, in milliseconds, of the comb filter at `index` of one channel.
/// Plain comb filters have a nominal delay each, moved by a draw; in the
/// other topologies each delay is three halves of the one before.
pub open spec fn comb_delay_spec<T: Sample>(
    reverb_type: ReverbType,
    side: Side,
    index: int,
    draws: Seq<u32>,
) -> T {
    if reverb_type == ReverbType::Comb {
        T::ratio_spec(base_delay_spec(index), 1).plus_spec(
            jitter_spec::<T>(draws[draw_index(side, index)]),
        )
    } else {
        grown_spec(seed_delay_spec::<T>(side), (index + 1) as nat)
    }
}

/// The gain of every all-pass filter.
pub open spec fn allpass_gain<T: Sample>() -> T {
    T::ratio_spec(707, 1000)
}

/// The comb filter at `index` of one channel, as a reverb is made with it.
pub open spec fn built_comb<T: Sample>(
    sample_rate: T,
    decay: T,
    reverb_type: ReverbType,
    damp: T,
    side: Side,
    index: int,
    draws: Seq<u32>,
) -> CombView<T> {
    let delay_ms = comb_delay_spec::<T>(reverb_type, side, index, draws);
    let fresh = CombView::fresh(
        sample_rate,
        CombType::Positive,
        delay_ms,
        decay_gain_spec(delay_ms, decay),
        false,
    );
    if reverb_type == ReverbType::Comb {
        tuned(fresh, decay, zero::<T>(), false, CombType::Positive)
    } else {
        tuned(fresh, decay, damp, reverb_type.damps_spec(), CombType::Positive)
    }
}

/// The all-pass filter at `index` of one channel, as a reverb is made with
/// it.
pub open spec fn built_allpass<T: Sample>(
    sample_rate: T,
    side: Side,
    index: int,
    draws: Seq<u32>,
) -> AllPassView<T> {
    AllPassView::fresh(
        sample_rate,
        allpass_delay_spec::<T>(draws[draw_index(side, index)]),
        allpass_gain::<T>(),
    )
}

/// The samples that the comb filters of a bank put out for the input `x`.
pub open spec fn bank_outputs<T: Sample>(bank: Seq<CombView<T>>, side: Side, x: T) -> Seq<T> {
    Seq::new(bank.len(), |i: int| bank[i].output_on(side, x))
}

/// A bank of comb filters after each has taken the input `x`.
pub open spec fn bank_after<T: Sample>(bank: Seq<CombView<T>>, side: Side, x: T) -> Seq<
    CombView<T>,
> {
    Seq::new(bank.len(), |i: int| bank[i].after(side, x))
}

/// The first `count` of `outputs` summed up from zero, in order. Where the
/// sum alternates, the outputs at odd places are taken from it.
pub open spec fn mixed<T: Sample>(outputs: Seq<T>, alternate: bool, count: nat) -> T
    decreases count,
{
    if count == 0 {
        zero::<T>()
    } else {
        let before = mixed(outputs, alternate, (count - 1) as nat);
        if alternate && (count - 1) % 2 == 1 {
            before.minus_spec(outputs[count - 1])
        } else {
            before.plus_spec(outputs[count - 1])
        }
    }
}

/// The sum of a bank brought to level: a quarter of it for the banks of
/// four, a sixth of it for the banks of six.
pub open spec fn leveled<T: Sample>(reverb_type: ReverbType, sum: T) -> T {
    match reverb_type {
        ReverbType::Comb | ReverbType::Schroeder => sum.times_spec(T::ratio_spec(1, 4)),
        ReverbType::LpfComb | ReverbType::Moorer => sum.over_spec(T::ratio_spec(6, 1)),
    }
}

/// The sample `y` after the first `count` filters of a chain of all-pass
/// filters, each fed with what the one before put out.
pub open spec fn diffused<T: Sample>(chain: Seq<AllPassView<T>>, side: Side, y: T, count: nat) -> T
    decreases count,
{
    if count == 0 {
        y
    } else {
        chain[count - 1].output_on(side, diffused(chain, side, y, (count - 1) as nat))
    }
}

/// A chain of all-pass filters after the sample `y` has run through it.
pub open spec fn chain_after<T: Sample>(chain: Seq<AllPassView<T>>, side: Side, y: T) -> Seq<
    AllPassView<T>,
> {
    Seq::new(chain.len(), |i: int| chain[i].after(side, diffused(chain, side, y, i as nat)))
}

/// What a reverb holds.
pub struct ReverbView<T> {
    pub left_combs: Seq<CombView<T>>,
    pub right_combs: Seq<CombView<T>>,
    pub left_allpasses: Seq<AllPassView<T>>,
    pub right_allpasses: Seq<AllPassView<T>>,
    /// The decay time in milliseconds.
    pub decay: T,
    pub reverb_type: ReverbType,
    pub sample_rate: T,
}

impl<T: Sample> ReverbView<T> {
    /// The comb filters of one channel.
    pub open spec fn combs(self, side: Side) -> Seq<CombView<T>> {
        match side {
            Side::Left => self.left_combs,
            Side::Right => self.right_combs,
        }
    }

    /// The all-pass filters of one channel.
    pub open spec fn allpasses(self, side: Side) -> Seq<AllPassView<T>> {
        match side {
            Side::Left => self.left_allpasses,
            Side::Right => self.right_allpasses,
        }
    }

    /// Whether every filter that the topology uses can process a sample. A
    /// reverb processes samples only while this holds.
    pub open spec fn ready(self) -> bool {
        &&& forall|i: int|
            0 <= i < self.left_combs.len() ==> (#[trigger] self.left_combs[i]).ready()
        &&& forall|i: int|
            0 <= i < self.right_combs.len() ==> (#[trigger] self.right_combs[i]).ready()
        &&& self.reverb_type.diffuses_spec() ==> {
            &&& forall|i: int|
                0 <= i < self.left_allpasses.len() ==> (#[trigger] self.left_allpasses[i]).ready()
            &&& forall|i: int|
                0 <= i < self.right_allpasses.len() ==> (
                #[trigger] self.right_allpasses[i]).ready()
        }
    }

    /// Whether all that the filters remember is silence.
    pub open spec fn silent(self) -> bool {
        &&& forall|i: int|
            0 <= i < self.left_combs.len() ==> (#[trigger] self.left_combs[i]).silent()
        &&& forall|i: int|
            0 <= i < self.right_combs.len() ==> (#[trigger] self.right_combs[i]).silent()
        &&& forall|i: int|
            0 <= i < self.left_allpasses.len() ==> (#[trigger] self.left_allpasses[i]).silent()
        &&& forall|i: int|
            0 <= i < self.right_allpasses.len() ==> (#[trigger] self.right_allpasses[i]).silent()
    }

    /// Whether the banks have the sizes of the topology.
    pub open spec fn shaped(self) -> bool {
        &&& self.left_combs.len() == self.reverb_type.comb_count_spec()
        &&& self.right_combs.len() == self.reverb_type.comb_count_spec()
        &&& self.left_allpasses.len() == self.reverb_type.allpass_count_spec()
        &&& self.right_allpasses.len() == self.reverb_type.allpass_count_spec()
    }

    /// The sum of one channel's comb filters for the input `x`, brought to
    /// level.
    pub open spec fn comb_stage(self, side: Side, x: T) -> T {
        let bank = self.combs(side);
        leveled(
            self.reverb_type,
            mixed(bank_outputs(bank, side, x), self.reverb_type.alternates_spec(), bank.len()),
        )
    }

    /// The wet sample that one channel puts out for the input `x`.
    pub open spec fn wet(self, side: Side, x: T) -> T {
        let y = self.comb_stage(side, x);
        if self.reverb_type.diffuses_spec() {
            let chain = self.allpasses(side);
            diffused(chain, side, y, chain.len())
        } else {
            y
        }
    }

    /// The reverb after the input `x` on one channel: every comb filter of
    /// that channel has taken `x`, and, where the topology has them, the
    /// all-pass filters have passed the sum on. The other channel stays as
    /// it is.
    pub open spec fn after(self, side: Side, x: T) -> Self {
        let combs = bank_after(self.combs(side), side, x);
        let allpasses = if self.reverb_type.diffuses_spec() {
            chain_after(self.allpasses(side), side, self.comb_stage(side, x))
        } else {
            self.allpasses(side)
        };
        match side {
            Side::Left => ReverbView { left_combs: combs, left_allpasses: allpasses, ..self },
            Side::Right => ReverbView { right_combs: combs, right_allpasses: allpasses, ..self },
        }
    }

    /// The reverb with a new decay time and every comb filter tuned to it.
    pub open spec fn retuned(self, decay: T, damp: T, damped: bool, comb_type: CombType) -> Self {
        ReverbView {
            decay,
            left_combs: tuned_bank(self.left_combs, decay, damp, damped, comb_type),
            right_combs: tuned_bank(self.right_combs, decay, damp, damped, comb_type),
            ..self
        }
    }

    /// The reverb with every filter fitted to a new sample rate and quiet.
    pub open spec fn resized(self, sample_rate: T) -> Self {
        ReverbView {
            sample_rate,
            left_combs: Seq::new(
                self.left_combs.len(),
                |i: int| self.left_combs[i].resized(sample_rate),
            ),
            right_combs: Seq::new(
                self.right_combs.len(),
                |i: int| self.right_combs[i].resized(sample_rate),
            ),
            left_allpasses: Seq::new(
                self.left_allpasses.len(),
                |i: int| self.left_allpasses[i].resized(sample_rate),
            ),
            right_allpasses: Seq::new(
                self.right_allpasses.len(),
                |i: int| self.right_allpasses[i].resized(sample_rate),
            ),
            ..self
        }
    }

    /// The reverb that is made from a sample rate, a decay time, a topology,
    /// a damping and eight draws.
    pub open spec fn built(
        sample_rate: T,
        decay: T,
        reverb_type: ReverbType,
        damp: T,
        draws: Seq<u32>,
    ) -> Self {
        ReverbView {
            left_combs: Seq::new(
                reverb_type.comb_count_spec() as nat,
                |i: int| built_comb(sample_rate, decay, reverb_type, damp, Side::Left, i, draws),
            ),
            right_combs: Seq::new(
                reverb_type.comb_count_spec() as nat,
                |i: int| built_comb(sample_rate, decay, reverb_type, damp, Side::Right, i, draws),
            ),
            left_allpasses: Seq::new(
                reverb_type.allpass_count_spec() as nat,
                |i: int| built_allpass(sample_rate, Side::Left, i, draws),
            ),
            right_allpasses: Seq::new(
                reverb_type.allpass_count_spec() as nat,
                |i: int| built_allpass(sample_rate, Side::Right, i, draws),
            ),
            decay,
            reverb_type,
            sample_rate,
        }
    }
}

/// After a change of the sample rate all that a reverb remembers is
/// silence, whatever it remembered before, and its banks are as large as
/// they were.
pub proof fn lemma_resized_is_silent<T: Sample>(v: ReverbView<T>, sample_rate: T)
    ensures
        v.resized(sample_rate).silent(),
        v.shaped() ==> v.resized(sample_rate).shaped(),
{
    let after = v.resized(sample_rate);
    assert forall|i: int| 0 <= i < after.left_combs.len() implies (
    #[trigger] after.left_combs[i]).silent() by {
        assert(after.left_combs[i] == v.left_combs[i].resized(sample_rate));
    }
    assert forall|i: int| 0 <= i < after.right_combs.len() implies (
    #[trigger] after.right_combs[i]).silent() by {
        assert(after.right_combs[i] == v.right_combs[i].resized(sample_rate));
    }
    assert forall|i: int| 0 <= i < after.left_allpasses.len() implies (
    #[trigger] after.left_allpasses[i]).silent() by {
        assert(after.left_allpasses[i] == v.left_allpasses[i].resized(sample_rate));
    }
    assert forall|i: int| 0 <= i < after.right_allpasses.len() implies (
    #[trigger] after.right_allpasses[i]).silent() by {
        assert(after.right_allpasses[i] == v.right_allpasses[i].resized(sample_rate));
    }
}

/// Whether a reverb is one that [`ReverbView::built`] makes from some eight
/// draws below their bound.
pub open spec fn made_from_draws<T: Sample>(
    v: ReverbView<T>,
    sample_rate: T,
    decay: T,
    reverb_type: ReverbType,
    damp: T,
) -> bool {
    exists|draws: Seq<u32>|
        {
            &&& draws.len() == DRAWS
            &&& forall|i: int| 0 <= i < draws.len() ==> draws[i] < DRAW_BOUND
            &&& v == #[trigger] ReverbView::built(sample_rate, decay, reverb_type, damp, draws)
        }
}

/// Processing a sample on one channel leaves the other channel as it is:
/// what the other channel puts out next, and what it remembers after that,
/// is what it would have been without the sample.
pub proof fn lemma_channels_do_not_mix<T: Sample>(v: ReverbView<T>, x: T, y: T)
    ensures
        v.after(Side::Left, x).wet(Side::Right, y) == v.wet(Side::Right, y),
        v.after(Side::Right, x).wet(Side::Left, y) == v.wet(Side::Left, y),
        v.after(Side::Left, x).after(Side::Right, y) == v.after(Side::Right, y).after(
            Side::Left,
            x,
        ),
{
}

/// A sample changes neither the sizes of the banks nor whether the reverb
/// can process samples: a reverb that is ready stays ready for as long as
/// it is only fed.
pub proof fn lemma_after_keeps_ready<T: Sample>(v: ReverbView<T>, side: Side, x: T)
    ensures
        v.shaped() ==> v.after(side, x).shaped(),
        v.ready() ==> v.after(side, x).ready(),
{
    let after = v.after(side, x);
    if v.ready() {
        assert forall|i: int| 0 <= i < after.left_combs.len() implies (
        #[trigger] after.left_combs[i]).ready() by {
            assert(v.left_combs[i].ready());
        }
        assert forall|i: int| 0 <= i < after.right_combs.len() implies (
        #[trigger] after.right_combs[i]).ready() by {
            assert(v.right_combs[i].ready());
        }
        if v.reverb_type.diffuses_spec() {
            assert forall|i: int| 0 <= i < after.left_allpasses.len() implies (
            #[trigger] after.left_allpasses[i]).ready() by {
                assert(v.left_allpasses[i].ready());
            }
            assert forall|i: int| 0 <= i < after.right_allpasses.len() implies (
            #[trigger] after.right_allpasses[i]).ready() by {
                assert(v.right_allpasses[i].ready());
            }
        }
    }
}

/// New parameters leave every comb filter its delay, in milliseconds and
/// in samples, and all that it remembers: the spread that the draws gave the
/// delays outlives every change of parameters, and the gain of each filter
/// follows from its own delay.
pub proof fn lemma_retuned_keeps_delays<T: Sample>(
    v: ReverbView<T>,
    decay: T,
    damp: T,
    damped: bool,
    comb_type: CombType,
    side: Side,
    index: int,
)
    requires
        0 <= index < v.combs(side).len(),
    ensures
        ({
            let before = v.combs(side)[index];
            let after = v.retuned(decay, damp, damped, comb_type).combs(side)[index];
            &&& after.delay_ms == before.delay_ms
            &&& after.delay_samples == before.delay_samples
            &&& after.left.delay.written == before.left.delay.written
            &&& after.left.feedback == before.left.feedback
            &&& after.left.input == before.left.input
            &&& after.right.delay.written == before.right.delay.written
            &&& after.right.feedback == before.right.feedback
            &&& after.right.input == before.right.input
            &&& !damped ==> after.feedback == decay_gain_spec(before.delay_ms, decay)
        }),
{
}

/// New parameters change neither the sizes of the banks nor whether the
/// reverb can process samples.
pub proof fn lemma_retuned_keeps_ready<T: Sample>(
    v: ReverbView<T>,
    decay: T,
    damp: T,
    damped: bool,
    comb_type: CombType,
)
    ensures
        v.shaped() ==> v.retuned(decay, damp, damped, comb_type).shaped(),
        v.ready() ==> v.retuned(decay, damp, damped, comb_type).ready(),
{
    let after = v.retuned(decay, damp, damped, comb_type);
    if v.ready() {
        assert forall|i: int| 0 <= i < after.left_combs.len() implies (
        #[trigger] after.left_combs[i]).ready() by {
            assert(v.left_combs[i].ready());
        }
        assert forall|i: int| 0 <= i < after.right_combs.len() implies (
        #[trigger] after.right_combs[i]).ready() by {
            assert(v.right_combs[i].ready());
        }
    }
}

/// The views of a bank of comb filters, in order.
pub open spec fn comb_views<T>(bank: Seq<CombFilter<T>>) -> Seq<CombView<T>> {
    Seq::new(bank.len(), |i: int| bank[i]@)
}

/// The views of a chain of all-pass filters, in order.
pub open spec fn allpass_views<T>(chain: Seq<DelayingAllPass<T>>) -> Seq<AllPassView<T>> {
    Seq::new(chain.len(), |i: int| chain[i]@)
}

/// A stereo reverb.
///
/// It holds a bank of comb filters for each channel and, in two of its
/// topologies, a chain of all-pass filters for each. The two channels never
/// feed each other.
pub struct Reverb<T> {
    left_combs: Vec<CombFilter<T>>,
    right_combs: Vec<CombFilter<T>>,
    left_allpasses: Vec<DelayingAllPass<T>>,
    right_allpasses: Vec<DelayingAllPass<T>>,
    decay: T,
    reverb_type: ReverbType,
    sample_rate: T,
}

impl<T> View for Reverb<T> {
    type V = ReverbView<T>;

    closed spec fn view(&self) -> ReverbView<T> {
        ReverbView {
            left_combs: comb_views(self.left_combs@),
            right_combs: comb_views(self.right_combs@),
            left_allpasses: allpass_views(self.left_allpasses@),
            right_allpasses: allpass_views(self.right_allpasses@),
            decay: self.decay,
            reverb_type: self.reverb_type,
            sample_rate: self.sample_rate,
        }
    }
}

fn clone_combs<T: Copy>(bank: &Vec<CombFilter<T>>) -> (r: Vec<CombFilter<T>>)
    ensures
        comb_views(r@) == comb_views(bank@),
{
    let n: usize = bank.len();
    let mut r: Vec<CombFilter<T>> = Vec::new();
    let mut i: usize = 0;
    while i < n
        invariant
            i <= n,
            n == bank@.len(),
            r@.len() == i,
            forall|k: int| 0 <= k < i ==> (#[trigger] r@[k])@ == bank@[k]@,
        decreases n - i,
    {
        r.push(bank[i].clone());
        i += 1;
    }
    assert(comb_views(r@) =~= comb_views(bank@));
    r
}

fn clone_allpasses<T: Copy>(chain: &Vec<DelayingAllPass<T>>) -> (r: Vec<DelayingAllPass<T>>)
    ensures
        allpass_views(r@) == allpass_views(chain@),
{
    let n: usize = chain.len();
    let mut r: Vec<DelayingAllPass<T>> = Vec::new();
    let mut i: usize = 0;
    while i < n
        invariant
            i <= n,
            n == chain@.len(),
            r@.len() == i,
            forall|k: int| 0 <= k < i ==> (#[trigger] r@[k])@ == chain@[k]@,
        decreases n - i,
    {
        r.push(chain[i].clone());
        i += 1;
    }
    assert(allpass_views(r@) =~= allpass_views(chain@));
    r
}

impl<T: Copy> Clone for Reverb<T> {
    /// A second reverb with the same filters and the same memory.
    fn clone(&self) -> (r: Self)
        ensures
            r@ == self@,
    {
        Reverb {
            left_combs: clone_combs(&self.left_combs),
            right_combs: clone_combs(&self.right_combs),
            left_allpasses: clone_allpasses(&self.left_allpasses),
            right_allpasses: clone_allpasses(&self.right_allpasses),
            decay: self.decay,
            reverb_type: self.reverb_type,
            sample_rate: self.sample_rate,
        }
    }
}

fn tune<T: Sample>(comb: &mut CombFilter<T>, decay: T, damp: T, damped: bool, comb_type: CombType)
    ensures
        final(comb)@ == tuned(old(comb)@, decay, damp, damped, comb_type),
{
    let g: T = decay_gain(comb.get_delay_ms(), decay);
    if damped {
        let held: T = clamp(damp, T::ratio(0, 1), T::ratio(9999, 10000));
        let scaled: T = g.times(T::ratio(1, 1).minus(held));
        comb.set_params(scaled, true, held, comb_type);
    } else {
        comb.set_params(g, false, damp, comb_type);
    }
}

fn tune_bank<T: Sample>(
    bank: &mut Vec<CombFilter<T>>,
    decay: T,
    damp: T,
    damped: bool,
    comb_type: CombType,
)
    ensures
        comb_views(final(bank)@) == tuned_bank(
            comb_views(old(bank)@),
            decay,
            damp,
            damped,
            comb_type,
        ),
{
    let n: usize = bank.len();
    let mut i: usize = 0;
    while i < n
        invariant
            i <= n,
            bank@.len() == n,
            old(bank)@.len() == n,
            forall|k: int|
                0 <= k < i ==> (#[trigger] bank@[k])@ == tuned(
                    old(bank)@[k]@,
                    decay,
                    damp,
                    damped,
                    comb_type,
                ),
            forall|k: int| i <= k < n ==> (#[trigger] bank@[k]) == old(bank)@[k],
        decreases n - i,
    {
        tune(&mut bank[i], decay, damp, damped, comb_type);
        i += 1;
    }
    assert(comb_views(bank@) =~= tuned_bank(
        comb_views(old(bank)@),
        decay,
        damp,
        damped,
        comb_type,
    ));
}

fn resize_combs<T: Sample>(bank: &mut Vec<CombFilter<T>>, sample_rate: T)
    ensures
        comb_views(final(bank)@) == Seq::new(
            old(bank)@.len(),
            |i: int| old(bank)@[i]@.resized(sample_rate),
        ),
{
    let n: usize = bank.len();
    let mut i: usize = 0;
    while i < n
        invariant
            i <= n,
            bank@.len() == n,
            old(bank)@.len() == n,
            forall|k: int|
                0 <= k < i ==> (#[trigger] bank@[k])@ == old(bank)@[k]@.resized(sample_rate),
            forall|k: int| i <= k < n ==> (#[trigger] bank@[k]) == old(bank)@[k],
        decreases n - i,
    {
        bank[i].resize_buffers(sample_rate);
        i += 1;
    }
    assert(comb_views(bank@) =~= Seq::new(
        old(bank)@.len(),
        |i: int| old(bank)@[i]@.resized(sample_rate),
    ));
}

fn resize_allpasses<T: Sample>(chain: &mut Vec<DelayingAllPass<T>>, sample_rate: T)
    ensures
        allpass_views(final(chain)@) == Seq::new(
            old(chain)@.len(),
            |i: int| old(chain)@[i]@.resized(sample_rate),
        ),
{
    let n: usize = chain.len();
    let mut i: usize = 0;
    while i < n
        invariant
            i <= n,
            chain@.len() == n,
            old(chain)@.len() == n,
            forall|k: int|
                0 <= k < i ==> (#[trigger] chain@[k])@ == old(chain)@[k]@.resized(sample_rate),
            forall|k: int| i <= k < n ==> (#[trigger] chain@[k]) == old(chain)@[k],
        decreases n - i,
    {
        chain[i].resize_buffers(sample_rate);
        i += 1;
    }
    assert(allpass_views(chain@) =~= Seq::new(
        old(chain)@.len(),
        |i: int| old(chain)@[i]@.resized(sample_rate),
    ));
}

fn combs_ready<T: Sample>(bank: &Vec<CombFilter<T>>) -> (r: bool)
    ensures
        r == forall|i: int| 0 <= i < bank@.len() ==> (#[trigger] comb_views(bank@)[i]).ready(),
{
    let n: usize = bank.len();
    let mut i: usize = 0;
    while i < n
        invariant
            i <= n,
            bank@.len() == n,
            forall|k: int| 0 <= k < i ==> (#[trigger] comb_views(bank@)[k]).ready(),
        decreases n - i,
    {
        if !bank[i].is_ready() {
            assert(!comb_views(bank@)[i as int].ready());
            return false;
        }
        i += 1;
    }
    true
}

fn allpasses_ready<T: Sample>(chain: &Vec<DelayingAllPass<T>>) -> (r: bool)
    ensures
        r == forall|i: int| 0 <= i < chain@.len() ==> (#[trigger] allpass_views(chain@)[i]).ready(),
{
    let n: usize = chain.len();
    let mut i: usize = 0;
    while i < n
        invariant
            i <= n,
            chain@.len() == n,
            forall|k: int| 0 <= k < i ==> (#[trigger] allpass_views(chain@)[k]).ready(),
        decreases n - i,
    {
        if !chain[i].is_ready() {
            assert(!allpass_views(chain@)[i as int].ready());
            return false;
        }
        i += 1;
    }
    true
}

/// Feeds `x` to every comb filter of a bank and sums up what comes out.
fn run_combs<T: Sample>(
    bank: &mut Vec<CombFilter<T>>,
    side: Side,
    alternate: bool,
    x: T,
) -> (sum: T)
    requires
        forall|i: int| 0 <= i < old(bank)@.len() ==> (#[trigger] comb_views(old(bank)@)[i]).ready(),
    ensures
        sum == mixed(
            bank_outputs(comb_views(old(bank)@), side, x),
            alternate,
            old(bank)@.len(),
        ),
        comb_views(final(bank)@) == bank_after(comb_views(old(bank)@), side, x),
        forall|i: int|
            0 <= i < final(bank)@.len() ==> (#[trigger] comb_views(final(bank)@)[i]).ready(),
{
    let ghost before = comb_views(old(bank)@);
    let n: usize = bank.len();
    let mut sum: T = T::ratio(0, 1);
    let mut i: usize = 0;
    while i < n
        invariant
            i <= n,
            bank@.len() == n,
            old(bank)@.len() == n,
            before == comb_views(old(bank)@),
            forall|k: int| 0 <= k < n ==> (#[trigger] before[k]).ready(),
            sum == mixed(bank_outputs(before, side, x), alternate, i as nat),
            forall|k: int|
                0 <= k < i ==> (#[trigger] bank@[k])@ == before[k].after(side, x)
                    && bank@[k]@.ready(),
            forall|k: int| i <= k < n ==> (#[trigger] bank@[k]) == old(bank)@[k],
        decreases n - i,
    {
        assert(before[i as int].ready());
        let out: T = match side {
            Side::Left => bank[i].process_left(x),
            Side::Right => bank[i].process_right(x),
        };
        assert(out == bank_outputs(before, side, x)[i as int]);
        sum = if alternate && i % 2 == 1 {
            sum.minus(out)
        } else {
            sum.plus(out)
        };
        i += 1;
    }
    assert(comb_views(bank@) =~= bank_after(before, side, x));
    assert forall|k: int| 0 <= k < bank@.len() implies (#[trigger] comb_views(
        bank@,
    )[k]).ready() by {
        assert(bank@[k]@.ready());
    }
    sum
}

/// Sends `y` through a chain of all-pass filters, one after the other.
fn run_allpasses<T: Sample>(chain: &mut Vec<DelayingAllPass<T>>, side: Side, y: T) -> (out: T)
    requires
        forall|i: int|
            0 <= i < old(chain)@.len() ==> (#[trigger] allpass_views(old(chain)@)[i]).ready(),
    ensures
        out == diffused(allpass_views(old(chain)@), side, y, old(chain)@.len()),
        allpass_views(final(chain)@) == chain_after(allpass_views(old(chain)@), side, y),
        forall|i: int|
            0 <= i < final(chain)@.len() ==> (#[trigger] allpass_views(final(chain)@)[i]).ready(),
{
    let ghost before = allpass_views(old(chain)@);
    let n: usize = chain.len();
    let mut out: T = y;
    let mut i: usize = 0;
    while i < n
        invariant
            i <= n,
            chain@.len() == n,
            old(chain)@.len() == n,
            before == allpass_views(old(chain)@),
            forall|k: int| 0 <= k < n ==> (#[trigger] before[k]).ready(),
            out == diffused(before, side, y, i as nat),
            forall|k: int|
                0 <= k < i ==> (#[trigger] chain@[k])@ == before[k].after(
                    side,
                    diffused(before, side, y, k as nat),
                ) && chain@[k]@.ready(),
            forall|k: int| i <= k < n ==> (#[trigger] chain@[k]) == old(chain)@[k],
        decreases n - i,
    {
        assert(before[i as int].ready());
        out = match side {
            Side::Left => chain[i].process_left(out),
            Side::Right => chain[i].process_right(out),
        };
        i += 1;
    }
    assert(allpass_views(chain@) =~= chain_after(before, side, y));
    assert forall|k: int| 0 <= k < chain@.len() implies (#[trigger] allpass_views(
        chain@,
    )[k]).ready() by {
        assert(chain@[k]@.ready());
    }
    out
}

/// Brings the sum of a bank to level.
fn level<T: Sample>(reverb_type: ReverbType, sum: T) -> (r: T)
    ensures
        r == leveled(reverb_type, sum),
{
    match reverb_type {
        ReverbType::Comb | ReverbType::Schroeder => sum.times(T::ratio(1, 4)),
        ReverbType::LpfComb | ReverbType::Moorer => sum.over(T::ratio(6, 1)),
    }
}

fn base_delay(index: usize) -> (r: i64)
    ensures
        r == base_delay_spec(index as int),
{
    if index == 0 {
        21
    } else if index == 1 {
        26
    } else if index == 2 {
        31
    } else {
        37
    }
}

fn draw_place(side: Side, index: usize) -> (r: usize)
    requires
        index < 4,
    ensures
        r == draw_index(side, index as int),
        r < DRAWS,
{
    match side {
        Side::Left => 2 * index,
        Side::Right => 2 * index + 1,
    }
}

fn seed_delay<T: Sample>(side: Side) -> (r: T)
    ensures
        r == seed_delay_spec::<T>(side),
{
    match side {
        Side::Left => T::ratio(1502, 100),
        Side::Right => T::ratio(1501, 100),
    }
}

/// Makes the comb filters of one channel.
fn build_combs<T: Sample>(
    sample_rate: T,
    decay: T,
    reverb_type: ReverbType,
    damp: T,
    side: Side,
    draws: &[u32; 8],
) -> (bank: Vec<CombFilter<T>>)
    ensures
        comb_views(bank@) == Seq::new(
            reverb_type.comb_count_spec() as nat,
            |i: int| built_comb(sample_rate, decay, reverb_type, damp, side, i, draws@),
        ),
{
    let n: usize = reverb_type.comb_count();
    let mut bank: Vec<CombFilter<T>> = Vec::new();
    let mut grow: T = seed_delay(side);
    let mut i: usize = 0;
    while i < n
        invariant
            i <= n,
            n == reverb_type.comb_count_spec(),
            bank@.len() == i,
            grow == grown_spec(seed_delay_spec::<T>(side), i as nat),
            forall|k: int|
                0 <= k < i ==> (#[trigger] bank@[k])@ == built_comb(
                    sample_rate,
                    decay,
                    reverb_type,
                    damp,
                    side,
                    k,
                    draws@,
                ),
        decreases n - i,
    {
        grow = grow.times(T::ratio(3, 2));
        let mut comb: CombFilter<T>;
        match reverb_type {
            ReverbType::Comb => {
                let draw: u32 = draws[draw_place(side, i)] % DRAW_BOUND;
                let offset: T = T::ratio(draw as i64 - 4194304, 8388608);
                let delay_ms: T = T::ratio(base_delay(i), 1).plus(offset);
                let g: T = decay_gain(delay_ms, decay);
                comb = CombFilter::new(sample_rate, CombType::Positive, delay_ms, g, false);
                tune(&mut comb, decay, T::ratio(0, 1), false, CombType::Positive);
            },
            _ => {
                let g: T = decay_gain(grow, decay);
                comb = CombFilter::new(sample_rate, CombType::Positive, grow, g, false);
                tune(&mut comb, decay, damp, reverb_type.damps(), CombType::Positive);
            },
        }
        bank.push(comb);
        i += 1;
    }
    assert(comb_views(bank@) =~= Seq::new(
        reverb_type.comb_count_spec() as nat,
        |i: int| built_comb(sample_rate, decay, reverb_type, damp, side, i, draws@),
    ));
    bank
}

/// Makes the all-pass filters of one channel.
fn build_allpasses<T: Sample>(
    sample_rate: T,
    reverb_type: ReverbType,
    side: Side,
    draws: &[u32; 8],
) -> (chain: Vec<DelayingAllPass<T>>)
    ensures
        allpass_views(chain@) == Seq::new(
            reverb_type.allpass_count_spec() as nat,
            |i: int| built_allpass(sample_rate, side, i, draws@),
        ),
{
    let n: usize = reverb_type.allpass_count();
    let mut chain: Vec<DelayingAllPass<T>> = Vec::new();
    let mut i: usize = 0;
    while i < n
        invariant
            i <= n,
            n == reverb_type.allpass_count_spec(),
            chain@.len() == i,
            forall|k: int|
                0 <= k < i ==> (#[trigger] chain@[k])@ == built_allpass(
                    sample_rate,
                    side,
                    k,
                    draws@,
                ),
        decreases n - i,
    {
        let draw: u32 = draws[draw_place(side, i)] % DRAW_BOUND;
        let delay_ms: T = T::ratio(draw as i64 + 2097152, 2097152);
        chain.push(DelayingAllPass::new(sample_rate, delay_ms, T::ratio(707, 1000)));
        i += 1;
    }
    assert(allpass_views(chain@) =~= Seq::new(
        reverb_type.allpass_count_spec() as nat,
        |i: int| built_allpass(sample_rate, side, i, draws@),
    ));
    chain
}

impl<T: Sample> Reverb<T> {
    /// A reverb for `sample_rate` samples per second that dies away in
    /// `decay` milliseconds, with its delays spread by random draws.
    ///
    /// What comes out depends on the draws; whatever they are, the reverb is
    /// the one that [`Reverb::with_draws`] makes from them.
    pub fn new(sample_rate: T, decay: T, reverb_type: ReverbType, damp: T) -> (r: Self)
        ensures
            made_from_draws(r@, sample_rate, decay, reverb_type, damp),
            r@.shaped(),
    {
        let draws: [u32; 8] = [
            draw_below(DRAW_BOUND),
            draw_below(DRAW_BOUND),
            draw_below(DRAW_BOUND),
            draw_below(DRAW_BOUND),
            draw_below(DRAW_BOUND),
            draw_below(DRAW_BOUND),
            draw_below(DRAW_BOUND),
            draw_below(DRAW_BOUND),
        ];
        let r = Self::with_draws(sample_rate, decay, reverb_type, damp, draws);
        assert(r@ == ReverbView::built(sample_rate, decay, reverb_type, damp, draws@));
        r
    }

    /// The reverb that the given draws lead to.
    ///
    /// A draw is a fraction with [`DRAW_BOUND`] as its denominator; of a
    /// draw that is not below that bound only the remainder counts. In the
    /// topology of plain comb filters the draws move each comb filter's
    /// delay by up to half a millisecond either way; in the topologies with
    /// all-pass filters they set each all-pass filter's delay between one
    /// and five milliseconds. The draws at even places go to the left
    /// channel, those at odd places to the right one.
    pub fn with_draws(
        sample_rate: T,
        decay: T,
        reverb_type: ReverbType,
        damp: T,
        draws: [u32; 8],
    ) -> (r: Self)
        ensures
            r@ == ReverbView::built(sample_rate, decay, reverb_type, damp, draws@),
            r@.shaped(),
    {
        Reverb {
            left_combs: build_combs(sample_rate, decay, reverb_type, damp, Side::Left, &draws),
            right_combs: build_combs(sample_rate, decay, reverb_type, damp, Side::Right, &draws),
            left_allpasses: build_allpasses(sample_rate, reverb_type, Side::Left, &draws),
            right_allpasses: build_allpasses(sample_rate, reverb_type, Side::Right, &draws),
            decay,
            reverb_type,
            sample_rate,
        }
    }

    /// Whether every filter that the topology uses can process a sample.
    pub fn is_ready(&self) -> (r: bool)
        ensures
            r == self@.ready(),
    {
        let combs: bool = combs_ready(&self.left_combs) && combs_ready(&self.right_combs);
        let allpasses: bool = !self.reverb_type.diffuses() || (allpasses_ready(&self.left_allpasses)
            && allpasses_ready(&self.right_allpasses));
        proof {
            assert(self@.left_combs.len() == self.left_combs@.len());
            assert(self@.right_combs.len() == self.right_combs@.len());
            assert(self@.left_allpasses.len() == self.left_allpasses@.len());
            assert(self@.right_allpasses.len() == self.right_allpasses@.len());
        }
        combs && allpasses
    }

    /// Fits every filter to a new sample rate. All that the reverb
    /// remembers is then silence.
    pub fn resize_buffers(&mut self, sample_rate: T)
        ensures
            final(self)@ == old(self)@.resized(sample_rate),
    {
        self.sample_rate = sample_rate;
        resize_combs(&mut self.left_combs, sample_rate);
        resize_combs(&mut self.right_combs, sample_rate);
        resize_allpasses(&mut self.left_allpasses, sample_rate);
        resize_allpasses(&mut self.right_allpasses, sample_rate);
        proof {
            let after = old(self)@.resized(sample_rate);
            assert(self@.left_combs =~= after.left_combs);
            assert(self@.right_combs =~= after.right_combs);
            assert(self@.left_allpasses =~= after.left_allpasses);
            assert(self@.right_allpasses =~= after.right_allpasses);
        }
    }

    /// Sets the decay time and the type of every comb filter; damping is
    /// off and its coefficient zero.
    pub fn set_params_comb(&mut self, decay: T, comb_type: CombType)
        ensures
            final(self)@ == old(self)@.retuned(decay, zero::<T>(), false, comb_type),
            old(self)@.ready() ==> final(self)@.ready(),
    {
        self.decay = decay;
        let damp: T = T::ratio(0, 1);
        tune_bank(&mut self.left_combs, decay, damp, false, comb_type);
        tune_bank(&mut self.right_combs, decay, damp, false, comb_type);
        proof {
            lemma_retuned_keeps_ready(old(self)@, decay, zero::<T>(), false, comb_type);
        }
    }

    /// Sets the decay time and the type of every comb filter and stores the
    /// damping; the low-pass of the comb filters stays off.
    pub fn set_params_schroeder(&mut self, decay: T, damp: T, comb_type: CombType)
        ensures
            final(self)@ == old(self)@.retuned(decay, damp, false, comb_type),
            old(self)@.ready() ==> final(self)@.ready(),
    {
        self.decay = decay;
        tune_bank(&mut self.left_combs, decay, damp, false, comb_type);
        tune_bank(&mut self.right_combs, decay, damp, false, comb_type);
        proof {
            lemma_retuned_keeps_ready(old(self)@, decay, damp, false, comb_type);
        }
    }

    /// Sets the decay time, the damping and the type of every comb filter,
    /// with the low-pass of the comb filters on.
    pub fn set_params_lpfcomb(&mut self, decay: T, damp: T, comb_type: CombType)
        ensures
            final(self)@ == old(self)@.retuned(decay, damp, true, comb_type),
            old(self)@.ready() ==> final(self)@.ready(),
    {
        self.decay = decay;
        tune_bank(&mut self.left_combs, decay, damp, true, comb_type);
        tune_bank(&mut self.right_combs, decay, damp, true, comb_type);
        proof {
            lemma_retuned_keeps_ready(old(self)@, decay, damp, true, comb_type);
        }
    }

    /// Sets the decay time, the damping and the type of every comb filter,
    /// with the low-pass of the comb filters on.
    pub fn set_params_moorer(&mut self, decay: T, damp: T, comb_type: CombType)
        ensures
            final(self)@ == old(self)@.retuned(decay, damp, true, comb_type),
            old(self)@.ready() ==> final(self)@.ready(),
    {
        self.decay = decay;
        tune_bank(&mut self.left_combs, decay, damp, true, comb_type);
        tune_bank(&mut self.right_combs, decay, damp, true, comb_type);
        proof {
            lemma_retuned_keeps_ready(old(self)@, decay, damp, true, comb_type);
        }
    }

    /// Takes one sample of the left channel and returns the wet sample.
    pub fn process_left(&mut self, x: T) -> (y: T)
        requires
            old(self)@.ready(),
        ensures
            y == old(self)@.wet(Side::Left, x),
            final(self)@ == old(self)@.after(Side::Left, x),
            final(self)@.ready(),
    {
        let alternate: bool = self.reverb_type.alternates();
        let sum: T = run_combs(&mut self.left_combs, Side::Left, alternate, x);
        let y: T = level(self.reverb_type, sum);
        if self.reverb_type.diffuses() {
            run_allpasses(&mut self.left_allpasses, Side::Left, y)
        } else {
            y
        }
    }

    /// Takes one sample of the right channel and returns the wet sample.
    pub fn process_right(&mut self, x: T) -> (y: T)
        requires
            old(self)@.ready(),
        ensures
            y == old(self)@.wet(Side::Right, x),
            final(self)@ == old(self)@.after(Side::Right, x),
            final(self)@.ready(),
    {
        let alternate: bool = self.reverb_type.alternates();
        let sum: T = run_combs(&mut self.right_combs, Side::Right, alternate, x);
        let y: T = level(self.reverb_type, sum);
        if self.reverb_type.diffuses() {
            run_allpasses(&mut self.right_allpasses, Side::Right, y)
        } else {
            y
        }
    }
}

} // verus!
