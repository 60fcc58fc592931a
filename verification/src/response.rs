//! What a comb filter answers to a stream of samples, and to a single
//! impulse in particular; and what a reverb of plain comb filters makes of
//! these answers.
use vstd::prelude::*;
use crate::comb::comb_direct;
use crate::comb::line_ready;
use crate::comb::CombLine;
use crate::comb::CombType;
use crate::comb::CombView;
use crate::delay::is_silent;
use crate::delay::DelayView;
use crate::reverb::leveled;
use crate::reverb::mixed;
use crate::reverb::ReverbType;
use crate::reverb::ReverbView;
use crate::sample::has_neutral_elements;
use crate::sample::one;
use crate::sample::zero;
use crate::sample::Sample;
use crate::side::Side;

verus! {

/// The filter after it has taken the first `count` samples of `inputs` on
/// one channel, one after the other.
pub open spec fn comb_after_stream<T: Sample>(
    v: CombView<T>,
    side: Side,
    inputs: Seq<T>,
    count: nat,
) -> CombView<T>
    decreases count,
{
    if count == 0 {
        v
    } else {
        comb_after_stream(v, side, inputs, (count - 1) as nat).after(side, inputs[count - 1])
    }
}

/// The sample that the filter puts out for the sample at `place` of
/// `inputs`, having taken all the samples before it.
pub open spec fn comb_response<T: Sample>(
    v: CombView<T>,
    side: Side,
    inputs: Seq<T>,
    place: nat,
) -> T {
    comb_after_stream(v, side, inputs, place).output_on(side, inputs[place as int])
}

/// The input that came `back` samples before the one at `place`, and zero
/// where the stream had not begun by then.
pub open spec fn past_input<T: Sample>(inputs: Seq<T>, place: nat, back: nat) -> T {
    if place >= back {
        inputs[place - back]
    } else {
        zero::<T>()
    }
}

/// The output that came `back` samples before the one at `place`, and zero
/// where the stream had not begun by then.
pub open spec fn past_output<T: Sample>(
    v: CombView<T>,
    side: Side,
    inputs: Seq<T>,
    place: nat,
    back: nat,
) -> T {
    if place >= back {
        comb_response(v, side, inputs, (place - back) as nat)
    } else {
        zero::<T>()
    }
}

/// The sample at `place` of a unit impulse: one at the start, zero after.
pub open spec fn impulse_at<T: Sample>(place: int) -> T {
    if place == 0 {
        one::<T>()
    } else {
        zero::<T>()
    }
}

/// A unit impulse of `len` samples.
pub open spec fn impulse<T: Sample>(len: nat) -> Seq<T> {
    Seq::new(len, |k: int| impulse_at::<T>(k))
}

/// `first` scaled by `gain`, `times` times over.
pub open spec fn echo<T: Sample>(gain: T, first: T, times: nat) -> T
    decreases times,
{
    if times == 0 {
        first
    } else {
        gain.times_spec(echo(gain, first, (times - 1) as nat))
    }
}

/// The first echo of a unit impulse: the impulse fed back through the gain,
/// with the delayed impulse added to it or taken from it as the type says.
pub open spec fn first_echo<T: Sample>(gain: T, comb_type: CombType) -> T {
    comb_direct(comb_type, gain, one::<T>())
}

/// The impulse response of a comb filter without damping.
///
/// The response is the impulse itself at the start, an echo at every
/// multiple of `delay_samples` after it, and zero everywhere else. The first
/// echo holds both the impulse that came back through the feedback and the
/// delayed impulse, which the type adds or takes away; every later echo is
/// the one before scaled by the gain.
pub open spec fn impulse_response<T: Sample>(
    gain: T,
    comb_type: CombType,
    delay_samples: nat,
    place: nat,
) -> T {
    if place % delay_samples != 0 {
        zero::<T>()
    } else if place == 0 {
        one::<T>()
    } else {
        echo(gain, first_echo(gain, comb_type), (place / delay_samples - 1) as nat)
    }
}

/// What one channel remembers after the first `count` samples of a stream
/// that began in silence: the inputs in its delay line, the outputs among
/// its past outputs and, while the low-pass is on, the inputs among its past
/// inputs, newest first, and silence behind them.
spec fn line_after_stream<T: Sample>(
    v: CombView<T>,
    side: Side,
    inputs: Seq<T>,
    count: nat,
) -> CombLine<T> {
    let line = v.line(side);
    CombLine {
        delay: DelayView {
            written: Seq::new(
                line.delay.written.len(),
                |j: int| past_input(inputs, count, (j + 1) as nat),
            ),
            delay: line.delay.delay,
        },
        feedback: Seq::new(
            line.feedback.len(),
            |j: int| past_output(v, side, inputs, count, (j + 1) as nat),
        ),
        input: if v.use_lpf {
            Seq::new(line.input.len(), |j: int| past_input(inputs, count, (j + 1) as nat))
        } else {
            line.input
        },
    }
}

/// The filter with one channel replaced.
spec fn with_line<T>(v: CombView<T>, side: Side, line: CombLine<T>) -> CombView<T> {
    match side {
        Side::Left => CombView { left: line, ..v },
        Side::Right => CombView { right: line, ..v },
    }
}

/// After the first `count` samples of a stream that began in silence, a
/// channel remembers just these samples and what it put out for them.
proof fn lemma_state_after_stream<T: Sample>(
    v: CombView<T>,
    side: Side,
    inputs: Seq<T>,
    count: nat,
)
    requires
        line_ready(v.line(side), v.delay_samples),
        is_silent(v.line(side).delay.written),
        is_silent(v.line(side).feedback),
        v.use_lpf ==> is_silent(v.line(side).input),
    ensures
        comb_after_stream(v, side, inputs, count) == with_line(
            v,
            side,
            line_after_stream(v, side, inputs, count),
        ),
    decreases count,
{
    if count == 0 {
        let line = line_after_stream(v, side, inputs, 0);
        assert(line.delay.written =~= v.line(side).delay.written);
        assert(line.feedback =~= v.line(side).feedback);
        assert(line.input =~= v.line(side).input);
    } else {
        let before = (count - 1) as nat;
        lemma_state_after_stream(v, side, inputs, before);
        let now = with_line(v, side, line_after_stream(v, side, inputs, before));
        let line = line_after_stream(v, side, inputs, before);
        let x = inputs[before as int];
        assert(now.line(side) == line);
        let next = now.line_after(line, x);
        let goal = line_after_stream(v, side, inputs, count);
        assert(now.output(line, x) == comb_response(v, side, inputs, before));
        assert(next.delay.written =~= goal.delay.written);
        assert(next.feedback =~= goal.feedback);
        assert(next.input =~= goal.input);
        assert(next == goal);
    }
}

/// The recurrence of the comb filter. Of a stream that began in silence,
/// every output is the input, plus the gain times the output of
/// `delay_samples` samples ago, plus or minus the input of `delay_samples`
/// samples ago as the type says; and, where the low-pass is on, less its
/// coefficient times the input of `delay_samples + 1` samples ago, plus its
/// coefficient times the last output. This holds for a delay of at least
/// one sample.
pub proof fn lemma_comb_recurrence<T: Sample>(
    v: CombView<T>,
    side: Side,
    inputs: Seq<T>,
    place: nat,
)
    requires
        1 <= v.delay_samples,
        line_ready(v.line(side), v.delay_samples),
        is_silent(v.line(side).delay.written),
        is_silent(v.line(side).feedback),
        v.use_lpf ==> is_silent(v.line(side).input),
    ensures
        comb_response(v, side, inputs, place) == ({
            let delay = v.delay_samples as nat;
            let fed = inputs[place as int].plus_spec(
                v.feedback.times_spec(past_output(v, side, inputs, place, delay)),
            );
            let direct = comb_direct(v.comb_type, fed, past_input(inputs, place, delay));
            if v.use_lpf {
                direct.minus_spec(
                    v.lpf_g.times_spec(past_input(inputs, place, delay + 1)),
                ).plus_spec(v.lpf_g.times_spec(past_output(v, side, inputs, place, 1)))
            } else {
                direct
            }
        }),
{
    lemma_state_after_stream(v, side, inputs, place);
    let now = with_line(v, side, line_after_stream(v, side, inputs, place));
    assert(now.line(side) == line_after_stream(v, side, inputs, place));
}

/// How the impulse response at one place follows from the response one
/// delay before.
proof fn lemma_response_recurs<T: Sample>(
    gain: T,
    comb_type: CombType,
    delay_samples: nat,
    place: nat,
)
    requires
        has_neutral_elements::<T>(),
        1 <= delay_samples,
    ensures
        place == 0 ==> impulse_response(gain, comb_type, delay_samples, place) == one::<T>(),
        0 < place < delay_samples ==> impulse_response(gain, comb_type, delay_samples, place)
            == zero::<T>(),
        place == delay_samples ==> impulse_response(gain, comb_type, delay_samples, place)
            == first_echo(gain, comb_type),
        place > delay_samples ==> impulse_response(gain, comb_type, delay_samples, place)
            == gain.times_spec(
            impulse_response(gain, comb_type, delay_samples, (place - delay_samples) as nat),
        ),
{
    let d = delay_samples as int;
    if place < delay_samples {
        vstd::arithmetic::div_mod::lemma_small_mod(place, delay_samples);
    } else {
        let before = place - d;
        vstd::arithmetic::div_mod::lemma_mod_add_multiples_vanish(before, d);
        vstd::arithmetic::div_mod::lemma_div_plus_one(before, d);
        vstd::arithmetic::div_mod::lemma_div_basics_4(before, d);
        assert(place as int == d + before);
        assert((place as int) % d == before % d);
        assert((place as int) / d == 1 + before / d);
        if before == 0 {
            vstd::arithmetic::div_mod::lemma_small_mod(0, delay_samples);
            vstd::arithmetic::div_mod::lemma_basic_div(0, d);
            assert((place as int) % d == 0);
            assert((place as int) / d == 1);
            assert(echo(gain, first_echo(gain, comb_type), 0) == first_echo(gain, comb_type));
        } else if before % d == 0 {
            assert(before / d >= 1) by {
                vstd::arithmetic::div_mod::lemma_fundamental_div_mod(before, d);
                if before / d <= 0 {
                    assert(d * (before / d) <= 0) by (nonlinear_arith)
                        requires
                            d > 0,
                            before / d <= 0,
                    ;
                }
            }
            let turns = (before / d - 1) as nat;
            let first = first_echo(gain, comb_type);
            assert(echo(gain, first, turns + 1) == gain.times_spec(echo(gain, first, turns)));
        } else {
            assert(gain.times_spec(zero::<T>()) == zero::<T>());
        }
    }
}

/// A comb filter without damping that remembers only silence, as it does
/// when it is made and after every change of the sample rate, answers a unit
/// impulse with its impulse response: the impulse, then an echo at every
/// multiple of the delay, each the one before scaled by the gain, and zero
/// everywhere else. This holds wherever zero and one are neutral, for a delay
/// of at least one sample.
pub proof fn lemma_impulse_response<T: Sample>(v: CombView<T>, side: Side, len: nat, place: nat)
    requires
        has_neutral_elements::<T>(),
        !v.use_lpf,
        1 <= v.delay_samples,
        line_ready(v.line(side), v.delay_samples),
        is_silent(v.line(side).delay.written),
        is_silent(v.line(side).feedback),
        place < len,
    ensures
        comb_response(v, side, impulse::<T>(len), place) == impulse_response(
            v.feedback,
            v.comb_type,
            v.delay_samples as nat,
            place,
        ),
    decreases place,
{
    let gain = v.feedback;
    let delay = v.delay_samples as nat;
    let inputs = impulse::<T>(len);
    lemma_comb_recurrence(v, side, inputs, place);
    lemma_response_recurs(gain, v.comb_type, delay, place);
    assert(gain.times_spec(zero::<T>()) == zero::<T>());
    assert(zero::<T>().plus_spec(zero::<T>()) == zero::<T>());
    assert(one::<T>().plus_spec(zero::<T>()) == one::<T>());
    if place == 0 {
        assert(one::<T>().minus_spec(zero::<T>()) == one::<T>());
    } else if place < delay {
        assert(zero::<T>().minus_spec(zero::<T>()) == zero::<T>());
    } else {
        let before = (place - delay) as nat;
        lemma_impulse_response(v, side, len, before);
        let past = impulse_response(gain, v.comb_type, delay, before);
        assert(past_output(v, side, inputs, place, delay) == past);
        assert(past_input(inputs, place, delay) == impulse_at::<T>(before as int));
        assert(zero::<T>().plus_spec(gain.times_spec(past)) == gain.times_spec(past));
        if before == 0 {
            assert(gain.times_spec(one::<T>()) == gain);
        } else {
            assert(gain.times_spec(past).plus_spec(zero::<T>()) == gain.times_spec(past));
            assert(gain.times_spec(past).minus_spec(zero::<T>()) == gain.times_spec(past));
        }
    }
}

/// The echoes of an impulse fall on the multiples of the delay. The first
/// is the gain with one added for the positive type and taken away for the
/// negative; the echo number `turns + 1` is the first scaled by the gain
/// `turns` times over. The type decides the sign of the delayed impulse
/// inside the first echo and nothing else.
pub proof fn lemma_echoes_at_multiples_of_the_delay<T: Sample>(
    gain: T,
    comb_type: CombType,
    delay_samples: nat,
    turns: nat,
)
    requires
        1 <= delay_samples,
    ensures
        impulse_response(gain, comb_type, delay_samples, (turns + 1) * delay_samples) == echo(
            gain,
            first_echo(gain, comb_type),
            turns,
        ),
        first_echo(gain, CombType::Positive) == gain.plus_spec(one::<T>()),
        first_echo(gain, CombType::Negative) == gain.minus_spec(one::<T>()),
{
    let d = delay_samples as int;
    let place = (turns + 1) * d;
    vstd::arithmetic::div_mod::lemma_mod_multiples_basic((turns + 1) as int, d);
    vstd::arithmetic::div_mod::lemma_div_multiples_vanish((turns + 1) as int, d);
    assert((turns + 1) * d == d * (turns + 1)) by (nonlinear_arith);
    assert(place > 0) by (nonlinear_arith)
        requires
            place == (turns + 1) * d,
            d >= 1,
            turns >= 0,
    ;
}

/// Between two multiples of the delay a comb filter answers an impulse with
/// silence.
pub proof fn lemma_silence_between_echoes<T: Sample>(
    gain: T,
    comb_type: CombType,
    delay_samples: nat,
    place: nat,
)
    requires
        1 <= delay_samples,
        place % delay_samples != 0,
    ensures
        impulse_response(gain, comb_type, delay_samples, place) == zero::<T>(),
{
}

/// The reverb after it has taken the first `count` samples of `inputs` on
/// one channel, one after the other.
pub open spec fn reverb_after_stream<T: Sample>(
    v: ReverbView<T>,
    side: Side,
    inputs: Seq<T>,
    count: nat,
) -> ReverbView<T>
    decreases count,
{
    if count == 0 {
        v
    } else {
        reverb_after_stream(v, side, inputs, (count - 1) as nat).after(side, inputs[count - 1])
    }
}

/// The wet sample that the reverb puts out for the sample at `place` of
/// `inputs`, having taken all the samples before it.
pub open spec fn reverb_response<T: Sample>(
    v: ReverbView<T>,
    side: Side,
    inputs: Seq<T>,
    place: nat,
) -> T {
    reverb_after_stream(v, side, inputs, place).wet(side, inputs[place as int])
}

/// Whether every comb filter of a bank runs without its low-pass, with a
/// delay of at least one sample that its channel has room for, and
/// remembers only silence of that channel.
pub open spec fn plain_and_quiet<T: Sample>(bank: Seq<CombView<T>>, side: Side) -> bool {
    forall|i: int|
        0 <= i < bank.len() ==> {
            &&& !(#[trigger] bank[i]).use_lpf
            &&& 1 <= bank[i].delay_samples
            &&& line_ready(bank[i].line(side), bank[i].delay_samples)
            &&& is_silent(bank[i].line(side).delay.written)
            &&& is_silent(bank[i].line(side).feedback)
        }
}

/// What each comb filter of a bank answers at `place` to a unit impulse.
pub open spec fn bank_impulse_responses<T: Sample>(bank: Seq<CombView<T>>, place: nat) -> Seq<T> {
    Seq::new(
        bank.len(),
        |i: int|
            impulse_response(
                bank[i].feedback,
                bank[i].comb_type,
                bank[i].delay_samples as nat,
                place,
            ),
    )
}

/// In a reverb every comb filter runs on its own: after any stream, the
/// filter at a place of the bank is what it would be had it taken the stream
/// alone. The topology and the size of the bank stay.
pub proof fn lemma_bank_runs_each_comb<T: Sample>(
    v: ReverbView<T>,
    side: Side,
    inputs: Seq<T>,
    count: nat,
    index: int,
)
    requires
        0 <= index < v.combs(side).len(),
    ensures
        reverb_after_stream(v, side, inputs, count).reverb_type == v.reverb_type,
        reverb_after_stream(v, side, inputs, count).combs(side).len() == v.combs(side).len(),
        reverb_after_stream(v, side, inputs, count).combs(side)[index] == comb_after_stream(
            v.combs(side)[index],
            side,
            inputs,
            count,
        ),
    decreases count,
{
    if count > 0 {
        lemma_bank_runs_each_comb(v, side, inputs, (count - 1) as nat, index);
    }
}

/// A reverb of plain comb filters, as it is made, has comb filters that run
/// without their low-pass and remember only silence; where it is ready and
/// every delay is at least one sample, all that is shown of plain and quiet
/// banks holds of it.
pub proof fn lemma_made_comb_reverb_is_plain_and_quiet<T: Sample>(
    sample_rate: T,
    decay: T,
    damp: T,
    draws: Seq<u32>,
    side: Side,
)
    requires
        ReverbView::built(sample_rate, decay, ReverbType::Comb, damp, draws).ready(),
        forall|i: int|
            0 <= i < 4 ==> 1 <= (#[trigger] ReverbView::built(
                sample_rate,
                decay,
                ReverbType::Comb,
                damp,
                draws,
            ).combs(side)[i]).delay_samples,
    ensures
        plain_and_quiet(
            ReverbView::built(sample_rate, decay, ReverbType::Comb, damp, draws).combs(side),
            side,
        ),
{
    let v = ReverbView::built(sample_rate, decay, ReverbType::Comb, damp, draws);
    let bank = v.combs(side);
    assert forall|i: int| 0 <= i < bank.len() implies {
        &&& !(#[trigger] bank[i]).use_lpf
        &&& 1 <= bank[i].delay_samples
        &&& line_ready(bank[i].line(side), bank[i].delay_samples)
        &&& is_silent(bank[i].line(side).delay.written)
        &&& is_silent(bank[i].line(side).feedback)
    } by {
        assert(bank[i].ready());
    }
}

/// A sum of silence is silence.
proof fn lemma_mixed_of_silence<T: Sample>(outputs: Seq<T>, alternate: bool, count: nat)
    requires
        has_neutral_elements::<T>(),
        count <= outputs.len(),
        forall|k: int| 0 <= k < count ==> outputs[k] == zero::<T>(),
    ensures
        mixed(outputs, alternate, count) == zero::<T>(),
    decreases count,
{
    if count > 0 {
        lemma_mixed_of_silence(outputs, alternate, (count - 1) as nat);
        assert(zero::<T>().plus_spec(zero::<T>()) == zero::<T>());
        assert(zero::<T>().minus_spec(zero::<T>()) == zero::<T>());
    }
}

/// A plain sum in which one output sounds and all the others are silent is
/// that output.
proof fn lemma_mixed_of_one_sound<T: Sample>(outputs: Seq<T>, count: nat, index: int)
    requires
        has_neutral_elements::<T>(),
        count <= outputs.len(),
        0 <= index,
        forall|k: int| 0 <= k < count && k != index ==> outputs[k] == zero::<T>(),
    ensures
        mixed(outputs, false, count) == if index < count {
            outputs[index]
        } else {
            zero::<T>()
        },
    decreases count,
{
    if count > 0 {
        lemma_mixed_of_one_sound(outputs, (count - 1) as nat, index);
        assert(zero::<T>().plus_spec(zero::<T>()) == zero::<T>());
        assert(zero::<T>().plus_spec(outputs[index]) == outputs[index]);
        assert(outputs[index].plus_spec(zero::<T>()) == outputs[index]);
    }
}

/// What the comb filters of a reverb make of a unit impulse: at every place
/// the sum, brought to level, of what each filter answers there on its own.
/// Where the topology has no all-pass filters this is the wet sample.
pub proof fn lemma_reverb_answers_impulse<T: Sample>(
    v: ReverbView<T>,
    side: Side,
    len: nat,
    place: nat,
)
    requires
        has_neutral_elements::<T>(),
        plain_and_quiet(v.combs(side), side),
        place < len,
    ensures
        reverb_after_stream(v, side, impulse::<T>(len), place).comb_stage(
            side,
            impulse_at::<T>(place as int),
        ) == leveled(
            v.reverb_type,
            mixed(
                bank_impulse_responses(v.combs(side), place),
                v.reverb_type.alternates_spec(),
                v.combs(side).len(),
            ),
        ),
        !v.reverb_type.diffuses_spec() ==> reverb_response(v, side, impulse::<T>(len), place)
            == leveled(
            v.reverb_type,
            mixed(
                bank_impulse_responses(v.combs(side), place),
                v.reverb_type.alternates_spec(),
                v.combs(side).len(),
            ),
        ),
{
    let inputs = impulse::<T>(len);
    let bank = v.combs(side);
    let now = reverb_after_stream(v, side, inputs, place);
    let x = impulse_at::<T>(place as int);
    if bank.len() > 0 {
        lemma_bank_runs_each_comb(v, side, inputs, place, 0);
    } else {
        lemma_bank_stays_empty(v, side, inputs, place);
    }
    let outputs = crate::reverb::bank_outputs(now.combs(side), side, x);
    let answers = bank_impulse_responses(bank, place);
    assert forall|i: int| 0 <= i < bank.len() implies outputs[i] == answers[i] by {
        lemma_bank_runs_each_comb(v, side, inputs, place, i);
        assert(!bank[i].use_lpf);
        lemma_impulse_response(bank[i], side, len, place);
    }
    assert(outputs =~= answers);
}

/// A reverb without comb filters stays without them.
proof fn lemma_bank_stays_empty<T: Sample>(v: ReverbView<T>, side: Side, inputs: Seq<T>, count: nat)
    requires
        v.combs(side).len() == 0,
    ensures
        reverb_after_stream(v, side, inputs, count).reverb_type == v.reverb_type,
        reverb_after_stream(v, side, inputs, count).combs(side).len() == 0,
    decreases count,
{
    if count > 0 {
        lemma_bank_stays_empty(v, side, inputs, (count - 1) as nat);
    }
}

/// A reverb of plain comb filters answers a unit impulse with silence at
/// every place that is no multiple of any of its delays: after the impulse
/// itself nothing is heard until the shortest delay has passed.
pub proof fn lemma_silence_before_the_first_echo<T: Sample>(
    v: ReverbView<T>,
    side: Side,
    len: nat,
    place: nat,
)
    requires
        has_neutral_elements::<T>(),
        v.reverb_type == ReverbType::Comb,
        plain_and_quiet(v.combs(side), side),
        place < len,
        forall|i: int|
            0 <= i < v.combs(side).len() ==> place % ((#[trigger] v.combs(side)[i]).delay_samples
                as nat) != 0,
    ensures
        reverb_response(v, side, impulse::<T>(len), place) == zero::<T>(),
{
    lemma_reverb_answers_impulse(v, side, len, place);
    let bank = v.combs(side);
    let answers = bank_impulse_responses(bank, place);
    assert forall|k: int| 0 <= k < bank.len() implies answers[k] == zero::<T>() by {
        assert(place % (bank[k].delay_samples as nat) != 0);
    }
    lemma_mixed_of_silence(answers, false, bank.len());
    assert(zero::<T>().times_spec(T::ratio_spec(1, 4)) == zero::<T>());
}

/// After the impulse itself, a reverb of plain comb filters is silent until
/// the shortest of its delays has passed.
pub proof fn lemma_silence_until_the_shortest_delay<T: Sample>(
    v: ReverbView<T>,
    side: Side,
    len: nat,
    place: nat,
)
    requires
        has_neutral_elements::<T>(),
        v.reverb_type == ReverbType::Comb,
        plain_and_quiet(v.combs(side), side),
        0 < place < len,
        forall|i: int|
            0 <= i < v.combs(side).len() ==> place < (#[trigger] v.combs(side)[i]).delay_samples,
    ensures
        reverb_response(v, side, impulse::<T>(len), place) == zero::<T>(),
{
    let bank = v.combs(side);
    assert forall|i: int| 0 <= i < bank.len() implies place % ((#[trigger] bank[i]).delay_samples
        as nat) != 0 by {
        vstd::arithmetic::div_mod::lemma_small_mod(place, bank[i].delay_samples as nat);
    }
    lemma_silence_before_the_first_echo(v, side, len, place);
}

/// Where a place is the delay of one comb filter of a reverb of plain comb
/// filters and no multiple of the delay of any other, the reverb answers a
/// unit impulse there with the first echo of that filter, brought to level:
/// a quarter of the gain plus or minus one.
pub proof fn lemma_first_echo_of_one_comb<T: Sample>(
    v: ReverbView<T>,
    side: Side,
    len: nat,
    index: int,
)
    requires
        has_neutral_elements::<T>(),
        v.reverb_type == ReverbType::Comb,
        plain_and_quiet(v.combs(side), side),
        0 <= index < v.combs(side).len(),
        v.combs(side)[index].delay_samples < len,
        forall|i: int|
            0 <= i < v.combs(side).len() && i != index ==> (v.combs(
                side,
            )[index].delay_samples as nat) % ((#[trigger] v.combs(side)[i]).delay_samples as nat)
                != 0,
    ensures
        reverb_response(
            v,
            side,
            impulse::<T>(len),
            v.combs(side)[index].delay_samples as nat,
        ) == first_echo(
            v.combs(side)[index].feedback,
            v.combs(side)[index].comb_type,
        ).times_spec(T::ratio_spec(1, 4)),
{
    let bank = v.combs(side);
    let place = bank[index].delay_samples as nat;
    lemma_reverb_answers_impulse(v, side, len, place);
    let answers = bank_impulse_responses(bank, place);
    assert forall|k: int| 0 <= k < bank.len() && k != index implies answers[k] == zero::<T>() by {
        assert(place % (bank[k].delay_samples as nat) != 0);
    }
    assert(answers[index] == first_echo(bank[index].feedback, bank[index].comb_type)) by {
        lemma_echoes_at_multiples_of_the_delay(
            bank[index].feedback,
            bank[index].comb_type,
            place,
            0,
        );
        assert((0 + 1) * place == place) by (nonlinear_arith);
    }
    lemma_mixed_of_one_sound(answers, bank.len(), index);
}

} // verus!
