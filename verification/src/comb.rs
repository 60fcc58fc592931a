//! The comb filter: a feedback filter around one delay line per channel.
use vstd::prelude::*;
use crate::delay::delay_samples;
use crate::delay::delay_samples_spec;
use crate::delay::delayed;
use crate::delay::is_silent;
use crate::delay::silence;
use crate::delay::Delay;
use crate::delay::DelayView;
use crate::history::pushed;
use crate::history::History;
use crate::sample::zero;
use crate::sample::Sample;
use crate::side::Side;

verus! {

/// Whether the delayed input is added to the output or taken from it.
#[derive(Clone, Copy, Debug, PartialEq, Eq, Structural)]
pub enum CombType {
    Positive,
    Negative,
}

impl CombType {
    /// The place of the type among its kind: zero for the positive type,
    /// one for the negative.
    pub open spec fn index_spec(self) -> usize {
        match self {
            CombType::Positive => 0,
            CombType::Negative => 1,
        }
    }

    /// The names of the types, in the order of their places.
    pub fn variants() -> (r: &'static [&'static str])
        ensures
            r@.len() == 2,
            r@[0]@ == "Positive"@,
            r@[1]@ == "Negative"@,
    {
        &["Positive", "Negative"]
    }

    /// The names under which the types are stored, in the order of their
    /// places.
    pub fn ids() -> (r: Option<&'static [&'static str]>)
        ensures
            r is Some,
            r->0@.len() == 2,
            r->0@[0]@ == "Positive"@,
            r->0@[1]@ == "Negative"@,
    {
        Some(&["Positive", "Negative"])
    }

    /// The place of the type among its kind.
    pub fn to_index(self) -> (r: usize)
        ensures
            r == self.index_spec(),
    {
        match self {
            CombType::Positive => 0,
            CombType::Negative => 1,
        }
    }

    /// The type at a place.
    pub fn from_index(index: usize) -> (r: Self)
        requires
            index < 2,
        ensures
            r.index_spec() == index,
    {
        if index == 0 {
            CombType::Positive
        } else {
            CombType::Negative
        }
    }
}

/// What one channel of a comb filter remembers.
pub struct CombLine<T> {
    /// The delay line that the input runs through.
    pub delay: DelayView<T>,
    /// Past outputs, newest first.
    pub feedback: Seq<T>,
    /// Past inputs, newest first; they move only while damping is on.
    pub input: Seq<T>,
}

/// What a comb filter holds.
pub struct CombView<T> {
    pub sample_rate: T,
    pub comb_type: CombType,
    /// The delay in samples, fixed when the filter is made.
    pub delay_samples: usize,
    /// The delay in milliseconds.
    pub delay_ms: T,
    /// The gain on the feedback path.
    pub feedback: T,
    /// Whether the low-pass in the feedback path is on.
    pub use_lpf: bool,
    /// The coefficient of that low-pass.
    pub lpf_g: T,
    pub left: CombLine<T>,
    pub right: CombLine<T>,
}

/// A channel in which nothing has sounded yet.
pub open spec fn quiet_line<T: Sample>(capacity: nat, delay_samples: usize) -> CombLine<T> {
    CombLine {
        delay: DelayView { written: silence::<T>(capacity), delay: delay_samples },
        feedback: silence::<T>(capacity),
        input: silence::<T>(capacity),
    }
}

/// The place, among past outputs with the newest first, of the output that
/// is fed back: the one written `delay_samples` samples ago. A loop needs a
/// past sample, so for a delay of zero it is the output of one sample ago,
/// as for a delay of one.
pub open spec fn feedback_place(delay_samples: usize) -> int {
    if delay_samples == 0 {
        0
    } else {
        delay_samples - 1
    }
}

/// Whether a channel remembers enough for a delay of `delay_samples`
/// samples: two entries more than the delay, so that every tap, that of the
/// damping included, falls on a sample that the channel holds.
pub open spec fn line_ready<T>(line: CombLine<T>, delay_samples: usize) -> bool {
    &&& delay_samples + 2 <= line.delay.written.len()
    &&& delay_samples + 2 <= line.feedback.len()
    &&& delay_samples + 2 <= line.input.len()
}

/// The input plus the output of `delay_samples` samples ago, scaled by the
/// feedback gain.
pub open spec fn comb_fed<T: Sample>(
    feedback: T,
    delay_samples: usize,
    outputs: Seq<T>,
    x: T,
) -> T {
    x.plus_spec(feedback.times_spec(outputs[feedback_place(delay_samples)]))
}

/// `fed` with the delayed input `tap` added or taken away, as the type says.
pub open spec fn comb_direct<T: Sample>(comb_type: CombType, fed: T, tap: T) -> T {
    match comb_type {
        CombType::Positive => fed.plus_spec(tap),
        CombType::Negative => fed.minus_spec(tap),
    }
}

/// `y` after the low-pass in the feedback path: less the input of
/// `delay_samples + 1` samples ago, plus the last output, both scaled by the
/// coefficient.
pub open spec fn comb_damped<T: Sample>(
    lpf_g: T,
    delay_samples: usize,
    inputs: Seq<T>,
    outputs: Seq<T>,
    y: T,
) -> T {
    y.minus_spec(lpf_g.times_spec(inputs[delay_samples as int])).plus_spec(
        lpf_g.times_spec(outputs[0]),
    )
}

impl<T> CombView<T> {
    /// Whether both channels remember enough for the filter's delay. A
    /// filter processes samples only while this holds.
    pub open spec fn ready(self) -> bool {
        line_ready(self.left, self.delay_samples) && line_ready(self.right, self.delay_samples)
    }

    /// What the filter remembers of one channel.
    pub open spec fn line(self, side: Side) -> CombLine<T> {
        match side {
            Side::Left => self.left,
            Side::Right => self.right,
        }
    }
}

impl<T: Sample> CombView<T> {
    /// The sample that comes out of the channel `line` for the input `x`:
    /// the input, the scaled output of `delay_samples` samples ago, and the
    /// input of `delay_samples` samples ago with the sign of the type; then
    /// the low-pass, where it is on.
    pub open spec fn output(self, line: CombLine<T>, x: T) -> T {
        let fed = comb_fed(self.feedback, self.delay_samples, line.feedback, x);
        let tap = delayed(line.delay.written, x, self.delay_samples as int);
        let direct = comb_direct(self.comb_type, fed, tap);
        if self.use_lpf {
            comb_damped(self.lpf_g, self.delay_samples, line.input, line.feedback, direct)
        } else {
            direct
        }
    }

    /// What the channel `line` remembers after the input `x`: the input has
    /// entered the delay line, the output has joined the past outputs and,
    /// where the low-pass is on, the input the past inputs.
    pub open spec fn line_after(self, line: CombLine<T>, x: T) -> CombLine<T> {
        CombLine {
            delay: DelayView { written: pushed(line.delay.written, x), delay: line.delay.delay },
            feedback: pushed(line.feedback, self.output(line, x)),
            input: if self.use_lpf {
                pushed(line.input, x)
            } else {
                line.input
            },
        }
    }

    /// The sample that comes out for the input `x` on one channel.
    pub open spec fn output_on(self, side: Side, x: T) -> T {
        self.output(self.line(side), x)
    }

    /// The filter after the input `x` on one channel; the other channel
    /// stays as it is.
    pub open spec fn after(self, side: Side, x: T) -> Self {
        match side {
            Side::Left => CombView { left: self.line_after(self.left, x), ..self },
            Side::Right => CombView { right: self.line_after(self.right, x), ..self },
        }
    }

    /// A filter as it is made: nothing has sounded yet, and the coefficient
    /// of the low-pass is zero.
    pub open spec fn fresh(
        sample_rate: T,
        comb_type: CombType,
        delay_ms: T,
        feedback: T,
        use_lpf: bool,
    ) -> Self {
        let delay_samples = delay_samples_spec(delay_ms, sample_rate);
        let capacity = sample_rate.truncate_spec() as nat;
        CombView {
            sample_rate,
            comb_type,
            delay_samples,
            delay_ms,
            feedback,
            use_lpf,
            lpf_g: zero::<T>(),
            left: quiet_line::<T>(capacity, delay_samples),
            right: quiet_line::<T>(capacity, delay_samples),
        }
    }

    /// Whether all that the filter remembers, of either channel, is silence.
    pub open spec fn silent(self) -> bool {
        &&& is_silent(self.left.delay.written)
        &&& is_silent(self.left.feedback)
        &&& is_silent(self.left.input)
        &&& is_silent(self.right.delay.written)
        &&& is_silent(self.right.feedback)
        &&& is_silent(self.right.input)
    }

    /// The filter fitted to a new sample rate: both channels are quiet and
    /// remember one second; the delay in samples stays.
    pub open spec fn resized(self, sample_rate: T) -> Self {
        let capacity = sample_rate.truncate_spec() as nat;
        CombView {
            sample_rate,
            left: quiet_line::<T>(capacity, self.left.delay.delay),
            right: quiet_line::<T>(capacity, self.right.delay.delay),
            ..self
        }
    }

    /// The filter with new parameters: what it remembers stays, and both
    /// delay lines take the filter's delay as their nominal length.
    pub open spec fn with_params(
        self,
        feedback: T,
        use_lpf: bool,
        lpf_g: T,
        comb_type: CombType,
    ) -> Self {
        CombView {
            comb_type,
            feedback,
            use_lpf,
            lpf_g,
            left: CombLine {
                delay: DelayView { written: self.left.delay.written, delay: self.delay_samples },
                ..self.left
            },
            right: CombLine {
                delay: DelayView { written: self.right.delay.written, delay: self.delay_samples },
                ..self.right
            },
            ..self
        }
    }
}

/// The type of a filter decides whether the delayed input is added to the
/// output or taken from it, and nothing else: the part that comes from the
/// input and the feedback is the same for both types, and so is what the
/// low-pass adds.
pub proof fn lemma_type_turns_the_delayed_input<T: Sample>(v: CombView<T>, line: CombLine<T>, x: T)
    ensures
        ({
            let fed = comb_fed(v.feedback, v.delay_samples, line.feedback, x);
            let tap = delayed(line.delay.written, x, v.delay_samples as int);
            let positive = (CombView { comb_type: CombType::Positive, ..v }).output(line, x);
            let negative = (CombView { comb_type: CombType::Negative, ..v }).output(line, x);
            if v.use_lpf {
                &&& positive == comb_damped(
                    v.lpf_g,
                    v.delay_samples,
                    line.input,
                    line.feedback,
                    fed.plus_spec(tap),
                )
                &&& negative == comb_damped(
                    v.lpf_g,
                    v.delay_samples,
                    line.input,
                    line.feedback,
                    fed.minus_spec(tap),
                )
            } else {
                &&& positive == fed.plus_spec(tap)
                &&& negative == fed.minus_spec(tap)
            }
        }),
{
}

/// One channel of a comb filter.
struct Channel<T> {
    delay: Delay<T>,
    feedback: History<T>,
    input: History<T>,
}

impl<T> View for Channel<T> {
    type V = CombLine<T>;

    closed spec fn view(&self) -> CombLine<T> {
        CombLine { delay: self.delay@, feedback: self.feedback@, input: self.input@ }
    }
}

impl<T: Copy> Clone for Channel<T> {
    fn clone(&self) -> (r: Self)
        ensures
            r@ == self@,
    {
        Channel {
            delay: self.delay.clone(),
            feedback: self.feedback.clone(),
            input: self.input.clone(),
        }
    }
}

impl<T: Sample> Channel<T> {
    fn new(capacity: usize, delay_samples: usize) -> (r: Self)
        ensures
            r@ == quiet_line::<T>(capacity as nat, delay_samples),
    {
        let quiet: T = T::ratio(0, 1);
        let r = Channel {
            delay: Delay::new(capacity, delay_samples, quiet),
            feedback: History::new(capacity, quiet),
            input: History::new(capacity, quiet),
        };
        r
    }

    fn resize(&mut self, capacity: usize)
        ensures
            final(self)@ == quiet_line::<T>(capacity as nat, old(self)@.delay.delay),
    {
        let quiet: T = T::ratio(0, 1);
        self.delay.resize_buffers(capacity);
        self.feedback = History::new(capacity, quiet);
        self.input = History::new(capacity, quiet);
    }

    fn set_delay(&mut self, delay_samples: usize)
        ensures
            final(self)@ == (CombLine {
                delay: DelayView { written: old(self)@.delay.written, delay: delay_samples },
                ..old(self)@
            }),
    {
        self.delay.set_delay(delay_samples);
    }

    fn advance(
        &mut self,
        x: T,
        comb_type: CombType,
        delay_samples: usize,
        feedback: T,
        use_lpf: bool,
        lpf_g: T,
    ) -> (y: T)
        requires
            line_ready(old(self)@, delay_samples),
        ensures
            y == ({
                let direct = comb_direct(
                    comb_type,
                    comb_fed(feedback, delay_samples, old(self)@.feedback, x),
                    delayed(old(self)@.delay.written, x, delay_samples as int),
                );
                if use_lpf {
                    comb_damped(lpf_g, delay_samples, old(self)@.input, old(self)@.feedback, direct)
                } else {
                    direct
                }
            }),
            final(self)@ == (CombLine {
                delay: DelayView {
                    written: pushed(old(self)@.delay.written, x),
                    delay: old(self)@.delay.delay,
                },
                feedback: pushed(old(self)@.feedback, y),
                input: if use_lpf {
                    pushed(old(self)@.input, x)
                } else {
                    old(self)@.input
                },
            }),
    {
        let place: usize = if delay_samples == 0 {
            0
        } else {
            delay_samples - 1
        };
        let fed: T = x.plus(feedback.times(self.feedback.at(place)));
        let tap: T = self.delay.process_sample(x, delay_samples);
        let mut y: T = match comb_type {
            CombType::Positive => fed.plus(tap),
            CombType::Negative => fed.minus(tap),
        };
        if use_lpf {
            y = y.minus(lpf_g.times(self.input.at(delay_samples)));
            y = y.plus(lpf_g.times(self.feedback.at(0)));
            self.input.push(x);
        }
        self.feedback.push(y);
        y
    }

    fn enough(&self, delay_samples: usize) -> (r: bool)
        ensures
            r == line_ready(self@, delay_samples),
    {
        let delay_len: usize = self.delay.capacity();
        let feedback_len: usize = self.feedback.len();
        let input_len: usize = self.input.len();
        delay_len >= 2 && feedback_len >= 2 && input_len >= 2 && delay_samples <= delay_len - 2
            && delay_samples <= feedback_len - 2 && delay_samples <= input_len - 2
    }
}

/// A comb filter for two channels.
pub struct CombFilter<T> {
    sample_rate: T,
    comb_type: CombType,
    delay_samples: usize,
    delay_ms: T,
    feedback: T,
    left: Channel<T>,
    right: Channel<T>,
    use_lpf: bool,
    lpf_g: T,
}

impl<T> View for CombFilter<T> {
    type V = CombView<T>;

    closed spec fn view(&self) -> CombView<T> {
        CombView {
            sample_rate: self.sample_rate,
            comb_type: self.comb_type,
            delay_samples: self.delay_samples,
            delay_ms: self.delay_ms,
            feedback: self.feedback,
            use_lpf: self.use_lpf,
            lpf_g: self.lpf_g,
            left: self.left@,
            right: self.right@,
        }
    }
}

impl<T: Copy> Clone for CombFilter<T> {
    /// A second filter with the same parameters and the same memory.
    fn clone(&self) -> (r: Self)
        ensures
            r@ == self@,
    {
        CombFilter {
            sample_rate: self.sample_rate,
            comb_type: self.comb_type,
            delay_samples: self.delay_samples,
            delay_ms: self.delay_ms,
            feedback: self.feedback,
            left: self.left.clone(),
            right: self.right.clone(),
            use_lpf: self.use_lpf,
            lpf_g: self.lpf_g,
        }
    }
}

impl<T: Sample> CombFilter<T> {
    /// A filter with a delay of `delay_ms` milliseconds at `sample_rate`
    /// samples per second. Each of its buffers remembers one second of
    /// silence; the coefficient of the low-pass starts at zero.
    pub fn new(
        sample_rate: T,
        comb_type: CombType,
        delay_ms: T,
        feedback: T,
        use_lfp: bool,
    ) -> (r: Self)
        ensures
            r@ == CombView::fresh(sample_rate, comb_type, delay_ms, feedback, use_lfp),
    {
        let delay_samples: usize = delay_samples(delay_ms, sample_rate);
        let capacity: usize = sample_rate.truncate();
        CombFilter {
            sample_rate,
            comb_type,
            delay_samples,
            delay_ms,
            feedback,
            left: Channel::new(capacity, delay_samples),
            right: Channel::new(capacity, delay_samples),
            use_lpf: use_lfp,
            lpf_g: T::ratio(0, 1),
        }
    }

    /// Fits the buffers to a new sample rate: each then remembers one second
    /// of silence. The delay in samples stays as it was made.
    pub fn resize_buffers(&mut self, sample_rate: T)
        ensures
            final(self)@ == old(self)@.resized(sample_rate),
    {
        let capacity: usize = sample_rate.truncate();
        self.sample_rate = sample_rate;
        self.left.resize(capacity);
        self.right.resize(capacity);
    }

    /// Sets the coefficient of the low-pass in the feedback path.
    pub fn set_damp(&mut self, damp: T)
        ensures
            final(self)@ == (CombView { lpf_g: damp, ..old(self)@ }),
    {
        self.lpf_g = damp;
    }

    /// The delay in milliseconds.
    pub fn get_delay_ms(&self) -> (r: T)
        ensures
            r == self@.delay_ms,
    {
        self.delay_ms
    }

    /// Sets the feedback gain, the low-pass and the type, and resets the
    /// nominal length of both delay lines to the filter's delay. What the
    /// filter remembers stays.
    pub fn set_params(&mut self, feedback: T, use_lfp: bool, damp: T, comb_type: CombType)
        ensures
            final(self)@ == old(self)@.with_params(feedback, use_lfp, damp, comb_type),
    {
        self.feedback = feedback;
        self.left.set_delay(self.delay_samples);
        self.right.set_delay(self.delay_samples);
        self.use_lpf = use_lfp;
        self.lpf_g = damp;
        self.comb_type = comb_type;
    }

    /// Takes one sample of the left channel and returns the filtered sample.
    pub fn process_left(&mut self, x: T) -> (y: T)
        requires
            old(self)@.ready(),
        ensures
            y == old(self)@.output_on(Side::Left, x),
            final(self)@ == old(self)@.after(Side::Left, x),
            final(self)@.ready(),
    {
        self.left.advance(
            x,
            self.comb_type,
            self.delay_samples,
            self.feedback,
            self.use_lpf,
            self.lpf_g,
        )
    }

    /// Takes one sample of the right channel and returns the filtered sample.
    pub fn process_right(&mut self, x: T) -> (y: T)
        requires
            old(self)@.ready(),
        ensures
            y == old(self)@.output_on(Side::Right, x),
            final(self)@ == old(self)@.after(Side::Right, x),
            final(self)@.ready(),
    {
        self.right.advance(
            x,
            self.comb_type,
            self.delay_samples,
            self.feedback,
            self.use_lpf,
            self.lpf_g,
        )
    }

    /// Whether both channels remember enough for the filter's delay.
    pub fn is_ready(&self) -> (r: bool)
        ensures
            r == self@.ready(),
    {
        self.left.enough(self.delay_samples) && self.right.enough(self.delay_samples)
    }
}

} // verus!
