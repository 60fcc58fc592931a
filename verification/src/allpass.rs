//! The delaying all-pass filter, which spreads a signal in time and leaves
//! its level at every frequency as it was.
use vstd::prelude::*;
use crate::delay::delay_samples;
use crate::delay::delay_samples_spec;
use crate::delay::is_silent;
use crate::delay::silence;
use crate::delay::Delay;
use crate::delay::DelayView;
use crate::history::pushed;
use crate::sample::Sample;
use crate::side::Side;

verus! {

/// What an all-pass filter holds.
pub struct AllPassView<T> {
    pub sample_rate: T,
    /// The delay in milliseconds.
    pub delay_ms: T,
    /// The delay in samples, fixed when the filter is made.
    pub delay_samples: usize,
    /// The gain of the feedback and, negated, of the direct path.
    pub gain: T,
    /// The delay line of the left channel.
    pub left: DelayView<T>,
    /// The delay line of the right channel.
    pub right: DelayView<T>,
}

/// Whether a line can delay by `delay_samples` samples: the delay is at
/// least one sample and no longer than the line.
pub open spec fn allpass_line_ready<T>(line: DelayView<T>, delay_samples: usize) -> bool {
    1 <= delay_samples <= line.written.len()
}

/// The value that enters a delay line holding `written` for the input `x`:
/// the input plus what entered the line `delay_samples` samples ago, scaled
/// by the gain.
pub open spec fn allpass_inner<T: Sample>(
    gain: T,
    delay_samples: usize,
    written: Seq<T>,
    x: T,
) -> T {
    x.plus_spec(gain.times_spec(written[delay_samples - 1]))
}

/// The sample that comes out for the input `x`: what entered the line
/// `delay_samples` samples ago, less the gain times what enters it now.
pub open spec fn allpass_output<T: Sample>(
    gain: T,
    delay_samples: usize,
    written: Seq<T>,
    x: T,
) -> T {
    written[delay_samples - 1].minus_spec(
        gain.times_spec(allpass_inner(gain, delay_samples, written, x)),
    )
}

impl<T> AllPassView<T> {
    /// Whether both delay lines can delay by the filter's delay. A filter
    /// processes samples only while this holds.
    pub open spec fn ready(self) -> bool {
        allpass_line_ready(self.left, self.delay_samples) && allpass_line_ready(
            self.right,
            self.delay_samples,
        )
    }

    /// The delay line of one channel.
    pub open spec fn line(self, side: Side) -> DelayView<T> {
        match side {
            Side::Left => self.left,
            Side::Right => self.right,
        }
    }
}

impl<T: Sample> AllPassView<T> {
    /// The sample that comes out of a channel whose delay line is `line`.
    pub open spec fn output(self, line: DelayView<T>, x: T) -> T {
        allpass_output(self.gain, self.delay_samples, line.written, x)
    }

    /// What a channel's delay line holds after the input `x`.
    pub open spec fn line_after(self, line: DelayView<T>, x: T) -> DelayView<T> {
        DelayView {
            written: pushed(
                line.written,
                allpass_inner(self.gain, self.delay_samples, line.written, x),
            ),
            delay: line.delay,
        }
    }

    /// The sample that comes out for the input `x` on one channel.
    pub open spec fn output_on(self, side: Side, x: T) -> T {
        self.output(self.line(side), x)
    }

    /// The filter after the input `x` on one channel; the other channel
    /// stays as it is.
    pub open spec fn after(self, side: Side, x: T) -> Self {
        match side {
            Side::Left => AllPassView { left: self.line_after(self.left, x), ..self },
            Side::Right => AllPassView { right: self.line_after(self.right, x), ..self },
        }
    }

    /// A filter as it is made: nothing has sounded yet.
    pub open spec fn fresh(sample_rate: T, delay_ms: T, gain: T) -> Self {
        let delay_samples = delay_samples_spec(delay_ms, sample_rate);
        let capacity = sample_rate.truncate_spec() as nat;
        AllPassView {
            sample_rate,
            delay_ms,
            delay_samples,
            gain,
            left: DelayView { written: silence::<T>(capacity), delay: delay_samples },
            right: DelayView { written: silence::<T>(capacity), delay: delay_samples },
        }
    }

    /// Whether all that the filter remembers, of either channel, is silence.
    pub open spec fn silent(self) -> bool {
        is_silent(self.left.written) && is_silent(self.right.written)
    }

    /// The filter fitted to a new sample rate: both delay lines are quiet
    /// and remember one second; the delay in samples stays.
    pub open spec fn resized(self, sample_rate: T) -> Self {
        let capacity = sample_rate.truncate_spec() as nat;
        AllPassView {
            sample_rate,
            left: DelayView { written: silence::<T>(capacity), delay: self.left.delay },
            right: DelayView { written: silence::<T>(capacity), delay: self.right.delay },
            ..self
        }
    }
}

/// A delaying all-pass filter for two channels.
pub struct DelayingAllPass<T> {
    sample_rate: T,
    delay_ms: T,
    delay_samples: usize,
    gain: T,
    left: Delay<T>,
    right: Delay<T>,
}

impl<T> View for DelayingAllPass<T> {
    type V = AllPassView<T>;

    closed spec fn view(&self) -> AllPassView<T> {
        AllPassView {
            sample_rate: self.sample_rate,
            delay_ms: self.delay_ms,
            delay_samples: self.delay_samples,
            gain: self.gain,
            left: self.left@,
            right: self.right@,
        }
    }
}

impl<T: Copy> Clone for DelayingAllPass<T> {
    /// A second filter with the same parameters and the same memory.
    fn clone(&self) -> (r: Self)
        ensures
            r@ == self@,
    {
        DelayingAllPass {
            sample_rate: self.sample_rate,
            delay_ms: self.delay_ms,
            delay_samples: self.delay_samples,
            gain: self.gain,
            left: self.left.clone(),
            right: self.right.clone(),
        }
    }
}

/// One step of a channel: reads the line, writes to it, returns the output.
fn step<T: Sample>(line: &mut Delay<T>, x: T, delay_samples: usize, gain: T) -> (y: T)
    requires
        allpass_line_ready(old(line)@, delay_samples),
    ensures
        y == allpass_output(gain, delay_samples, old(line)@.written, x),
        final(line)@ == (DelayView {
            written: pushed(
                old(line)@.written,
                allpass_inner(gain, delay_samples, old(line)@.written, x),
            ),
            delay: old(line)@.delay,
        }),
{
    let echo: T = line.tap(delay_samples);
    let inner: T = x.plus(gain.times(echo));
    line.process_sample(inner, delay_samples);
    echo.minus(gain.times(inner))
}

impl<T: Sample> DelayingAllPass<T> {
    /// A filter with a delay of `delay_ms` milliseconds at `sample_rate`
    /// samples per second and the gain `gain`. Each delay line remembers one
    /// second of silence.
    pub fn new(sample_rate: T, delay_ms: T, gain: T) -> (r: Self)
        ensures
            r@ == AllPassView::fresh(sample_rate, delay_ms, gain),
    {
        let delay_samples: usize = delay_samples(delay_ms, sample_rate);
        let capacity: usize = sample_rate.truncate();
        let quiet: T = T::ratio(0, 1);
        let r = DelayingAllPass {
            sample_rate,
            delay_ms,
            delay_samples,
            gain,
            left: Delay::new(capacity, delay_samples, quiet),
            right: Delay::new(capacity, delay_samples, quiet),
        };
        r
    }

    /// Fits the delay lines to a new sample rate: each then remembers one
    /// second of silence. Delay and gain stay as they were made.
    pub fn resize_buffers(&mut self, sample_rate: T)
        ensures
            final(self)@ == old(self)@.resized(sample_rate),
    {
        let capacity: usize = sample_rate.truncate();
        self.sample_rate = sample_rate;
        self.left.resize_buffers(capacity);
        self.right.resize_buffers(capacity);
    }

    /// Whether both delay lines can delay by the filter's delay.
    pub fn is_ready(&self) -> (r: bool)
        ensures
            r == self@.ready(),
    {
        1 <= self.delay_samples && self.delay_samples <= self.left.capacity() && self.delay_samples
            <= self.right.capacity()
    }

    /// Takes one sample of the left channel and returns the filtered sample.
    pub fn process_left(&mut self, x: T) -> (y: T)
        requires
            old(self)@.ready(),
        ensures
            y == old(self)@.output_on(Side::Left, x),
            final(self)@ == old(self)@.after(Side::Left, x),
            final(self)@.ready(),
    {
        step(&mut self.left, x, self.delay_samples, self.gain)
    }

    /// Takes one sample of the right channel and returns the filtered sample.
    pub fn process_right(&mut self, x: T) -> (y: T)
        requires
            old(self)@.ready(),
        ensures
            y == old(self)@.output_on(Side::Right, x),
            final(self)@ == old(self)@.after(Side::Right, x),
            final(self)@.ready(),
    {
        step(&mut self.right, x, self.delay_samples, self.gain)
    }
}

} // verus!
