//! The delay line: a delayed copy of a stream of samples.
use vstd::prelude::*;
use crate::history::History;
use crate::history::pushed;
use crate::sample::Sample;
use crate::sample::zero;

verus! {

/// A delay line of fixed capacity.
///
/// It remembers the last `capacity` samples written to it and hands back the
/// one written a given number of samples ago. The length of the delay is
/// given with every sample, so an owner can change it without touching the
/// line; the line also keeps a nominal length for its owner to read.
pub struct Delay<T> {
    line: History<T>,
    delay: usize,
}

/// What a delay line holds.
pub struct DelayView<T> {
    /// The samples written so far, newest first; as many as the capacity.
    pub written: Seq<T>,
    /// The nominal length of the delay, in samples.
    pub delay: usize,
}

impl<T> View for Delay<T> {
    type V = DelayView<T>;

    closed spec fn view(&self) -> DelayView<T> {
        DelayView { written: self.line@, delay: self.delay }
    }
}

/// The sample that a line holding `written` hands back when `input` arrives
/// and a delay of `delay` samples is asked for: `input` itself for no delay,
/// else the sample written `delay` samples before it.
pub open spec fn delayed<T>(written: Seq<T>, input: T, delay: int) -> T
    recommends
        0 <= delay <= written.len(),
{
    if delay == 0 {
        input
    } else {
        written[delay - 1]
    }
}

/// The number of samples that a delay of `delay_ms` milliseconds takes at
/// `sample_rate` samples per second, rounded to the nearest.
pub open spec fn delay_samples_spec<T: Sample>(delay_ms: T, sample_rate: T) -> usize {
    delay_ms.over_spec(T::ratio_spec(1000, 1)).times_spec(sample_rate).round_spec().truncate_spec()
}

/// Turns a delay in milliseconds into a delay in samples.
pub fn delay_samples<T: Sample>(delay_ms: T, sample_rate: T) -> (r: usize)
    ensures
        r == delay_samples_spec(delay_ms, sample_rate),
{
    delay_ms.over(T::ratio(1000, 1)).times(sample_rate).round().truncate()
}

/// A line of `len` samples of silence.
pub open spec fn silence<T: Sample>(len: nat) -> Seq<T> {
    Seq::new(len, |k: int| zero::<T>())
}

impl<T: Copy> Clone for Delay<T> {
    /// A second line that holds the same samples.
    fn clone(&self) -> (r: Self)
        ensures
            r@ == self@,
    {
        Delay { line: self.line.clone(), delay: self.delay }
    }
}

/// Whether every one of `samples` is zero.
pub open spec fn is_silent<T: Sample>(samples: Seq<T>) -> bool {
    forall|k: int| 0 <= k < samples.len() ==> samples[k] == zero::<T>()
}

impl<T: Sample> Delay<T> {
    /// A line that remembers `capacity` samples, each of them `fill` at
    /// first, with a nominal delay of `delay` samples.
    pub fn new(capacity: usize, delay: usize, fill: T) -> (r: Self)
        ensures
            r@.written == Seq::new(capacity as nat, |k: int| fill),
            r@.delay == delay,
    {
        Delay { line: History::new(capacity, fill), delay }
    }

    /// The number of samples that the line remembers.
    pub fn capacity(&self) -> (r: usize)
        ensures
            r == self@.written.len(),
    {
        self.line.len()
    }

    /// The nominal length of the delay, in samples.
    pub fn delay(&self) -> (r: usize)
        ensures
            r == self@.delay,
    {
        self.delay
    }

    /// Sets the nominal length of the delay; the samples stay as they are.
    pub fn set_delay(&mut self, delay: usize)
        ensures
            final(self)@.written == old(self)@.written,
            final(self)@.delay == delay,
    {
        self.delay = delay;
    }

    /// Gives the line a new capacity and fills it with silence. The nominal
    /// delay stays.
    pub fn resize_buffers(&mut self, capacity: usize)
        ensures
            final(self)@.written == silence::<T>(capacity as nat),
            final(self)@.delay == old(self)@.delay,
    {
        self.line = History::new(capacity, T::ratio(0, 1));
    }

    /// The sample written `back` samples ago, the newest being one sample
    /// back.
    pub fn tap(&self, back: usize) -> (r: T)
        requires
            1 <= back <= self@.written.len(),
        ensures
            r == self@.written[back - 1],
    {
        self.line.at(back - 1)
    }

    /// Writes `input` to the line and returns the sample that is
    /// `delay_samples` samples old; the oldest sample is forgotten.
    pub fn process_sample(&mut self, input: T, delay_samples: usize) -> (output: T)
        requires
            delay_samples <= old(self)@.written.len(),
        ensures
            output == delayed(old(self)@.written, input, delay_samples as int),
            final(self)@.written == pushed(old(self)@.written, input),
            final(self)@.delay == old(self)@.delay,
    {
        let output: T = if delay_samples == 0 {
            input
        } else {
            self.line.at(delay_samples - 1)
        };
        self.line.push(input);
        output
    }
}

} // verus!
