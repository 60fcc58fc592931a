//! A stereo reverb built from comb and all-pass filters.
//!
//! The engine runs sample by sample. A [`delay::Delay`] hands back what was
//! written to it some samples ago; a [`comb::CombFilter`] feeds its own past
//! output back through such a delay, a [`allpass::DelayingAllPass`] spreads a
//! signal in time, and a [`reverb::Reverb`] wires banks of both into one of
//! four topologies. A [`rack::Rack`] keeps one reverb of each topology and
//! blends the wet signal of the one in use with the dry input.
//!
//! Everything is written over the arithmetic of [`sample::Sample`], and every
//! contract says which sample comes out and what the filter remembers after
//! it, in terms of that arithmetic. [`fixed::Fixed`] is an implementation in
//! fixed point; [`response`] shows the recurrence that a comb filter follows
//! over a stream, and what a filter and a reverb answer to an impulse.
pub mod allpass;
pub mod comb;
pub mod delay;
mod draw;
pub mod fixed;
pub mod history;
pub mod mix;
pub mod rack;
pub mod response;
pub mod reverb;
pub mod sample;
pub mod side;
