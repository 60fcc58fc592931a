//! The two channels of a stereo signal.
use vstd::prelude::*;

verus! {

/// One of the two channels. Every filter keeps what it remembers of the
/// left channel apart from what it remembers of the right one.
#[derive(Clone, Copy, Debug, PartialEq, Eq, Structural)]
pub enum Side {
    Left,
    Right,
}

} // verus!
