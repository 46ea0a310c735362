//! Chunks of stereo audio.

use vstd::prelude::*;

verus! {

/// One stereo sample.
#[derive(Clone, Copy, Debug, PartialEq)]
pub struct Sample<A> {
    /// The amplitude of the left channel.
    pub left: A,
    /// The amplitude of the right channel.
    pub right: A,
}

/// A run of samples taken at one rate.
#[derive(Clone, Debug, PartialEq)]
pub struct Buffer<A> {
    /// Samples per second.
    pub sample_rate: A,
    /// The samples, first to last.
    pub data: Vec<Sample<A>>,
}

/// The left amplitudes of `samples`, in order.
pub open spec fn lefts<A>(samples: Seq<Sample<A>>) -> Seq<A> {
    Seq::new(samples.len(), |i: int| samples[i].left)
}

/// `count` samples with `amplitude` on both channels.
pub open spec fn uniform<A>(count: nat, amplitude: A) -> Seq<Sample<A>> {
    Seq::new(count, |i: int| Sample { left: amplitude, right: amplitude })
}

} // verus!
