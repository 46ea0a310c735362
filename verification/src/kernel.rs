//! The arithmetic that the engine leaves to its caller.
//!
//! The engine moves amplitudes and complex samples around without ever
//! looking inside one. Whatever has to be computed on them is an operation
//! of a [`Kernel`]. Beside each operation stands a function for contracts
//! that names what the operation returns, so that the engine can state its
//! results exactly; the names carry meaning for a kernel that [`conforms`].

use vstd::prelude::*;

verus! {

/// A fractional bin index, split into the bins on either side of it and its
/// distance from the lower one.
#[derive(Clone, Copy, Debug)]
pub struct Position<A> {
    /// The bin at or below the index.
    pub lower: usize,
    /// The bin at or above the index.
    pub upper: usize,
    /// How far the index lies from `lower` towards `upper`.
    pub fraction: A,
}

/// The arithmetic on amplitudes and complex samples.
pub trait Kernel {
    /// A real quantity: an amplitude, a rate, a pitch, a magnitude.
    type Amp: Copy;

    /// A complex sample or frequency bin.
    type Cpx: Copy;

    /// The amplitude of silence, which is also the empty sum.
    fn silence(&self) -> Self::Amp;

    /// Half of a sample rate.
    fn halve(&self, rate: Self::Amp) -> Self::Amp;

    /// The complex sample with real part `amplitude` and no imaginary part.
    fn lift(&self, amplitude: Self::Amp) -> Self::Cpx;

    /// The average of two samples.
    fn mean(&self, first: Self::Cpx, second: Self::Cpx) -> Self::Cpx;

    /// The number of bins that `transform` was built for.
    fn transform_len(&self) -> usize;

    /// The forward transform of `input`, written over `output`, which is
    /// as long. The engine hands over buffers of `transform_len` values
    /// only. Both buffers come back, the input first; what the input then
    /// holds is not used again.
    fn transform(&self, input: Vec<Self::Cpx>, output: Vec<Self::Cpx>) -> (
        Vec<Self::Cpx>,
        Vec<Self::Cpx>,
    )
        requires
            input@.len() == output@.len(),
    ;

    /// `sum` increased by the normalised magnitude of `bin`, one bin of a
    /// spectrum of `len` bins.
    fn accumulate(&self, sum: Self::Amp, bin: Self::Cpx, len: usize) -> Self::Amp;

    /// The pitch shown at pixel `x` of a row of `width` pixels that spans
    /// the keys `from_key` to `to_key`.
    fn pitch_from_pixel(
        &self,
        x: usize,
        width: usize,
        from_key: Self::Amp,
        to_key: Self::Amp,
    ) -> Self::Amp
        requires
            width > 0,
    ;

    /// The frequency of a pitch.
    fn frequency_from_pitch(&self, pitch: Self::Amp) -> Self::Amp;

    /// The place of `frequency` among `bins` bins of a spectrum of `len`
    /// bins taken at `rate`, kept within the bins.
    fn bin_from_frequency(
        &self,
        frequency: Self::Amp,
        len: usize,
        rate: Self::Amp,
        bins: usize,
    ) -> Position<Self::Amp>
        requires
            bins > 0,
    ;

    /// The mean magnitude between two bins: each sum divided by `frames`,
    /// the two weighted by `fraction`.
    fn interpolate(
        &self,
        lower: Self::Amp,
        upper: Self::Amp,
        fraction: Self::Amp,
        frames: usize,
    ) -> Self::Amp
        requires
            frames > 0,
    ;

    /// `value` raised by the boost curve of strength `factor`.
    fn boost(&self, value: Self::Amp, factor: Self::Amp) -> Self::Amp;

    /// The grey level of `value`: the more energy, the darker.
    fn intensity(&self, value: Self::Amp) -> u8;
}

/// What `silence` returns.
pub open spec fn silent<K: Kernel>(kernel: K) -> K::Amp {
    choose|amplitude: K::Amp| call_ensures(K::silence, (&kernel,), amplitude)
}

/// What `halve` returns for `rate`.
pub open spec fn halved<K: Kernel>(kernel: K, rate: K::Amp) -> K::Amp {
    choose|half: K::Amp| call_ensures(K::halve, (&kernel, rate), half)
}

/// What `lift` returns for `amplitude`.
pub open spec fn lifted<K: Kernel>(kernel: K, amplitude: K::Amp) -> K::Cpx {
    choose|sample: K::Cpx| call_ensures(K::lift, (&kernel, amplitude), sample)
}

/// What `mean` returns for `first` and `second`.
pub open spec fn averaged<K: Kernel>(kernel: K, first: K::Cpx, second: K::Cpx) -> K::Cpx {
    choose|middle: K::Cpx| call_ensures(K::mean, (&kernel, first, second), middle)
}

/// What `transform_len` returns.
pub open spec fn planned<K: Kernel>(kernel: K) -> usize {
    choose|len: usize| call_ensures(K::transform_len, (&kernel,), len)
}

/// Some call of `transform` on an input that holds `input`, with an output
/// buffer as long, returns an output that holds `bins`.
pub open spec fn transforms_to<K: Kernel>(
    kernel: K,
    input: Seq<K::Cpx>,
    bins: Seq<K::Cpx>,
) -> bool {
    exists|source: Vec<K::Cpx>, target: Vec<K::Cpx>, back: (Vec<K::Cpx>, Vec<K::Cpx>)|
        source@ == input && target@.len() == input.len() && #[trigger] call_ensures(
            K::transform,
            (&kernel, source, target),
            back,
        ) && back.1@ == bins
}

/// What `transform` returns as its output for an input that holds `input`.
pub open spec fn spectrum<K: Kernel>(kernel: K, input: Seq<K::Cpx>) -> Seq<K::Cpx> {
    choose|bins: Seq<K::Cpx>| transforms_to(kernel, input, bins)
}

/// What `accumulate` returns for `sum`, `bin` and `len`.
pub open spec fn accumulated<K: Kernel>(
    kernel: K,
    sum: K::Amp,
    bin: K::Cpx,
    len: usize,
) -> K::Amp {
    choose|total: K::Amp| call_ensures(K::accumulate, (&kernel, sum, bin, len), total)
}

/// What `pitch_from_pixel` returns for these arguments.
pub open spec fn pitch_at<K: Kernel>(
    kernel: K,
    x: usize,
    width: usize,
    from_key: K::Amp,
    to_key: K::Amp,
) -> K::Amp {
    choose|pitch: K::Amp|
        call_ensures(K::pitch_from_pixel, (&kernel, x, width, from_key, to_key), pitch)
}

/// What `frequency_from_pitch` returns for `pitch`.
pub open spec fn frequency_of<K: Kernel>(kernel: K, pitch: K::Amp) -> K::Amp {
    choose|frequency: K::Amp| call_ensures(K::frequency_from_pitch, (&kernel, pitch), frequency)
}

/// What `bin_from_frequency` returns for these arguments.
pub open spec fn bin_of<K: Kernel>(
    kernel: K,
    frequency: K::Amp,
    len: usize,
    rate: K::Amp,
    bins: usize,
) -> Position<K::Amp> {
    choose|position: Position<K::Amp>|
        call_ensures(K::bin_from_frequency, (&kernel, frequency, len, rate, bins), position)
}

/// What `interpolate` returns for these arguments.
pub open spec fn interpolated<K: Kernel>(
    kernel: K,
    lower: K::Amp,
    upper: K::Amp,
    fraction: K::Amp,
    frames: usize,
) -> K::Amp {
    choose|value: K::Amp|
        call_ensures(K::interpolate, (&kernel, lower, upper, fraction, frames), value)
}

/// What `boost` returns for `value` and `factor`.
pub open spec fn boosted<K: Kernel>(kernel: K, value: K::Amp, factor: K::Amp) -> K::Amp {
    choose|raised: K::Amp| call_ensures(K::boost, (&kernel, value, factor), raised)
}

/// What `intensity` returns for `value`.
pub open spec fn intensity_of<K: Kernel>(kernel: K, value: K::Amp) -> u8 {
    choose|level: u8| call_ensures(K::intensity, (&kernel, value), level)
}

/// The operations that `process` uses are functions of their arguments.
/// Given two buffers of one length, `transform` returns buffers of that
/// length, and an output that depends on what the input held alone.
pub open spec fn analysis_conforms<K: Kernel>(kernel: K) -> bool {
    &&& forall|a: K::Amp, b: K::Amp|
        call_ensures(K::silence, (&kernel,), a) && call_ensures(K::silence, (&kernel,), b) ==> a
            == b
    &&& forall|rate: K::Amp, a: K::Amp, b: K::Amp|
        call_ensures(K::halve, (&kernel, rate), a) && call_ensures(K::halve, (&kernel, rate), b)
            ==> a == b
    &&& forall|amplitude: K::Amp, a: K::Cpx, b: K::Cpx|
        call_ensures(K::lift, (&kernel, amplitude), a) && call_ensures(
            K::lift,
            (&kernel, amplitude),
            b,
        ) ==> a == b
    &&& forall|first: K::Cpx, second: K::Cpx, a: K::Cpx, b: K::Cpx|
        call_ensures(K::mean, (&kernel, first, second), a) && call_ensures(
            K::mean,
            (&kernel, first, second),
            b,
        ) ==> a == b
    &&& forall|sum: K::Amp, bin: K::Cpx, len: usize, a: K::Amp, b: K::Amp|
        call_ensures(K::accumulate, (&kernel, sum, bin, len), a) && call_ensures(
            K::accumulate,
            (&kernel, sum, bin, len),
            b,
        ) ==> a == b
    &&& forall|a: usize, b: usize|
        call_ensures(K::transform_len, (&kernel,), a) && call_ensures(
            K::transform_len,
            (&kernel,),
            b,
        ) ==> a == b
    &&& forall|source: Vec<K::Cpx>, target: Vec<K::Cpx>, back: (Vec<K::Cpx>, Vec<K::Cpx>)| #[trigger]
        call_ensures(K::transform, (&kernel, source, target), back) && source@.len()
            == target@.len() ==> back.0@.len() == source@.len() && back.1@.len() == target@.len()
    &&& forall|
        source: Vec<K::Cpx>,
        target: Vec<K::Cpx>,
        back: (Vec<K::Cpx>, Vec<K::Cpx>),
        other_source: Vec<K::Cpx>,
        other_target: Vec<K::Cpx>,
        other_back: (Vec<K::Cpx>, Vec<K::Cpx>),
    |
        call_ensures(K::transform, (&kernel, source, target), back) && call_ensures(
            K::transform,
            (&kernel, other_source, other_target),
            other_back,
        ) && source@ == other_source@ && target@.len() == source@.len() && other_target@.len()
            == source@.len() ==> back.1@ == other_back.1@
}

/// The operations that `draw_frame` uses are functions of their arguments.
pub open spec fn rendering_conforms<K: Kernel>(kernel: K) -> bool {
    &&& forall|x: usize, width: usize, from_key: K::Amp, to_key: K::Amp, a: K::Amp, b: K::Amp|
        call_ensures(K::pitch_from_pixel, (&kernel, x, width, from_key, to_key), a) && call_ensures(
            K::pitch_from_pixel,
            (&kernel, x, width, from_key, to_key),
            b,
        ) ==> a == b
    &&& forall|pitch: K::Amp, a: K::Amp, b: K::Amp|
        call_ensures(K::frequency_from_pitch, (&kernel, pitch), a) && call_ensures(
            K::frequency_from_pitch,
            (&kernel, pitch),
            b,
        ) ==> a == b
    &&& forall|
        frequency: K::Amp,
        len: usize,
        rate: K::Amp,
        bins: usize,
        a: Position<K::Amp>,
        b: Position<K::Amp>,
    |
        call_ensures(K::bin_from_frequency, (&kernel, frequency, len, rate, bins), a)
            && call_ensures(K::bin_from_frequency, (&kernel, frequency, len, rate, bins), b) ==> a
            == b
    &&& forall|
        lower: K::Amp,
        upper: K::Amp,
        fraction: K::Amp,
        frames: usize,
        a: K::Amp,
        b: K::Amp,
    |
        call_ensures(K::interpolate, (&kernel, lower, upper, fraction, frames), a) && call_ensures(
            K::interpolate,
            (&kernel, lower, upper, fraction, frames),
            b,
        ) ==> a == b
    &&& forall|value: K::Amp, factor: K::Amp, a: K::Amp, b: K::Amp|
        call_ensures(K::boost, (&kernel, value, factor), a) && call_ensures(
            K::boost,
            (&kernel, value, factor),
            b,
        ) ==> a == b
    &&& forall|value: K::Amp, a: u8, b: u8|
        call_ensures(K::intensity, (&kernel, value), a) && call_ensures(
            K::intensity,
            (&kernel, value),
            b,
        ) ==> a == b
}

/// Every operation of `kernel` is a function of its arguments: the same
/// arguments never give two results.
pub open spec fn conforms<K: Kernel>(kernel: K) -> bool {
    analysis_conforms(kernel) && rendering_conforms(kernel)
}

} // verus!
