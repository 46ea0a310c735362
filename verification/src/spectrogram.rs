//! The engine: window, running sums, and the row drawn from them.

use vstd::prelude::*;
use vstd::arithmetic::power2::pow2;
use vstd::arithmetic::power2::lemma_pow2_pos;
use vstd::arithmetic::power2::lemma_pow2_unfold;
use vstd::arithmetic::power2::lemma_pow2_strictly_increases;
use vstd::arithmetic::power2::lemma2_to64;
use crate::audio::Buffer;
use crate::audio::Sample;
use crate::audio::lefts;
use crate::audio::uniform;
use crate::canvas::Line;
use crate::canvas::Pixel;
use crate::canvas::grey;
use crate::error::Error;
use crate::kernel::Kernel;
use crate::kernel::Position;
use crate::kernel::accumulated;
use crate::kernel::averaged;
use crate::kernel::bin_of;
use crate::kernel::boosted;
use crate::kernel::conforms;
use crate::kernel::frequency_of;
use crate::kernel::halved;
use crate::kernel::intensity_of;
use crate::kernel::interpolated;
use crate::kernel::lifted;
use crate::kernel::pitch_at;
use crate::kernel::planned;
use crate::kernel::silent;
use crate::kernel::spectrum;
use crate::kernel::transforms_to;
use crate::ring::Ring;
use crate::ring::filled;
use crate::ring::slide;

verus! {

/// Two to the power of `exponent`, if a `usize` can hold it.
pub fn power_of_two(exponent: u32) -> (power: Option<usize>)
    ensures
        pow2(exponent as nat) <= usize::MAX ==> power == Some(pow2(exponent as nat) as usize),
        pow2(exponent as nat) > usize::MAX ==> power is None,
{
    let mut power: usize = 1;
    let mut done: u32 = 0;
    proof {
        lemma2_to64();
    }
    while done < exponent
        invariant
            done <= exponent,
            power == pow2(done as nat),
        decreases exponent - done,
    {
        proof {
            lemma_pow2_unfold((done + 1) as nat);
        }
        match power.checked_mul(2) {
            Some(doubled) => {
                power = doubled;
            },
            None => {
                proof {
                    if done + 1 < exponent {
                        lemma_pow2_strictly_increases((done + 1) as nat, exponent as nat);
                    }
                }
                return None;
            },
        }
        done = done + 1;
    }
    Some(power)
}

/// The window averaged pairwise: one value for each two of `window`.
pub open spec fn downsampled<K: Kernel>(kernel: K, window: Seq<K::Cpx>) -> Seq<K::Cpx> {
    Seq::new(
        (window.len() / 2) as nat,
        |i: int| averaged(kernel, window[2 * i], window[2 * i + 1]),
    )
}

/// The running sums after one more spectrum of `len` bins: slot `i` takes
/// in bin `i + 1` as long as that bin lies in the lower half of the
/// spectrum, so that bin 0 and the upper half stay out; the other slots
/// stay as they are.
pub open spec fn folded<K: Kernel>(
    kernel: K,
    sums: Seq<K::Amp>,
    bins: Seq<K::Cpx>,
    len: usize,
) -> Seq<K::Amp> {
    Seq::new(
        sums.len(),
        |i: int|
            if i + 1 < len / 2 {
                accumulated(kernel, sums[i], bins[i + 1], len)
            } else {
                sums[i]
            },
    )
}

/// One more sample counted, as far as the counter reaches.
pub open spec fn counted(frames: nat) -> nat {
    if frames < usize::MAX {
        frames + 1
    } else {
        frames
    }
}

/// A window may hold `len` values: `len` is two to some power of at least
/// two.
pub open spec fn window_size(len: nat) -> bool {
    exists|power: nat| 2 <= power && len == #[trigger] pow2(power)
}

/// A window holds at least four values, so that a spectrum has at least two
/// bins and there is at least one running sum.
pub proof fn lemma_window_size_is_four_or_more(len: nat)
    requires
        window_size(len),
    ensures
        len >= 4,
{
    let power = choose|power: nat| 2 <= power && len == #[trigger] pow2(power);
    lemma_pow2_unfold(power);
    lemma_pow2_unfold((power - 1) as nat);
    lemma_pow2_pos((power - 2) as nat);
}

/// What an engine is, apart from its scratch buffers.
pub struct State<K: Kernel> {
    /// The arithmetic in use.
    pub kernel: K,
    /// The lowest key drawn.
    pub from_key: K::Amp,
    /// The highest key drawn.
    pub to_key: K::Amp,
    /// The strength of the boost curve.
    pub boost: K::Amp,
    /// Half the rate of the chunk seen last, if any was seen.
    pub sample_rate: Option<K::Amp>,
    /// The sliding window, oldest sample first.
    pub window: Seq<K::Cpx>,
    /// For each usable bin, the sum of its magnitudes since the last row.
    pub sums: Seq<K::Amp>,
    /// How many samples went into the sums, as far as the counter reaches.
    pub frames: nat,
}

impl<K: Kernel> State<K> {
    /// The sizes belong together, the kernel transforms half a window, and
    /// sums come with a rate.
    pub open spec fn well_formed(self) -> bool {
        &&& conforms(self.kernel)
        &&& window_size(self.window.len())
        &&& planned(self.kernel) == self.window.len() / 2
        &&& self.sums.len() + 1 == self.window.len() / 2
        &&& self.frames <= usize::MAX
        &&& self.frames > 0 ==> self.sample_rate is Some
    }

    /// The state of an engine that has seen nothing: a silent window of
    /// `capacity` samples and empty sums.
    pub open spec fn fresh(
        kernel: K,
        from_key: K::Amp,
        to_key: K::Amp,
        boost: K::Amp,
        capacity: nat,
    ) -> Self {
        State {
            kernel,
            from_key,
            to_key,
            boost,
            sample_rate: None,
            window: Seq::new(capacity, |i: int| lifted(kernel, silent(kernel))),
            sums: Seq::new((capacity / 2 - 1) as nat, |i: int| silent(kernel)),
            frames: 0,
        }
    }

    /// The number of bins of a spectrum: half the window.
    pub open spec fn transform_len(self) -> nat {
        self.window.len() / 2
    }

    /// The state with `rate` as its sample rate.
    pub open spec fn tuned(self, rate: K::Amp) -> Self {
        State {
            kernel: self.kernel,
            from_key: self.from_key,
            to_key: self.to_key,
            boost: self.boost,
            sample_rate: Some(rate),
            window: self.window,
            sums: self.sums,
            frames: self.frames,
        }
    }

    /// The state after one sample of left amplitude `amplitude`: the sample
    /// enters the window, the whole window is averaged pairwise and
    /// transformed, the spectrum is added to the sums, normalised by the
    /// length of the transform, and the sample is counted.
    pub open spec fn heard(self, amplitude: K::Amp) -> Self {
        let window = slide(self.window, lifted(self.kernel, amplitude));
        let bins = spectrum(self.kernel, downsampled(self.kernel, window));
        State {
            kernel: self.kernel,
            from_key: self.from_key,
            to_key: self.to_key,
            boost: self.boost,
            sample_rate: self.sample_rate,
            window,
            sums: folded(self.kernel, self.sums, bins, self.transform_len() as usize),
            frames: counted(self.frames),
        }
    }

    /// The state after the samples of left amplitudes `amplitudes`, first
    /// to last.
    pub open spec fn heard_all(self, amplitudes: Seq<K::Amp>) -> Self
        decreases amplitudes.len(),
    {
        if amplitudes.len() == 0 {
            self
        } else {
            self.heard_all(amplitudes.drop_last()).heard(amplitudes.last())
        }
    }

    /// The state after a chunk of `samples` taken at `rate`.
    pub open spec fn processed(self, rate: K::Amp, samples: Seq<Sample<K::Amp>>) -> Self {
        self.tuned(halved(self.kernel, rate)).heard_all(lefts(samples))
    }

    /// The fractional bin index shown at position `x` of a row of `width`
    /// pixels: from the position to a pitch, from the pitch to a
    /// frequency, from the frequency to a place among the bins.
    pub open spec fn position(self, width: usize, x: usize) -> Position<K::Amp> {
        let pitch = pitch_at(self.kernel, x, width, self.from_key, self.to_key);
        let frequency = frequency_of(self.kernel, pitch);
        bin_of(
            self.kernel,
            frequency,
            self.transform_len() as usize,
            self.sample_rate->0,
            self.sums.len() as usize,
        )
    }

    /// The grey level at position `x` of a row of `width` pixels: the mean
    /// magnitude between the two bins around the position, neither beyond
    /// the last bin, then boosted and turned into a level.
    pub open spec fn level(self, width: usize, x: usize) -> u8 {
        let position = self.position(width, x);
        let last = self.sums.len() - 1;
        let lower = if position.lower < last { position.lower as int } else { last };
        let upper = if position.upper < last { position.upper as int } else { last };
        let value = interpolated(
            self.kernel,
            self.sums[lower],
            self.sums[upper],
            position.fraction,
            self.frames as usize,
        );
        intensity_of(self.kernel, boosted(self.kernel, value, self.boost))
    }

    /// The pixels of a row of `width` pixels after drawing: each keeps its
    /// position and is grey at the level of that position.
    pub open spec fn painted(self, width: usize, pixels: Seq<Pixel>) -> Seq<Pixel> {
        Seq::new(pixels.len(), |i: int| grey(pixels[i], self.level(width, pixels[i].x)))
    }

    /// The state after a row was drawn: the sums are silent again and no
    /// sample is counted.
    pub open spec fn cleared(self) -> Self {
        State {
            kernel: self.kernel,
            from_key: self.from_key,
            to_key: self.to_key,
            boost: self.boost,
            sample_rate: self.sample_rate,
            window: self.window,
            sums: Seq::new(self.sums.len(), |i: int| silent(self.kernel)),
            frames: 0,
        }
    }

    /// The state after `draw_frame` on a row of `width` pixels, `pixels` of
    /// them to paint: cleared if a sample was counted and the row was not
    /// refused, as before otherwise.
    pub open spec fn after_draw(self, width: usize, pixels: nat) -> Self {
        if self.frames > 0 && self.refusal(width, pixels) is None {
            self.cleared()
        } else {
            self
        }
    }

    /// The pixels after `draw_frame` on a row of `width` pixels that holds
    /// `pixels`: painted if a sample was counted and the row was not
    /// refused, as before otherwise.
    pub open spec fn row_after_draw(self, width: usize, pixels: Seq<Pixel>) -> Seq<Pixel> {
        if self.frames > 0 && self.refusal(width, pixels.len()) is None {
            self.painted(width, pixels)
        } else {
            pixels
        }
    }

    /// What `draw_frame` answers for a row of `width` pixels, `pixels` of
    /// them to paint.
    pub open spec fn verdict(self, width: usize, pixels: nat) -> Result<(), Error> {
        match self.refusal(width, pixels) {
            Some(error) => Err(error),
            None => Ok(()),
        }
    }

    /// Why a row of `width` pixels, `pixels` of them to paint, cannot be
    /// drawn, if it cannot. With no sample counted or no pixel to paint
    /// nothing is refused; otherwise the row needs a width.
    pub open spec fn refusal(self, width: usize, pixels: nat) -> Option<Error> {
        if self.frames > 0 && pixels > 0 && width == 0 {
            Some(Error::BufferSizeMismatch)
        } else {
            None
        }
    }
}

/// A spectrogram engine over the arithmetic of `K`.
pub struct Spectrogram<K: Kernel> {
    kernel: K,
    from_key: K::Amp,
    to_key: K::Amp,
    boost: K::Amp,
    sample_rate: Option<K::Amp>,
    queue: Ring<K::Cpx>,
    input: Vec<K::Cpx>,
    output: Vec<K::Cpx>,
    freq_sum: Vec<K::Amp>,
    freq_n: usize,
}

impl<K: Kernel> View for Spectrogram<K> {
    type V = State<K>;

    closed spec fn view(&self) -> State<K> {
        State {
            kernel: self.kernel,
            from_key: self.from_key,
            to_key: self.to_key,
            boost: self.boost,
            sample_rate: self.sample_rate,
            window: self.queue@,
            sums: self.freq_sum@,
            frames: self.freq_n as nat,
        }
    }
}

impl<K: Kernel> Spectrogram<K> {
    /// The scratch buffers have the size of a spectrum.
    pub closed spec fn buffers_fit(&self) -> bool {
        &&& self.queue.wf()
        &&& self.input@.len() == self.queue@.len() / 2
        &&& self.output@.len() == self.queue@.len() / 2
    }

    /// The engine is in order.
    pub open spec fn wf(&self) -> bool {
        self.buffers_fit() && self@.well_formed()
    }

    /// An engine with a window of two to the power of `buffer_size_power`
    /// samples, which draws the keys `from_key` to `to_key`.
    ///
    /// The power must be at least two, the window must be countable, and
    /// the kernel must transform half a window.
    pub fn new(
        buffer_size_power: u32,
        from_key: K::Amp,
        to_key: K::Amp,
        boost: K::Amp,
        kernel: K,
    ) -> (made: Result<Self, Error>)
        requires
            conforms(kernel),
        ensures
            match made {
                Ok(engine) => {
                    &&& 2 <= buffer_size_power
                    &&& pow2(buffer_size_power as nat) <= usize::MAX
                    &&& planned(kernel) == pow2(buffer_size_power as nat) / 2
                    &&& engine.wf()
                    &&& engine@ == State::fresh(
                        kernel,
                        from_key,
                        to_key,
                        boost,
                        pow2(buffer_size_power as nat),
                    )
                },
                Err(error) => {
                    &&& error == Error::InvalidConfiguration
                    &&& buffer_size_power < 2 || pow2(buffer_size_power as nat) > usize::MAX
                        || planned(kernel) != pow2(buffer_size_power as nat) / 2
                },
            },
    {
        if buffer_size_power < 2 {
            return Err(Error::InvalidConfiguration);
        }
        let queue_size: usize = match power_of_two(buffer_size_power) {
            Some(size) => size,
            None => {
                return Err(Error::InvalidConfiguration);
            },
        };
        proof {
            lemma_pow2_unfold(buffer_size_power as nat);
            lemma_pow2_unfold((buffer_size_power - 1) as nat);
            lemma_pow2_pos((buffer_size_power - 2) as nat);
        }
        let buffer_size: usize = queue_size / 2;
        if kernel.transform_len() != buffer_size {
            return Err(Error::InvalidConfiguration);
        }
        let silence = kernel.silence();
        let origin = kernel.lift(silence);
        let engine = Spectrogram {
            kernel,
            from_key,
            to_key,
            boost,
            sample_rate: None,
            queue: Ring::new(queue_size, origin),
            input: filled(buffer_size, origin),
            output: filled(buffer_size, origin),
            freq_sum: filled(buffer_size - 1, silence),
            freq_n: 0,
        };
        proof {
            assert(engine@.window =~= State::fresh(
                kernel,
                from_key,
                to_key,
                boost,
                pow2(buffer_size_power as nat),
            ).window);
            assert(engine@.sums =~= State::fresh(
                kernel,
                from_key,
                to_key,
                boost,
                pow2(buffer_size_power as nat),
            ).sums);
        }
        Ok(engine)
    }

    /// How many samples went into the running sums since the last row.
    pub fn frames(&self) -> (frames: usize)
        ensures
            frames == self@.frames,
    {
        self.freq_n
    }

    /// Half the rate of the chunk processed last; none before the first
    /// chunk.
    pub fn sample_rate(&self) -> (rate: Option<K::Amp>)
        ensures
            rate == self@.sample_rate,
    {
        self.sample_rate
    }

    /// The running sums, one for each usable bin.
    pub fn sums(&self) -> (sums: &Vec<K::Amp>)
        ensures
            sums@ == self@.sums,
    {
        &self.freq_sum
    }

    /// The sliding window.
    pub fn window(&self) -> (window: &Ring<K::Cpx>)
        requires
            self.wf(),
        ensures
            window.wf(),
            window@ == self@.window,
    {
        &self.queue
    }

    /// Averages the window pairwise into the input buffer.
    fn downsample(&mut self)
        requires
            old(self).wf(),
        ensures
            final(self).wf(),
            final(self)@ == old(self)@,
            final(self).input@ == downsampled(old(self)@.kernel, old(self)@.window),
    {
        let count: usize = self.input.len();
        let mut index: usize = 0;
        while index < count
            invariant
                self.wf(),
                self@ == old(self)@,
                count == self.input@.len(),
                index <= count,
                forall|i: int|
                    0 <= i < index ==> self.input@[i] == averaged(
                        self.kernel,
                        self.queue@[2 * i],
                        self.queue@[2 * i + 1],
                    ),
            decreases count - index,
        {
            let (first, second) = self.queue.pair(index);
            let middle = self.kernel.mean(first, second);
            self.input.set(index, middle);
            index = index + 1;
        }
        assert(self.input@ =~= downsampled(self.kernel, self.queue@));
    }

    /// Runs the transform over the input buffer into the output buffer.
    fn transform(&mut self)
        requires
            old(self).wf(),
        ensures
            final(self).wf(),
            final(self)@ == old(self)@,
            final(self).output@ == spectrum(old(self)@.kernel, old(self).input@),
    {
        let mut input: Vec<K::Cpx> = Vec::new();
        let mut output: Vec<K::Cpx> = Vec::new();
        core::mem::swap(&mut self.input, &mut input);
        core::mem::swap(&mut self.output, &mut output);
        let ghost source = input;
        let ghost target = output;
        let (scratch, bins) = self.kernel.transform(input, output);
        proof {
            assert(call_ensures(K::transform, (&self.kernel, source, target), (scratch, bins)));
            assert(transforms_to(self.kernel, source@, bins@));
            assert(transforms_to(self.kernel, source@, spectrum(self.kernel, source@)));
        }
        self.input = scratch;
        self.output = bins;
    }

    /// Adds the usable bins of the output buffer to the running sums.
    fn fold(&mut self)
        requires
            old(self).wf(),
        ensures
            final(self).wf(),
            final(self)@.sums == folded(
                old(self)@.kernel,
                old(self)@.sums,
                old(self).output@,
                old(self)@.transform_len() as usize,
            ),
            final(self)@.kernel == old(self)@.kernel,
            final(self)@.from_key == old(self)@.from_key,
            final(self)@.to_key == old(self)@.to_key,
            final(self)@.boost == old(self)@.boost,
            final(self)@.sample_rate == old(self)@.sample_rate,
            final(self)@.window == old(self)@.window,
            final(self)@.frames == old(self)@.frames,
            final(self).output@ == old(self).output@,
    {
        proof {
            lemma_window_size_is_four_or_more(self@.window.len());
        }
        let len: usize = self.output.len();
        let count: usize = len / 2 - 1;
        let mut slot: usize = 0;
        while slot < count
            invariant
                self.wf(),
                self@.kernel == old(self)@.kernel,
                self@.from_key == old(self)@.from_key,
                self@.to_key == old(self)@.to_key,
                self@.boost == old(self)@.boost,
                self@.sample_rate == old(self)@.sample_rate,
                self@.window == old(self)@.window,
                self@.frames == old(self)@.frames,
                self.output@ == old(self).output@,
                len == self.output@.len(),
                len == self@.transform_len(),
                count + 1 == len / 2,
                self.freq_sum@.len() == old(self).freq_sum@.len(),
                slot <= count,
                forall|i: int|
                    0 <= i < slot ==> self.freq_sum@[i] == accumulated(
                        self.kernel,
                        old(self).freq_sum@[i],
                        self.output@[i + 1],
                        len,
                    ),
                forall|i: int|
                    slot <= i < self.freq_sum@.len() ==> self.freq_sum@[i] == old(
                        self,
                    ).freq_sum@[i],
            decreases count - slot,
        {
            let sum = self.freq_sum[slot];
            let bin = self.output[slot + 1];
            let total = self.kernel.accumulate(sum, bin, len);
            self.freq_sum.set(slot, total);
            slot = slot + 1;
        }
        assert(self.freq_sum@ =~= folded(self.kernel, old(self).freq_sum@, self.output@, len));
    }

    /// Takes in one sample of left amplitude `amplitude`.
    fn hear(&mut self, amplitude: K::Amp)
        requires
            old(self).wf(),
            old(self)@.sample_rate is Some,
        ensures
            final(self).wf(),
            final(self)@ == old(self)@.heard(amplitude),
    {
        let sample = self.kernel.lift(amplitude);
        self.queue.enqueue(sample);
        self.downsample();
        self.transform();
        self.fold();
        if self.freq_n < usize::MAX {
            self.freq_n = self.freq_n + 1;
        }
    }

    /// Takes in a chunk of audio, sample by sample, and silences it.
    ///
    /// Each sample's left amplitude enters the window; the whole window is
    /// then averaged pairwise and transformed, and the spectrum is added to
    /// the running sums: one transform for each sample. Both channels of
    /// the sample are silent afterwards. Half the chunk's rate becomes the
    /// engine's sample rate.
    ///
    /// Every chunk is taken in. The frame counter stops at the largest
    /// count it can hold.
    pub fn process(&mut self, buffer: &mut Buffer<K::Amp>) -> (done: Result<(), Error>)
        requires
            old(self).wf(),
        ensures
            final(self).wf(),
            done is Ok,
            final(self)@ == old(self)@.processed(old(buffer).sample_rate, old(buffer).data@),
            final(buffer).sample_rate == old(buffer).sample_rate,
            final(buffer).data@ == uniform(old(buffer).data@.len(), silent(old(self)@.kernel)),
    {
        let count: usize = buffer.data.len();
        self.sample_rate = Some(self.kernel.halve(buffer.sample_rate));
        let silence = self.kernel.silence();
        let ghost start = self@;
        let ghost amplitudes = lefts(old(buffer).data@);
        let mut index: usize = 0;
        assert(amplitudes.take(0) =~= Seq::<K::Amp>::empty());
        while index < count
            invariant
                self.wf(),
                index <= count,
                count == buffer.data@.len(),
                count == old(buffer).data@.len(),
                start == old(self)@.tuned(halved(old(self)@.kernel, old(buffer).sample_rate)),
                amplitudes == lefts(old(buffer).data@),
                silence == silent(start.kernel),
                self@ == start.heard_all(amplitudes.take(index as int)),
                buffer.sample_rate == old(buffer).sample_rate,
                forall|i: int|
                    0 <= i < index ==> buffer.data@[i] == (Sample { left: silence, right: silence }),
                forall|i: int| index <= i < count ==> buffer.data@[i] == old(buffer).data@[i],
            decreases count - index,
        {
            let amplitude = buffer.data[index].left;
            self.hear(amplitude);
            buffer.data.set(index, Sample { left: silence, right: silence });
            proof {
                let seen = amplitudes.take(index + 1);
                assert(seen.drop_last() =~= amplitudes.take(index as int));
                assert(seen.last() == amplitude);
            }
            index = index + 1;
        }
        proof {
            assert(amplitudes.take(count as int) =~= amplitudes);
            assert(buffer.data@ =~= uniform(count as nat, silence));
        }
        Ok(())
    }

    /// The grey level at position `x` of a row of `width` pixels.
    fn shade(&self, width: usize, x: usize, rate: K::Amp) -> (level: u8)
        requires
            self.wf(),
            width > 0,
            self@.frames > 0,
            self@.sample_rate == Some(rate),
        ensures
            level == self@.level(width, x),
    {
        proof {
            lemma_window_size_is_four_or_more(self@.window.len());
        }
        let bins: usize = self.freq_sum.len();
        let pitch = self.kernel.pitch_from_pixel(x, width, self.from_key, self.to_key);
        let frequency = self.kernel.frequency_from_pitch(pitch);
        let position = self.kernel.bin_from_frequency(frequency, self.input.len(), rate, bins);
        let last: usize = bins - 1;
        let lower: usize = if position.lower < last {
            position.lower
        } else {
            last
        };
        let upper: usize = if position.upper < last {
            position.upper
        } else {
            last
        };
        let value = self.kernel.interpolate(
            self.freq_sum[lower],
            self.freq_sum[upper],
            position.fraction,
            self.freq_n,
        );
        let raised = self.kernel.boost(value, self.boost);
        self.kernel.intensity(raised)
    }

    /// Sets every running sum back to silence and the frame counter to
    /// nought.
    fn clear(&mut self)
        requires
            old(self).wf(),
        ensures
            final(self).wf(),
            final(self)@ == old(self)@.cleared(),
    {
        let silence = self.kernel.silence();
        let count: usize = self.freq_sum.len();
        let mut slot: usize = 0;
        while slot < count
            invariant
                self.wf(),
                self@.kernel == old(self)@.kernel,
                self@.from_key == old(self)@.from_key,
                self@.to_key == old(self)@.to_key,
                self@.boost == old(self)@.boost,
                self@.sample_rate == old(self)@.sample_rate,
                self@.window == old(self)@.window,
                self@.frames == old(self)@.frames,
                silence == silent(self.kernel),
                count == self.freq_sum@.len(),
                count == old(self).freq_sum@.len(),
                slot <= count,
                forall|i: int| 0 <= i < slot ==> self.freq_sum@[i] == silence,
            decreases count - slot,
        {
            self.freq_sum.set(slot, silence);
            slot = slot + 1;
        }
        self.freq_n = 0;
        assert(self@.sums =~= old(self)@.cleared().sums);
    }

    /// Draws one row from the running sums and starts them over.
    ///
    /// With no sample counted since the last row, nothing happens: the row
    /// and the engine stay as they are. Otherwise every pixel of the row
    /// becomes grey at the level of its position, and the sums and the
    /// frame counter are reset.
    ///
    /// A row that has pixels but no width is refused, and nothing changes
    /// then.
    pub fn draw_frame(&mut self, line: &mut Line) -> (done: Result<(), Error>)
        requires
            old(self).wf(),
        ensures
            final(self).wf(),
            final(line).len == old(line).len,
            done == old(self)@.verdict(old(line).len, old(line).data@.len()),
            final(self)@ == old(self)@.after_draw(old(line).len, old(line).data@.len()),
            final(line).data@ == old(self)@.row_after_draw(old(line).len, old(line).data@),
    {
        if self.freq_n == 0 {
            return Ok(());
        }
        let count: usize = line.data.len();
        if count > 0 && line.len == 0 {
            return Err(Error::BufferSizeMismatch);
        }
        if let Some(rate) = self.sample_rate {
            let width: usize = line.len;
            let mut index: usize = 0;
            while index < count
                invariant
                    self.wf(),
                    self@ == old(self)@,
                    self@.sample_rate == Some(rate),
                    self@.frames > 0,
                    count > 0 ==> width > 0,
                    index <= count,
                    count == line.data@.len(),
                    count == old(line).data@.len(),
                    line.len == old(line).len,
                    width == line.len,
                    forall|i: int|
                        0 <= i < index ==> line.data@[i] == grey(
                            old(line).data@[i],
                            self@.level(width, old(line).data@[i].x),
                        ),
                    forall|i: int| index <= i < count ==> line.data@[i] == old(line).data@[i],
                decreases count - index,
            {
                let x: usize = line.data[index].x;
                let level: u8 = self.shade(width, x, rate);
                line.data.set(index, Pixel { x, r: level, g: level, b: level });
                index = index + 1;
            }
            assert(line.data@ =~= old(self)@.painted(width, old(line).data@));
        }
        self.clear();
        Ok(())
    }
}

} // verus!
