//! What holds of the engine across calls.
//!
//! The contracts of `process` and `draw_frame` give the engine's new state
//! and the row as functions of its old state and the input. The laws here
//! are stated over those functions.

use vstd::prelude::*;
use crate::audio::Sample;
use crate::audio::lefts;
use crate::canvas::Pixel;
use crate::error::Error;
use crate::kernel::Kernel;
use crate::kernel::halved;
use crate::kernel::lifted;
use crate::kernel::silent;
use crate::ring::law_window_forgets;
use crate::ring::slide_all;
use crate::spectrogram::State;
use crate::spectrogram::downsampled;

verus! {

/// The complex samples of `amplitudes`, in order.
pub open spec fn lifted_all<K: Kernel>(kernel: K, amplitudes: Seq<K::Amp>) -> Seq<K::Cpx> {
    Seq::new(amplitudes.len(), |i: int| lifted(kernel, amplitudes[i]))
}

/// Hearing samples slides them through the window, counts them as far as
/// the counter reaches, and leaves the kernel, the keys, the boost and the
/// sample rate alone.
pub proof fn lemma_heard_all<K: Kernel>(state: State<K>, amplitudes: Seq<K::Amp>)
    ensures
        state.heard_all(amplitudes).kernel == state.kernel,
        state.heard_all(amplitudes).from_key == state.from_key,
        state.heard_all(amplitudes).to_key == state.to_key,
        state.heard_all(amplitudes).boost == state.boost,
        state.heard_all(amplitudes).sample_rate == state.sample_rate,
        state.frames + amplitudes.len() <= usize::MAX ==> state.heard_all(amplitudes).frames
            == state.frames + amplitudes.len(),
        state.frames <= usize::MAX < state.frames + amplitudes.len() ==> state.heard_all(
            amplitudes,
        ).frames == usize::MAX,
        state.heard_all(amplitudes).sums.len() == state.sums.len(),
        state.heard_all(amplitudes).window.len() == state.window.len(),
        state.heard_all(amplitudes).window == slide_all(
            state.window,
            lifted_all(state.kernel, amplitudes),
        ),
    decreases amplitudes.len(),
{
    if amplitudes.len() > 0 {
        let earlier = amplitudes.drop_last();
        lemma_heard_all(state, earlier);
        assert(lifted_all(state.kernel, amplitudes).drop_last() =~= lifted_all(
            state.kernel,
            earlier,
        ));
    }
}

/// Hearing one run of samples after another is hearing the two laid end to
/// end.
pub proof fn lemma_heard_all_joins<K: Kernel>(
    state: State<K>,
    earlier: Seq<K::Amp>,
    later: Seq<K::Amp>,
)
    ensures
        state.heard_all(earlier).heard_all(later) == state.heard_all(earlier + later),
    decreases later.len(),
{
    if later.len() == 0 {
        assert(earlier + later =~= earlier);
    } else {
        lemma_heard_all_joins(state, earlier, later.drop_last());
        assert((earlier + later).drop_last() =~= earlier + later.drop_last());
    }
}

/// Determinism: the row drawn after a chunk, and the state left behind, are
/// functions of the chunk, the row given and the state before, of which the
/// earlier sample rate plays no part. Two engines that agree in all but
/// the rate they saw last, fed the same chunk and drawing into the same
/// row, paint the same pixels and are then in the same state.
pub proof fn law_same_input_same_row<K: Kernel>(
    first: State<K>,
    second: State<K>,
    rate: K::Amp,
    samples: Seq<Sample<K::Amp>>,
    width: usize,
    pixels: Seq<Pixel>,
)
    requires
        first.kernel == second.kernel,
        first.from_key == second.from_key,
        first.to_key == second.to_key,
        first.boost == second.boost,
        first.window == second.window,
        first.sums == second.sums,
        first.frames == second.frames,
    ensures
        first.processed(rate, samples) == second.processed(rate, samples),
        first.processed(rate, samples).row_after_draw(width, pixels) == second.processed(
            rate,
            samples,
        ).row_after_draw(width, pixels),
        first.processed(rate, samples).after_draw(width, pixels.len()) == second.processed(
            rate,
            samples,
        ).after_draw(width, pixels.len()),
{
    assert(first.tuned(halved(first.kernel, rate)) == second.tuned(halved(second.kernel, rate)));
}

/// Chunk boundaries do not matter: two chunks at one rate, one after the
/// other, leave the engine as the one chunk of all their samples does.
pub proof fn law_chunks_join<K: Kernel>(
    state: State<K>,
    rate: K::Amp,
    earlier: Seq<Sample<K::Amp>>,
    later: Seq<Sample<K::Amp>>,
)
    ensures
        state.processed(rate, earlier).processed(rate, later) == state.processed(
            rate,
            earlier + later,
        ),
{
    let half = halved(state.kernel, rate);
    let tuned = state.tuned(half);
    lemma_heard_all(tuned, lefts(earlier));
    let between = tuned.heard_all(lefts(earlier));
    assert(between.tuned(half) == between);
    lemma_heard_all_joins(tuned, lefts(earlier), lefts(later));
    assert(lefts(earlier) + lefts(later) =~= lefts(earlier + later));
}

/// Drawing starts over: a draw with samples counted, into a row that has a
/// width or no pixels, is answered with `Ok`, paints the row, and leaves
/// every sum silent and no sample counted.
pub proof fn law_draw_starts_over<K: Kernel>(state: State<K>, width: usize, pixels: Seq<Pixel>)
    requires
        state.frames > 0,
        pixels.len() > 0 ==> width > 0,
    ensures
        state.verdict(width, pixels.len()) == Ok::<(), Error>(()),
        state.row_after_draw(width, pixels) == state.painted(width, pixels),
        state.after_draw(width, pixels.len()).frames == 0,
        state.after_draw(width, pixels.len()).sums.len() == state.sums.len(),
        forall|i: int|
            0 <= i < state.sums.len() ==> state.after_draw(width, pixels.len()).sums[i] == silent(
                state.kernel,
            ),
{
}

/// Drawing twice: after a draw into a row that has a width or no pixels, a
/// second draw with no sample in between is answered with `Ok` and changes
/// neither the engine nor the row it is given, whatever that row is.
pub proof fn law_second_draw_is_idle<K: Kernel>(
    state: State<K>,
    width: usize,
    pixels: nat,
    next_width: usize,
    next_pixels: Seq<Pixel>,
)
    requires
        pixels > 0 ==> width > 0,
    ensures
        state.after_draw(width, pixels).frames == 0,
        state.after_draw(width, pixels).verdict(next_width, next_pixels.len()) == Ok::<(), Error>(()),
        state.after_draw(width, pixels).after_draw(next_width, next_pixels.len())
            == state.after_draw(width, pixels),
        state.after_draw(width, pixels).row_after_draw(next_width, next_pixels) == next_pixels,
{
}

/// The window forgets: once a chunk is at least as long as the window, the
/// window holds the latest samples of the chunk and nothing older.
pub proof fn law_window_holds_latest<K: Kernel>(
    state: State<K>,
    rate: K::Amp,
    samples: Seq<Sample<K::Amp>>,
)
    requires
        samples.len() >= state.window.len(),
    ensures
        state.processed(rate, samples).window == lifted_all(
            state.kernel,
            lefts(samples).subrange(samples.len() - state.window.len(), samples.len() as int),
        ),
{
    let amplitudes = lefts(samples);
    let tuned = state.tuned(halved(state.kernel, rate));
    lemma_heard_all(tuned, amplitudes);
    law_window_forgets(state.window, lifted_all(state.kernel, amplitudes));
    assert(lifted_all(state.kernel, amplitudes).subrange(
        amplitudes.len() - state.window.len(),
        amplitudes.len() as int,
    ) =~= lifted_all(
        state.kernel,
        amplitudes.subrange(amplitudes.len() - state.window.len(), amplitudes.len() as int),
    ));
}

/// The averaged window depends on the latest samples alone: two engines
/// with the same kernel and windows of one size, each fed a chunk at least
/// as long as the window, hold the same window and average it to the same
/// input for the transform whenever the chunks end in the same samples,
/// whatever came before.
pub proof fn law_downsampled_depends_on_latest<K: Kernel>(
    first: State<K>,
    second: State<K>,
    first_rate: K::Amp,
    first_samples: Seq<Sample<K::Amp>>,
    second_rate: K::Amp,
    second_samples: Seq<Sample<K::Amp>>,
)
    requires
        first.kernel == second.kernel,
        first.window.len() == second.window.len(),
        first_samples.len() >= first.window.len(),
        second_samples.len() >= second.window.len(),
        lefts(first_samples).subrange(
            first_samples.len() - first.window.len(),
            first_samples.len() as int,
        ) == lefts(second_samples).subrange(
            second_samples.len() - second.window.len(),
            second_samples.len() as int,
        ),
    ensures
        first.processed(first_rate, first_samples).window == second.processed(
            second_rate,
            second_samples,
        ).window,
        downsampled(first.kernel, first.processed(first_rate, first_samples).window)
            == downsampled(second.kernel, second.processed(second_rate, second_samples).window),
{
    law_window_holds_latest(first, first_rate, first_samples);
    law_window_holds_latest(second, second_rate, second_samples);
}

} // verus!
