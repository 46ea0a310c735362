use rustfft::algorithm::Radix4;
use rustfft::num_complex::Complex;
use rustfft::Length;
use rustfft::FFT;
use spectrogram::Buffer;
use spectrogram::Error;
use spectrogram::Kernel;
use spectrogram::Line;
use spectrogram::Pixel;
use spectrogram::Position;
use spectrogram::Sample;
use spectrogram::Spectrogram;

/// Single-precision arithmetic with a radix-4 transform.
struct Floats {
    fft: Radix4<f32>,
}

impl Floats {
    fn new(buffer_size_power: u32) -> Floats {
        Floats { fft: Radix4::new(1usize << (buffer_size_power - 1), false) }
    }
}

impl Kernel for Floats {
    type Amp = f32;
    type Cpx = Complex<f32>;

    fn silence(&self) -> f32 {
        0.0
    }

    fn halve(&self, rate: f32) -> f32 {
        rate / 2.0
    }

    fn lift(&self, amplitude: f32) -> Complex<f32> {
        Complex::new(amplitude, 0.0)
    }

    fn mean(&self, first: Complex<f32>, second: Complex<f32>) -> Complex<f32> {
        (first + second) / 2.0
    }

    fn transform_len(&self) -> usize {
        self.fft.len()
    }

    fn transform(
        &self,
        mut input: Vec<Complex<f32>>,
        mut output: Vec<Complex<f32>>,
    ) -> (Vec<Complex<f32>>, Vec<Complex<f32>>) {
        self.fft.process(&mut input, &mut output);
        (input, output)
    }

    fn accumulate(&self, sum: f32, bin: Complex<f32>, len: usize) -> f32 {
        sum + 2.0 * bin.norm() / len as f32
    }

    fn pitch_from_pixel(&self, x: usize, width: usize, from_key: f32, to_key: f32) -> f32 {
        (x as f32 / (width - 1) as f32) * (to_key - from_key + 1.0) + from_key - 0.5
    }

    fn frequency_from_pitch(&self, pitch: f32) -> f32 {
        2.0_f32.powf((pitch - 49.0) / 12.0) * 440.0
    }

    fn bin_from_frequency(&self, frequency: f32, len: usize, rate: f32, bins: usize) -> Position<f32> {
        let index = (frequency * len as f32 / rate - 1.0).max(0.0).min(bins as f32 - 1.0);
        Position {
            lower: index.floor() as usize,
            upper: index.ceil() as usize,
            fraction: index.fract(),
        }
    }

    fn interpolate(&self, lower: f32, upper: f32, fraction: f32, frames: usize) -> f32 {
        let below = lower / frames as f32;
        let above = upper / frames as f32;
        below * (1.0 - fraction) + above * fraction
    }

    fn boost(&self, value: f32, factor: f32) -> f32 {
        ((factor + 1.0) * value) / (factor * value + 1.0)
    }

    fn intensity(&self, value: f32) -> u8 {
        ((1.0 - value) * 255.0).round() as u8
    }
}

fn engine_for(power: u32, from_key: f32, to_key: f32, boost: f32) -> Spectrogram<Floats> {
    match Spectrogram::new(power, from_key, to_key, boost, Floats::new(power)) {
        Ok(engine) => engine,
        Err(error) => panic!("no engine: {:?}", error),
    }
}

fn engine(power: u32, boost: f32) -> Spectrogram<Floats> {
    engine_for(power, 1.0, 88.0, boost)
}

fn row(width: usize) -> Line {
    let mut data = Vec::new();
    for x in 0..width {
        data.push(Pixel { x, r: 9, g: 9, b: 9 });
    }
    Line { len: width, data }
}

fn levels(line: &Line) -> Vec<u8> {
    line.data.iter().map(|pixel| pixel.r).collect()
}

/// A sine of amplitude one whose frequency falls on bin ten of the
/// 128-point transform, at a rate that puts pixel five of ten on that bin.
fn tone() -> Buffer<f32> {
    let kernel = Floats::new(8);
    let frequency = kernel.frequency_from_pitch(kernel.pitch_from_pixel(5, 10, 1.0, 88.0));
    let halved = frequency * 128.0 / 10.0;
    let rate = 2.0 * halved;
    let mut data = Vec::new();
    for n in 0..256 {
        let phase = 2.0 * std::f64::consts::PI * frequency as f64 * n as f64 / rate as f64;
        data.push(Sample { left: phase.sin() as f32, right: phase.cos() as f32 });
    }
    Buffer { sample_rate: rate, data }
}

/// `turns` periods of a cosine on bin one of the transform of an engine of
/// power `power`, every value twice, so that each pair averages to one
/// point of the cosine.
fn paired_cosine(power: u32, rate: f32, turns: usize) -> Buffer<f32> {
    let len = 1usize << (power - 1);
    let mut data = Vec::new();
    for n in 0..turns * len {
        let phase = 2.0 * std::f64::consts::PI * n as f64 / len as f64;
        let value = phase.cos() as f32;
        data.push(Sample { left: value, right: -value });
        data.push(Sample { left: value, right: -value });
    }
    Buffer { sample_rate: rate, data }
}

/// An engine whose window is full of the paired cosine and whose sums hold
/// one more period of it.
fn settled(power: u32, from_key: f32, to_key: f32, boost: f32, rate: f32) -> Spectrogram<Floats> {
    let mut engine = engine_for(power, from_key, to_key, boost);
    assert_eq!(engine.process(&mut paired_cosine(power, rate, 1)), Ok(()));
    assert_eq!(engine.draw_frame(&mut row(0)), Ok(()));
    assert_eq!(engine.process(&mut paired_cosine(power, rate, 1)), Ok(()));
    engine
}

#[test]
fn sine_on_bin_ten_darkens_its_pixel() {
    let mut engine = engine(8, 0.0);
    assert_eq!(engine.window().capacity(), 256);
    assert_eq!(engine.sums().len(), 127);
    let mut buffer = tone();
    assert_eq!(engine.process(&mut buffer), Ok(()));
    assert_eq!(engine.frames(), 256);

    let sums = engine.sums().clone();
    let loudest = (0..sums.len()).max_by(|a, b| sums[*a].total_cmp(&sums[*b]));
    assert_eq!(loudest, Some(9));
    for slot in 63..127 {
        assert_eq!(sums[slot], 0.0);
    }

    let mut line = row(10);
    assert_eq!(engine.draw_frame(&mut line), Ok(()));
    let levels = levels(&line);
    for (x, pixel) in line.data.iter().enumerate() {
        assert_eq!(pixel.x, x);
        assert_eq!(pixel.r, pixel.g);
        assert_eq!(pixel.g, pixel.b);
        if x != 5 {
            assert!(levels[5] < pixel.r, "pixel {} is as dark as pixel 5: {:?}", x, levels);
        }
    }
    assert!(levels[5] < 160, "pixel 5 is pale: {:?}", levels);
    assert!(levels[0] > 200, "pixel 0 is dark: {:?}", levels);
    assert!(levels[9] > 200, "pixel 9 is dark: {:?}", levels);

    for sample in &buffer.data {
        assert_eq!(sample.left, 0.0);
        assert_eq!(sample.right, 0.0);
    }
}

#[test]
fn silence_draws_a_white_row() {
    let mut engine = engine(8, 0.0);
    let mut data = Vec::new();
    for _ in 0..256 {
        data.push(Sample { left: 0.0, right: 0.0 });
    }
    let mut buffer = Buffer { sample_rate: 44100.0, data };
    assert_eq!(engine.process(&mut buffer), Ok(()));
    assert_eq!(engine.sample_rate(), Some(22050.0));
    let mut line = row(17);
    assert_eq!(engine.draw_frame(&mut line), Ok(()));
    for (x, pixel) in line.data.iter().enumerate() {
        assert_eq!(*pixel, Pixel { x, r: 255, g: 255, b: 255 });
    }
}

#[test]
fn silence_draws_a_white_row_under_boost() {
    let mut engine = engine(5, 3.0);
    let mut data = Vec::new();
    for _ in 0..40 {
        data.push(Sample { left: 0.0, right: 1.0 });
    }
    let mut buffer = Buffer { sample_rate: 8000.0, data };
    assert_eq!(engine.process(&mut buffer), Ok(()));
    let mut line = row(3);
    assert_eq!(engine.draw_frame(&mut line), Ok(()));
    assert_eq!(levels(&line), vec![255, 255, 255]);
}

#[test]
fn smallest_engine_draws_one_silent_sample_white() {
    let mut engine = engine(2, 0.0);
    assert_eq!(engine.window().capacity(), 4);
    assert_eq!(engine.sums().len(), 1);
    let mut buffer = Buffer { sample_rate: 44100.0, data: vec![Sample { left: 0.0, right: 0.0 }] };
    assert_eq!(engine.process(&mut buffer), Ok(()));
    assert_eq!(engine.frames(), 1);
    let mut line = row(2);
    assert_eq!(engine.draw_frame(&mut line), Ok(()));
    assert_eq!(
        line.data,
        vec![Pixel { x: 0, r: 255, g: 255, b: 255 }, Pixel { x: 1, r: 255, g: 255, b: 255 }]
    );
    assert_eq!(engine.frames(), 0);
}

#[test]
fn smallest_engine_never_writes_its_one_sum() {
    let mut engine = engine(2, 0.0);
    let mut buffer = Buffer {
        sample_rate: 44100.0,
        data: vec![Sample { left: 1.0, right: 0.0 }, Sample { left: -1.0, right: 0.0 }],
    };
    assert_eq!(engine.process(&mut buffer), Ok(()));
    assert_eq!(engine.sums(), &vec![0.0]);
    let mut line = row(2);
    assert_eq!(engine.draw_frame(&mut line), Ok(()));
    assert_eq!(levels(&line), vec![255, 255]);
}

#[test]
fn row_without_width_is_refused_and_nothing_changes() {
    let mut engine = engine(4, 0.0);
    let mut buffer = Buffer { sample_rate: 100.0, data: vec![Sample { left: 0.5, right: 0.5 }; 3] };
    assert_eq!(engine.process(&mut buffer), Ok(()));
    let mut line = Line { len: 0, data: vec![Pixel { x: 0, r: 1, g: 2, b: 3 }] };
    assert_eq!(engine.draw_frame(&mut line), Err(Error::BufferSizeMismatch));
    assert_eq!(line.data, vec![Pixel { x: 0, r: 1, g: 2, b: 3 }]);
    assert_eq!(engine.frames(), 3);
}

#[test]
fn repeated_runs_give_identical_rows() {
    let mut rows = Vec::new();
    for _ in 0..2 {
        let mut engine = engine(8, 2.0);
        let mut buffer = tone();
        assert_eq!(engine.process(&mut buffer), Ok(()));
        let mut line = row(40);
        assert_eq!(engine.draw_frame(&mut line), Ok(()));
        rows.push(line);
    }
    assert_eq!(rows[0], rows[1]);
}

#[test]
fn redraw_after_a_draw_leaves_the_row_alone() {
    let mut engine = engine(8, 0.0);
    let mut buffer = tone();
    assert_eq!(engine.process(&mut buffer), Ok(()));
    let mut line = row(10);
    assert_eq!(engine.draw_frame(&mut line), Ok(()));
    let drawn = line.clone();
    assert_eq!(engine.draw_frame(&mut line), Ok(()));
    assert_eq!(line, drawn);
    let mut blank = row(10);
    assert_eq!(engine.draw_frame(&mut blank), Ok(()));
    assert_eq!(blank, row(10));
    assert_eq!(engine.frames(), 0);
    for sum in engine.sums() {
        assert_eq!(*sum, 0.0);
    }
}

#[test]
fn window_keeps_the_latest_samples_only() {
    let mut engine = engine(3, 0.0);
    let mut data = Vec::new();
    for n in 0..8 {
        data.push(Sample { left: 1.0 + n as f32, right: 0.0 });
    }
    let mut buffer = Buffer { sample_rate: 8.0, data };
    assert_eq!(engine.process(&mut buffer), Ok(()));
    let window = engine.window();
    for index in 0..8 {
        assert_eq!(window.get(index), Complex::new(1.0 + index as f32, 0.0));
    }
    assert_eq!(
        window.pairs(),
        vec![
            (Complex::new(1.0, 0.0), Complex::new(2.0, 0.0)),
            (Complex::new(3.0, 0.0), Complex::new(4.0, 0.0)),
            (Complex::new(5.0, 0.0), Complex::new(6.0, 0.0)),
            (Complex::new(7.0, 0.0), Complex::new(8.0, 0.0)),
        ]
    );
}

#[test]
fn constant_signal_stays_out_of_the_sums() {
    let mut engine = engine(4, 0.0);
    let mut warm = Buffer { sample_rate: 100.0, data: vec![Sample { left: 0.5, right: 0.5 }; 16] };
    assert_eq!(engine.process(&mut warm), Ok(()));
    assert_eq!(engine.draw_frame(&mut row(0)), Ok(()));
    let mut steady = Buffer { sample_rate: 100.0, data: vec![Sample { left: 0.5, right: 0.5 }; 16] };
    assert_eq!(engine.process(&mut steady), Ok(()));
    assert_eq!(engine.frames(), 16);
    for sum in engine.sums() {
        assert!(sum.abs() < 1e-4, "a constant reached a bin: {}", sum);
    }
}

#[test]
fn sums_hold_the_normalised_magnitude_of_each_lower_bin() {
    let mut engine = settled(4, 1.0, 88.0, 0.0, 44100.0);
    assert_eq!(engine.frames(), 16);
    let mean = (1.0 + (std::f64::consts::PI / 8.0).cos()) / 2.0;
    let sums = engine.sums().clone();
    assert_eq!(sums.len(), 7);
    assert!((sums[0] / 16.0 - mean as f32).abs() < 1e-5, "bin one holds {}", sums[0] / 16.0);
    assert!(sums[1].abs() < 1e-4);
    assert!(sums[2].abs() < 1e-4);
    assert_eq!(&sums[3..], &[0.0, 0.0, 0.0, 0.0]);
    assert_eq!(engine.draw_frame(&mut row(1)), Ok(()));
}

#[test]
fn grey_level_is_the_rounded_complement_of_the_mean() {
    let mut engine = settled(4, 1.0, 88.0, 0.0, 400000.0);
    let mut line = row(5);
    assert_eq!(engine.draw_frame(&mut line), Ok(()));
    assert_eq!(levels(&line), vec![10, 10, 10, 10, 10]);
}

#[test]
fn boost_raises_the_mean_before_it_is_drawn() {
    let mut plain = settled(3, 1.0, 88.0, 0.0, 44100.0);
    let mut once = settled(3, 1.0, 88.0, 1.0, 44100.0);
    let mut thrice = settled(3, 1.0, 88.0, 3.0, 44100.0);
    let mut rows = Vec::new();
    for engine in [&mut plain, &mut once, &mut thrice] {
        let mut line = row(2);
        assert_eq!(engine.draw_frame(&mut line), Ok(()));
        rows.push(levels(&line));
    }
    assert_eq!(rows, vec![vec![37, 37], vec![20, 20], vec![10, 10]]);
}

#[test]
fn pixels_between_two_bins_blend_their_means() {
    let rate = 2.0 * 440.0 * 8.0 / 1.5;
    let mut engine = settled(4, 49.0, 49.0, 0.0, rate);
    let mut line = row(3);
    assert_eq!(engine.draw_frame(&mut line), Ok(()));
    assert_eq!(levels(&line), vec![122, 132, 143]);
}

#[test]
fn boost_of_nought_is_the_identity() {
    let kernel = Floats::new(2);
    for step in 0..=100 {
        let value = step as f32 / 100.0;
        assert_eq!(kernel.boost(value, 0.0), value);
    }
}

#[test]
fn boost_stays_within_nought_and_one_and_rises() {
    let kernel = Floats::new(2);
    for factor in [0.5_f32, 1.0, 4.0, 100.0] {
        let mut before = kernel.boost(0.0, factor);
        assert_eq!(before, 0.0);
        for step in 1..=100 {
            let value = step as f32 / 100.0;
            let raised = kernel.boost(value, factor);
            assert!((0.0..=1.0).contains(&raised));
            assert!(raised >= before);
            before = raised;
        }
        assert_eq!(kernel.boost(1.0, factor), 1.0);
    }
    assert!((kernel.boost(0.5, 1.0) - 2.0 / 3.0).abs() < 1e-6);
}

#[test]
fn key_forty_nine_is_concert_pitch() {
    let kernel = Floats::new(2);
    assert!((kernel.frequency_from_pitch(49.0) - 440.0).abs() < 1e-4);
    assert!((kernel.frequency_from_pitch(61.0) - 880.0).abs() < 1e-3);
}
