//! A streaming spectrogram engine.
//!
//! Every audio sample enters a fixed-capacity sliding window; the window is
//! averaged pairwise, transformed, and the magnitudes of the usable bins are
//! summed. A pixel row is drawn from the running sums on demand, after which
//! the sums start over.
//!
//! The engine never computes on an amplitude itself. All arithmetic on
//! amplitudes and complex samples belongs to a [`kernel::Kernel`], chosen by
//! the caller; the engine owns the buffers, the order of the steps, the bin
//! and pixel indices and the counters, and its contracts state the outcome
//! of every operation as a function of what the kernel computes.

pub mod audio;
pub mod canvas;
pub mod error;
pub mod kernel;
pub mod laws;
pub mod ring;
pub mod spectrogram;

pub use crate::audio::Buffer;
pub use crate::audio::Sample;
pub use crate::canvas::Line;
pub use crate::canvas::Pixel;
pub use crate::error::Error;
pub use crate::kernel::Kernel;
pub use crate::kernel::Position;
pub use crate::ring::Ring;
pub use crate::spectrogram::Spectrogram;
