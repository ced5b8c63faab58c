//! A real-time multi-tap delay (echo) kernel with feedback, wet/dry mixing,
//! and per-voice waveform capture for host-side display.
//!
//! All audio and control values are integers in *milliunits*: one thousandth
//! of full scale, so `1000` stands for an amplitude or ratio of one. Working
//! over integers keeps every stage of the signal path exact and lets each
//! function carry a full functional contract; a host that deals in floating
//! point converts at its own boundary (multiply by `1000` on the way in,
//! divide on the way out).
//!
//! The engine processes stereo blocks deterministically, sample
//! by sample, with no allocation on the audio path and no failure mode:
//! out-of-range parameters are clamped, mismatched buffer lengths truncate
//! the block, and every arithmetic step is proved in range or explicitly
//! saturated.

use vstd::prelude::*;

pub mod delay;
pub mod fixed;
pub mod laws;
pub mod ring;
pub mod taps;
pub mod waveform;

pub use delay::DelayProcessor;

verus! {

/// Capacity of the delay line in mono samples: four seconds at 48 kHz.
pub const MAX_DELAY_SAMPLES: usize = 192000;

/// Largest supported voice (tap) count.
pub const MAX_VOICES: usize = 16;

/// Length of each per-voice waveform capture ring.
pub const WAVEFORM_BUFFER_SIZE: usize = 512;

/// Abort hook for freestanding embeddings. The verified kernel never panics,
/// so nothing in this crate reaches it; a host shim that must trap without
/// unwinding (a bare-metal or linear-memory build) can route its abort path
/// through here before halting. The engine holds no resource that would need
/// tearing down, so there is deliberately nothing to do.
pub fn panic() {
}

} // verus!
