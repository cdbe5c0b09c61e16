//! Windowed trigonometric-series analysis and resynthesis of sampled
//! waveforms, in exact fixed-point arithmetic.
//!
//! A waveform is split into consecutive fixed-size windows; each window is
//! fitted with a truncated trigonometric series (a constant term plus one
//! cosine and one sine coefficient per harmonic, eight harmonics by
//! default) at every candidate fundamental frequency of a search range,
//! and the best-scoring fit per window is kept. A stored sequence of fits
//! can be turned back into a waveform.
//!
//! All amplitudes carry sixteen fractional bits (`fixed::SCALE` stands for
//! the real value 1.0), and every phase is kept as an exact fraction of a
//! turn, so each public function's result is pinned down exactly by its
//! contract.

pub mod analysis;
pub mod buffer;
pub mod config;
pub mod fixed;
pub mod laws;
pub mod search;
pub mod synthesis;
pub mod trig;
