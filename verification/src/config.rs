//! Engine configuration and the error type shared by the components.

use vstd::prelude::*;

verus! {

/// Everything the engine is parameterized over: one value of this struct is
/// handed to each component, so window sizes and harmonic counts can vary
/// without rebuilding.
#[derive(Clone, Copy, Debug, PartialEq, Eq, Structural)]
pub struct AnalysisConfig {
    /// Sample rate that all phase arithmetic assumes, in samples per second.
    pub sampling_frequency: u32,
    /// Number of harmonics fitted per window.
    pub harmonic_count: usize,
    /// Number of samples per analysis window (the final window of a buffer
    /// may be shorter).
    pub window_size: usize,
    /// Lowest candidate fundamental frequency of the search, in Hz
    /// (inclusive).
    pub frequency_low: u32,
    /// Upper bound of the candidate range, in Hz (exclusive): candidates are
    /// the integer frequencies in `frequency_low .. frequency_high`.
    pub frequency_high: u32,
    /// Reconstruction behaviour. `false` applies the sine coefficients
    /// through the cosine, exactly as the analysis-mirroring reconstruction
    /// defines it; `true` applies them through the sine instead.
    pub corrected_reconstruction: bool,
}

impl AnalysisConfig {
    /// A configuration the arithmetic is proved not to overflow under: a
    /// positive sample rate, a positive window, at most 64 harmonics, and an
    /// ordered candidate range.
    pub open spec fn wf(self) -> bool {
        &&& 0 < self.sampling_frequency
        &&& 0 < self.harmonic_count <= 64
        &&& 0 < self.window_size
        &&& self.frequency_low <= self.frequency_high
    }

    /// The standard configuration: 24 kHz sampling, eight harmonics,
    /// 500-sample windows, candidate fundamentals 220..=440 Hz (the upper
    /// bound 441 is exclusive), and the analysis-mirroring reconstruction.
    pub fn standard() -> (c: AnalysisConfig)
        ensures
            c.wf(),
            c.sampling_frequency == 24000,
            c.harmonic_count == 8,
            c.window_size == 500,
            c.frequency_low == 220,
            c.frequency_high == 441,
            !c.corrected_reconstruction,
    {
        AnalysisConfig {
            sampling_frequency: 24000,
            harmonic_count: 8,
            window_size: 500,
            frequency_low: 220,
            frequency_high: 441,
            corrected_reconstruction: false,
        }
    }
}

/// What the engine can refuse to do, and why.
#[derive(Clone, Copy, Debug, PartialEq, Eq, Structural)]
pub enum WaveError {
    /// A requested window reaches past the end of the buffer.
    WindowOutOfRange,
    /// A requested window holds no samples.
    EmptyWindow,
    /// A sample or coefficient magnitude exceeds `fixed::AMPLITUDE_LIMIT`.
    AmplitudeTooLarge,
    /// An analysis result whose coefficient vectors are unpopulated or of
    /// mismatched lengths.
    UnfitResult,
}

} // verus!
