//! Waveform buffers and the built-in signal generators.

use vstd::prelude::*;
use vstd::arithmetic::div_mod::{
    lemma_add_mod_noop, lemma_mod_bound, lemma_mod_twice, lemma_small_mod,
};
use crate::config::WaveError;
use crate::fixed::{AMPLITUDE_LIMIT, SCALE};

verus! {

/// An immutable-after-construction sequence of mono fixed-point samples,
/// tagged with the sample rate it was produced at. Sample magnitudes never
/// exceed `AMPLITUDE_LIMIT`; the checked constructor refuses anything
/// larger, so the analysis arithmetic cannot overflow.
#[derive(Debug)]
pub struct WaveformBuffer {
    samples: Vec<i64>,
    sample_rate: u32,
}

impl View for WaveformBuffer {
    type V = Seq<i64>;

    closed spec fn view(&self) -> Seq<i64> {
        self.samples@
    }
}

impl WaveformBuffer {
    /// The declared sample rate.
    pub closed spec fn rate(&self) -> u32 {
        self.sample_rate
    }

    /// Every sample's magnitude stays within `AMPLITUDE_LIMIT`.
    pub open spec fn wf(&self) -> bool {
        forall|i: int|
            0 <= i < self@.len() ==> -AMPLITUDE_LIMIT <= #[trigger] self@[i] <= AMPLITUDE_LIMIT
    }

    /// Builds a buffer from raw samples, refusing any whose magnitude
    /// exceeds `AMPLITUDE_LIMIT`.
    pub fn from_samples(samples: Vec<i64>, sample_rate: u32) -> (r: Result<
        WaveformBuffer,
        WaveError,
    >)
        ensures
            r is Ok <==> (forall|i: int|
                0 <= i < samples@.len() ==> -AMPLITUDE_LIMIT <= #[trigger] samples@[i]
                    <= AMPLITUDE_LIMIT),
            r matches Ok(b) ==> b@ == samples@ && b.rate() == sample_rate && b.wf(),
            r matches Err(e) ==> e == WaveError::AmplitudeTooLarge,
    {
        let mut i: usize = 0;
        while i < samples.len()
            invariant
                i <= samples@.len(),
                forall|j: int|
                    0 <= j < i ==> -AMPLITUDE_LIMIT <= #[trigger] samples@[j] <= AMPLITUDE_LIMIT,
            decreases samples@.len() - i,
        {
            let s: i64 = samples[i];
            if s > AMPLITUDE_LIMIT || s < -AMPLITUDE_LIMIT {
                return Err(WaveError::AmplitudeTooLarge);
            }
            i = i + 1;
        }
        Ok(WaveformBuffer { samples, sample_rate })
    }

    /// Builds a buffer the synthesizer has already computed: synthesized
    /// samples may exceed the analysis amplitude bound, exactly as the
    /// series evaluates.
    pub(crate) fn from_raw(samples: Vec<i64>, sample_rate: u32) -> (b: WaveformBuffer)
        ensures
            b@ == samples@,
            b.rate() == sample_rate,
    {
        WaveformBuffer { samples, sample_rate }
    }

    /// Number of samples held.
    pub fn len(&self) -> (n: usize)
        ensures
            n == self@.len(),
    {
        self.samples.len()
    }

    /// The declared sample rate.
    pub fn sample_rate(&self) -> (r: u32)
        ensures
            r == self.rate(),
    {
        self.sample_rate
    }

    /// The sample at a position known to be inside the buffer.
    pub fn sample(&self, i: usize) -> (s: i64)
        requires
            i < self@.len(),
        ensures
            s == self@[i as int],
    {
        self.samples[i]
    }

    /// The sample at a position, or nothing past the end: the step a
    /// sequential reader takes.
    pub fn sample_at(&self, i: usize) -> (s: Option<i64>)
        ensures
            i < self@.len() ==> s == Some(self@[i as int]),
            i >= self@.len() ==> s is None,
    {
        if i < self.samples.len() {
            Some(self.samples[i])
        } else {
            None
        }
    }
}

/// The sample a square-wave generator yields at index `i`: the sign of the
/// sine at the exact phase `(i * frequency) / sample_rate` of a turn, at
/// full scale. The sine is taken nonpositive exactly where the phase
/// fraction `ph / fs` is zero or at least one half.
pub open spec fn square_value(fs: int, f: int, i: int) -> int {
    let ph = (i * f) % fs;
    if ph == 0 || 2 * ph >= fs {
        -(SCALE as int)
    } else {
        SCALE as int
    }
}

/// Generates a full-scale square wave at an integer frequency, with the
/// phase kept as an exact fraction of a turn.
pub fn square_wave(frequency: u32, sample_count: usize, sample_rate: u32) -> (b: WaveformBuffer)
    requires
        0 < sample_rate,
    ensures
        b@.len() == sample_count,
        b.rate() == sample_rate,
        b.wf(),
        forall|i: int|
            0 <= i < sample_count ==> #[trigger] b@[i] == square_value(
                sample_rate as int,
                frequency as int,
                i,
            ),
{
    let fs: u64 = sample_rate as u64;
    let step: u64 = (frequency as u64) % fs;
    let mut samples: Vec<i64> = Vec::new();
    let mut ph: u64 = 0;
    let mut i: usize = 0;
    proof {
        lemma_mod_bound(frequency as int, fs as int);
        lemma_small_mod(0nat, fs as nat);
    }
    while i < sample_count
        invariant
            0 < fs,
            fs == sample_rate,
            step == (frequency as int) % (fs as int),
            i <= sample_count,
            ph == ((i as int) * (frequency as int)) % (fs as int),
            ph < fs,
            samples@.len() == i,
            forall|j: int|
                0 <= j < i ==> #[trigger] samples@[j] == square_value(
                    sample_rate as int,
                    frequency as int,
                    j,
                ),
            forall|j: int|
                0 <= j < i ==> -AMPLITUDE_LIMIT <= #[trigger] samples@[j] <= AMPLITUDE_LIMIT,
        decreases sample_count - i,
    {
        let v: i64 = if ph == 0 || 2 * ph >= fs {
            -SCALE
        } else {
            SCALE
        };
        samples.push(v);
        proof {
            let fi = frequency as int;
            let ii = i as int;
            lemma_add_mod_noop(ii * fi, fi, fs as int);
            lemma_mod_twice(ii * fi, fs as int);
            assert(ii * fi + fi == (ii + 1) * fi) by (nonlinear_arith);
            lemma_mod_bound((ii + 1) * fi, fs as int);
        }
        ph = (ph + step) % fs;
        i = i + 1;
    }
    WaveformBuffer { samples, sample_rate }
}

/// The value the test generator yields at step `count`: full scale on every
/// second run of fifty steps, silence on the others.
pub open spec fn test_wave_value(count: int) -> int {
    if (count / 50) % 2 == 1 {
        SCALE as int
    } else {
        0
    }
}

/// A deterministic test signal source: alternating fifty-step runs of
/// silence and full scale, a 441 Hz square wave at a 44.1 kHz sample rate.
pub struct TestSource {
    /// How many samples have been yielded so far.
    pub count: u64,
}

impl TestSource {
    /// A fresh source, positioned at the first sample.
    pub fn new() -> (s: TestSource)
        ensures
            s.count == 0,
    {
        TestSource { count: 0 }
    }

    /// Yields the next sample and advances.
    pub fn next_value(&mut self) -> (v: i64)
        requires
            old(self).count < u64::MAX,
        ensures
            final(self).count == old(self).count + 1,
            v == test_wave_value(old(self).count as int),
            0 <= v <= SCALE,
    {
        let v: i64 = if (self.count / 50) % 2 == 1 {
            SCALE
        } else {
            0
        };
        self.count = self.count + 1;
        v
    }
}

} // verus!
