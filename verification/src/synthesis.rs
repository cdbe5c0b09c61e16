//! The synthesizer: re-evaluating stored fits back into a waveform.
//!
//! Every window restarts its phase at zero, exactly as the analysis did:
//! no phase is carried across window boundaries, so a fundamental that
//! does not divide the window evenly produces the boundary discontinuities
//! the stored fits imply. By default both coefficient sums are applied
//! through the cosine, mirroring the analysis-order reconstruction this
//! engine defines; the corrected mode of the configuration applies the
//! sine coefficients through the sine instead.

use vstd::prelude::*;
use vstd::arithmetic::div_mod::{lemma_fundamental_div_mod_converse, lemma_mul_mod_noop_left};
use crate::analysis::{cos_at, sin_at, AnalysisResult, ResultModel};
use crate::buffer::WaveformBuffer;
use crate::config::AnalysisConfig;
use crate::fixed::{div_trunc, lemma_tdiv_bound, tdiv, AMPLITUDE_LIMIT, MULTIPLIER_LIMIT, SCALE};
use crate::trig::{cos_fp, sin_fp};

verus! {

/// The harmonic series of one fit summed over harmonics `1 ..= k` at
/// sample index `i`: each cosine coefficient is applied through the
/// cosine; each sine coefficient through the cosine as well, unless the
/// corrected reconstruction is chosen.
pub open spec fn series_sum(m: ResultModel, fs: int, i: int, k: int, corrected: bool) -> int
    decreases k,
{
    if k <= 0 {
        0
    } else {
        series_sum(m, fs, i, k - 1, corrected) + tdiv(
            m.a[k - 1] * cos_at(fs, m.base_frequency, k, i),
            SCALE as int,
        ) + tdiv(
            m.b[k - 1] * (if corrected {
                sin_at(fs, m.base_frequency, k, i)
            } else {
                cos_at(fs, m.base_frequency, k, i)
            }),
            SCALE as int,
        )
    }
}

/// One reconstructed sample before scaling: the constant term plus the
/// full harmonic series.
pub open spec fn synth_sample(m: ResultModel, fs: int, h: int, i: int, corrected: bool) -> int {
    m.a0 + series_sum(m, fs, i, h, corrected)
}

/// One reconstructed sample after the amplitude multiplier: the product
/// scaled back down by one truncating division.
pub open spec fn scaled_sample(
    m: ResultModel,
    fs: int,
    h: int,
    i: int,
    corrected: bool,
    multiplier: int,
) -> int {
    tdiv(synth_sample(m, fs, h, i, corrected) * multiplier, SCALE as int)
}

/// Evaluates one fit at one sample index, exactly as `synth_sample`
/// states it.
fn sample_value(res: &AnalysisResult, cfg: &AnalysisConfig, i: usize) -> (v: i64)
    requires
        cfg.wf(),
        res@.wf(cfg.harmonic_count as int),
        res@.bounded(),
    ensures
        v == synth_sample(
            res@,
            cfg.sampling_frequency as int,
            cfg.harmonic_count as int,
            i as int,
            cfg.corrected_reconstruction,
        ),
        -129 * AMPLITUDE_LIMIT <= v <= 129 * AMPLITUDE_LIMIT,
{
    let ghost fs = cfg.sampling_frequency as int;
    let ghost corrected = cfg.corrected_reconstruction;
    let fsu: u64 = cfg.sampling_frequency as u64;
    let f: u32 = res.base_frequency;
    proof {
        assert((f as int) * (i as int) <= 0xffff_ffff * 0xffff_ffff_ffff_ffff)
            by (nonlinear_arith)
            requires
                0 <= f as int <= 0xffff_ffff,
                0 <= i as int <= 0xffff_ffff_ffff_ffff,
        ;
    }
    let base: u64 = (((f as u128) * (i as u128)) % (fsu as u128)) as u64;
    let h: usize = cfg.harmonic_count;
    let mut acc: i64 = res.a0;
    let mut k: usize = 1;
    while k <= h
        invariant
            cfg.wf(),
            res@.wf(cfg.harmonic_count as int),
            res@.bounded(),
            fs == cfg.sampling_frequency as int,
            corrected == cfg.corrected_reconstruction,
            fsu == cfg.sampling_frequency,
            f == res.base_frequency,
            h == cfg.harmonic_count,
            base == ((f as int) * (i as int)) % fs,
            base < fsu,
            1 <= k <= h + 1,
            acc == res@.a0 + series_sum(res@, fs, i as int, k - 1, corrected),
            -(1 + 2 * (k - 1)) * AMPLITUDE_LIMIT <= acc <= (1 + 2 * (k - 1)) * AMPLITUDE_LIMIT,
        decreases h + 1 - k,
    {
        proof {
            assert((base as int) * (k as int) <= 0xffff_ffff * 64) by (nonlinear_arith)
                requires
                    0 <= base as int <= 0xffff_ffff,
                    0 <= k <= 64,
            ;
        }
        let ph: u64 = (base * (k as u64)) % fsu;
        proof {
            let fi = f as int;
            let ii = i as int;
            let ki = k as int;
            lemma_mul_mod_noop_left(fi * ii, ki, fs);
            assert(fi * ii * ki == fi * ki * ii) by (nonlinear_arith);
            vstd::arithmetic::div_mod::lemma_mod_bound(fi * ki * ii, fs);
        }
        let c: i64 = cos_fp(ph, fsu);
        let x: i64 = res.a[k - 1];
        let y: i64 = res.b[k - 1];
        proof {
            assert(res@.a[k - 1] == x as int);
            assert(res@.b[k - 1] == y as int);
            assert(-(AMPLITUDE_LIMIT as int) * (SCALE as int) <= (x as int) * (c as int) <= (
            AMPLITUDE_LIMIT as int) * (SCALE as int)) by (nonlinear_arith)
                requires
                    -(AMPLITUDE_LIMIT as int) <= x as int <= AMPLITUDE_LIMIT as int,
                    -(SCALE as int) <= c as int <= SCALE as int,
            ;
            lemma_tdiv_bound((x as int) * (c as int), SCALE as int, AMPLITUDE_LIMIT as int);
        }
        let ta: i64 = div_trunc((x as i128) * (c as i128), 65536);
        let t: i64 = if cfg.corrected_reconstruction {
            sin_fp(ph, fsu)
        } else {
            c
        };
        proof {
            assert(-(AMPLITUDE_LIMIT as int) * (SCALE as int) <= (y as int) * (t as int) <= (
            AMPLITUDE_LIMIT as int) * (SCALE as int)) by (nonlinear_arith)
                requires
                    -(AMPLITUDE_LIMIT as int) <= y as int <= AMPLITUDE_LIMIT as int,
                    -(SCALE as int) <= t as int <= SCALE as int,
            ;
            lemma_tdiv_bound((y as int) * (t as int), SCALE as int, AMPLITUDE_LIMIT as int);
        }
        let tb: i64 = div_trunc((y as i128) * (t as i128), 65536);
        acc = acc + ta + tb;
        k = k + 1;
    }
    acc
}

/// Reconstructs a waveform from a sequence of per-window fits: every fit
/// contributes one full window of samples in order, each scaled by the
/// amplitude multiplier (`SCALE` standing for 1.0).
pub fn synthesize(results: &Vec<AnalysisResult>, cfg: &AnalysisConfig, multiplier: i64) -> (out:
    WaveformBuffer)
    requires
        cfg.wf(),
        -MULTIPLIER_LIMIT <= multiplier <= MULTIPLIER_LIMIT,
        forall|j: int|
            0 <= j < results@.len() ==> (#[trigger] results@[j])@.wf(cfg.harmonic_count as int)
                && results@[j]@.bounded(),
        results@.len() * cfg.window_size <= usize::MAX,
    ensures
        out.rate() == cfg.sampling_frequency,
        out@.len() == results@.len() * cfg.window_size,
        forall|n: int|
            0 <= n < out@.len() ==> #[trigger] out@[n] == scaled_sample(
                results@[n / (cfg.window_size as int)]@,
                cfg.sampling_frequency as int,
                cfg.harmonic_count as int,
                n % (cfg.window_size as int),
                cfg.corrected_reconstruction,
                multiplier as int,
            ),
{
    let w_size: usize = cfg.window_size;
    let mut samples: Vec<i64> = Vec::new();
    let mut j: usize = 0;
    while j < results.len()
        invariant
            cfg.wf(),
            w_size == cfg.window_size,
            -MULTIPLIER_LIMIT <= multiplier <= MULTIPLIER_LIMIT,
            forall|q: int|
                0 <= q < results@.len() ==> (#[trigger] results@[q])@.wf(cfg.harmonic_count as int)
                    && results@[q]@.bounded(),
            results@.len() * cfg.window_size <= usize::MAX,
            j <= results@.len(),
            samples@.len() == j * w_size,
            forall|n: int|
                0 <= n < samples@.len() ==> #[trigger] samples@[n] == scaled_sample(
                    results@[n / (w_size as int)]@,
                    cfg.sampling_frequency as int,
                    cfg.harmonic_count as int,
                    n % (w_size as int),
                    cfg.corrected_reconstruction,
                    multiplier as int,
                ),
        decreases results@.len() - j,
    {
        proof {
            assert((j + 1) * w_size == j * w_size + w_size) by (nonlinear_arith);
            assert((j + 1) * w_size <= results@.len() * w_size) by (nonlinear_arith)
                requires
                    j + 1 <= results@.len(),
                    0 <= w_size,
            ;
        }
        let res = &results[j];
        let mut i: usize = 0;
        while i < w_size
            invariant
                cfg.wf(),
                w_size == cfg.window_size,
                -MULTIPLIER_LIMIT <= multiplier <= MULTIPLIER_LIMIT,
                forall|q: int|
                    0 <= q < results@.len() ==> (#[trigger] results@[q])@.wf(
                        cfg.harmonic_count as int,
                    ) && results@[q]@.bounded(),
                results@.len() * cfg.window_size <= usize::MAX,
                j < results@.len(),
                res == &results@[j as int],
                (j + 1) * w_size <= results@.len() * w_size,
                i <= w_size,
                samples@.len() == j * w_size + i,
                forall|n: int|
                    0 <= n < samples@.len() ==> #[trigger] samples@[n] == scaled_sample(
                        results@[n / (w_size as int)]@,
                        cfg.sampling_frequency as int,
                        cfg.harmonic_count as int,
                        n % (w_size as int),
                        cfg.corrected_reconstruction,
                        multiplier as int,
                    ),
            decreases w_size - i,
        {
            let v: i64 = sample_value(res, cfg, i);
            proof {
                assert(-(0x81_0000_0000 as int) * (MULTIPLIER_LIMIT as int) <= (v as int) * (
                multiplier as int) <= (0x81_0000_0000 as int) * (MULTIPLIER_LIMIT as int))
                    by (nonlinear_arith)
                    requires
                        -0x81_0000_0000 <= v as int <= 0x81_0000_0000,
                        -(MULTIPLIER_LIMIT as int) <= multiplier as int <= MULTIPLIER_LIMIT as int,
                ;
                lemma_fundamental_div_mod_converse(
                    j * w_size + i,
                    w_size as int,
                    j as int,
                    i as int,
                );
            }
            let s: i64 = div_trunc((v as i128) * (multiplier as i128), 65536);
            samples.push(s);
            i = i + 1;
        }
        j = j + 1;
    }
    proof {
        assert(samples@.len() == results@.len() * w_size);
    }
    WaveformBuffer::from_raw(samples, cfg.sampling_frequency)
}

/// Reconstructs a single continuous tone from one fit: `sample_count`
/// samples of the unscaled series, the phase starting at zero.
pub fn synthesize_one(result: &AnalysisResult, cfg: &AnalysisConfig, sample_count: usize) -> (out:
    WaveformBuffer)
    requires
        cfg.wf(),
        result@.wf(cfg.harmonic_count as int),
        result@.bounded(),
    ensures
        out.rate() == cfg.sampling_frequency,
        out@.len() == sample_count,
        forall|i: int|
            0 <= i < sample_count ==> out@[i] == synth_sample(
                result@,
                cfg.sampling_frequency as int,
                cfg.harmonic_count as int,
                i,
                cfg.corrected_reconstruction,
            ),
{
    let mut samples: Vec<i64> = Vec::new();
    let mut i: usize = 0;
    while i < sample_count
        invariant
            cfg.wf(),
            result@.wf(cfg.harmonic_count as int),
            result@.bounded(),
            i <= sample_count,
            samples@.len() == i,
            forall|i2: int|
                0 <= i2 < i ==> samples@[i2] == synth_sample(
                    result@,
                    cfg.sampling_frequency as int,
                    cfg.harmonic_count as int,
                    i2,
                    cfg.corrected_reconstruction,
                ),
        decreases sample_count - i,
    {
        let v: i64 = sample_value(result, cfg, i);
        samples.push(v);
        i = i + 1;
    }
    WaveformBuffer::from_raw(samples, cfg.sampling_frequency)
}

} // verus!
