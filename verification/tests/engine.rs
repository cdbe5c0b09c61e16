use wavefit::analysis::{analyze, analyze_window, AnalysisResult};
use wavefit::buffer::{square_wave, TestSource, WaveformBuffer};
use wavefit::config::{AnalysisConfig, WaveError};
use wavefit::fixed::{AMPLITUDE_LIMIT, SCALE};
use wavefit::search::{count_windows, search};
use wavefit::synthesis::{synthesize, synthesize_one};
use wavefit::trig::{cos_fp, sin_fp};

fn standard_config() -> AnalysisConfig {
    AnalysisConfig::standard()
}

/// A 500-sample buffer alternating -1.0 / +1.0 in blocks of 25 samples:
/// a ~480 Hz square wave at the 24 kHz sample rate.
fn block_buffer() -> WaveformBuffer {
    let mut samples: Vec<i64> = Vec::new();
    for i in 0..500usize {
        if (i / 25) % 2 == 1 {
            samples.push(SCALE);
        } else {
            samples.push(-SCALE);
        }
    }
    WaveformBuffer::from_samples(samples, 24000).unwrap()
}

#[test]
fn cosine_exact_values() {
    assert_eq!(cos_fp(0, 24000), 65536);
    assert_eq!(cos_fp(6000, 24000), -1);
    assert_eq!(cos_fp(12000, 24000), -65536);
    assert_eq!(cos_fp(18000, 24000), 1);
    assert_eq!(sin_fp(6000, 24000), 65536);
    assert_eq!(sin_fp(18000, 24000), -65536);
    assert_eq!(sin_fp(0, 24000), 1);
    for num in [0u64, 1, 100, 5999, 6000, 11999, 12000, 17999, 23999] {
        let c = cos_fp(num, 24000);
        let s = sin_fp(num, 24000);
        assert!(-SCALE <= c && c <= SCALE);
        assert!(-SCALE <= s && s <= SCALE);
    }
}

#[test]
fn constant_window_mean_is_constant() {
    let cfg = standard_config();
    for c in [SCALE, -SCALE, 3 * SCALE, 12345, 0] {
        let buf = WaveformBuffer::from_samples(vec![c; 300], 24000).unwrap();
        for f in [220u32, 297, 440] {
            let res = analyze(&buf, &cfg, f, 0, 300).unwrap();
            assert_eq!(res.a0, c);
            assert_eq!(res.base_frequency, f);
            assert_eq!(res.a.len(), 8);
            assert_eq!(res.b.len(), 8);
        }
    }
}

#[test]
fn zero_window_coefficients_are_zero() {
    let cfg = standard_config();
    let buf = WaveformBuffer::from_samples(vec![0; 640], 24000).unwrap();
    for f in [220u32, 300, 440] {
        let res = analyze(&buf, &cfg, f, 0, 640).unwrap();
        assert_eq!(res.a0, 0);
        assert!(res.a.iter().all(|&x| x == 0));
        assert!(res.b.iter().all(|&x| x == 0));
        assert_eq!(res.score().unwrap(), 0);
    }
}

#[test]
fn score_matches_mean_magnitude_formula() {
    let cfg = standard_config();
    let buf = block_buffer();
    let res = analyze(&buf, &cfg, 240, 0, 500).unwrap();
    let total: i64 = res.a.iter().map(|x| x.abs()).sum::<i64>() + res.b.iter().map(
        |x| x.abs(),
    ).sum::<i64>();
    let s = res.score().unwrap();
    assert_eq!(s, total / 16);
    assert!(s >= 0);
}

#[test]
fn score_refuses_unpopulated_or_mismatched_results() {
    let empty = AnalysisResult { base_frequency: 0, a0: 0, a: Vec::new(), b: Vec::new() };
    assert_eq!(empty.score(), Err(WaveError::UnfitResult));
    let mismatched = AnalysisResult { base_frequency: 0, a0: 0, a: vec![1, 2], b: vec![1] };
    assert_eq!(mismatched.score(), Err(WaveError::UnfitResult));
    let oversized = AnalysisResult {
        base_frequency: 0,
        a0: 0,
        a: vec![AMPLITUDE_LIMIT + 1],
        b: vec![0],
    };
    assert_eq!(oversized.score(), Err(WaveError::AmplitudeTooLarge));
}

#[test]
fn analyze_refuses_bad_windows() {
    let cfg = standard_config();
    let buf = WaveformBuffer::from_samples(vec![0; 100], 24000).unwrap();
    assert_eq!(analyze(&buf, &cfg, 300, 0, 0).unwrap_err(), WaveError::EmptyWindow);
    assert_eq!(analyze(&buf, &cfg, 300, 50, 51).unwrap_err(), WaveError::WindowOutOfRange);
    assert_eq!(analyze(&buf, &cfg, 300, 101, 1).unwrap_err(), WaveError::WindowOutOfRange);
    assert!(analyze(&buf, &cfg, 300, 50, 50).is_ok());
}

#[test]
fn from_samples_refuses_oversized_amplitudes() {
    let r = WaveformBuffer::from_samples(vec![0, AMPLITUDE_LIMIT + 1], 24000);
    assert_eq!(r.unwrap_err(), WaveError::AmplitudeTooLarge);
    let r2 = WaveformBuffer::from_samples(vec![0, -AMPLITUDE_LIMIT - 1], 24000);
    assert_eq!(r2.unwrap_err(), WaveError::AmplitudeTooLarge);
    let ok = WaveformBuffer::from_samples(vec![AMPLITUDE_LIMIT, -AMPLITUDE_LIMIT], 24000).unwrap();
    assert_eq!(ok.len(), 2);
    assert_eq!(ok.sample_rate(), 24000);
    assert_eq!(ok.sample_at(0), Some(AMPLITUDE_LIMIT));
    assert_eq!(ok.sample_at(1), Some(-AMPLITUDE_LIMIT));
    assert_eq!(ok.sample_at(2), None);
}

#[test]
fn single_window_search_returns_at_most_one_result() {
    let cfg = standard_config();
    let buf = square_wave(300, 400, 24000);
    let results = search(&buf, &cfg);
    assert!(results.len() <= 1);
    for r in &results {
        assert!(220 <= r.base_frequency && r.base_frequency < 441);
    }
    assert_eq!(results.len(), 1);
}

#[test]
fn window_counts_are_ceilings() {
    assert_eq!(count_windows(0, 500), 0);
    assert_eq!(count_windows(1, 500), 1);
    assert_eq!(count_windows(499, 500), 1);
    assert_eq!(count_windows(500, 500), 1);
    assert_eq!(count_windows(501, 500), 2);
    assert_eq!(count_windows(1000, 500), 2);
    assert_eq!(count_windows(1200, 500), 3);
    let cfg = standard_config();
    let buf = square_wave(300, 1200, 24000);
    let results = search(&buf, &cfg);
    assert!(results.len() <= 3);
}

#[test]
fn block_wave_beats_both_range_ends() {
    let cfg = standard_config();
    let buf = block_buffer();
    let results = search(&buf, &cfg);
    assert_eq!(results.len(), 1);
    let best = &results[0];
    assert!(220 <= best.base_frequency && best.base_frequency < 441);
    let best_score = best.score().unwrap();
    let low = analyze(&buf, &cfg, 220, 0, 500).unwrap().score().unwrap();
    let high = analyze(&buf, &cfg, 440, 0, 500).unwrap().score().unwrap();
    assert!(best_score > low);
    assert!(best_score > high);
}

#[test]
fn zero_buffer_search_is_empty() {
    let cfg = standard_config();
    for n in [1usize, 137, 500, 1700] {
        let buf = WaveformBuffer::from_samples(vec![0; n], 24000).unwrap();
        assert!(search(&buf, &cfg).is_empty());
    }
}

#[test]
fn round_trip_recovers_the_fundamental() {
    // Analyze a square wave at its true fundamental, rebuild the tone from
    // that one fit, and search the reconstruction: the mean-magnitude
    // score can peak a couple of grid steps away from the fundamental, so
    // the recovered frequency agrees to within two 1 Hz steps.
    let cfg = standard_config();
    let buf = square_wave(300, 500, 24000);
    let fit = analyze(&buf, &cfg, 300, 0, 500).unwrap();
    let rebuilt = synthesize_one(&fit, &cfg, 500);
    let mut samples: Vec<i64> = Vec::new();
    for i in 0..rebuilt.len() {
        samples.push(rebuilt.sample_at(i).unwrap());
    }
    let rebuilt_buf = WaveformBuffer::from_samples(samples, 24000).unwrap();
    let recovered = search(&rebuilt_buf, &cfg);
    assert_eq!(recovered.len(), 1);
    let f = recovered[0].base_frequency as i64;
    assert!((f - 300).abs() <= 2, "recovered {} Hz", f);
}

#[test]
fn multiplier_scales_every_sample_linearly() {
    let cfg = standard_config();
    let buf = block_buffer();
    let results = search(&buf, &cfg);
    assert!(!results.is_empty());
    let unit = synthesize(&results, &cfg, SCALE);
    let tripled = synthesize(&results, &cfg, 3 * SCALE);
    let negated = synthesize(&results, &cfg, -SCALE);
    assert_eq!(unit.len(), 500);
    assert_eq!(tripled.len(), 500);
    assert_eq!(unit.sample_rate(), 24000);
    for i in 0..unit.len() {
        let u = unit.sample_at(i).unwrap();
        assert_eq!(tripled.sample_at(i).unwrap(), 3 * u);
        assert_eq!(negated.sample_at(i).unwrap(), -u);
    }
}

#[test]
fn unit_multiplier_matches_single_tone_synthesis() {
    let cfg = standard_config();
    let buf = square_wave(240, 500, 24000);
    let results = search(&buf, &cfg);
    assert_eq!(results.len(), 1);
    let from_sequence = synthesize(&results, &cfg, SCALE);
    let from_one = synthesize_one(&results[0], &cfg, 500);
    assert_eq!(from_sequence.len(), from_one.len());
    for i in 0..from_one.len() {
        assert_eq!(from_sequence.sample_at(i), from_one.sample_at(i));
    }
}

#[test]
fn synthesize_nothing_yields_nothing() {
    let cfg = standard_config();
    let out = synthesize(&Vec::new(), &cfg, SCALE);
    assert_eq!(out.len(), 0);
    assert_eq!(out.sample_rate(), 24000);
}

#[test]
fn square_wave_block_boundaries() {
    let buf = square_wave(480, 500, 24000);
    assert_eq!(buf.len(), 500);
    assert_eq!(buf.sample_at(0), Some(-SCALE));
    assert_eq!(buf.sample_at(1), Some(SCALE));
    assert_eq!(buf.sample_at(24), Some(SCALE));
    assert_eq!(buf.sample_at(25), Some(-SCALE));
    assert_eq!(buf.sample_at(49), Some(-SCALE));
    // At sample 50 the phase is exactly one full turn: the sine is zero,
    // which counts as nonpositive, so the block restarts one sample late.
    assert_eq!(buf.sample_at(50), Some(-SCALE));
    assert_eq!(buf.sample_at(51), Some(SCALE));
    assert_eq!(buf.sample_at(74), Some(SCALE));
    assert_eq!(buf.sample_at(75), Some(-SCALE));
}

#[test]
fn test_source_alternates_in_runs_of_fifty() {
    let mut src = TestSource::new();
    assert_eq!(src.count, 0);
    let mut values: Vec<i64> = Vec::new();
    for _ in 0..150 {
        values.push(src.next_value());
    }
    assert_eq!(src.count, 150);
    assert!(values[0..50].iter().all(|&v| v == 0));
    assert!(values[50..100].iter().all(|&v| v == SCALE));
    assert!(values[100..150].iter().all(|&v| v == 0));
}

#[test]
fn analyze_window_matches_checked_analyze() {
    let cfg = standard_config();
    let buf = block_buffer();
    let checked = analyze(&buf, &cfg, 320, 100, 300).unwrap();
    let direct = analyze_window(&buf, &cfg, 320, 100, 300);
    assert_eq!(checked.base_frequency, direct.base_frequency);
    assert_eq!(checked.a0, direct.a0);
    assert_eq!(checked.a, direct.a);
    assert_eq!(checked.b, direct.b);
}

#[test]
fn corrected_reconstruction_differs_only_in_sine_terms() {
    let mut cfg = standard_config();
    let buf = square_wave(300, 500, 24000);
    let fit = analyze(&buf, &cfg, 300, 0, 500).unwrap();
    let reference = synthesize_one(&fit, &cfg, 500);
    cfg.corrected_reconstruction = true;
    let corrected = synthesize_one(&fit, &cfg, 500);
    assert_eq!(reference.len(), corrected.len());
    let differing = (0..reference.len()).filter(
        |&i| reference.sample_at(i) != corrected.sample_at(i),
    ).count();
    assert!(differing > 0);
}
