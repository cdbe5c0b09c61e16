//! The engine's general laws, stated over the specification functions the
//! public contracts use, and proved once for all inputs.

use vstd::prelude::*;
use vstd::arithmetic::div_mod::{
    lemma_div_of0, lemma_div_pos_is_pos, lemma_fundamental_div_mod,
    lemma_fundamental_div_mod_converse, lemma_mod_bound,
};
use crate::analysis::{
    analyze_model, dot_cos, dot_sin, mean_of, score_model, sum_abs_prefix, sum_prefix, ResultModel,
};
use crate::config::AnalysisConfig;
use crate::fixed::{lemma_tdiv_exact, tdiv, SCALE};
use crate::search::{
    best_fit, best_fit_of_window, search_model, search_prefix, window_at, window_count,
    window_len_at,
};
use crate::synthesis::{scaled_sample, synth_sample};

verus! {

proof fn lemma_sum_prefix_constant(w: Seq<i64>, c: i64, n: int)
    requires
        0 <= n <= w.len(),
        forall|i: int| 0 <= i < w.len() ==> w[i] == c,
    ensures
        sum_prefix(w, n) == n * c,
    decreases n,
{
    if n > 0 {
        lemma_sum_prefix_constant(w, c, n - 1);
        assert(n * c == (n - 1) * c + c) by (nonlinear_arith);
    }
}

/// A window of constant samples has that constant as its mean term, at
/// every candidate fundamental: the sum is the sample count times the
/// constant, and the truncating division by the count recovers it exactly.
pub proof fn lemma_constant_window_mean(w: Seq<i64>, c: i64)
    requires
        0 < w.len(),
        forall|i: int| 0 <= i < w.len() ==> w[i] == c,
    ensures
        mean_of(w) == c,
        forall|fs: int, f: int, h: int| #[trigger] analyze_model(w, fs, f, h).a0 == c,
{
    lemma_sum_prefix_constant(w, c, w.len() as int);
    lemma_tdiv_exact(c as int, w.len() as int);
}

proof fn lemma_dot_zero(w: Seq<i64>, fs: int, f: int, k: int, n: int)
    requires
        0 <= n <= w.len(),
        forall|i: int| 0 <= i < w.len() ==> w[i] == 0,
    ensures
        dot_cos(w, fs, f, k, n) == 0,
        dot_sin(w, fs, f, k, n) == 0,
    decreases n,
{
    if n > 0 {
        lemma_dot_zero(w, fs, f, k, n - 1);
    }
}

proof fn lemma_sum_abs_prefix_zero(s: Seq<int>, n: int)
    requires
        0 <= n <= s.len(),
        forall|i: int| 0 <= i < s.len() ==> s[i] == 0,
    ensures
        sum_abs_prefix(s, n) == 0,
    decreases n,
{
    if n > 0 {
        lemma_sum_abs_prefix_zero(s, n - 1);
    }
}

proof fn lemma_sum_abs_prefix_nonneg(s: Seq<int>, n: int)
    ensures
        sum_abs_prefix(s, n) >= 0,
    decreases n,
{
    if n > 0 {
        lemma_sum_abs_prefix_nonneg(s, n - 1);
    }
}

/// The fit score of any populated result is nonnegative: it is a sum of
/// magnitudes divided by a positive count.
pub proof fn lemma_score_nonneg(m: ResultModel)
    requires
        0 < m.a.len(),
    ensures
        score_model(m) >= 0,
{
    lemma_sum_abs_prefix_nonneg(m.a, m.a.len() as int);
    lemma_sum_abs_prefix_nonneg(m.b, m.b.len() as int);
    lemma_div_pos_is_pos(
        sum_abs_prefix(m.a, m.a.len() as int) + sum_abs_prefix(m.b, m.b.len() as int),
        2 * (m.a.len() as int),
    );
}

/// An all-zero window analyzes to nothing, at every candidate fundamental:
/// the mean term is zero, every harmonic coefficient is zero, and the fit
/// score is zero.
pub proof fn lemma_zero_window_analysis(w: Seq<i64>, fs: int, f: int, h: int)
    requires
        0 < w.len(),
        0 < h,
        forall|i: int| 0 <= i < w.len() ==> w[i] == 0,
    ensures
        analyze_model(w, fs, f, h).a0 == 0,
        forall|k: int| 0 <= k < h ==> #[trigger] analyze_model(w, fs, f, h).a[k] == 0,
        forall|k: int| 0 <= k < h ==> #[trigger] analyze_model(w, fs, f, h).b[k] == 0,
        score_model(analyze_model(w, fs, f, h)) == 0,
{
    let m = analyze_model(w, fs, f, h);
    let n = w.len() as int;
    lemma_constant_window_mean(w, 0);
    assert(0 < n * (SCALE as int)) by (nonlinear_arith)
        requires
            0 < n,
    ;
    let den = n * (SCALE as int);
    lemma_div_of0(den);
    assert forall|k: int| 0 <= k < h implies #[trigger] m.a[k] == 0 by {
        lemma_dot_zero(w, fs, f, k + 1, n);
        assert(m.a[k] == tdiv(dot_cos(w, fs, f, k + 1, n), den));
    }
    assert forall|k: int| 0 <= k < h implies #[trigger] m.b[k] == 0 by {
        lemma_dot_zero(w, fs, f, k + 1, n);
        assert(m.b[k] == tdiv(dot_sin(w, fs, f, k + 1, n), den));
    }
    lemma_sum_abs_prefix_zero(m.a, h);
    lemma_sum_abs_prefix_zero(m.b, h);
    lemma_div_of0(2 * h);
}

/// The window partition is exact: a buffer of `len` samples is covered by
/// the least number of windows, every window but the last is full, and the
/// last holds the remainder of the buffer, a full window when the length
/// divides evenly.
pub proof fn lemma_window_partition(len: int, w: int)
    requires
        0 < w,
        0 <= len,
    ensures
        window_count(len, w) == (if len % w == 0 {
            len / w
        } else {
            len / w + 1
        }),
        0 < len ==> window_len_at(len, w, window_count(len, w) - 1) == (if len % w == 0 {
            w
        } else {
            len % w
        }),
        forall|j: int| 0 <= j < window_count(len, w) - 1 ==> #[trigger] window_len_at(len, w, j)
            == w,
        forall|j: int|
            0 <= j < window_count(len, w) ==> 1 <= #[trigger] window_len_at(len, w, j) <= w && j
                * w + window_len_at(len, w, j) <= len,
{
    let q = len / w;
    let r = len % w;
    lemma_fundamental_div_mod(len, w);
    lemma_mod_bound(len, w);
    if r == 0 {
        if q > 0 {
            assert(q * w + (w - 1) == len + w - 1);
            lemma_fundamental_div_mod_converse(len + w - 1, w, q, w - 1);
        } else {
            lemma_fundamental_div_mod_converse(len + w - 1, w, q, w - 1);
        }
    } else {
        assert((q + 1) * w + (r - 1) == len + w - 1) by (nonlinear_arith)
            requires
                len == q * w + r,
        ;
        lemma_fundamental_div_mod_converse(len + w - 1, w, q + 1, r - 1);
    }
    let c = window_count(len, w);
    if 0 < len {
        if r == 0 {
            assert(q >= 1) by (nonlinear_arith)
                requires
                    len == q * w + r,
                    r == 0,
                    0 < len,
                    0 < w,
            ;
            assert(c == q && q >= 1);
            assert(c * w == len) by (nonlinear_arith)
                requires
                    len == q * w + r,
                    r == 0,
                    c == q,
            ;
            assert(window_len_at(len, w, c - 1) == w);
        } else {
            assert(c == q + 1);
            assert((c - 1 + 1) * w > len && (c - 1) * w == len - r) by (nonlinear_arith)
                requires
                    len == q * w + r,
                    0 < r < w,
                    c == q + 1,
            ;
            assert(window_len_at(len, w, c - 1) == r);
        }
    }
    assert forall|j: int| 0 <= j < c - 1 implies #[trigger] window_len_at(len, w, j) == w by {
        assert((j + 1) * w <= len) by (nonlinear_arith)
            requires
                len == q * w + r,
                0 <= r < w,
                0 <= j,
                j < c - 1,
                c == (if r == 0 {
                    q
                } else {
                    q + 1
                }),
                0 < w,
        ;
    }
    assert forall|j: int|
        0 <= j < c implies 1 <= #[trigger] window_len_at(len, w, j) <= w && j * w + window_len_at(
        len,
        w,
        j,
    ) <= len by {
        assert(j * w < len && (j + 1) * w == j * w + w) by (nonlinear_arith)
            requires
                len == q * w + r,
                0 <= r < w,
                0 <= j,
                j < c,
                c == (if r == 0 {
                    q
                } else {
                    q + 1
                }),
                0 < w,
        ;
    }
}

proof fn lemma_best_fit_in_range(w: Seq<i64>, fs: int, h: int, f_low: int, f_end: int)
    ensures
        best_fit(w, fs, h, f_low, f_end) matches Option::Some(m) ==> f_low <= m.base_frequency
            < f_end && m == analyze_model(w, fs, m.base_frequency, h),
    decreases f_end - f_low,
{
    if f_end > f_low {
        lemma_best_fit_in_range(w, fs, h, f_low, f_end - 1);
    }
}

proof fn lemma_search_prefix_in_range(samples: Seq<i64>, cfg: AnalysisConfig, n: int)
    requires
        cfg.wf(),
    ensures
        forall|j: int|
            0 <= j < search_prefix(samples, cfg, n).len() ==> cfg.frequency_low <= (
            #[trigger] search_prefix(samples, cfg, n)[j]).base_frequency < cfg.frequency_high,
    decreases n,
{
    if n > 0 {
        lemma_search_prefix_in_range(samples, cfg, n - 1);
        lemma_best_fit_in_range(
            window_at(samples, cfg.window_size as int, n - 1),
            cfg.sampling_frequency as int,
            cfg.harmonic_count as int,
            cfg.frequency_low as int,
            cfg.frequency_high as int,
        );
        let prev = search_prefix(samples, cfg, n - 1);
        let cur = search_prefix(samples, cfg, n);
        assert forall|j: int|
            0 <= j < cur.len() implies cfg.frequency_low <= (#[trigger] cur[j]).base_frequency
            < cfg.frequency_high by {
            match best_fit_of_window(samples, cfg, n - 1) {
                Option::Some(m) => {
                    if j < prev.len() {
                        assert(cur[j] == prev[j]);
                    } else {
                        assert(cur[j] == m);
                    }
                },
                Option::None => {
                    assert(cur[j] == prev[j]);
                },
            }
        }
    }
}

/// Every fundamental the search keeps lies inside the configured candidate
/// range.
pub proof fn lemma_search_frequencies_in_range(samples: Seq<i64>, cfg: AnalysisConfig)
    requires
        cfg.wf(),
    ensures
        forall|j: int|
            0 <= j < search_model(samples, cfg).len() ==> cfg.frequency_low <= (
            #[trigger] search_model(samples, cfg)[j]).base_frequency < cfg.frequency_high,
{
    lemma_search_prefix_in_range(
        samples,
        cfg,
        window_count(samples.len() as int, cfg.window_size as int),
    );
}

/// A buffer that fits within one window yields at most one result, and
/// that result's fundamental lies inside the configured range.
pub proof fn lemma_single_window_search(samples: Seq<i64>, cfg: AnalysisConfig)
    requires
        cfg.wf(),
        0 < samples.len() <= cfg.window_size,
    ensures
        search_model(samples, cfg).len() <= 1,
        forall|j: int|
            0 <= j < search_model(samples, cfg).len() ==> cfg.frequency_low <= (
            #[trigger] search_model(samples, cfg)[j]).base_frequency < cfg.frequency_high,
{
    let len = samples.len() as int;
    let w = cfg.window_size as int;
    assert(0 <= len - 1 < w);
    assert(len + w - 1 == 1 * w + (len - 1)) by (nonlinear_arith);
    lemma_fundamental_div_mod_converse(len + w - 1, w, 1, len - 1);
    assert(window_count(len, w) == 1);
    assert(search_prefix(samples, cfg, 0).len() == 0);
    lemma_search_frequencies_in_range(samples, cfg);
}

proof fn lemma_zero_window_best_fit(w: Seq<i64>, fs: int, h: int, f_low: int, f_end: int)
    requires
        0 < w.len(),
        0 < h,
        forall|i: int| 0 <= i < w.len() ==> w[i] == 0,
    ensures
        best_fit(w, fs, h, f_low, f_end) is None,
    decreases f_end - f_low,
{
    if f_end > f_low {
        lemma_zero_window_best_fit(w, fs, h, f_low, f_end - 1);
        lemma_zero_window_analysis(w, fs, f_end - 1, h);
    }
}

proof fn lemma_zero_buffer_search_prefix(samples: Seq<i64>, cfg: AnalysisConfig, n: int)
    requires
        cfg.wf(),
        0 <= n <= window_count(samples.len() as int, cfg.window_size as int),
        forall|i: int| 0 <= i < samples.len() ==> samples[i] == 0,
    ensures
        search_prefix(samples, cfg, n).len() == 0,
    decreases n,
{
    if n > 0 {
        lemma_zero_buffer_search_prefix(samples, cfg, n - 1);
        let len = samples.len() as int;
        let ws = cfg.window_size as int;
        lemma_window_partition(len, ws);
        let wlen = window_len_at(len, ws, n - 1);
        assert(1 <= wlen && (n - 1) * ws + wlen <= len);
        let w = window_at(samples, ws, n - 1);
        assert(0 <= (n - 1) * ws) by (nonlinear_arith)
            requires
                0 <= n - 1,
                0 < ws,
        ;
        assert(w.len() == wlen);
        assert(forall|i: int| 0 <= i < w.len() ==> w[i] == 0);
        lemma_zero_window_best_fit(
            w,
            cfg.sampling_frequency as int,
            cfg.harmonic_count as int,
            cfg.frequency_low as int,
            cfg.frequency_high as int,
        );
    }
}

/// An all-zero buffer yields an empty search result: no candidate ever
/// scores above the zero threshold, so every window is skipped.
pub proof fn lemma_zero_buffer_search(samples: Seq<i64>, cfg: AnalysisConfig)
    requires
        cfg.wf(),
        forall|i: int| 0 <= i < samples.len() ==> samples[i] == 0,
    ensures
        search_model(samples, cfg).len() == 0,
{
    lemma_zero_buffer_search_prefix(
        samples,
        cfg,
        window_count(samples.len() as int, cfg.window_size as int),
    );
}

/// The multiplier acts linearly through the fixed-point product: a sample
/// synthesized with multiplier `m` is the fixed-point product of `m` with
/// the sample synthesized with multiplier one (`SCALE`), which is itself
/// the unscaled series value.
pub proof fn lemma_multiplier_law(
    m: ResultModel,
    fs: int,
    h: int,
    i: int,
    corrected: bool,
    multiplier: int,
)
    ensures
        scaled_sample(m, fs, h, i, corrected, SCALE as int) == synth_sample(m, fs, h, i, corrected),
        scaled_sample(m, fs, h, i, corrected, multiplier) == tdiv(
            multiplier * scaled_sample(m, fs, h, i, corrected, SCALE as int),
            SCALE as int,
        ),
{
    let v = synth_sample(m, fs, h, i, corrected);
    lemma_tdiv_exact(v, SCALE as int);
    assert(scaled_sample(m, fs, h, i, corrected, SCALE as int) == v);
    assert(scaled_sample(m, fs, h, i, corrected, multiplier) == tdiv(
        v * multiplier,
        SCALE as int,
    ));
    assert(v * multiplier == multiplier * v);
}

} // verus!
