//! The frequency search: windowing and per-window best-fit selection.
//!
//! The buffer is partitioned into consecutive, non-overlapping windows of
//! the configured size, the final window truncated to what remains. Every
//! integer candidate frequency of the configured range is tried on each
//! window, and the strictly best-scoring fit is kept; ties keep the first,
//! lowest, candidate. A window whose every candidate scores zero
//! contributes nothing to the output.

use vstd::prelude::*;
use vstd::arithmetic::div_mod::lemma_fundamental_div_mod_converse;
use crate::analysis::{
    analyze_model, analyze_window, score_model, score_value, window_of, AnalysisResult,
    ResultModel,
};
use crate::buffer::WaveformBuffer;
use crate::config::AnalysisConfig;

verus! {

/// How many windows a buffer of `len` samples is partitioned into:
/// the least number of `window_size`-sample windows covering it.
pub open spec fn window_count(len: int, window_size: int) -> int {
    (len + window_size - 1) / window_size
}

/// The length of window `j`: the full window size, except for a shorter
/// final window when less than a full window remains.
pub open spec fn window_len_at(len: int, window_size: int, j: int) -> int {
    if (j + 1) * window_size <= len {
        window_size
    } else {
        len - j * window_size
    }
}

/// The samples of window `j`.
pub open spec fn window_at(samples: Seq<i64>, window_size: int, j: int) -> Seq<i64> {
    window_of(samples, j * window_size, window_len_at(samples.len() as int, window_size, j))
}

/// The score a best-so-far holds: zero while nothing has been kept.
pub open spec fn opt_score(o: Option<ResultModel>) -> int {
    match o {
        Option::Some(m) => score_model(m),
        Option::None => 0,
    }
}

/// The best fit of a window over the candidate frequencies in
/// `[f_low, f_end)`, scanned upwards: a later candidate replaces the
/// best-so-far only when its score is strictly greater, so ties keep the
/// lowest frequency, and nothing is kept while no candidate beats zero.
pub open spec fn best_fit(w: Seq<i64>, fs: int, h: int, f_low: int, f_end: int) -> Option<
    ResultModel,
>
    decreases f_end - f_low,
{
    if f_end <= f_low {
        Option::None
    } else {
        let prev = best_fit(w, fs, h, f_low, f_end - 1);
        let cand = analyze_model(w, fs, f_end - 1, h);
        if score_model(cand) > opt_score(prev) {
            Option::Some(cand)
        } else {
            prev
        }
    }
}

/// The best fit of window `j` of a buffer, over the configured candidate
/// range.
pub open spec fn best_fit_of_window(samples: Seq<i64>, cfg: AnalysisConfig, j: int) -> Option<
    ResultModel,
> {
    best_fit(
        window_at(samples, cfg.window_size as int, j),
        cfg.sampling_frequency as int,
        cfg.harmonic_count as int,
        cfg.frequency_low as int,
        cfg.frequency_high as int,
    )
}

/// What searching the first `n` windows yields: each window's best fit in
/// window order, windows without one skipped.
pub open spec fn search_prefix(samples: Seq<i64>, cfg: AnalysisConfig, n: int) -> Seq<ResultModel>
    decreases n,
{
    if n <= 0 {
        Seq::empty()
    } else {
        let prev = search_prefix(samples, cfg, n - 1);
        match best_fit_of_window(samples, cfg, n - 1) {
            Option::Some(m) => prev.push(m),
            Option::None => prev,
        }
    }
}

/// What the frequency search yields on a whole buffer.
pub open spec fn search_model(samples: Seq<i64>, cfg: AnalysisConfig) -> Seq<ResultModel> {
    search_prefix(samples, cfg, window_count(samples.len() as int, cfg.window_size as int))
}

/// How many windows a buffer of `len` samples is partitioned into.
pub fn count_windows(len: usize, window_size: usize) -> (n: usize)
    requires
        0 < window_size,
    ensures
        n == window_count(len as int, window_size as int),
{
    if len == 0 {
        proof {
            lemma_fundamental_div_mod_converse(
                len + window_size - 1,
                window_size as int,
                0,
                window_size - 1,
            );
        }
        0
    } else {
        let q: usize = (len - 1) / window_size;
        proof {
            let wi = window_size as int;
            let r = (len - 1) % wi;
            vstd::arithmetic::div_mod::lemma_fundamental_div_mod(len - 1, wi);
            vstd::arithmetic::div_mod::lemma_mod_bound(len - 1, wi);
            assert(len - 1 == wi * (q as int) + r);
            assert((q as int + 1) * wi == wi * (q as int) + wi) by (nonlinear_arith);
            assert(len + wi - 1 == (q as int + 1) * wi + r);
            lemma_fundamental_div_mod_converse(len + wi - 1, wi, q as int + 1, r);
        }
        q + 1
    }
}

/// Runs the frequency search: one best fit per window, in window order,
/// windows without a positive-scoring fit omitted.
pub fn search(buffer: &WaveformBuffer, cfg: &AnalysisConfig) -> (results: Vec<AnalysisResult>)
    requires
        buffer.wf(),
        cfg.wf(),
    ensures
        results@.map(|j: int, r: AnalysisResult| r@) == search_model(buffer@, *cfg),
        results@.len() <= window_count(buffer@.len() as int, cfg.window_size as int),
        forall|j: int|
            0 <= j < results@.len() ==> (#[trigger] results@[j])@.wf(cfg.harmonic_count as int)
                && results@[j]@.bounded(),
{
    let len: usize = buffer.len();
    let w_size: usize = cfg.window_size;
    let mut results: Vec<AnalysisResult> = Vec::new();
    let mut position: usize = 0;
    let ghost mut wi: int = 0;
    proof {
        if len == 0 {
            lemma_fundamental_div_mod_converse(
                w_size as int - 1,
                w_size as int,
                0,
                w_size as int - 1,
            );
        }
    }
    while position < len
        invariant
            buffer.wf(),
            cfg.wf(),
            len == buffer@.len(),
            w_size == cfg.window_size,
            0 <= wi,
            position <= len,
            position == wi * w_size || position == len,
            position == len ==> wi == window_count(len as int, w_size as int),
            results@.len() <= wi,
            results@.map(|j: int, r: AnalysisResult| r@) == search_prefix(buffer@, *cfg, wi),
            forall|j: int|
                0 <= j < results@.len() ==> (#[trigger] results@[j])@.wf(cfg.harmonic_count as int)
                    && results@[j]@.bounded(),
        decreases len - position,
    {
        proof {
            assert(position == wi * w_size);
        }
        let count: usize = if len - position < w_size {
            len - position
        } else {
            w_size
        };
        proof {
            let li = len as int;
            let wsi = w_size as int;
            assert((wi + 1) * wsi == wi * wsi + wsi) by (nonlinear_arith);
            assert(count == window_len_at(li, wsi, wi));
        }
        let best = best_fit_in_window(buffer, cfg, position, count, Ghost(wi));
        match best {
            Option::Some(r) => {
                results.push(r);
            },
            Option::None => {},
        }
        proof {
            let view_map = |j: int, r: AnalysisResult| r@;
            assert(search_prefix(buffer@, *cfg, wi + 1) =~= results@.map(view_map));
            wi = wi + 1;
            let li = len as int;
            let wsi = w_size as int;
            if position + count == len {
                if count == w_size {
                    lemma_fundamental_div_mod_converse(li + wsi - 1, wsi, wi, wsi - 1);
                } else {
                    lemma_fundamental_div_mod_converse(li + wsi - 1, wsi, wi, count - 1);
                }
            }
        }
        position = position + count;
    }
    results
}

/// Scans every candidate frequency of the configured range over one
/// window, keeping the strictly best-scoring fit.
fn best_fit_in_window(
    buffer: &WaveformBuffer,
    cfg: &AnalysisConfig,
    position: usize,
    count: usize,
    window_index: Ghost<int>,
) -> (best: Option<AnalysisResult>)
    requires
        buffer.wf(),
        cfg.wf(),
        0 < count,
        position + count <= buffer@.len(),
        position == window_index@ * cfg.window_size,
        count == window_len_at(buffer@.len() as int, cfg.window_size as int, window_index@),
    ensures
        ({
            let model = match best {
                Option::Some(r) => Option::Some(r@),
                Option::None => Option::None::<ResultModel>,
            };
            model == best_fit_of_window(buffer@, *cfg, window_index@)
        }),
        best matches Option::Some(r) ==> r@.wf(cfg.harmonic_count as int) && r@.bounded(),
{
    let ghost w = window_at(buffer@, cfg.window_size as int, window_index@);
    let ghost fs = cfg.sampling_frequency as int;
    let ghost h = cfg.harmonic_count as int;
    let mut best: Option<AnalysisResult> = Option::None;
    let mut best_score: i64 = 0;
    let mut f: u32 = cfg.frequency_low;
    proof {
        assert(w == window_of(buffer@, position as int, count as int));
    }
    while f < cfg.frequency_high
        invariant
            buffer.wf(),
            cfg.wf(),
            0 < count,
            position + count <= buffer@.len(),
            w == window_of(buffer@, position as int, count as int),
            fs == cfg.sampling_frequency as int,
            h == cfg.harmonic_count as int,
            cfg.frequency_low <= f <= cfg.frequency_high,
            (match best {
                Option::Some(r) => Option::Some(r@),
                Option::None => Option::None::<ResultModel>,
            }) == best_fit(w, fs, h, cfg.frequency_low as int, f as int),
            best_score == opt_score(best_fit(w, fs, h, cfg.frequency_low as int, f as int)),
            best matches Option::Some(r) ==> r@.wf(h) && r@.bounded(),
        decreases cfg.frequency_high - f,
    {
        let res = analyze_window(buffer, cfg, f, position, count);
        let sc = score_value(&res);
        if sc > best_score {
            best_score = sc;
            best = Option::Some(res);
        }
        f = f + 1;
    }
    proof {
        assert(w == window_at(buffer@, cfg.window_size as int, window_index@));
    }
    best
}

} // verus!
