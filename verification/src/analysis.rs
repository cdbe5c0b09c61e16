//! The window analyzer and the fit scorer.
//!
//! A window of samples is treated as one period of the candidate
//! fundamental: the analyzer computes the window mean and, for each
//! harmonic, the mean of the samples weighted by the cosine and by the sine
//! of the harmonic's phase. Phases are exact fractions of a turn, so the
//! specification pins every coefficient down to the integer.

use vstd::prelude::*;
use vstd::arithmetic::div_mod::{
    lemma_add_mod_noop, lemma_div_pos_is_pos, lemma_mod_bound, lemma_mod_twice, lemma_small_mod,
};
use crate::buffer::WaveformBuffer;
use crate::config::{AnalysisConfig, WaveError};
use crate::fixed::{div_trunc, lemma_tdiv_bound, tdiv, AMPLITUDE_LIMIT, SCALE};
use crate::trig::{cos_fixed, cos_fp, sin_fixed, sin_fp};

verus! {

/// The window a sample range of a buffer holds.
pub open spec fn window_of(samples: Seq<i64>, start: int, count: int) -> Seq<i64> {
    samples.subrange(start, start + count)
}

/// Sum of the first `n` samples of a window.
pub open spec fn sum_prefix(w: Seq<i64>, n: int) -> int
    decreases n,
{
    if n <= 0 {
        0
    } else {
        sum_prefix(w, n - 1) + w[n - 1]
    }
}

/// Cosine of harmonic `k` of fundamental `f` at sample index `i`, at sample
/// rate `fs`: the phase advances by `f * k / fs` turns per sample.
pub open spec fn cos_at(fs: int, f: int, k: int, i: int) -> int {
    cos_fixed((f * k * i) % fs, fs)
}

/// Sine of harmonic `k` of fundamental `f` at sample index `i`.
pub open spec fn sin_at(fs: int, f: int, k: int, i: int) -> int {
    sin_fixed((f * k * i) % fs, fs)
}

/// Sum over the first `n` samples of a window of the sample weighted by the
/// cosine of harmonic `k`.
pub open spec fn dot_cos(w: Seq<i64>, fs: int, f: int, k: int, n: int) -> int
    decreases n,
{
    if n <= 0 {
        0
    } else {
        dot_cos(w, fs, f, k, n - 1) + w[n - 1] * cos_at(fs, f, k, n - 1)
    }
}

/// Sum over the first `n` samples of a window of the sample weighted by the
/// sine of harmonic `k`.
pub open spec fn dot_sin(w: Seq<i64>, fs: int, f: int, k: int, n: int) -> int
    decreases n,
{
    if n <= 0 {
        0
    } else {
        dot_sin(w, fs, f, k, n - 1) + w[n - 1] * sin_at(fs, f, k, n - 1)
    }
}

/// The constant term of a window's fit: the window mean, truncated towards
/// zero. The divisor is the window's own sample count.
pub open spec fn mean_of(w: Seq<i64>) -> int {
    tdiv(sum_prefix(w, w.len() as int), w.len() as int)
}

/// Cosine coefficient of harmonic `k`: the mean of the cosine-weighted
/// samples, rescaled out of the weighting scale. The divisor is the
/// window's own sample count, never a full buffer length.
pub open spec fn coeff_a(w: Seq<i64>, fs: int, f: int, k: int) -> int {
    tdiv(dot_cos(w, fs, f, k, w.len() as int), (w.len() as int) * (SCALE as int))
}

/// Sine coefficient of harmonic `k`: the mean of the sine-weighted samples,
/// rescaled out of the weighting scale.
pub open spec fn coeff_b(w: Seq<i64>, fs: int, f: int, k: int) -> int {
    tdiv(dot_sin(w, fs, f, k, w.len() as int), (w.len() as int) * (SCALE as int))
}

/// The mathematical shape of one window's fit: the fundamental it was
/// fitted at, the constant term, and one cosine and one sine coefficient
/// per harmonic.
#[verifier::ext_equal]
pub struct ResultModel {
    /// The fundamental frequency the window was fitted at, in Hz.
    pub base_frequency: int,
    /// The constant (mean) term.
    pub a0: int,
    /// Cosine coefficients of harmonics `1 ..= a.len()`.
    pub a: Seq<int>,
    /// Sine coefficients of harmonics `1 ..= b.len()`.
    pub b: Seq<int>,
}

impl ResultModel {
    /// Both coefficient sequences hold exactly one entry per harmonic.
    pub open spec fn wf(self, harmonic_count: int) -> bool {
        &&& self.a.len() == harmonic_count
        &&& self.b.len() == harmonic_count
    }

    /// Every harmonic coefficient stays within `AMPLITUDE_LIMIT`.
    pub open spec fn coeffs_bounded(self) -> bool {
        &&& forall|k: int|
            0 <= k < self.a.len() ==> -AMPLITUDE_LIMIT <= #[trigger] self.a[k] <= AMPLITUDE_LIMIT
        &&& forall|k: int|
            0 <= k < self.b.len() ==> -AMPLITUDE_LIMIT <= #[trigger] self.b[k] <= AMPLITUDE_LIMIT
    }

    /// Every stored value, the constant term included, stays within
    /// `AMPLITUDE_LIMIT`.
    pub open spec fn bounded(self) -> bool {
        &&& -AMPLITUDE_LIMIT <= self.a0 <= AMPLITUDE_LIMIT
        &&& self.coeffs_bounded()
    }
}

/// What analyzing a window at one candidate fundamental yields.
pub open spec fn analyze_model(w: Seq<i64>, fs: int, f: int, harmonic_count: int) -> ResultModel {
    ResultModel {
        base_frequency: f,
        a0: mean_of(w),
        a: Seq::new(harmonic_count as nat, |k: int| coeff_a(w, fs, f, k + 1)),
        b: Seq::new(harmonic_count as nat, |k: int| coeff_b(w, fs, f, k + 1)),
    }
}

/// One window's fit: the best-fit constant term and harmonic coefficients
/// for one candidate fundamental frequency.
#[derive(Clone, Debug)]
pub struct AnalysisResult {
    /// The fundamental frequency this fit used, in Hz.
    pub base_frequency: u32,
    /// The constant (mean) term.
    pub a0: i64,
    /// Cosine coefficients of harmonics `1 ..= a.len()`.
    pub a: Vec<i64>,
    /// Sine coefficients of harmonics `1 ..= b.len()`.
    pub b: Vec<i64>,
}

impl View for AnalysisResult {
    type V = ResultModel;

    open spec fn view(&self) -> ResultModel {
        ResultModel {
            base_frequency: self.base_frequency as int,
            a0: self.a0 as int,
            a: self.a@.map(|k: int, x: i64| x as int),
            b: self.b@.map(|k: int, x: i64| x as int),
        }
    }
}

/// Sum of the magnitudes of the first `n` entries of a coefficient
/// sequence.
pub open spec fn sum_abs_prefix(s: Seq<int>, n: int) -> int
    decreases n,
{
    if n <= 0 {
        0
    } else {
        sum_abs_prefix(s, n - 1) + (if s[n - 1] < 0 {
            -s[n - 1]
        } else {
            s[n - 1]
        })
    }
}

/// The fit score: the mean magnitude of the harmonic coefficients, the
/// sum of all their magnitudes divided by how many there are. Higher is a
/// better fit.
pub open spec fn score_model(m: ResultModel) -> int {
    (sum_abs_prefix(m.a, m.a.len() as int) + sum_abs_prefix(m.b, m.b.len() as int)) / (2 * (
    m.a.len() as int))
}

/// One harmonic's coefficient: the running dot product of the window's
/// samples with the harmonic's cosine (or sine), then the truncating
/// division by the window's own sample count and the weighting scale.
fn harmonic_coefficient(
    buffer: &WaveformBuffer,
    start: usize,
    count: usize,
    fs: u32,
    f: u32,
    k: usize,
    use_sin: bool,
) -> (c: i64)
    requires
        buffer.wf(),
        0 < count,
        start + count <= buffer@.len(),
        0 < fs,
        1 <= k <= 64,
    ensures
        ({
            let w = window_of(buffer@, start as int, count as int);
            &&& (!use_sin ==> c == coeff_a(w, fs as int, f as int, k as int))
            &&& (use_sin ==> c == coeff_b(w, fs as int, f as int, k as int))
            &&& -AMPLITUDE_LIMIT <= c <= AMPLITUDE_LIMIT
        }),
{
    let ghost w = window_of(buffer@, start as int, count as int);
    let buffer_len: usize = buffer.len();
    let fsu: u64 = fs as u64;
    proof {
        assert((f as int) * (k as int) <= 0xffff_ffff * 64) by (nonlinear_arith)
            requires
                f <= 0xffff_ffff,
                k <= 64,
                0 <= f,
                0 <= k,
        ;
    }
    let step: u64 = ((f as u64) * (k as u64)) % fsu;
    let mut ph: u64 = 0;
    let mut acc: i128 = 0;
    let mut i: usize = 0;
    proof {
        lemma_small_mod(0nat, fsu as nat);
        lemma_mod_bound((f as int) * (k as int), fsu as int);
    }
    while i < count
        invariant
            buffer.wf(),
            0 < count,
            start + count <= buffer@.len(),
            0 < fs,
            1 <= k <= 64,
            w == window_of(buffer@, start as int, count as int),
            buffer_len == buffer@.len(),
            fsu == fs,
            step == ((f as int) * (k as int)) % (fs as int),
            step < fsu,
            i <= count,
            ph == ((f as int) * (k as int) * (i as int)) % (fs as int),
            ph < fsu,
            acc == (if use_sin {
                dot_sin(w, fs as int, f as int, k as int, i as int)
            } else {
                dot_cos(w, fs as int, f as int, k as int, i as int)
            }),
            -((i as int) * (AMPLITUDE_LIMIT as int) * (SCALE as int)) <= acc <= (i as int) * (
            AMPLITUDE_LIMIT as int) * (SCALE as int),
        decreases count - i,
    {
        let s: i64 = buffer.sample(start + i);
        let t: i64 = if use_sin {
            sin_fp(ph, fsu)
        } else {
            cos_fp(ph, fsu)
        };
        proof {
            let fi = f as int;
            let ki = k as int;
            let ii = i as int;
            let al = AMPLITUDE_LIMIT as int;
            let sc = SCALE as int;
            assert(w[ii] == buffer@[start + ii]);
            assert(-al * sc <= (s as int) * (t as int) <= al * sc) by (nonlinear_arith)
                requires
                    -al <= s as int <= al,
                    -sc <= t as int <= sc,
                    0 < al,
                    0 < sc,
            ;
            assert((ii + 1) * (al * sc) == ii * (al * sc) + al * sc) by (nonlinear_arith);
            assert(ii * al * sc == ii * (al * sc)) by (nonlinear_arith);
            assert((ii + 1) * al * sc == (ii + 1) * (al * sc)) by (nonlinear_arith);
            lemma_add_mod_noop(fi * ki * ii, fi * ki, fs as int);
            lemma_mod_twice(fi * ki * ii, fs as int);
            assert(fi * ki * ii + fi * ki == fi * ki * (ii + 1)) by (nonlinear_arith);
            lemma_mod_bound(fi * ki * (ii + 1), fs as int);
        }
        acc = acc + (s as i128) * (t as i128);
        ph = (ph + step) % fsu;
        i = i + 1;
    }
    let den: i128 = (count as i128) * 65536;
    proof {
        lemma_tdiv_bound(acc as int, (count as int) * (SCALE as int), AMPLITUDE_LIMIT as int);
        assert(w.len() == count as int);
    }
    div_trunc(acc, den)
}

/// The constant term: the window's running sum, then the truncating
/// division by the window's own sample count.
fn mean_value(buffer: &WaveformBuffer, start: usize, count: usize) -> (a0: i64)
    requires
        buffer.wf(),
        0 < count,
        start + count <= buffer@.len(),
    ensures
        a0 == mean_of(window_of(buffer@, start as int, count as int)),
        -AMPLITUDE_LIMIT <= a0 <= AMPLITUDE_LIMIT,
{
    let ghost w = window_of(buffer@, start as int, count as int);
    let buffer_len: usize = buffer.len();
    let mut total: i128 = 0;
    let mut i: usize = 0;
    while i < count
        invariant
            buffer.wf(),
            0 < count,
            start + count <= buffer@.len(),
            buffer_len == buffer@.len(),
            w == window_of(buffer@, start as int, count as int),
            i <= count,
            total == sum_prefix(w, i as int),
            -((i as int) * (AMPLITUDE_LIMIT as int)) <= total <= (i as int) * (
            AMPLITUDE_LIMIT as int),
        decreases count - i,
    {
        let s: i64 = buffer.sample(start + i);
        proof {
            assert(w[i as int] == buffer@[start + i]);
        }
        total = total + (s as i128);
        i = i + 1;
    }
    proof {
        lemma_tdiv_bound(total as int, count as int, AMPLITUDE_LIMIT as int);
        assert(w.len() == count as int);
    }
    div_trunc(total, count as i128)
}

/// Analyzes one window of the buffer at one candidate fundamental: the
/// window-analyzer contract, for callers that have already established the
/// range preconditions.
pub fn analyze_window(
    buffer: &WaveformBuffer,
    cfg: &AnalysisConfig,
    base_frequency: u32,
    start: usize,
    count: usize,
) -> (r: AnalysisResult)
    requires
        buffer.wf(),
        cfg.wf(),
        0 < count,
        start + count <= buffer@.len(),
    ensures
        r@ == analyze_model(
            window_of(buffer@, start as int, count as int),
            cfg.sampling_frequency as int,
            base_frequency as int,
            cfg.harmonic_count as int,
        ),
        r@.wf(cfg.harmonic_count as int),
        r@.bounded(),
        r.base_frequency == base_frequency,
{
    let ghost w = window_of(buffer@, start as int, count as int);
    let ghost fsi = cfg.sampling_frequency as int;
    let ghost fi = base_frequency as int;
    let h: usize = cfg.harmonic_count;
    let a0: i64 = mean_value(buffer, start, count);
    let mut a: Vec<i64> = Vec::new();
    let mut k: usize = 1;
    while k <= h
        invariant
            buffer.wf(),
            cfg.wf(),
            0 < count,
            start + count <= buffer@.len(),
            w == window_of(buffer@, start as int, count as int),
            fsi == cfg.sampling_frequency as int,
            fi == base_frequency as int,
            h == cfg.harmonic_count,
            1 <= k <= h + 1,
            a@.len() == k - 1,
            forall|j: int| 0 <= j < k - 1 ==> #[trigger] a@[j] == coeff_a(w, fsi, fi, j + 1),
            forall|j: int|
                0 <= j < k - 1 ==> -AMPLITUDE_LIMIT <= #[trigger] a@[j] <= AMPLITUDE_LIMIT,
        decreases h + 1 - k,
    {
        let c: i64 = harmonic_coefficient(
            buffer,
            start,
            count,
            cfg.sampling_frequency,
            base_frequency,
            k,
            false,
        );
        a.push(c);
        k = k + 1;
    }
    let mut b: Vec<i64> = Vec::new();
    let mut k2: usize = 1;
    while k2 <= h
        invariant
            buffer.wf(),
            cfg.wf(),
            0 < count,
            start + count <= buffer@.len(),
            w == window_of(buffer@, start as int, count as int),
            fsi == cfg.sampling_frequency as int,
            fi == base_frequency as int,
            h == cfg.harmonic_count,
            1 <= k2 <= h + 1,
            b@.len() == k2 - 1,
            forall|j: int| 0 <= j < k2 - 1 ==> #[trigger] b@[j] == coeff_b(w, fsi, fi, j + 1),
            forall|j: int|
                0 <= j < k2 - 1 ==> -AMPLITUDE_LIMIT <= #[trigger] b@[j] <= AMPLITUDE_LIMIT,
        decreases h + 1 - k2,
    {
        let c: i64 = harmonic_coefficient(
            buffer,
            start,
            count,
            cfg.sampling_frequency,
            base_frequency,
            k2,
            true,
        );
        b.push(c);
        k2 = k2 + 1;
    }
    let r = AnalysisResult { base_frequency, a0, a, b };
    proof {
        let m = analyze_model(w, fsi, fi, cfg.harmonic_count as int);
        assert(r@.a =~= m.a);
        assert(r@.b =~= m.b);
        assert(r@ =~= m);
    }
    r
}

/// Analyzes one window of the buffer at one candidate fundamental,
/// checking the range first: an empty or out-of-range window is refused
/// with an explicit error, never read.
pub fn analyze(
    buffer: &WaveformBuffer,
    cfg: &AnalysisConfig,
    base_frequency: u32,
    start: usize,
    count: usize,
) -> (r: Result<AnalysisResult, WaveError>)
    requires
        buffer.wf(),
        cfg.wf(),
    ensures
        count == 0 ==> r == Err::<AnalysisResult, WaveError>(WaveError::EmptyWindow),
        count > 0 && start + count > buffer@.len() ==> r == Err::<AnalysisResult, WaveError>(
            WaveError::WindowOutOfRange,
        ),
        r is Ok <==> (0 < count && start + count <= buffer@.len()),
        r matches Ok(res) ==> res@ == analyze_model(
            window_of(buffer@, start as int, count as int),
            cfg.sampling_frequency as int,
            base_frequency as int,
            cfg.harmonic_count as int,
        ) && res@.wf(cfg.harmonic_count as int) && res@.bounded(),
{
    if count == 0 {
        return Err(WaveError::EmptyWindow);
    }
    if count > buffer.len() || start > buffer.len() - count {
        return Err(WaveError::WindowOutOfRange);
    }
    Ok(analyze_window(buffer, cfg, base_frequency, start, count))
}

impl AnalysisResult {
    /// The fit score of a populated result, exactly `score_model` of its
    /// shape: nonnegative, and computed only after the coefficient vectors
    /// are checked to be populated, matched in length and within bounds.
    pub fn score(&self) -> (r: Result<i64, WaveError>)
        ensures
            r is Ok <==> (self.a@.len() == self.b@.len() && 0 < self.a@.len() <= 64
                && self@.coeffs_bounded()),
            r matches Ok(s) ==> s == score_model(self@) && 0 <= s,
            (self.a@.len() != self.b@.len() || self.a@.len() == 0 || self.a@.len() > 64) ==> r
                == Err::<i64, WaveError>(WaveError::UnfitResult),
            (self.a@.len() == self.b@.len() && 0 < self.a@.len() <= 64
                && !self@.coeffs_bounded()) ==> r == Err::<i64, WaveError>(
                WaveError::AmplitudeTooLarge,
            ),
    {
        if self.a.len() != self.b.len() || self.a.len() == 0 || self.a.len() > 64 {
            return Err(WaveError::UnfitResult);
        }
        let n: usize = self.a.len();
        let mut i: usize = 0;
        while i < n
            invariant
                n == self.a@.len(),
                n == self.b@.len(),
                0 < n <= 64,
                i <= n,
                forall|j: int|
                    0 <= j < i ==> -AMPLITUDE_LIMIT <= #[trigger] self.a@[j] <= AMPLITUDE_LIMIT,
                forall|j: int|
                    0 <= j < i ==> -AMPLITUDE_LIMIT <= #[trigger] self.b@[j] <= AMPLITUDE_LIMIT,
            decreases n - i,
        {
            let x: i64 = self.a[i];
            let y: i64 = self.b[i];
            proof {
                assert(self@.a[i as int] == x as int);
                assert(self@.b[i as int] == y as int);
            }
            if x > AMPLITUDE_LIMIT || x < -AMPLITUDE_LIMIT || y > AMPLITUDE_LIMIT || y
                < -AMPLITUDE_LIMIT {
                return Err(WaveError::AmplitudeTooLarge);
            }
            i = i + 1;
        }
        proof {
            assert forall|j: int|
                0 <= j < self@.a.len() implies -AMPLITUDE_LIMIT <= #[trigger] self@.a[j]
                <= AMPLITUDE_LIMIT by {
                assert(self@.a[j] == self.a@[j] as int);
            }
            assert forall|j: int|
                0 <= j < self@.b.len() implies -AMPLITUDE_LIMIT <= #[trigger] self@.b[j]
                <= AMPLITUDE_LIMIT by {
                assert(self@.b[j] == self.b@[j] as int);
            }
        }
        Ok(score_value(self))
    }
}

/// The fit score of a result already known to be populated and bounded.
pub(crate) fn score_value(res: &AnalysisResult) -> (s: i64)
    requires
        res.a@.len() == res.b@.len(),
        0 < res.a@.len() <= 64,
        res@.coeffs_bounded(),
    ensures
        s == score_model(res@),
        0 <= s,
{
    let n: usize = res.a.len();
    let mut total: u64 = 0;
    let mut i: usize = 0;
    while i < n
        invariant
            n == res.a@.len(),
            n == res.b@.len(),
            n <= 64,
            res@.coeffs_bounded(),
            i <= n,
            total == sum_abs_prefix(res@.a, i as int) + sum_abs_prefix(res@.b, i as int),
            total <= (i as int) * 2 * (AMPLITUDE_LIMIT as int),
        decreases n - i,
    {
        let x: i64 = res.a[i];
        let y: i64 = res.b[i];
        proof {
            assert(res@.a[i as int] == x as int);
            assert(res@.b[i as int] == y as int);
        }
        let ax: u64 = if x < 0 {
            (-x) as u64
        } else {
            x as u64
        };
        let ay: u64 = if y < 0 {
            (-y) as u64
        } else {
            y as u64
        };
        total = total + ax + ay;
        i = i + 1;
    }
    proof {
        lemma_div_pos_is_pos(total as int, 2 * (n as int));
    }
    let s64: u64 = total / ((2 * n) as u64);
    s64 as i64
}

} // verus!
