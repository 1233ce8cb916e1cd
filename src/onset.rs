//! Whole-track onset analysis: the hop grid of the spectral-flux series,
//! the adaptive-threshold neighbourhood, beat selection with a refractory
//! period, and tempo from the median inter-beat interval.
use vstd::prelude::*;
use crate::frames::FFT_SIZE;
use vstd::arithmetic::div_mod::lemma_fundamental_div_mod_converse;

verus! {

/// Distance in samples between the starts of consecutive flux windows.
pub const HOP_SIZE: usize = 1024;

/// Half-width, in flux samples, of the neighbourhood whose mean sets the
/// adaptive threshold.
pub const LOCAL_WINDOW: usize = 20;

/// Tempo reported when the beats give no usable interval.
pub const DEFAULT_TEMPO_BPM: u64 = 120;

/// Positions in samples as integers.
pub open spec fn positions(v: Seq<usize>) -> Seq<int> {
    v.map_values(|p: usize| p as int)
}

/// Number of full `FFT_SIZE` windows whose starts lie `HOP_SIZE` apart from 0.
pub open spec fn spec_onset_window_count(total_samples: nat) -> nat {
    if total_samples < FFT_SIZE {
        0
    } else {
        ((total_samples - FFT_SIZE) as nat / HOP_SIZE as nat + 1) as nat
    }
}

/// How many flux samples a track of `total_samples` samples yields: window
/// `k` starts at `k * HOP_SIZE` and must lie wholly inside the track.
pub fn onset_window_count(total_samples: usize) -> (r: usize)
    ensures
        r as nat == spec_onset_window_count(total_samples as nat),
        r as int * HOP_SIZE as int <= total_samples,
        r == 0 || (r - 1) * HOP_SIZE + FFT_SIZE <= total_samples,
        total_samples < r as int * HOP_SIZE + FFT_SIZE,
{
    if total_samples < FFT_SIZE {
        0
    } else {
        (total_samples - FFT_SIZE) / HOP_SIZE + 1
    }
}

/// The windows `[start, end)` over which the track's peak RMS is taken:
/// consecutive runs of `sample_rate / 10` samples (a tenth of a second)
/// from the start, the last one possibly shorter.
pub fn rms_windows(total_samples: usize, sample_rate: u32) -> (r: Vec<(usize, usize)>)
    requires
        sample_rate >= 10,
    ensures
        ({
            let w = sample_rate as int / 10;
            &&& r@.len() == (total_samples + w - 1) / w
            &&& forall|k: int|
                0 <= k < r@.len() ==> (#[trigger] r@[k]).0 == k * w && r@[k].1 == (if (k + 1) * w
                    <= total_samples {
                    (k + 1) * w
                } else {
                    total_samples as int
                })
        }),
{
    let w: usize = (sample_rate / 10) as usize;
    let mut out: Vec<(usize, usize)> = Vec::new();
    let mut start: usize = 0;
    assert(out@.len() * w == 0);
    while start < total_samples
        invariant
            w == sample_rate as int / 10,
            w >= 1,
            start <= total_samples,
            start == (if out@.len() * w <= total_samples { out@.len() * w } else { total_samples as int }),
            out@.len() > 0 ==> (out@.len() - 1) * w < total_samples,
            forall|k: int|
                0 <= k < out@.len() ==> (#[trigger] out@[k]).0 == k * w && out@[k].1 == (if (k + 1)
                    * w <= total_samples {
                    (k + 1) * w
                } else {
                    total_samples as int
                }),
        decreases total_samples - start,
    {
        let end = if w <= total_samples - start { start + w } else { total_samples };
        proof {
            assert((out@.len() + 1) * w == out@.len() * w + w) by (nonlinear_arith);
        }
        out.push((start, end));
        start = end;
    }
    proof {
        let n = out@.len() as int;
        let wi = w as int;
        let tot = total_samples as int;
        if n > 0 {
            assert(n * wi == (n - 1) * wi + wi) by (nonlinear_arith);
            lemma_fundamental_div_mod_converse(tot + wi - 1, wi, n, tot + wi - 1 - n * wi);
        } else {
            lemma_fundamental_div_mod_converse(tot + wi - 1, wi, 0, tot + wi - 1);
        }
    }
    out
}

/// The flux samples `[start, end)` whose mean gives the adaptive threshold
/// at index `i` of a series of `n`: up to `LOCAL_WINDOW` on each side.
pub fn local_mean_range(i: usize, n: usize) -> (r: (usize, usize))
    requires
        i < n,
    ensures
        r.0 == (if i >= LOCAL_WINDOW { i - LOCAL_WINDOW } else { 0 }),
        r.1 == (if i + LOCAL_WINDOW + 1 <= n { i + LOCAL_WINDOW + 1 } else { n as int }),
        r.0 <= i < r.1 <= n,
{
    let start = if i >= LOCAL_WINDOW { i - LOCAL_WINDOW } else { 0 };
    let end = if LOCAL_WINDOW + 1 <= n - i { i + LOCAL_WINDOW + 1 } else { n };
    (start, end)
}

/// Whether a beat at sample `pos` keeps the refractory period after the
/// beat at `last`: at least a tenth of a second, `10 * (pos - last) >= sample_rate`.
pub open spec fn far_enough(last: int, pos: int, sample_rate: int) -> bool {
    10 * pos >= 10 * last + sample_rate
}

/// Beat positions chosen from the onset candidates: flux sample `k` (at
/// sample `k * HOP_SIZE`) becomes a beat when it is a candidate and keeps
/// the refractory period after the last beat taken before it.
pub open spec fn spec_detect_beats(onsets: Seq<bool>, sample_rate: int) -> Seq<int>
    decreases onsets.len(),
{
    if onsets.len() == 0 {
        seq![]
    } else {
        let prev = spec_detect_beats(onsets.drop_last(), sample_rate);
        let pos = (onsets.len() - 1) * HOP_SIZE;
        if onsets.last() && (prev.len() == 0 || far_enough(prev.last(), pos, sample_rate)) {
            prev.push(pos)
        } else {
            prev
        }
    }
}

/// Each beat lies at least a tenth of a second after the one before it.
pub open spec fn spaced(beats: Seq<int>, sample_rate: int) -> bool {
    forall|j: int| 0 <= j < beats.len() - 1 ==> far_enough(#[trigger] beats[j], beats[j + 1], sample_rate)
}

/// The sequence is strictly increasing.
pub open spec fn strictly_increasing(s: Seq<int>) -> bool {
    forall|i: int, j: int| 0 <= i < j < s.len() ==> s[i] < s[j]
}

/// Beats chosen from any candidate series are strictly increasing, lie on
/// the hop grid inside the series, and are spaced by at least a tenth of a second.
pub proof fn lemma_beats_spaced(onsets: Seq<bool>, sample_rate: int)
    requires
        sample_rate > 0,
    ensures
        spaced(spec_detect_beats(onsets, sample_rate), sample_rate),
        strictly_increasing(spec_detect_beats(onsets, sample_rate)),
        forall|j: int|
            0 <= j < spec_detect_beats(onsets, sample_rate).len() ==> 0 <= #[trigger] spec_detect_beats(
                onsets,
                sample_rate,
            )[j] < onsets.len() * HOP_SIZE,
    decreases onsets.len(),
{
    if onsets.len() > 0 {
        let prev = spec_detect_beats(onsets.drop_last(), sample_rate);
        lemma_beats_spaced(onsets.drop_last(), sample_rate);
        let n = onsets.len();
        assert((n - 1) * HOP_SIZE == n * HOP_SIZE - HOP_SIZE);
    }
}

/// Picks the beats among onset candidates. `onsets[k]` tells whether flux
/// sample `k` exceeded its adaptive threshold and was a local maximum; a
/// candidate is kept when it comes at least a tenth of a second after the
/// last kept beat. Returns the beats' positions in samples.
pub fn detect_beats(onsets: &Vec<bool>, sample_rate: u32) -> (r: Vec<usize>)
    requires
        onsets@.len() * HOP_SIZE <= usize::MAX,
    ensures
        positions(r@) == spec_detect_beats(onsets@, sample_rate as int),
        sample_rate > 0 ==> spaced(positions(r@), sample_rate as int),
        sample_rate > 0 ==> strictly_increasing(positions(r@)),
{
    let mut out: Vec<usize> = Vec::new();
    let n = onsets.len();
    let mut k: usize = 0;
    while k < n
        invariant
            n == onsets@.len(),
            n * HOP_SIZE <= usize::MAX,
            k <= n,
            positions(out@) == spec_detect_beats(onsets@.subrange(0, k as int), sample_rate as int),
            forall|j: int| 0 <= j < out@.len() ==> out@[j] < k * HOP_SIZE,
        decreases n - k,
    {
        proof {
            assert(onsets@.subrange(0, k + 1).drop_last() =~= onsets@.subrange(0, k as int));
            assert((k + 1) * HOP_SIZE <= n * HOP_SIZE) by (nonlinear_arith)
                requires
                    k + 1 <= n,
            ;
        }
        let pos = k * HOP_SIZE;
        if onsets[k] {
            let take = if out.len() == 0 {
                true
            } else {
                let last = out[out.len() - 1];
                10 * (pos as u128) >= 10 * (last as u128) + sample_rate as u128
            };
            if take {
                out.push(pos);
            }
        }
        proof {
            let ghost pv = positions(out@);
            assert(pv =~= spec_detect_beats(onsets@.subrange(0, k + 1), sample_rate as int));
        }
        k = k + 1;
    }
    proof {
        assert(onsets@.subrange(0, n as int) =~= onsets@);
        if sample_rate > 0 {
            lemma_beats_spaced(onsets@, sample_rate as int);
        }
    }
    out
}

/// Whether an inter-beat interval of `d` samples lies in the plausible range
/// of 0.3 s to 1.0 s (200 to 60 beats per minute).
pub open spec fn kept_interval(d: int, sample_rate: int) -> bool {
    10 * d >= 3 * sample_rate && d <= sample_rate
}

/// The inter-beat intervals, in samples and in order, that lie in the plausible range.
pub open spec fn spec_intervals(beats: Seq<int>, sample_rate: int) -> Seq<int>
    decreases beats.len(),
{
    if beats.len() < 2 {
        seq![]
    } else {
        let prev = spec_intervals(beats.drop_last(), sample_rate);
        let d = beats.last() - beats[beats.len() - 2];
        if kept_interval(d, sample_rate) {
            prev.push(d)
        } else {
            prev
        }
    }
}

/// How many elements of `t` are less than `x`.
pub open spec fn count_less(t: Seq<int>, x: int) -> nat
    decreases t.len(),
{
    if t.len() == 0 {
        0
    } else {
        count_less(t.drop_last(), x) + if t.last() < x {
            1nat
        } else {
            0nat
        }
    }
}

/// `x` inserted into the ascending sequence `t` before the first element not less than it.
pub open spec fn insert_sorted(t: Seq<int>, x: int) -> Seq<int> {
    t.insert(count_less(t, x) as int, x)
}

/// `s` in ascending order, by insertion.
pub open spec fn sort_ints(s: Seq<int>) -> Seq<int>
    decreases s.len(),
{
    if s.len() == 0 {
        seq![]
    } else {
        insert_sorted(sort_ints(s.drop_last()), s.last())
    }
}

/// The median plausible inter-beat interval: the element at index `len / 2`
/// of the sorted intervals; `None` when no interval is plausible.
pub open spec fn spec_median_interval(beats: Seq<int>, sample_rate: int) -> Option<int> {
    let iv = spec_intervals(beats, sample_rate);
    if iv.len() == 0 {
        None
    } else {
        Some(sort_ints(iv)[iv.len() as int / 2])
    }
}

/// The plausible inter-beat intervals of strictly increasing beat positions.
fn plausible_intervals(beats: &Vec<usize>, sample_rate: u32) -> (r: Vec<usize>)
    requires
        strictly_increasing(positions(beats@)),
    ensures
        positions(r@) == spec_intervals(positions(beats@), sample_rate as int),
        forall|j: int| 0 <= j < r@.len() ==> kept_interval(#[trigger] r@[j] as int, sample_rate as int),
{
    let mut out: Vec<usize> = Vec::new();
    let n = beats.len();
    if n == 0 {
        proof {
            assert(positions(out@) =~= spec_intervals(positions(beats@), sample_rate as int));
        }
        return out;
    }
    proof {
        assert(positions(out@) =~= spec_intervals(positions(beats@).subrange(0, 1), sample_rate as int));
    }
    let mut k: usize = 1;
    while k < n
        invariant
            1 <= k <= n,
            n == beats@.len(),
            strictly_increasing(positions(beats@)),
            positions(out@) == spec_intervals(positions(beats@).subrange(0, k as int), sample_rate as int),
            forall|j: int| 0 <= j < out@.len() ==> kept_interval(#[trigger] out@[j] as int, sample_rate as int),
        decreases n - k,
    {
        let ghost bs = positions(beats@);
        proof {
            assert(bs.subrange(0, k + 1).drop_last() =~= bs.subrange(0, k as int));
            assert(bs[k - 1] < bs[k as int]);
        }
        let d = beats[k] - beats[k - 1];
        if 10 * (d as u128) >= 3 * (sample_rate as u128) && d as u128 <= sample_rate as u128 {
            out.push(d);
        }
        proof {
            assert(positions(out@) =~= spec_intervals(bs.subrange(0, k + 1), sample_rate as int));
        }
        k = k + 1;
    }
    proof {
        assert(positions(beats@).subrange(0, n as int) =~= positions(beats@));
    }
    out
}

/// The median plausible inter-beat interval of strictly increasing beat
/// positions, in samples: the intervals between consecutive beats that lie
/// between 0.3 s and 1.0 s, sorted, and the one at index `len / 2` taken.
/// `None` when there are fewer than two beats or no interval is plausible.
pub fn median_beat_interval(beats: &Vec<usize>, sample_rate: u32) -> (r: Option<usize>)
    requires
        strictly_increasing(positions(beats@)),
    ensures
        r matches Some(d) ==> spec_median_interval(positions(beats@), sample_rate as int) == Some(
            d as int,
        ) && kept_interval(d as int, sample_rate as int),
        r is None <==> spec_median_interval(positions(beats@), sample_rate as int) is None,
{
    let iv = plausible_intervals(beats, sample_rate);
    let n = iv.len();
    if n == 0 {
        return None;
    }
    let mut sorted: Vec<usize> = Vec::new();
    let mut j: usize = 0;
    while j < n
        invariant
            n == iv@.len(),
            j <= n,
            positions(sorted@) == sort_ints(positions(iv@).subrange(0, j as int)),
            sorted@.len() == j,
            forall|i: int| 0 <= i < iv@.len() ==> kept_interval(#[trigger] iv@[i] as int, sample_rate as int),
            forall|i: int| 0 <= i < sorted@.len() ==> kept_interval(#[trigger] sorted@[i] as int, sample_rate as int),
        decreases n - j,
    {
        let x = iv[j];
        let mut c: usize = 0;
        let mut m: usize = 0;
        while m < sorted.len()
            invariant
                m <= sorted@.len(),
                c <= m,
                c == count_less(positions(sorted@).subrange(0, m as int), x as int),
            decreases sorted@.len() - m,
        {
            proof {
                assert(positions(sorted@).subrange(0, m + 1).drop_last() =~= positions(sorted@).subrange(0, m as int));
            }
            if sorted[m] < x {
                c = c + 1;
            }
            m = m + 1;
        }
        proof {
            assert(positions(sorted@).subrange(0, m as int) =~= positions(sorted@));
            let ghost pre = positions(iv@).subrange(0, j + 1);
            assert(pre.drop_last() =~= positions(iv@).subrange(0, j as int));
        }
        let ghost old_sorted = sorted@;
        sorted.insert(c, x);
        proof {
            assert(positions(sorted@) =~= positions(old_sorted).insert(c as int, x as int));
            assert forall|i: int| 0 <= i < sorted@.len() implies kept_interval(#[trigger] sorted@[i] as int, sample_rate as int) by {
                if i < c {
                    assert(sorted@[i] == old_sorted[i]);
                } else if i > c {
                    assert(sorted@[i] == old_sorted[i - 1]);
                }
            }
        }
        j = j + 1;
    }
    proof {
        assert(positions(iv@).subrange(0, n as int) =~= positions(iv@));
    }
    Some(sorted[n / 2])
}

/// A tempo as the exact fraction `numerator / denominator` beats per minute.
#[derive(Clone, Copy, Debug, PartialEq, Eq, Structural)]
pub struct Tempo {
    pub numerator: u64,
    pub denominator: u64,
}

/// The tempo of beat positions at `sample_rate` Hz: sixty seconds over the
/// median plausible interval, `60 * sample_rate / d` beats per minute, or
/// `DEFAULT_TEMPO_BPM` when there is no plausible interval.
pub open spec fn spec_tempo(beats: Seq<int>, sample_rate: int) -> (int, int) {
    match spec_median_interval(beats, sample_rate) {
        Some(d) => (60 * sample_rate, d),
        None => (DEFAULT_TEMPO_BPM as int, 1),
    }
}

/// Estimates the tempo of strictly increasing beat positions.
pub fn estimate_tempo(beats: &Vec<usize>, sample_rate: u32) -> (r: Tempo)
    requires
        sample_rate > 0,
        strictly_increasing(positions(beats@)),
    ensures
        (r.numerator as int, r.denominator as int) == spec_tempo(positions(beats@), sample_rate as int),
        r.denominator > 0,
{
    match median_beat_interval(beats, sample_rate) {
        Some(d) => Tempo { numerator: 60 * sample_rate as u64, denominator: d as u64 },
        None => Tempo { numerator: DEFAULT_TEMPO_BPM, denominator: 1 },
    }
}

} // verus!
