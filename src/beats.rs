//! Beat tracking on the frame grid: which frames fall on a beat and where
//! each frame stands between the beats around it.
//!
//! Frame `i` starts at `i / fps` seconds and a beat at sample `p` lies at
//! `p / sample_rate` seconds; every comparison here is made exactly, on
//! both times scaled by `fps * sample_rate`.
use vstd::prelude::*;
use crate::onset::{spec_detect_beats, spec_tempo};

verus! {

/// Frame `i` lies within half a frame period of the beat at sample `b`:
/// `|i / fps - b / sample_rate| < 0.5 / fps`.
pub open spec fn near_beat(i: int, fps: int, b: int, sample_rate: int) -> bool {
    let d = 2 * (i * sample_rate) - 2 * (b * fps);
    -sample_rate < d < sample_rate
}

/// Frame `i` lies within half a frame period of some beat.
pub open spec fn spec_is_beat(i: int, fps: int, beats: Seq<int>, sample_rate: int) -> bool {
    exists|j: int| 0 <= j < beats.len() && near_beat(i, fps, #[trigger] beats[j], sample_rate)
}

/// `a * b`, computed without overflow.
fn wide_mul(a: usize, b: u32) -> (r: i128)
    ensures
        r == a as int * b as int,
        0 <= r <= u64::MAX as int * u32::MAX as int,
{
    proof {
        assert(0 <= a as int * b as int <= u64::MAX as int * u32::MAX as int) by (nonlinear_arith)
            requires
                a <= u64::MAX,
                b <= u32::MAX,
        ;
    }
    (a as u128 * b as u128) as i128
}

/// Whether frame `frame_idx` falls on one of the beats (positions in samples).
pub fn is_beat_frame(frame_idx: usize, fps: u32, beats: &Vec<usize>, sample_rate: u32) -> (r: bool)
    ensures
        r == spec_is_beat(frame_idx as int, fps as int, beats@.map_values(|p: usize| p as int), sample_rate as int),
{
    let ghost bs = beats@.map_values(|p: usize| p as int);
    let t2: i128 = 2 * wide_mul(frame_idx, sample_rate);
    let sr: i128 = sample_rate as i128;
    let mut j: usize = 0;
    while j < beats.len()
        invariant
            j <= beats@.len(),
            bs == beats@.map_values(|p: usize| p as int),
            t2 == 2 * (frame_idx as int * sample_rate as int),
            sr == sample_rate,
            forall|k: int| 0 <= k < j ==> !near_beat(frame_idx as int, fps as int, #[trigger] bs[k], sample_rate as int),
        decreases beats@.len() - j,
    {
        let b2: i128 = 2 * wide_mul(beats[j], fps);
        let d = t2 - b2;
        if -sr < d && d < sr {
            assert(near_beat(frame_idx as int, fps as int, bs[j as int], sample_rate as int));
            return true;
        }
        j = j + 1;
    }
    false
}

/// Beat flags for the frames `0..n_frames`.
pub fn beat_flags(n_frames: usize, fps: u32, beats: &Vec<usize>, sample_rate: u32) -> (r: Vec<bool>)
    ensures
        r@.len() == n_frames,
        forall|i: int|
            0 <= i < n_frames ==> #[trigger] r@[i] == spec_is_beat(i, fps as int, beats@.map_values(|p: usize| p as int), sample_rate as int),
{
    let mut out: Vec<bool> = Vec::new();
    let mut i: usize = 0;
    while i < n_frames
        invariant
            i <= n_frames,
            out@.len() == i,
            forall|k: int|
                0 <= k < i ==> #[trigger] out@[k] == spec_is_beat(k, fps as int, beats@.map_values(|p: usize| p as int), sample_rate as int),
        decreases n_frames - i,
    {
        out.push(is_beat_frame(i, fps, beats, sample_rate));
        i = i + 1;
    }
    out
}

/// A beat phase as the exact fraction `numerator / denominator`.
#[derive(Clone, Copy, Debug, PartialEq, Eq, Structural)]
pub struct Phase {
    pub numerator: u128,
    pub denominator: u128,
}

/// Index of the first beat that comes after time `t` (scaled by
/// `fps * sample_rate`), or the number of beats if none does.
pub open spec fn first_after(beats: Seq<int>, fps: int, t: int) -> nat
    decreases beats.len(),
{
    if beats.len() == 0 || beats[0] * fps > t {
        0
    } else {
        1 + first_after(beats.subrange(1, beats.len() as int), fps, t)
    }
}

/// The phase of frame `i` between the beats around it, as a fraction:
/// `(t - prev) / (next - prev)` between two beats; `t / first` before the
/// first beat, at most 1; 1 after the last beat; 0 without beats.
pub open spec fn spec_beat_phase(i: int, fps: int, beats: Seq<int>, sample_rate: int) -> (int, int) {
    let t = i * sample_rate;
    let idx = first_after(beats, fps, t) as int;
    if beats.len() == 0 {
        (0, 1)
    } else if idx == 0 {
        let first = beats[0] * fps;
        if first > 0 {
            if t <= first { (t, first) } else { (first, first) }
        } else {
            (0, 1)
        }
    } else if idx >= beats.len() {
        (1, 1)
    } else {
        let prev = beats[idx - 1] * fps;
        let next = beats[idx] * fps;
        if next > prev { (t - prev, next - prev) } else { (0, 1) }
    }
}

proof fn lemma_first_after_step(beats: Seq<int>, fps: int, t: int, j: int)
    requires
        0 <= j < beats.len(),
        beats[j] * fps <= t,
    ensures
        first_after(beats.subrange(j, beats.len() as int), fps, t) == 1 + first_after(
            beats.subrange(j + 1, beats.len() as int),
            fps,
            t,
        ),
{
    let s = beats.subrange(j, beats.len() as int);
    assert(s.subrange(1, s.len() as int) =~= beats.subrange(j + 1, beats.len() as int));
}

/// Where frame `frame_idx` stands between the beats around it (strictly
/// increasing positions in samples), as a fraction in [0, 1].
pub fn beat_phase(frame_idx: usize, fps: u32, beats: &Vec<usize>, sample_rate: u32) -> (r: Phase)
    ensures
        (r.numerator as int, r.denominator as int) == spec_beat_phase(
            frame_idx as int,
            fps as int,
            beats@.map_values(|p: usize| p as int),
            sample_rate as int,
        ),
        r.numerator <= r.denominator,
        r.denominator > 0,
{
    let ghost bs = beats@.map_values(|p: usize| p as int);
    let n = beats.len();
    if n == 0 {
        return Phase { numerator: 0, denominator: 1 };
    }
    let t = wide_mul(frame_idx, sample_rate);
    let mut j: usize = 0;
    proof {
        assert(bs.subrange(0, n as int) =~= bs);
    }
    while j < n && wide_mul(beats[j], fps) <= t
        invariant
            n == beats@.len(),
            bs == beats@.map_values(|p: usize| p as int),
            t == frame_idx as int * sample_rate as int,
            j <= n,
            j > 0 ==> bs[j - 1] * fps <= t,
            first_after(bs, fps as int, t as int) == j + first_after(bs.subrange(j as int, n as int), fps as int, t as int),
        decreases n - j,
    {
        proof {
            lemma_first_after_step(bs, fps as int, t as int, j as int);
        }
        j = j + 1;
    }
    proof {
        if j == n {
            assert(bs.subrange(n as int, n as int).len() == 0);
        }
    }
    if j == 0 {
        let first = wide_mul(beats[0], fps);
        if first > 0 {
            if t <= first {
                Phase { numerator: t as u128, denominator: first as u128 }
            } else {
                Phase { numerator: first as u128, denominator: first as u128 }
            }
        } else {
            Phase { numerator: 0, denominator: 1 }
        }
    } else if j >= n {
        Phase { numerator: 1, denominator: 1 }
    } else {
        let prev = wide_mul(beats[j - 1], fps);
        let next = wide_mul(beats[j], fps);
        if next > prev {
            Phase { numerator: (t - prev) as u128, denominator: (next - prev) as u128 }
        } else {
            Phase { numerator: 0, denominator: 1 }
        }
    }
}

/// The beat analysis is a function of its inputs: onset candidates with the
/// same contents at the same sample rate give the same beats and tempo,
/// and then every frame the same beat flag and phase.
pub proof fn lemma_beat_analysis_deterministic(
    onsets1: Seq<bool>,
    onsets2: Seq<bool>,
    sample_rate: int,
    fps: int,
    frame: int,
)
    requires
        onsets1 =~= onsets2,
    ensures
        spec_detect_beats(onsets1, sample_rate) == spec_detect_beats(onsets2, sample_rate),
        spec_tempo(spec_detect_beats(onsets1, sample_rate), sample_rate) == spec_tempo(
            spec_detect_beats(onsets2, sample_rate),
            sample_rate,
        ),
        spec_is_beat(frame, fps, spec_detect_beats(onsets1, sample_rate), sample_rate) == spec_is_beat(
            frame,
            fps,
            spec_detect_beats(onsets2, sample_rate),
            sample_rate,
        ),
        spec_beat_phase(frame, fps, spec_detect_beats(onsets1, sample_rate), sample_rate)
            == spec_beat_phase(frame, fps, spec_detect_beats(onsets2, sample_rate), sample_rate),
{
    assert(onsets1 == onsets2);
}

} // verus!
