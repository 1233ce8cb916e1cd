//! The output frame grid: how many video frames a track yields and where
//! each frame sits in the sample stream.
use vstd::prelude::*;

verus! {

/// Number of output frames for a track: `ceil(total_samples * fps / sample_rate)`,
/// that is `ceil(duration_seconds * fps)` computed exactly.
pub open spec fn spec_frame_count(total_samples: nat, sample_rate: nat, fps: nat) -> nat
    recommends
        sample_rate > 0,
{
    ((total_samples * fps + sample_rate - 1) as nat / sample_rate) as nat
}

/// The number of video frames that cover `total_samples` samples at
/// `sample_rate` Hz when rendering at `fps` frames per second.
pub fn frame_count(total_samples: usize, sample_rate: u32, fps: u32) -> (r: usize)
    requires
        sample_rate > 0,
        total_samples as int * fps as int <= usize::MAX as int * sample_rate as int,
    ensures
        r as nat == spec_frame_count(total_samples as nat, sample_rate as nat, fps as nat),
        r as int * sample_rate as int >= total_samples as int * fps as int,
        ((r as int - 1) * sample_rate as int) < (total_samples as int * fps as int),
{
    proof {
        assert(total_samples as int * fps as int <= u64::MAX as int * u32::MAX as int)
            by (nonlinear_arith)
            requires
                total_samples <= u64::MAX,
                fps <= u32::MAX,
        ;
    }
    let prod: u128 = total_samples as u128 * fps as u128;
    let sr: u128 = sample_rate as u128;
    let q: u128 = (prod + sr - 1) / sr;
    proof {
        let p = prod as int;
        let s = sr as int;
        assert(q as int * s <= p + s - 1 && (q as int - 1) * s < p && q as int * s >= p) by (nonlinear_arith)
            requires
                q as int == (p + s - 1) / s,
                s > 0,
                p >= 0,
        ;
        assert(q as int <= usize::MAX as int) by (nonlinear_arith)
            requires
                q as int * s <= p + s - 1,
                p <= usize::MAX as int * s,
                s > 0,
        ;
    }
    q as usize
}

/// Transform size of every spectral analysis window, in samples.
pub const FFT_SIZE: usize = 2048;

/// Number of magnitude bins kept from each transform (the lower half).
pub const HALF_FFT: usize = 1024;

/// Length of the waveform snapshot attached to each frame.
pub const SNAPSHOT_LEN: usize = 512;

/// `round(frame_idx * sample_rate / fps)`, halves rounded up.
pub open spec fn spec_frame_center(frame_idx: nat, sample_rate: nat, fps: nat) -> nat
    recommends
        fps > 0,
{
    ((2 * frame_idx * sample_rate + fps) / (2 * fps)) as nat
}

/// The sample on which frame `frame_idx` is centred: the frame's start time
/// `frame_idx / fps` seconds, expressed in samples and rounded to the nearest one.
pub fn frame_center(frame_idx: usize, sample_rate: u32, fps: u32) -> (r: usize)
    requires
        fps > 0,
        frame_idx as int * sample_rate as int <= usize::MAX as int * fps as int,
    ensures
        r as nat == spec_frame_center(frame_idx as nat, sample_rate as nat, fps as nat),
{
    proof {
        assert(frame_idx as int * sample_rate as int <= u64::MAX as int * u32::MAX as int)
            by (nonlinear_arith)
            requires
                frame_idx <= u64::MAX,
                sample_rate <= u32::MAX,
        ;
    }
    let num: u128 = 2 * (frame_idx as u128 * sample_rate as u128) + fps as u128;
    let den: u128 = 2 * fps as u128;
    let q: u128 = num / den;
    proof {
        let x = frame_idx as int * sample_rate as int;
        let f = fps as int;
        assert(2 * frame_idx as int * sample_rate as int == 2 * x) by (nonlinear_arith)
            requires
                x == frame_idx as int * sample_rate as int,
        ;
        assert(q as int <= usize::MAX as int) by (nonlinear_arith)
            requires
                q as int == (2 * x + f) / (2 * f),
                x <= usize::MAX as int * f,
                f > 0,
        ;
    }
    q as usize
}

/// The spectral analysis window of a frame: `FFT_SIZE` samples that start
/// `HALF_FFT` samples before the centre (or at 0), clipped to the track.
/// Returns the first sample and how many samples of the track it holds; the
/// rest of the window is zero padding.
pub fn fft_window(center: usize, total_samples: usize) -> (r: (usize, usize))
    ensures
        r.0 == (if center >= HALF_FFT { center - HALF_FFT } else { 0 }),
        r.1 == (if r.0 >= total_samples {
            0
        } else if total_samples - r.0 >= FFT_SIZE {
            FFT_SIZE as int
        } else {
            total_samples - r.0
        }),
        r.1 <= FFT_SIZE,
        r.0 + r.1 <= total_samples || r.1 == 0,
{
    let start = if center >= HALF_FFT { center - HALF_FFT } else { 0 };
    let count = if start >= total_samples {
        0
    } else if total_samples - start >= FFT_SIZE {
        FFT_SIZE
    } else {
        total_samples - start
    };
    (start, count)
}

/// The time-domain window over which a frame's RMS is taken: one frame
/// duration (`sample_rate / fps` samples, rounded down) centred on `center`,
/// clipped to the track. Returns `(start, end)` with `start <= end <= total_samples`.
pub fn rms_window(center: usize, sample_rate: u32, fps: u32, total_samples: usize) -> (r: (
    usize,
    usize,
))
    requires
        fps > 0,
    ensures
        ({
            let spf = sample_rate as int / fps as int;
            let s0 = if center >= spf / 2 { center - spf / 2 } else { 0 };
            let s = if s0 <= total_samples { s0 } else { total_samples as int };
            let e = if s + spf <= total_samples { s + spf } else { total_samples as int };
            r.0 == s && r.1 == e
        }),
        r.0 <= r.1 <= total_samples,
{
    let spf: usize = (sample_rate / fps) as usize;
    let half = spf / 2;
    let s0 = if center >= half { center - half } else { 0 };
    let start = if s0 <= total_samples { s0 } else { total_samples };
    let end = if spf <= total_samples - start { start + spf } else { total_samples };
    (start, end)
}

/// The index of the window sample that lands at point `i` when a window of
/// `len` samples is reduced to `out_len` points by nearest-index selection.
pub open spec fn snapshot_index(i: int, len: int, out_len: int) -> int {
    i * len / out_len
}

/// Length of the snapshot of a window of `len` samples.
pub open spec fn snapshot_len(len: nat) -> nat {
    if len == 0 {
        SNAPSHOT_LEN as nat
    } else if len < SNAPSHOT_LEN {
        len
    } else {
        SNAPSHOT_LEN as nat
    }
}

/// Reduces a frame's time-domain window to at most `SNAPSHOT_LEN` points by
/// nearest-index selection; a shorter window keeps all its samples, and an
/// empty one gives `SNAPSHOT_LEN` copies of `zero`.
pub fn waveform_snapshot<T: Copy>(window: &[T], zero: T) -> (r: Vec<T>)
    ensures
        r@.len() == snapshot_len(window@.len()),
        window@.len() == 0 ==> forall|i: int| 0 <= i < r@.len() ==> r@[i] == zero,
        window@.len() > 0 ==> forall|i: int|
            0 <= i < r@.len() ==> r@[i] == window@[snapshot_index(i, window@.len() as int, r@.len() as int)],
{
    let len = window.len();
    let mut out: Vec<T> = Vec::new();
    if len == 0 {
        let mut k: usize = 0;
        while k < SNAPSHOT_LEN
            invariant
                k <= SNAPSHOT_LEN,
                out@.len() == k,
                forall|i: int| 0 <= i < k ==> out@[i] == zero,
            decreases SNAPSHOT_LEN - k,
        {
            out.push(zero);
            k = k + 1;
        }
        return out;
    }
    let out_len: usize = if len < SNAPSHOT_LEN { len } else { SNAPSHOT_LEN };
    let mut k: usize = 0;
    while k < out_len
        invariant
            0 < out_len <= len,
            out_len <= SNAPSHOT_LEN,
            len == window@.len(),
            k <= out_len,
            out@.len() == k,
            forall|i: int|
                0 <= i < k ==> out@[i] == window@[snapshot_index(i, len as int, out_len as int)],
        decreases out_len - k,
    {
        proof {
            assert(k as int * len as int <= u64::MAX as int * u64::MAX as int) by (nonlinear_arith)
                requires
                    k <= u64::MAX,
                    len <= u64::MAX,
            ;
        }
        let wide: u128 = k as u128 * len as u128 / out_len as u128;
        proof {
            let a = k as int * len as int;
            assert(a < out_len as int * len as int) by (nonlinear_arith)
                requires
                    a == k as int * len as int,
                    k < out_len,
                    len > 0,
            ;
            assert(wide < len) by (nonlinear_arith)
                requires
                    wide as int == a / out_len as int,
                    a < out_len as int * len as int,
                    a >= 0,
                    out_len > 0,
            ;
        }
        let idx = wide as usize;
        out.push(window[idx]);
        k = k + 1;
    }
    out
}

} // verus!
