use sonica::beats::{beat_flags, beat_phase, is_beat_frame, Phase};
use sonica::frames::{fft_window, frame_center, frame_count, rms_window, waveform_snapshot};
use sonica::onset::{
    detect_beats, estimate_tempo, local_mean_range, median_beat_interval, onset_window_count,
    rms_windows, Tempo, HOP_SIZE,
};
use sonica::spectrum::{band_bins, Band, MergedBand};

fn bpm(t: Tempo) -> f64 {
    t.numerator as f64 / t.denominator as f64
}

#[test]
fn frame_count_is_ceiling_of_duration_times_fps() {
    assert_eq!(frame_count(48000, 48000, 24), 24);
    assert_eq!(frame_count(88200, 44100, 30), 60);
    assert_eq!(frame_count(48001, 48000, 24), 25);
    assert_eq!(frame_count(1, 48000, 24), 1);
    assert_eq!(frame_count(0, 48000, 24), 0);
    assert_eq!(frame_count(441000, 44100, 30), 300);
}

#[test]
fn frame_centers_round_to_nearest_sample() {
    assert_eq!(frame_center(0, 44100, 30), 0);
    assert_eq!(frame_center(1, 44100, 30), 1470);
    // 1 * 1000 / 3 = 333.33 rounds down, 2 * 1000 / 3 = 666.67 rounds up
    assert_eq!(frame_center(1, 1000, 3), 333);
    assert_eq!(frame_center(2, 1000, 3), 667);
    // exactly half a sample rounds up
    assert_eq!(frame_center(1, 3, 2), 2);
}

#[test]
fn fft_window_is_clipped_to_track() {
    assert_eq!(fft_window(0, 10000), (0, 0 + 2048));
    assert_eq!(fft_window(5000, 10000), (3976, 2048));
    assert_eq!(fft_window(9500, 10000), (8476, 1524));
    assert_eq!(fft_window(500, 100), (0, 100));
    assert_eq!(fft_window(20000, 100), (18976, 0));
}

#[test]
fn rms_window_spans_one_frame() {
    // 44100 / 30 = 1470 samples per frame
    assert_eq!(rms_window(1470, 44100, 30, 100000), (735, 2205));
    assert_eq!(rms_window(100, 44100, 30, 100000), (0, 1470));
    assert_eq!(rms_window(99990, 44100, 30, 100000), (99255, 100000));
    assert_eq!(rms_window(5000, 44100, 30, 10), (10, 10));
}

#[test]
fn waveform_snapshot_lengths_and_picks() {
    let empty: Vec<i32> = Vec::new();
    let z = waveform_snapshot(&empty, 0);
    assert_eq!(z.len(), 512);
    assert!(z.iter().all(|&x| x == 0));

    let short: Vec<i32> = (0..100).collect();
    assert_eq!(waveform_snapshot(&short, 0), short);

    let long: Vec<i32> = (0..1024).collect();
    let s = waveform_snapshot(&long, 0);
    assert_eq!(s.len(), 512);
    assert_eq!(s[0], 0);
    assert_eq!(s[1], 2);
    assert_eq!(s[511], 1022);

    let floats: Vec<f32> = vec![0.5; 1470];
    let f = waveform_snapshot(&floats, 0.0);
    assert_eq!(f.len(), 512);
    assert_eq!(f[3], 0.5);
}

#[test]
fn band_bins_follow_frequency_resolution() {
    // 44100 / 2048 = 21.53 Hz per bin
    assert_eq!(Band::Bass.bins(44100), (2, 11));
    assert_eq!(Band::SubBass.bins(44100), (0, 2));
    assert_eq!(Band::Brilliance.bins(44100), (278, 928));
    assert_eq!(band_bins(6000, 20000, 8000), (1024, 1024));
    assert_eq!(Band::Mid.edges(), (500, 2000));
    assert_eq!(Band::all().len(), 7);
}

#[test]
fn bands_merge_into_three() {
    assert_eq!(Band::SubBass.merged(), MergedBand::Bass);
    assert_eq!(Band::Bass.merged(), MergedBand::Bass);
    assert_eq!(Band::LowMid.merged(), MergedBand::Mid);
    assert_eq!(Band::Mid.merged(), MergedBand::Mid);
    assert_eq!(Band::UpperMid.merged(), MergedBand::High);
    assert_eq!(Band::Presence.merged(), MergedBand::High);
    assert_eq!(Band::Brilliance.merged(), MergedBand::High);
}

#[test]
fn onset_windows_cover_whole_windows_only() {
    assert_eq!(onset_window_count(0), 0);
    assert_eq!(onset_window_count(2047), 0);
    assert_eq!(onset_window_count(2048), 1);
    assert_eq!(onset_window_count(3071), 1);
    assert_eq!(onset_window_count(3072), 2);
    assert_eq!(onset_window_count(88200), 85);
}

#[test]
fn rms_windows_are_tenths_of_a_second() {
    let w = rms_windows(10050, 48000);
    assert_eq!(w.len(), 3);
    assert_eq!(w[0], (0, 4800));
    assert_eq!(w[1], (4800, 9600));
    assert_eq!(w[2], (9600, 10050));
    assert!(rms_windows(0, 48000).is_empty());
}

#[test]
fn local_mean_range_is_clipped() {
    assert_eq!(local_mean_range(0, 100), (0, 21));
    assert_eq!(local_mean_range(50, 100), (30, 71));
    assert_eq!(local_mean_range(95, 100), (75, 100));
    assert_eq!(local_mean_range(0, 1), (0, 1));
}

#[test]
fn detect_beats_keeps_refractory_period() {
    // at 44100 Hz a tenth of a second is 4410 samples, a bit over four hops
    let mut onsets = vec![false; 20];
    onsets[0] = true;
    onsets[2] = true; // 2048 samples later: too soon
    onsets[5] = true; // 5120 samples after the first: kept
    onsets[9] = true; // 4096 after the previous: too soon
    onsets[10] = true; // 5120 after: kept
    let beats = detect_beats(&onsets, 44100);
    assert_eq!(beats, vec![0, 5 * HOP_SIZE, 10 * HOP_SIZE]);
    for w in beats.windows(2) {
        assert!(w[1] > w[0]);
        assert!(10 * (w[1] - w[0]) >= 44100);
    }
}

#[test]
fn detect_beats_without_candidates_is_empty() {
    assert!(detect_beats(&vec![false; 50], 48000).is_empty());
    assert!(detect_beats(&Vec::new(), 48000).is_empty());
}

#[test]
fn silent_track_has_no_beats_and_default_tempo() {
    // one second of silence at 48000 Hz, 24 fps
    let total = 48000;
    let frames = frame_count(total, 48000, 24);
    assert_eq!(frames, 24);
    let onsets = vec![false; onset_window_count(total)];
    let beats = detect_beats(&onsets, 48000);
    assert!(beats.is_empty());
    let flags = beat_flags(frames, 24, &beats, 48000);
    assert_eq!(flags.len(), 24);
    assert!(flags.iter().all(|f| !f));
    assert_eq!(estimate_tempo(&beats, 48000), Tempo { numerator: 120, denominator: 1 });
    assert_eq!(beat_phase(5, 24, &beats, 48000), Phase { numerator: 0, denominator: 1 });
}

#[test]
fn click_train_gives_half_second_beats_and_120_bpm() {
    // clicks every 0.5 s over 10 s at 44100 Hz: flux peaks in the hop that
    // holds each click
    let sr = 44100u32;
    let total = 10 * sr as usize;
    let n = onset_window_count(total);
    let mut onsets = vec![false; n];
    let mut t = 0usize;
    while t < total {
        let k = t / HOP_SIZE;
        if k < n {
            onsets[k] = true;
        }
        t += sr as usize / 2;
    }
    let beats = detect_beats(&onsets, sr);
    assert!(beats.len() >= 18);
    for w in beats.windows(2) {
        let gap = (w[1] - w[0]) as i64;
        assert!((gap - 22050).abs() <= HOP_SIZE as i64);
    }
    let tempo = bpm(estimate_tempo(&beats, sr));
    assert!((tempo - 120.0).abs() < 6.0, "tempo {}", tempo);
}

#[test]
fn median_interval_ignores_implausible_gaps() {
    // gaps of 0.2 s (too short), 0.5 s, 0.6 s, 2 s (too long), 0.4 s at 1000 Hz
    let beats = vec![0, 200, 700, 1300, 3300, 3700];
    assert_eq!(median_beat_interval(&beats, 1000), Some(500));
    assert_eq!(bpm(estimate_tempo(&beats, 1000)), 120.0);
    assert_eq!(median_beat_interval(&vec![0, 5000], 1000), None);
    assert_eq!(median_beat_interval(&vec![42], 1000), None);
    assert_eq!(estimate_tempo(&vec![0, 5000], 1000), Tempo { numerator: 120, denominator: 1 });
}

#[test]
fn median_of_even_count_takes_upper_middle() {
    let beats = vec![0, 300, 700, 1200, 1800];
    // intervals 300, 400, 500, 600: index 2 of the sorted list
    assert_eq!(median_beat_interval(&beats, 1000), Some(500));
}

#[test]
fn beat_frames_lie_within_half_a_frame() {
    // fps 10, 1000 Hz: frame i at i/10 s; beat at sample 1040 = 1.04 s
    let beats = vec![1040];
    assert!(is_beat_frame(10, 10, &beats, 1000));
    assert!(!is_beat_frame(11, 10, &beats, 1000));
    assert!(!is_beat_frame(9, 10, &beats, 1000));
    // exactly half a frame away is not a beat
    assert!(!is_beat_frame(10, 10, &vec![1050], 1000));
    let flags = beat_flags(13, 10, &vec![0, 1040], 1000);
    let on: Vec<usize> = (0..13).filter(|&i| flags[i]).collect();
    assert_eq!(on, vec![0, 10]);
}

#[test]
fn beat_phase_between_and_around_beats() {
    // beats at 1 s and 3 s, fps 4, 1000 Hz
    let beats = vec![1000, 3000];
    let frac = |p: Phase| p.numerator as f64 / p.denominator as f64;
    assert_eq!(frac(beat_phase(0, 4, &beats, 1000)), 0.0);
    assert_eq!(frac(beat_phase(2, 4, &beats, 1000)), 0.5);
    assert_eq!(frac(beat_phase(4, 4, &beats, 1000)), 0.0);
    assert_eq!(frac(beat_phase(8, 4, &beats, 1000)), 0.5);
    assert_eq!(frac(beat_phase(12, 4, &beats, 1000)), 1.0);
    assert_eq!(frac(beat_phase(40, 4, &beats, 1000)), 1.0);
    // a beat at time zero: before-first phase is zero
    assert_eq!(frac(beat_phase(0, 4, &vec![0, 1000], 1000)), 0.0);
    for i in 0..20 {
        let p = beat_phase(i, 4, &beats, 1000);
        assert!(p.numerator <= p.denominator);
    }
}

#[test]
fn pure_tone_track_frame_grid_and_default_tempo() {
    // two seconds at 44100 Hz rendered at 30 fps
    let total = 2 * 44100;
    assert_eq!(frame_count(total, 44100, 30), 60);
    // a steady tone gives no onset candidates
    let beats = detect_beats(&vec![false; onset_window_count(total)], 44100);
    assert!(beats.is_empty());
    assert_eq!(bpm(estimate_tempo(&beats, 44100)), 120.0);
    // 1 kHz falls in bin 46 of 1024 at this rate (21.5 Hz per bin), inside the mid band
    let (lo, hi) = Band::Mid.bins(44100);
    assert!(lo <= 46 && 46 < hi);
}
