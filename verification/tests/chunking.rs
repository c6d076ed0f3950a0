use std::ops::Range;

use transcribe_server::chunk::{chunk_ranges, clamp_window, first_cut, frame_len, ChunkParams, FRAME_MS};

const SR: usize = 16000;
const THRESHOLD: f32 = 0.01;
const SEARCH_BACK_SEC: f32 = 10.0;
const SEARCH_BACK_FRACTION: f32 = 0.4;

/// Chunking parameters for a window of `max_sec` seconds and an energy
/// threshold on mean |x| for samples in [-1, 1].
fn params(max_sec: f32, threshold: f32) -> ChunkParams {
    let raw = (max_sec * SR as f32) as usize;
    let search_back = ((SEARCH_BACK_SEC.min(max_sec * SEARCH_BACK_FRACTION)) * SR as f32) as usize;
    let limit = (f64::from(threshold) * 32768.0 * frame_len() as f64).ceil().max(0.0) as u64;
    ChunkParams::new(raw, search_back, limit)
}

fn quantize(x: f32) -> i16 {
    (x * 32768.0).round().clamp(-32768.0, 32767.0) as i16
}

/// Sine at 440 Hz with amplitude 0.5: mean(|x|) ~= 0.318, well above THRESHOLD.
fn sine(seconds: f32) -> Vec<i16> {
    let n = (seconds * SR as f32) as usize;
    (0..n)
        .map(|i| quantize(0.5 * (2.0 * std::f32::consts::PI * 440.0 * i as f32 / SR as f32).sin()))
        .collect()
}

fn silence(seconds: f32) -> Vec<i16> {
    vec![0; (seconds * SR as f32) as usize]
}

fn frame_energy(pcm: &[i16], center: usize) -> f32 {
    let frame_len = SR * FRAME_MS / 1000;
    let start = center.saturating_sub(frame_len / 2);
    let end = (start + frame_len).min(pcm.len());
    pcm[start..end].iter().map(|x| (*x as f32 / 32768.0).abs()).sum::<f32>() / (end - start) as f32
}

fn assert_gapless(ranges: &[Range<usize>], total: usize) {
    assert!(!ranges.is_empty(), "expected at least one range");
    assert_eq!(ranges[0].start, 0, "first range must start at 0");
    assert_eq!(ranges.last().unwrap().end, total, "last range must end at pcm.len()");
    for pair in ranges.windows(2) {
        assert_eq!(pair[0].end, pair[1].start, "ranges must be gapless and ordered");
    }
    for r in ranges {
        assert!(r.start < r.end, "each range must be non-empty: {r:?}");
    }
}

#[test]
fn short_input_single_full_range() {
    let pcm = sine(1.0);
    let ranges = chunk_ranges(&pcm, &params(25.0, THRESHOLD));
    assert_eq!(ranges.len(), 1);
    assert_eq!(ranges[0], 0..16000);
}

#[test]
fn cuts_inside_silence() {
    // 20 s sine + 1 s silence + 20 s sine + 1 s silence + 18 s sine = 60 s.
    let mut pcm = sine(20.0);
    pcm.extend(silence(1.0));
    pcm.extend(sine(20.0));
    pcm.extend(silence(1.0));
    pcm.extend(sine(18.0));
    let max_sec = 25.0;
    let max_samples = (max_sec * SR as f32) as usize;

    let ranges = chunk_ranges(&pcm, &params(max_sec, THRESHOLD));
    assert_gapless(&ranges, pcm.len());
    assert_eq!(ranges.len(), 3, "expected 3 ranges, got {ranges:?}");
    for r in &ranges {
        assert!(r.len() <= max_samples, "range longer than max: {r:?}");
    }
    // Both cuts must land inside silence.
    for cut in [ranges[0].end, ranges[1].end] {
        assert!(frame_energy(&pcm, cut) < THRESHOLD, "cut at {cut} is not inside silence");
    }
}

#[test]
fn hard_cut_without_silence() {
    let pcm = sine(60.0);
    let max_sec = 25.0;
    let max_samples = (max_sec * SR as f32) as usize;

    let ranges = chunk_ranges(&pcm, &params(max_sec, THRESHOLD));
    assert_gapless(&ranges, pcm.len());
    assert_eq!(ranges.len(), 3);
    assert_eq!(ranges[0], 0..max_samples);
    assert_eq!(ranges[1], max_samples..2 * max_samples);
    assert_eq!(ranges[2], 2 * max_samples..pcm.len());
}

/// A window shorter than the fixed search-back would otherwise have the
/// whole window searched, so a pause near its start became the cut and the
/// chunk came out a handful of frames long. The cut has to stay near the
/// window end whatever the window size.
#[test]
fn a_short_window_still_cuts_near_its_end() {
    let mut pcm = silence(0.3); // a pause right after the window opens
    pcm.extend(sine(9.7));
    let max_sec = 4.0;
    let ranges = chunk_ranges(&pcm, &params(max_sec, THRESHOLD));
    let first = ranges[0].len() as f32 / SR as f32;
    assert!(
        first > max_sec * (1.0 - SEARCH_BACK_FRACTION) - 0.1,
        "first chunk of {first} s is far short of the {max_sec} s window"
    );
    assert!(first <= max_sec, "chunk longer than the window: {first} s");
}

#[test]
fn empty_pcm_returns_empty_vec() {
    assert!(chunk_ranges(&[], &params(25.0, THRESHOLD)).is_empty());
}

#[test]
fn shorter_than_one_frame_single_range() {
    let pcm = vec![quantize(0.1); 100]; // < 480 samples (one 30 ms frame at 16k)
    let ranges = chunk_ranges(&pcm, &params(25.0, THRESHOLD));
    assert_eq!(ranges.len(), 1);
    assert_eq!(ranges[0], 0..100);
}

#[test]
fn non_positive_max_sec_clamped_to_one_frame() {
    let pcm = sine(1.0);
    let ranges = chunk_ranges(&pcm, &params(0.0, THRESHOLD));
    assert_gapless(&ranges, pcm.len());
    // Clamped window is one frame; pure sine has no silence, so hard cuts.
    assert!(ranges.iter().all(|r| r.len() <= SR * FRAME_MS / 1000));
}

#[test]
fn the_quietest_silent_frame_wins() {
    // 3 s of loud signal with two quiet spots inside the search-back window:
    // the quieter one is where the cut lands, at its frame's center.
    let mut pcm = sine(3.0);
    let frame = frame_len();
    // Frames of the search-back window start at 44_800 - 16_000 = 28_800.
    let (loud_spot, quiet_spot) = (28_800 + 7 * frame, 28_800 + 23 * frame);
    for x in &mut pcm[loud_spot..loud_spot + frame] {
        *x = 100;
    }
    for x in &mut pcm[quiet_spot..quiet_spot + frame] {
        *x = 20;
    }
    let p = ChunkParams::new(44_800, 16_000, 200 * frame as u64);
    let cut = first_cut(&pcm, &p);
    assert_eq!(cut, quiet_spot + frame / 2);
    // Neither spot counts as silence under a stricter limit: a hard cut.
    let strict = ChunkParams::new(44_800, 16_000, 20 * frame as u64);
    assert_eq!(first_cut(&pcm, &strict), 44_800);
}

#[test]
fn window_is_at_least_one_frame() {
    assert_eq!(frame_len(), 480);
    assert_eq!(clamp_window(0), 480);
    assert_eq!(clamp_window(479), 480);
    assert_eq!(clamp_window(8_000), 8_000);
}

/// Chunking cuts the first chunk off and chunks the rest: the ranges are
/// `0..c` followed by the ranges of `pcm[c..]` moved `c` later.
#[test]
fn chunking_is_the_first_cut_then_the_rest() {
    let mut pcm = sine(4.0);
    pcm.extend(silence(0.5));
    pcm.extend(sine(3.0));
    pcm.extend(silence(0.2));
    pcm.extend(sine(6.5));
    let p = params(5.0, THRESHOLD);
    let all = chunk_ranges(&pcm, &p);
    let c = first_cut(&pcm, &p);
    assert_eq!(all[0], 0..c);
    let rest: Vec<Range<usize>> =
        chunk_ranges(&pcm[c..], &p).into_iter().map(|r| r.start + c..r.end + c).collect();
    assert_eq!(all[1..], rest[..]);
    assert!(all.len() >= 3);
}
