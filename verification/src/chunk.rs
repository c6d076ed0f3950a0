//! Energy-based VAD chunker for long-form audio.
//!
//! Splits 16 kHz mono PCM16 samples into ranges each at most one window
//! long, preferring to cut inside silence so that words are not split across
//! chunk boundaries.
//!
//! A frame's energy is the sum of the magnitudes of its samples (the mean
//! magnitude times the fixed frame length, so comparisons between frames and
//! against the silence threshold are the same as on the mean). A frame is
//! silent when that sum is below [`ChunkParams::silence_limit`].

use std::ops::Range;

use vstd::prelude::*;

use crate::audio::TARGET_SR;

verus! {

/// Frame length used for energy estimation, in milliseconds.
pub const FRAME_MS: usize = 30;

/// Frame length in samples (30 ms at 16 kHz).
pub open spec fn spec_frame_len() -> int {
    480
}

/// Frame length in samples; at least one sample so the scan always advances.
pub fn frame_len() -> (n: usize)
    ensures
        n == spec_frame_len(),
{
    let n = TARGET_SR * FRAME_MS / 1000;
    if n < 1 {
        1
    } else {
        n
    }
}

/// Window length in samples, clamped the way the chunker clamps it: a window
/// shorter than one frame is raised to one frame, so every range is non-empty
/// and the loop always makes progress.
pub fn clamp_window(raw_samples: usize) -> (n: usize)
    ensures
        n == if raw_samples < spec_frame_len() { spec_frame_len() } else { raw_samples as int },
{
    let f = frame_len();
    if raw_samples < f {
        f
    } else {
        raw_samples
    }
}

/// How one buffer is cut into chunks.
#[derive(Clone, Copy, Debug)]
pub struct ChunkParams {
    /// Longest chunk, in samples (at least one frame).
    pub max_samples: usize,
    /// How far back from the end of a full window to look for silence, in
    /// samples.
    pub search_back: usize,
    /// A frame whose magnitude sum is below this is silent.
    pub silence_limit: u64,
}

impl ChunkParams {
    pub open spec fn wf(self) -> bool {
        self.max_samples >= spec_frame_len()
    }

    /// Parameters for a window of `raw_window` samples (raised to one frame
    /// when shorter).
    pub fn new(raw_window: usize, search_back: usize, silence_limit: u64) -> (p: ChunkParams)
        ensures
            p.wf(),
            p.max_samples == if raw_window < spec_frame_len() { spec_frame_len() } else { raw_window as int },
            p.search_back == search_back,
            p.silence_limit == silence_limit,
    {
        ChunkParams { max_samples: clamp_window(raw_window), search_back, silence_limit }
    }
}

/// Magnitude of a sample.
pub open spec fn mag(x: i16) -> nat {
    if x < 0 { (-x) as nat } else { x as nat }
}

/// Sum of the magnitudes of `pcm[pos..pos + len]`.
pub open spec fn frame_sum(pcm: Seq<i16>, pos: int, len: int) -> nat
    decreases len,
{
    if len <= 0 {
        0
    } else {
        frame_sum(pcm, pos, len - 1) + mag(pcm[pos + len - 1])
    }
}

/// First sample of the search-back window.
pub open spec fn search_start(p: ChunkParams) -> int {
    if p.search_back >= p.max_samples { 0 } else { p.max_samples - p.search_back }
}

/// Number of whole frames between the search start and the window end.
pub open spec fn frame_count(p: ChunkParams) -> int {
    (p.max_samples - search_start(p)) / spec_frame_len()
}

/// Start of the `k`-th frame of the search-back window.
pub open spec fn frame_pos(p: ChunkParams, k: int) -> int {
    search_start(p) + k * spec_frame_len()
}

/// The quietest silent frame among the first `k` frames of the search-back
/// window, as (magnitude sum, center); the earliest one on a tie.
pub open spec fn best_frame(pcm: Seq<i16>, p: ChunkParams, k: nat) -> Option<(nat, int)>
    decreases k,
{
    if k == 0 {
        None
    } else {
        let prev = best_frame(pcm, p, (k - 1) as nat);
        let pos = frame_pos(p, k - 1);
        let e = frame_sum(pcm, pos, spec_frame_len());
        if e < p.silence_limit && (prev is None || e < prev.unwrap().0) {
            Some((e, pos + spec_frame_len() / 2))
        } else {
            prev
        }
    }
}

/// End of the first chunk of `pcm`: all of it when it fits in one window;
/// otherwise the center of the quietest silent frame of the search-back
/// window, or a hard cut at the window edge when there is none.
pub open spec fn spec_first_cut(pcm: Seq<i16>, p: ChunkParams) -> int {
    if pcm.len() <= p.max_samples {
        pcm.len() as int
    } else {
        match best_frame(pcm, p, frame_count(p) as nat) {
            Some((_, center)) => if center > 0 { center } else { p.max_samples as int },
            None => p.max_samples as int,
        }
    }
}

proof fn lemma_frame_sum_bound(pcm: Seq<i16>, pos: int, len: int)
    ensures
        frame_sum(pcm, pos, len) <= (if len < 0 { 0 } else { len }) * 32768,
    decreases len,
{
    if len > 0 {
        lemma_frame_sum_bound(pcm, pos, len - 1);
    }
}

proof fn lemma_frame_pos_step(p: ChunkParams, k: int)
    ensures
        frame_pos(p, k + 1) == frame_pos(p, k) + spec_frame_len(),
{
    assert((k + 1) * spec_frame_len() == k * spec_frame_len() + spec_frame_len()) by (nonlinear_arith);
}

proof fn lemma_frames_inside(p: ChunkParams, k: int)
    requires
        p.wf(),
        0 <= k < frame_count(p),
    ensures
        0 <= frame_pos(p, k),
        frame_pos(p, k) + spec_frame_len() <= p.max_samples,
{
    let f = spec_frame_len();
    let d = p.max_samples - search_start(p);
    assert(k + 1 <= d / f);
    assert((k + 1) * f <= (d / f) * f) by (nonlinear_arith)
        requires k + 1 <= d / f, f > 0;
    assert((d / f) * f <= d) by (nonlinear_arith)
        requires d >= 0, f > 0;
    assert(k * f >= 0) by (nonlinear_arith)
        requires k >= 0, f > 0;
    assert((k + 1) * f == k * f + f) by (nonlinear_arith);
}

/// Sum of the magnitudes of `pcm[start + pos..start + pos + len]`.
fn frame_energy(pcm: &[i16], start: usize, pos: usize, len: usize) -> (e: u64)
    requires
        start + pos + len <= pcm.len(),
        len <= spec_frame_len(),
    ensures
        e == frame_sum(pcm@.subrange(start as int, pcm@.len() as int), pos as int, len as int),
{
    let ghost sub = pcm@.subrange(start as int, pcm@.len() as int);
    let mut acc: u64 = 0;
    let mut j: usize = 0;
    while j < len
        invariant
            j <= len <= spec_frame_len(),
            start + pos + len <= pcm.len(),
            sub == pcm@.subrange(start as int, pcm@.len() as int),
            acc == frame_sum(sub, pos as int, j as int),
        decreases len - j,
    {
        proof {
            lemma_frame_sum_bound(sub, pos as int, j as int);
        }
        let x = pcm[start + pos + j];
        let m: u64 = if x < 0 {
            (-(x as i32)) as u64
        } else {
            x as u64
        };
        assert(sub[pos + j] == x);
        acc = acc + m;
        j += 1;
    }
    acc
}

/// [`first_cut`] of `pcm[start..]`.
pub fn first_cut_from(pcm: &[i16], start: usize, params: &ChunkParams) -> (cut: usize)
    requires
        start <= pcm.len(),
        params.wf(),
    ensures
        cut == spec_first_cut(pcm@.subrange(start as int, pcm@.len() as int), *params),
{
    let ghost sub = pcm@.subrange(start as int, pcm@.len() as int);
    let len = pcm.len() - start;
    let max_samples = params.max_samples;
    if len <= max_samples {
        return len;
    }
    let f = frame_len();
    let s0 = if params.search_back >= max_samples {
        0
    } else {
        max_samples - params.search_back
    };
    let mut best: Option<(u64, usize)> = None;
    let mut pos = s0;
    let mut k: usize = 0;
    while f <= max_samples - pos
        invariant
            f == spec_frame_len(),
            params.wf(),
            max_samples == params.max_samples,
            max_samples < len == pcm.len() - start,
            start <= pcm.len(),
            sub == pcm@.subrange(start as int, pcm@.len() as int),
            s0 == search_start(*params),
            pos == frame_pos(*params, k as int),
            k <= frame_count(*params),
            pos <= max_samples,
            best == (match best_frame(sub, *params, k as nat) {
                Some((e, c)) => Some((e as u64, c as usize)),
                None => None::<(u64, usize)>,
            }),
            forall|e: nat, c: int| best_frame(sub, *params, k as nat) == Some((e, c)) ==> e <= u64::MAX && 0 <= c <= usize::MAX,
        decreases max_samples - pos,
    {
        assert(k < frame_count(*params)) by {
            let fi = spec_frame_len();
            let d: int = max_samples - s0;
            let ki: int = k as int;
            assert(pos - s0 == ki * fi);
            assert(ki * fi + fi <= d);
            assert(ki + 1 <= d / fi) by (nonlinear_arith)
                requires ki * fi + fi <= d, fi > 0, ki >= 0;
        }
        let energy = frame_energy(pcm, start, pos, f);
        let center = pos + f / 2;
        let better = match best {
            None => true,
            Some((e, _)) => energy < e,
        };
        if energy < params.silence_limit && better {
            best = Some((energy, center));
        }
        proof {
            lemma_frame_pos_step(*params, k as int);
        }
        pos = pos + f;
        k = k + 1;
    }
    assert(k == frame_count(*params)) by {
        let fi = spec_frame_len();
        let d: int = max_samples - s0;
        let ki: int = k as int;
        assert(pos - s0 == ki * fi);
        assert(ki * fi <= d);
        assert(ki * fi + fi > d);
        assert(ki == d / fi) by (nonlinear_arith)
            requires ki * fi <= d, ki * fi + fi > d, fi > 0, ki >= 0;
    }
    match best {
        Some((_, center)) => {
            if center > 0 {
                center
            } else {
                max_samples
            }
        },
        None => max_samples,
    }
}

/// End of the first range [`chunk_ranges`] would produce for `pcm`, i.e. where
/// to cut a buffer that has filled one window. `pcm.len()` when the whole
/// buffer fits in one window.
pub fn first_cut(pcm: &[i16], params: &ChunkParams) -> (cut: usize)
    requires
        params.wf(),
    ensures
        cut == spec_first_cut(pcm@, *params),
{
    assert(pcm@.subrange(0, pcm@.len() as int) == pcm@);
    first_cut_from(pcm, 0, params)
}


/// Whether the `k`-th frame of the search-back window is silent.
pub open spec fn silent_frame(pcm: Seq<i16>, p: ChunkParams, k: int) -> bool {
    frame_sum(pcm, frame_pos(p, k), spec_frame_len()) < p.silence_limit
}

proof fn lemma_best_frame(pcm: Seq<i16>, p: ChunkParams, k: nat)
    ensures
        match best_frame(pcm, p, k) {
            Some((e, c)) => exists|i: int|
                #![trigger frame_pos(p, i)]
                0 <= i < k && c == frame_pos(p, i) + spec_frame_len() / 2 && e == frame_sum(
                    pcm,
                    frame_pos(p, i),
                    spec_frame_len(),
                ) && silent_frame(pcm, p, i) && (forall|j: int|
                    0 <= j < k && #[trigger] silent_frame(pcm, p, j) ==> e <= frame_sum(
                        pcm,
                        frame_pos(p, j),
                        spec_frame_len(),
                    )),
            None => forall|j: int| 0 <= j < k ==> !#[trigger] silent_frame(pcm, p, j),
        },
    decreases k,
{
    if k > 0 {
        lemma_best_frame(pcm, p, (k - 1) as nat);
    }
}

/// The first cut of a buffer that fits in one window is its end; otherwise
/// it lies strictly inside the buffer and at most one window from its start.
/// A cut short of the window edge is the center of a silent frame of the
/// search-back window, and no silent frame there is quieter.
pub proof fn lemma_first_cut(pcm: Seq<i16>, p: ChunkParams)
    requires
        p.wf(),
    ensures
        pcm.len() <= p.max_samples ==> spec_first_cut(pcm, p) == pcm.len(),
        pcm.len() > p.max_samples ==> 0 < spec_first_cut(pcm, p) <= p.max_samples,
        pcm.len() > p.max_samples && spec_first_cut(pcm, p) < p.max_samples ==> exists|i: int|
            #![trigger frame_pos(p, i)]
            0 <= i < frame_count(p) && spec_first_cut(pcm, p) == frame_pos(p, i)
                + spec_frame_len() / 2 && silent_frame(pcm, p, i) && (forall|j: int|
                0 <= j < frame_count(p) && #[trigger] silent_frame(pcm, p, j) ==> frame_sum(
                    pcm,
                    frame_pos(p, i),
                    spec_frame_len(),
                ) <= frame_sum(pcm, frame_pos(p, j), spec_frame_len())),
{
    let k = frame_count(p);
    assert(k >= 0) by {
        assert(search_start(p) <= p.max_samples);
    }
    lemma_best_frame(pcm, p, k as nat);
    if pcm.len() > p.max_samples {
        match best_frame(pcm, p, k as nat) {
            Some((e, c)) => {
                let i = choose|i: int|
                    #![trigger frame_pos(p, i)]
                    0 <= i < k && c == frame_pos(p, i) + spec_frame_len() / 2 && e == frame_sum(
                        pcm,
                        frame_pos(p, i),
                        spec_frame_len(),
                    ) && silent_frame(pcm, p, i) && (forall|j: int|
                        0 <= j < k && #[trigger] silent_frame(pcm, p, j) ==> e <= frame_sum(
                            pcm,
                            frame_pos(p, j),
                            spec_frame_len(),
                        ));
                lemma_frames_inside(p, i);
            },
            None => {},
        }
    }
}

/// `rs` moved `by` samples later.
pub open spec fn shift_ranges(rs: Seq<(int, int)>, by: int) -> Seq<(int, int)> {
    rs.map_values(|r: (int, int)| (r.0 + by, r.1 + by))
}

/// Ranges as (start, end) pairs.
pub open spec fn range_pairs(rs: Seq<Range<usize>>) -> Seq<(int, int)> {
    rs.map_values(|r: Range<usize>| (r.start as int, r.end as int))
}

/// The chunks of `pcm`: none when it is empty; otherwise `0..c` with `c` its
/// first cut, followed by the chunks of the rest moved `c` later. (The guard
/// on `c` only makes the recursion visibly finite: for well-formed
/// parameters `0 < c <= pcm.len()`, see [`lemma_first_cut`].)
pub open spec fn spec_chunk_ranges(pcm: Seq<i16>, p: ChunkParams) -> Seq<(int, int)>
    decreases pcm.len(),
{
    let c = spec_first_cut(pcm, p);
    if pcm.len() == 0 || c <= 0 || c > pcm.len() {
        Seq::empty()
    } else {
        seq![(0int, c)] + shift_ranges(spec_chunk_ranges(pcm.skip(c), p), c)
    }
}

/// Chunking cuts the first chunk off and chunks the rest: for a non-empty
/// buffer with first cut `c`, the chunks are `0..c` followed by the chunks
/// of `pcm[c..]`, each moved `c` later. In particular the first chunk ends
/// at the first cut.
pub proof fn lemma_chunk_ranges_first(pcm: Seq<i16>, p: ChunkParams)
    requires
        p.wf(),
        pcm.len() > 0,
    ensures
        spec_chunk_ranges(pcm, p) == seq![(0int, spec_first_cut(pcm, p))] + shift_ranges(
            spec_chunk_ranges(pcm.skip(spec_first_cut(pcm, p)), p),
            spec_first_cut(pcm, p),
        ),
        spec_chunk_ranges(pcm, p)[0] == (0int, spec_first_cut(pcm, p)),
{
    lemma_first_cut(pcm, p);
}

/// Split `pcm` into ranges each at most one window long, cutting at silence
/// where there is any (see [`first_cut`]). Ranges cover `pcm` in order
/// without gaps or overlap; empty `pcm` yields no ranges.
pub fn chunk_ranges(pcm: &[i16], params: &ChunkParams) -> (ranges: Vec<Range<usize>>)
    requires
        params.wf(),
    ensures
        ranges.len() == 0 <==> pcm.len() == 0,
        ranges.len() > 0 ==> ranges[0].start == 0 && ranges[ranges.len() - 1].end == pcm.len(),
        forall|i: int| 0 <= i < ranges.len() - 1 ==> #[trigger] ranges[i].end == ranges[i + 1].start,
        forall|i: int|
            0 <= i < ranges.len() ==> {
                &&& #[trigger] ranges[i].start < ranges[i].end <= pcm.len()
                &&& ranges[i].end - ranges[i].start <= params.max_samples
                &&& ranges[i].end - ranges[i].start == spec_first_cut(
                    pcm@.subrange(ranges[i].start as int, pcm@.len() as int),
                    *params,
                )
            },
        range_pairs(ranges@) == spec_chunk_ranges(pcm@, *params),
{
    let mut ranges: Vec<Range<usize>> = Vec::new();
    let mut start: usize = 0;
    proof {
        assert(pcm@.subrange(0, pcm@.len() as int) =~= pcm@);
        assert(shift_ranges(spec_chunk_ranges(pcm@, *params), 0) =~= spec_chunk_ranges(pcm@, *params));
        assert(range_pairs(ranges@) + spec_chunk_ranges(pcm@, *params) =~= spec_chunk_ranges(pcm@, *params));
    }
    while start < pcm.len()
        invariant
            params.wf(),
            start <= pcm.len(),
            ranges.len() == 0 <==> start == 0,
            ranges.len() > 0 ==> ranges[0].start == 0 && ranges[ranges.len() - 1].end == start,
            forall|i: int| 0 <= i < ranges.len() - 1 ==> #[trigger] ranges[i].end == ranges[i + 1].start,
            forall|i: int|
                0 <= i < ranges.len() ==> {
                    &&& #[trigger] ranges[i].start < ranges[i].end <= pcm.len()
                    &&& ranges[i].end - ranges[i].start <= params.max_samples
                    &&& ranges[i].end - ranges[i].start == spec_first_cut(
                        pcm@.subrange(ranges[i].start as int, pcm@.len() as int),
                        *params,
                    )
                },
            range_pairs(ranges@) + shift_ranges(
                spec_chunk_ranges(pcm@.subrange(start as int, pcm@.len() as int), *params),
                start as int,
            ) == spec_chunk_ranges(pcm@, *params),
        decreases pcm.len() - start,
    {
        let ghost rest = pcm@.subrange(start as int, pcm@.len() as int);
        proof {
            lemma_first_cut(rest, *params);
        }
        let cut = first_cut_from(pcm, start, params);
        let end = start + cut;
        let ghost before = ranges@;
        ranges.push(start..end);
        proof {
            let tail = spec_chunk_ranges(pcm@.subrange(end as int, pcm@.len() as int), *params);
            assert(rest.skip(cut as int) =~= pcm@.subrange(end as int, pcm@.len() as int));
            assert(spec_chunk_ranges(rest, *params) == seq![(0int, cut as int)] + shift_ranges(tail, cut as int));
            assert(shift_ranges(seq![(0int, cut as int)] + shift_ranges(tail, cut as int), start as int)
                =~= seq![(start as int, end as int)] + shift_ranges(tail, end as int));
            assert(range_pairs(ranges@) =~= range_pairs(before).push((start as int, end as int)));
            assert(range_pairs(ranges@) + shift_ranges(tail, end as int) =~= range_pairs(before) + (
            seq![(start as int, end as int)] + shift_ranges(tail, end as int)));
        }
        start = end;
    }
    proof {
        assert(pcm@.subrange(start as int, pcm@.len() as int).len() == 0);
        assert(shift_ranges(spec_chunk_ranges(pcm@.subrange(start as int, pcm@.len() as int), *params), start as int)
            =~= Seq::<(int, int)>::empty());
        assert(range_pairs(ranges@) + Seq::<(int, int)>::empty() =~= range_pairs(ranges@));
    }
    ranges
}

} // verus!
