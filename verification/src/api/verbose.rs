//! Assembly of the OpenAI `verbose_json` response body.
//!
//! Long audio is transcribed chunk by chunk, so the body is stitched from
//! several transcripts. The times in them are already absolute (relative to
//! the start of the recording); this module only concatenates, renumbers and
//! rounds to milliseconds.

use std::ops::Range;

use vstd::prelude::*;

use crate::engine::{shifted, Task, TimedSpan, Transcript};
use crate::text::{join_nonempty, join_parts, owned, trim, views};

verus! {

/// One transcribed chunk: where it sits in the recording (samples) and what
/// the engine returned for it, already timed relative to the recording.
pub struct Chunk {
    pub span: Range<i64>,
    pub transcript: Transcript,
}

/// One row of the `segments` array.
#[derive(Debug, PartialEq)]
pub struct VerboseSegment {
    pub id: usize,
    /// Milliseconds from the start of the recording.
    pub start_ms: i64,
    /// Milliseconds from the start of the recording.
    pub end_ms: i64,
    pub text: String,
}

/// One row of the `words` array.
#[derive(Debug, PartialEq)]
pub struct VerboseWord {
    pub word: String,
    /// Milliseconds from the start of the recording.
    pub start_ms: i64,
    /// Milliseconds from the start of the recording.
    pub end_ms: i64,
}

/// The `verbose_json` body, field for field; times in milliseconds.
#[derive(Debug)]
pub struct VerboseBody {
    pub task: &'static str,
    pub language: String,
    pub duration_ms: i64,
    pub text: String,
    pub segments: Vec<VerboseSegment>,
    /// Present only when the model produced word rows.
    pub words: Option<Vec<VerboseWord>>,
}

/// `samples` (at 16 kHz) in milliseconds, rounded half away from zero.
pub open spec fn ms_of(samples: int) -> int {
    if samples >= 0 {
        (samples + 8) / 16
    } else {
        -((-samples + 8) / 16)
    }
}

/// Samples to milliseconds, rounded half away from zero.
pub fn samples_to_ms(samples: i64) -> (ms: i64)
    ensures
        ms == ms_of(samples as int),
{
    let s = samples as i128;
    let r = if s >= 0 {
        (s + 8) / 16
    } else {
        -((-s + 8) / 16)
    };
    r as i64
}

/// A timed row: start and end in samples, and its text.
pub type Row = (int, int, Seq<char>);

/// The non-empty rows of `spans`, in order.
pub open spec fn nonempty_rows(spans: Seq<TimedSpan>) -> Seq<Row>
    decreases spans.len(),
{
    if spans.len() == 0 {
        Seq::empty()
    } else {
        let init = nonempty_rows(spans.drop_last());
        let s = spans.last();
        if s.text@.len() == 0 {
            init
        } else {
            init.push((s.start as int, s.end as int, s.text@))
        }
    }
}

/// The segment rows one chunk contributes: its non-empty segment rows, or,
/// for a model that reports none, one row spanning the chunk when it has
/// text at all.
pub open spec fn chunk_segment_rows(c: Chunk) -> Seq<Row> {
    if c.transcript.segments@.len() == 0 {
        if c.transcript.text@.len() == 0 {
            Seq::empty()
        } else {
            seq![(c.span.start as int, c.span.end as int, c.transcript.text@)]
        }
    } else {
        nonempty_rows(c.transcript.segments@)
    }
}

/// Segment rows of all chunks, in chunk order.
pub open spec fn segment_rows(chunks: Seq<Chunk>) -> Seq<Row>
    decreases chunks.len(),
{
    if chunks.len() == 0 {
        Seq::empty()
    } else {
        segment_rows(chunks.drop_last()) + chunk_segment_rows(chunks.last())
    }
}

/// Non-empty word rows of all chunks, in chunk order.
pub open spec fn word_rows(chunks: Seq<Chunk>) -> Seq<Row>
    decreases chunks.len(),
{
    if chunks.len() == 0 {
        Seq::empty()
    } else {
        word_rows(chunks.drop_last()) + nonempty_rows(chunks.last().transcript.words@)
    }
}

/// The language the first chunk that reports one reports.
pub open spec fn first_language(chunks: Seq<Chunk>) -> Option<Seq<char>>
    decreases chunks.len(),
{
    if chunks.len() == 0 {
        None
    } else {
        match chunks[0].transcript.language {
            Some(l) => Some(l@),
            None => first_language(chunks.drop_first()),
        }
    }
}

/// The texts of `chunks`.
pub open spec fn chunk_texts(chunks: Seq<Chunk>) -> Seq<Seq<char>> {
    chunks.map_values(|c: Chunk| c.transcript.text@)
}

/// Chunk texts joined like the `json` and `text` formats join them.
pub open spec fn spec_joined_text(chunks: Seq<Chunk>) -> Seq<char> {
    trim(join_nonempty(chunk_texts(chunks)))
}

/// Chunk texts joined exactly like the `json` and `text` formats join them.
pub fn joined_text(chunks: &Vec<Chunk>) -> (r: String)
    ensures
        r@ == spec_joined_text(chunks@),
{
    let mut parts: Vec<&str> = Vec::new();
    let mut i: usize = 0;
    while i < chunks.len()
        invariant
            i <= chunks.len(),
            views(parts@) == chunk_texts(chunks@.take(i as int)),
        decreases chunks.len() - i,
    {
        let t = chunks[i].transcript.text.as_str();
        assert(t@ == chunks@[i as int].transcript.text@);
        let ghost before = parts@;
        parts.push(t);
        assert(parts@ == before.push(t));
        assert(views(parts@) =~= views(before).push(t@));
        assert(chunk_texts(chunks@.take(i + 1)) =~= chunk_texts(chunks@.take(i as int)).push(t@));
        i += 1;
    }
    assert(chunks@.take(chunks.len() as int) == chunks@);
    join_parts(parts.as_slice())
}

/// A chunk of the recording: the transcript of samples `start..end`, moved
/// from chunk time into recording time. Engines time their rows from the
/// start of the slice they were handed, so `start` is added back here,
/// exactly once.
pub fn place_chunk(transcript: Transcript, start: usize, end: usize) -> (c: Chunk)
    requires
        start <= end <= i64::MAX,
    ensures
        c.span.start == start,
        c.span.end == end,
        c.transcript.text == transcript.text,
        c.transcript.language == transcript.language,
        c.transcript.segments@ == shifted(transcript.segments@, start as int),
        c.transcript.words@ == shifted(transcript.words@, start as int),
{
    let mut transcript = transcript;
    transcript.shift(start as i64);
    Chunk { span: (start as i64)..(end as i64), transcript }
}

/// Whether `segs` are the rows `rows`, numbered densely from 0, with times
/// in milliseconds.
pub open spec fn segments_match(segs: Seq<VerboseSegment>, rows: Seq<Row>) -> bool {
    &&& segs.len() == rows.len()
    &&& forall|i: int|
        0 <= i < rows.len() ==> {
            &&& (#[trigger] segs[i]).id == i
            &&& segs[i].start_ms == ms_of(rows[i].0)
            &&& segs[i].end_ms == ms_of(rows[i].1)
            &&& segs[i].text@ == rows[i].2
        }
}

/// Whether `words` are the rows `rows`, with times in milliseconds.
pub open spec fn words_match(words: Seq<VerboseWord>, rows: Seq<Row>) -> bool {
    &&& words.len() == rows.len()
    &&& forall|i: int|
        0 <= i < rows.len() ==> {
            &&& (#[trigger] words[i]).start_ms == ms_of(rows[i].0)
            &&& words[i].end_ms == ms_of(rows[i].1)
            &&& words[i].word@ == rows[i].2
        }
}

/// Append the non-empty rows of `spans` to `segs`, numbering on.
fn push_segment_rows(segs: &mut Vec<VerboseSegment>, spans: &Vec<TimedSpan>, Ghost(rows): Ghost<Seq<Row>>)
    requires
        segments_match(old(segs)@, rows),
        old(segs)@.len() + spans@.len() <= usize::MAX,
    ensures
        segments_match(final(segs)@, rows + nonempty_rows(spans@)),
{
    let mut j: usize = 0;
    while j < spans.len()
        invariant
            j <= spans.len(),
            segments_match(segs@, rows + nonempty_rows(spans@.take(j as int))),
            segs@.len() <= rows.len() + j,
            rows.len() + spans@.len() <= usize::MAX,
        decreases spans.len() - j,
    {
        let span = &spans[j];
        assert(spans@.take(j + 1).drop_last() == spans@.take(j as int));
        assert(spans@.take(j + 1).last() == *span);
        if !span.text.as_str().is_empty() {
            let id = segs.len();
            let ghost before = segs@;
            segs.push(
                VerboseSegment {
                    id,
                    start_ms: samples_to_ms(span.start),
                    end_ms: samples_to_ms(span.end),
                    text: span.text.clone(),
                },
            );
            assert(rows + nonempty_rows(spans@.take(j + 1)) == (rows + nonempty_rows(spans@.take(j as int))).push((span.start as int, span.end as int, span.text@)));
        }
        j += 1;
    }
    assert(spans@.take(spans.len() as int) == spans@);
}

/// Append the non-empty rows of `spans` to `words`.
fn push_word_rows(words: &mut Vec<VerboseWord>, spans: &Vec<TimedSpan>, Ghost(rows): Ghost<Seq<Row>>)
    requires
        words_match(old(words)@, rows),
    ensures
        words_match(final(words)@, rows + nonempty_rows(spans@)),
{
    let mut j: usize = 0;
    while j < spans.len()
        invariant
            j <= spans.len(),
            words_match(words@, rows + nonempty_rows(spans@.take(j as int))),
        decreases spans.len() - j,
    {
        let span = &spans[j];
        assert(spans@.take(j + 1).drop_last() == spans@.take(j as int));
        assert(spans@.take(j + 1).last() == *span);
        if !span.text.as_str().is_empty() {
            words.push(
                VerboseWord {
                    word: span.text.clone(),
                    start_ms: samples_to_ms(span.start),
                    end_ms: samples_to_ms(span.end),
                },
            );
            assert(rows + nonempty_rows(spans@.take(j + 1)) == (rows + nonempty_rows(spans@.take(j as int))).push((span.start as int, span.end as int, span.text@)));
        }
        j += 1;
    }
    assert(spans@.take(spans.len() as int) == spans@);
}

proof fn lemma_rows_len(spans: Seq<TimedSpan>)
    ensures
        nonempty_rows(spans).len() <= spans.len(),
    decreases spans.len(),
{
    if spans.len() > 0 {
        lemma_rows_len(spans.drop_last());
    }
}

/// Number of timed rows (segments and words) the chunks carry, plus one per
/// chunk for the fallback segment.
pub open spec fn row_budget(chunks: Seq<Chunk>) -> int
    decreases chunks.len(),
{
    if chunks.len() == 0 {
        0
    } else {
        row_budget(chunks.drop_last()) + chunks.last().transcript.segments@.len() + 1
    }
}

proof fn lemma_segment_rows_len(chunks: Seq<Chunk>)
    ensures
        segment_rows(chunks).len() <= row_budget(chunks),
    decreases chunks.len(),
{
    if chunks.len() > 0 {
        lemma_segment_rows_len(chunks.drop_last());
        lemma_rows_len(chunks.last().transcript.segments@);
    }
}

proof fn lemma_row_budget_prefix(chunks: Seq<Chunk>, i: int)
    requires
        0 <= i <= chunks.len(),
    ensures
        row_budget(chunks.take(i)) <= row_budget(chunks),
    decreases chunks.len() - i,
{
    if i < chunks.len() {
        lemma_row_budget_prefix(chunks, i + 1);
        assert(chunks.take(i + 1).drop_last() == chunks.take(i));
    } else {
        assert(chunks.take(i) == chunks);
    }
}

/// The language a `verbose_json` body reports: the first one a chunk's model
/// detected, else the requested one, else "unknown".
pub open spec fn body_language(chunks: Seq<Chunk>, requested: Option<Seq<char>>) -> Seq<char> {
    match first_language(chunks) {
        Some(l) => l,
        None => match requested {
            Some(r) => r,
            None => "unknown"@,
        },
    }
}

/// Whether chunk `i` is the first one whose transcript reports a language.
pub open spec fn is_first_reporting(chunks: Seq<Chunk>, i: int) -> bool {
    &&& 0 <= i < chunks.len()
    &&& chunks[i].transcript.language is Some
    &&& forall|j: int| 0 <= j < i ==> (#[trigger] chunks[j]).transcript.language is None
}

/// The earliest reported language wins: when chunk `i` is the first chunk
/// that reports a language, that language is the one `first_language`
/// picks; when no chunk reports one, there is none.
pub proof fn lemma_first_language_is_earliest(chunks: Seq<Chunk>, i: int)
    ensures
        is_first_reporting(chunks, i) ==> first_language(chunks) == Some(
            chunks[i].transcript.language.unwrap()@,
        ),
        (forall|j: int| 0 <= j < chunks.len() ==> (#[trigger] chunks[j]).transcript.language is None)
            ==> first_language(chunks) is None,
    decreases chunks.len(),
{
    if chunks.len() > 0 {
        let rest = chunks.drop_first();
        lemma_first_language_is_earliest(rest, i - 1);
        if is_first_reporting(chunks, i) && i > 0 {
            assert(chunks[0].transcript.language is None);
            assert forall|j: int| 0 <= j < i - 1 implies (#[trigger] rest[j]).transcript.language is None by {
                assert(rest[j] == chunks[j + 1]);
            }
            assert(rest[i - 1] == chunks[i]);
        }
        if forall|j: int| 0 <= j < chunks.len() ==> (#[trigger] chunks[j]).transcript.language is None {
            assert(chunks[0].transcript.language is None);
            assert forall|j: int| 0 <= j < rest.len() implies (#[trigger] rest[j]).transcript.language is None by {
                assert(rest[j] == chunks[j + 1]);
            }
        }
    }
}

fn find_language(chunks: &Vec<Chunk>) -> (r: Option<String>)
    ensures
        match first_language(chunks@) {
            Some(l) => r matches Some(s) && s@ == l,
            None => r is None,
        },
        forall|i: int| is_first_reporting(chunks@, i) ==> r == #[trigger] chunks@[i].transcript.language,
        (forall|j: int| 0 <= j < chunks@.len() ==> (#[trigger] chunks@[j]).transcript.language is None) ==> r is None,
{
    let mut i: usize = 0;
    assert(chunks@.skip(0) == chunks@);
    while i < chunks.len()
        invariant
            i <= chunks.len(),
            first_language(chunks@) == first_language(chunks@.skip(i as int)),
            forall|j: int| 0 <= j < i ==> (#[trigger] chunks@[j]).transcript.language is None,
        decreases chunks.len() - i,
    {
        assert(chunks@.skip(i as int).drop_first() == chunks@.skip(i + 1));
        assert(chunks@.skip(i as int)[0] == chunks@[i as int]);
        match &chunks[i].transcript.language {
            Some(l) => {
                let r = Some(l.clone());
                assert forall|k: int| is_first_reporting(chunks@, k) implies r == #[trigger] chunks@[k].transcript.language by {
                    if k < i {
                        assert(chunks@[k].transcript.language is None);
                    }
                    if k > i {
                        assert(chunks@[i as int].transcript.language is None);
                    }
                }
                return r;
            },
            None => {},
        }
        i += 1;
    }
    None
}

/// Build the `verbose_json` body: OpenAI's shape, with `words` present only
/// when the model produced word rows.
///
/// `duration` is the length of the decoded audio in samples;
/// `requested_language` is the language the caller asked for, used only when
/// no model reports one of its own.
pub fn body(chunks: &Vec<Chunk>, task: Task, duration: usize, requested_language: Option<&str>) -> (b: VerboseBody)
    requires
        duration <= i64::MAX,
        row_budget(chunks@) <= usize::MAX,
    ensures
        b.task@ == task.spec_as_str(),
        b.language@ == body_language(chunks@, crate::text::opt_view(requested_language)),
        // The earliest chunk that reports a language decides it; only when
        // none does is the requested language (else "unknown") used.
        forall|i: int|
            is_first_reporting(chunks@, i) ==> b.language@ == (#[trigger] chunks@[i]).transcript.language.unwrap()@,
        (forall|j: int| 0 <= j < chunks@.len() ==> (#[trigger] chunks@[j]).transcript.language is None)
            ==> b.language@ == match requested_language {
                Some(r) => r@,
                None => "unknown"@,
            },
        b.duration_ms == ms_of(duration as int),
        b.text@ == spec_joined_text(chunks@),
        segments_match(b.segments@, segment_rows(chunks@)),
        match b.words {
            Some(w) => word_rows(chunks@).len() > 0 && words_match(w@, word_rows(chunks@)),
            None => word_rows(chunks@).len() == 0,
        },
{
    let language = match find_language(chunks) {
        Some(l) => l,
        None => match requested_language {
            Some(r) => owned(r),
            None => owned("unknown"),
        },
    };
    let mut segments: Vec<VerboseSegment> = Vec::new();
    let mut words: Vec<VerboseWord> = Vec::new();
    let mut i: usize = 0;
    while i < chunks.len()
        invariant
            i <= chunks.len(),
            row_budget(chunks@) <= usize::MAX,
            segments_match(segments@, segment_rows(chunks@.take(i as int))),
            words_match(words@, word_rows(chunks@.take(i as int))),
        decreases chunks.len() - i,
    {
        let chunk = &chunks[i];
        assert(chunks@.take(i + 1).drop_last() == chunks@.take(i as int));
        assert(chunks@.take(i + 1).last() == *chunk);
        proof {
            lemma_segment_rows_len(chunks@.take(i as int));
            lemma_row_budget_prefix(chunks@, i + 1);
        }
        if chunk.transcript.segments.len() == 0 {
            // A model that reports no segment rows still gets one row per
            // chunk: a caller building a timeline needs some anchor, and the
            // chunk bounds are a true (if coarse) one.
            if !chunk.transcript.text.as_str().is_empty() {
                let id = segments.len();
                segments.push(
                    VerboseSegment {
                        id,
                        start_ms: samples_to_ms(chunk.span.start),
                        end_ms: samples_to_ms(chunk.span.end),
                        text: chunk.transcript.text.clone(),
                    },
                );
            }
        } else {
            push_segment_rows(&mut segments, &chunk.transcript.segments, Ghost(segment_rows(chunks@.take(i as int))));
        }
        push_word_rows(&mut words, &chunk.transcript.words, Ghost(word_rows(chunks@.take(i as int))));
        i += 1;
    }
    assert(chunks@.take(chunks.len() as int) == chunks@);
    let text = joined_text(chunks);
    let words = if words.len() == 0 {
        None
    } else {
        Some(words)
    };
    VerboseBody {
        task: task.as_str(),
        language,
        duration_ms: samples_to_ms(duration as i64),
        text,
        segments,
        words,
    }
}

} // verus!
