//! The decisions of the native engine, which runs models through the
//! transcribe.cpp library: which configurations it refuses before loading
//! anything, how many threads a session gets, how its failures read, which
//! loaded model a request runs on, and how the library's rows, timed in
//! milliseconds, become transcript rows timed in samples.

use vstd::prelude::*;

use super::{clamp_i64, EngineError, TimedSpan, Transcript};
use crate::config::ModelSpec;
use crate::text::{decimal, owned, push_decimal};

verus! {

/// A time the library reports in milliseconds, in samples at 16 kHz,
/// saturating at the bounds of `i64`.
pub open spec fn samples_of_ms(ms: int) -> i64 {
    clamp_i64(ms * 16)
}

/// See [`samples_of_ms`].
pub fn ms_to_samples(ms: i64) -> (s: i64)
    ensures
        s == samples_of_ms(ms as int),
{
    let t = ms as i128 * 16;
    if t < i64::MIN as i128 {
        i64::MIN
    } else if t > i64::MAX as i128 {
        i64::MAX
    } else {
        t as i64
    }
}

/// The transcript row for a library row `(start_ms, end_ms, text)`.
pub open spec fn row_span(row: (i64, i64, String)) -> TimedSpan {
    TimedSpan { start: samples_of_ms(row.0 as int), end: samples_of_ms(row.1 as int), text: row.2 }
}

/// Library rows as transcript rows, in order.
pub open spec fn row_spans(rows: Seq<(i64, i64, String)>) -> Seq<TimedSpan> {
    rows.map_values(|r: (i64, i64, String)| row_span(r))
}

fn spans_from_rows(rows: &Vec<(i64, i64, String)>) -> (spans: Vec<TimedSpan>)
    ensures
        spans@ == row_spans(rows@),
{
    let mut spans: Vec<TimedSpan> = Vec::new();
    let mut i: usize = 0;
    while i < rows.len()
        invariant
            i <= rows.len(),
            spans@ == row_spans(rows@.take(i as int)),
        decreases rows.len() - i,
    {
        let row = &rows[i];
        let span = TimedSpan { start: ms_to_samples(row.0), end: ms_to_samples(row.1), text: row.2.clone() };
        let ghost before = spans@;
        spans.push(span);
        assert(rows@.take(i + 1) == rows@.take(i as int).push(rows@[i as int]));
        assert(spans@ =~= row_spans(rows@.take(i + 1)));
        i += 1;
    }
    assert(rows@.take(rows@.len() as int) == rows@);
    spans
}

/// Map a library transcript onto the engine-level one: rows timed in
/// milliseconds from the start of the audio handed to the library become
/// rows timed in samples from the start of the same audio. Only segment and
/// word rows are carried over; the library's token rows have nowhere to go
/// in the response.
pub fn transcript_from_rows(
    text: String,
    language: Option<String>,
    segments: &Vec<(i64, i64, String)>,
    words: &Vec<(i64, i64, String)>,
) -> (t: Transcript)
    ensures
        t.text == text,
        t.language == language,
        t.segments@ == row_spans(segments@),
        t.words@ == row_spans(words@),
{
    Transcript { text, language, segments: spans_from_rows(segments), words: spans_from_rows(words) }
}

/// Loading with no model configured is refused before the library is touched.
pub fn require_models(specs: &Vec<ModelSpec>) -> (r: Result<(), EngineError>)
    ensures
        specs@.len() == 0 <==> r is Err,
        r matches Err(e) ==> e matches EngineError::Failed(m) && m@ == "no models configured (use --model)"@,
{
    if specs.len() == 0 {
        Err(EngineError::Failed(owned("no models configured (use --model)")))
    } else {
        Ok(())
    }
}

/// The thread count a session is created with: 0 (the library's default)
/// when none was configured, else the configured count, capped at
/// `i32::MAX`.
pub open spec fn spec_session_threads(threads: Option<usize>) -> i32 {
    match threads {
        None => 0,
        Some(t) => if t > i32::MAX { i32::MAX } else { t as i32 },
    }
}

/// See [`spec_session_threads`].
pub fn session_threads(threads: Option<usize>) -> (r: i32)
    ensures
        r == spec_session_threads(threads),
{
    match threads {
        None => 0,
        Some(t) => if t > i32::MAX as usize {
            i32::MAX
        } else {
            t as i32
        },
    }
}

/// Registering the library's compute backend modules failed: `detail` is
/// the library's error, `devices` the number of compute devices it sees.
pub fn backend_failure(detail: &str, devices: usize) -> (e: EngineError)
    ensures
        e matches EngineError::Failed(m) && m@ == "registering ggml backend modules: "@ + detail@ + " ("@
            + decimal(devices as nat) + " compute device(s) available); a dynamic-backend libtranscribe needs its backend modules installed where the build expects them"@,
{
    let mut m = owned("registering ggml backend modules: ");
    m.append(detail);
    m.append(" (");
    push_decimal(&mut m, devices as u64);
    m.append(" compute device(s) available); a dynamic-backend libtranscribe needs its backend modules installed where the build expects them");
    EngineError::Failed(m)
}

/// Loading the model of `spec` failed with the library's error `detail`.
pub fn load_failure(spec: &ModelSpec, detail: &str) -> (e: EngineError)
    ensures
        e matches EngineError::Failed(m) && m@ == "loading model '"@ + spec.alias@ + "' from "@ + spec.path@
            + ": "@ + detail@,
{
    let mut m = owned("loading model '");
    m.append(spec.alias.as_str());
    m.append("' from ");
    m.append(spec.path.as_str());
    m.append(": ");
    m.append(detail);
    EngineError::Failed(m)
}

/// Creating the session of model `alias` failed with the library's error
/// `detail`.
pub fn session_failure(alias: &str, detail: &str) -> (e: EngineError)
    ensures
        e matches EngineError::Failed(m) && m@ == "creating session for model '"@ + alias@ + "': "@ + detail@,
{
    let mut m = owned("creating session for model '");
    m.append(alias);
    m.append("': ");
    m.append(detail);
    EngineError::Failed(m)
}

/// A run on model `alias` failed with the library's error `detail`.
pub fn run_failure(alias: &str, detail: &str) -> (e: EngineError)
    ensures
        e matches EngineError::Failed(m) && m@ == "model '"@ + alias@ + "': "@ + detail@,
{
    let mut m = owned("model '");
    m.append(alias);
    m.append("': ");
    m.append(detail);
    EngineError::Failed(m)
}

} // verus!
