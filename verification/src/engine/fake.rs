//! The test engine: echoes its request instead of running a model, and
//! produces alignment rows spanning exactly the audio it was given, so the
//! timestamp plumbing (including the chunk offsets applied by callers) is
//! exercised without a real model.

use vstd::prelude::*;

use super::{CancelFlag, EngineError, ModelInfo, Task, TimedSpan, TranscribeOptions, Transcript};
use crate::text::{lemma_split_nonempty, copy_opt_string, decimal, owned, push_decimal, split_on, split_string, string_views};

verus! {

pub struct FakeEngine;

/// How a set toggle is echoed.
pub open spec fn spec_on_off(value: bool) -> Seq<char> {
    if value { "on"@ } else { "off"@ }
}

fn on_off(value: bool) -> (r: &'static str)
    ensures
        r@ == spec_on_off(value),
{
    if value {
        "on"
    } else {
        "off"
    }
}

/// The text the fake engine answers `options` with for `pcm_len` samples:
/// `fake:<model or default>:<samples>`, then `:translate=<target or auto>`
/// for a translation and `:pnc=on|off` / `:itn=on|off` for each toggle the
/// caller set.
pub open spec fn fake_text(pcm_len: nat, options: TranscribeOptions) -> Seq<char> {
    let model = match options.model {
        Some(m) => m@,
        None => "default"@,
    };
    let base = "fake:"@ + model + ":"@ + decimal(pcm_len);
    let translated = match options.task {
        Task::Translate => base + ":translate="@ + match options.target_language {
            Some(t) => t@,
            None => "auto"@,
        },
        Task::Transcribe => base,
    };
    let with_pnc = match options.pnc {
        Some(v) => translated + ":pnc="@ + spec_on_off(v),
        None => translated,
    };
    match options.itn {
        Some(v) => with_pnc + ":itn="@ + spec_on_off(v),
        None => with_pnc,
    }
}

/// The transcript the fake engine answers with: the echo text, the language
/// that was asked for, one segment over the whole buffer, and one word row
/// per colon-separated piece of the text, splitting the buffer evenly.
pub open spec fn is_fake_transcript(t: Transcript, pcm_len: nat, options: TranscribeOptions) -> bool {
    let text = fake_text(pcm_len, options);
    let parts = split_on(text, ':');
    let n = parts.len();
    &&& t.text@ == text
    &&& t.language == options.language
    &&& t.segments@.len() == 1
    &&& t.segments@[0].start == 0
    &&& t.segments@[0].end == pcm_len
    &&& t.segments@[0].text@ == text
    &&& t.words@.len() == n
    &&& forall|i: int|
        0 <= i < n ==> {
            &&& (#[trigger] t.words@[i]).start == (pcm_len * i) / n as int
            &&& t.words@[i].end == (pcm_len * (i + 1)) / n as int
            &&& t.words@[i].text@ == parts[i]
        }
}

proof fn lemma_even_split(len: int, i: int, n: int)
    requires
        0 <= len <= i64::MAX,
        0 <= i <= n <= usize::MAX,
        n >= 1,
    ensures
        0 <= len * i <= u128::MAX,
        0 <= (len * i) / n <= len,
{
    assert(0 <= len * i <= len * n) by (nonlinear_arith)
        requires 0 <= len, 0 <= i <= n;
    assert(len * n <= i64::MAX * usize::MAX) by (nonlinear_arith)
        requires 0 <= len <= i64::MAX, 0 <= n <= usize::MAX;
    assert((len * i) / n <= (len * n) / n) by (nonlinear_arith)
        requires 0 <= len * i <= len * n, n >= 1;
    assert((len * n) / n == len) by (nonlinear_arith)
        requires n >= 1;
    assert(0 <= (len * i) / n) by (nonlinear_arith)
        requires 0 <= len * i, n >= 1;
}

/// The fake engine's answer for `pcm_len` samples (see [`is_fake_transcript`]).
pub fn fake_transcript(pcm_len: usize, options: &TranscribeOptions) -> (t: Transcript)
    requires
        pcm_len <= i64::MAX,
    ensures
        is_fake_transcript(t, pcm_len as nat, *options),
{
    let mut text = owned("fake:");
    match &options.model {
        Some(m) => text.append(m.as_str()),
        None => text.append("default"),
    }
    text.append(":");
    push_decimal(&mut text, pcm_len as u64);
    match options.task {
        Task::Translate => {
            text.append(":translate=");
            match &options.target_language {
                Some(t) => text.append(t.as_str()),
                None => text.append("auto"),
            }
        },
        Task::Transcribe => {},
    }
    if let Some(pnc) = options.pnc {
        text.append(":pnc=");
        text.append(on_off(pnc));
    }
    if let Some(itn) = options.itn {
        text.append(":itn=");
        text.append(on_off(itn));
    }
    assert(text@ == fake_text(pcm_len as nat, *options));
    let parts = split_string(text.as_str(), ':');
    let n = parts.len();
    let mut words: Vec<TimedSpan> = Vec::new();
    let mut i: usize = 0;
    while i < n
        invariant
            n == parts.len() >= 1,
            i <= n,
            pcm_len <= i64::MAX,
            words@.len() == i,
            forall|k: int|
                0 <= k < i ==> {
                    &&& (#[trigger] words@[k]).start == (pcm_len * k) / n as int
                    &&& words@[k].end == (pcm_len * (k + 1)) / n as int
                    &&& words@[k].text@ == parts@[k]@
                },
        decreases n - i,
    {
        let len128 = pcm_len as u128;
        proof {
            lemma_even_split(pcm_len as int, i as int, n as int);
            lemma_even_split(pcm_len as int, (i + 1) as int, n as int);
        }
        let start = (len128 * (i as u128) / (n as u128)) as i64;
        let end = (len128 * ((i + 1) as u128) / (n as u128)) as i64;
        words.push(TimedSpan { start, end, text: parts[i].clone() });
        i += 1;
    }
    let duration = pcm_len as i64;
    let segment = TimedSpan { start: 0, end: duration, text: text.clone() };
    let segments = vec![segment];
    Transcript { text, language: copy_opt_string(&options.language), segments, words }
}

impl FakeEngine {
    /// Echoes the model alias and the sample count (see [`fake_transcript`]).
    /// A call whose flag is already cancelled does no work and answers
    /// [`EngineError::Cancelled`]; what the flag reads depends on other
    /// threads, so either answer is possible for a flag being cancelled.
    pub fn transcribe(&self, pcm_len: usize, options: &TranscribeOptions, cancel: &CancelFlag) -> (r: Result<Transcript, EngineError>)
        requires
            pcm_len <= i64::MAX,
        ensures
            match r {
                Ok(t) => is_fake_transcript(t, pcm_len as nat, *options),
                Err(e) => e is Cancelled,
            },
    {
        if cancel.is_cancelled() {
            return Err(EngineError::Cancelled);
        }
        Ok(fake_transcript(pcm_len, options))
    }

    /// The one model the fake engine serves.
    pub fn models(&self) -> (r: Vec<ModelInfo>)
        ensures
            r@.len() == 1,
            r@[0]@.id == "fake-model"@,
            r@[0]@.arch == "fake"@,
            r@[0]@.languages == seq!["en"@, "ru"@],
            r@[0]@.supports_translate,
            r@[0]@.translate_target_languages == seq!["en"@],
            r@[0]@.max_audio_ms is None,
    {
        let info = ModelInfo {
            id: owned("fake-model"),
            arch: owned("fake"),
            languages: vec![owned("en"), owned("ru")],
            supports_translate: true,
            translate_target_languages: vec![owned("en")],
            max_audio_ms: None,
        };
        assert(string_views(info.languages@) =~= seq!["en"@, "ru"@]);
        assert(string_views(info.translate_target_languages@) =~= seq!["en"@]);
        vec![info]
    }

    /// The compute backend: always "fake".
    pub fn backend(&self) -> (r: String)
        ensures
            r@ == "fake"@,
    {
        owned("fake")
    }
}


/// The fake engine's word rows tile the buffer: the first starts at 0, the
/// last ends at its end, each ends where the next starts, and none runs
/// backwards. Its one segment spans the whole buffer.
pub proof fn lemma_fake_words_tile(t: Transcript, pcm_len: nat, options: TranscribeOptions)
    requires
        is_fake_transcript(t, pcm_len, options),
    ensures
        t.words@.len() >= 1,
        t.words@[0].start == 0,
        t.words@[t.words@.len() - 1].end == pcm_len,
        forall|i: int| 0 <= i < t.words@.len() - 1 ==> #[trigger] t.words@[i].end == t.words@[i + 1].start,
        forall|i: int| 0 <= i < t.words@.len() ==> #[trigger] t.words@[i].start <= t.words@[i].end,
        t.segments@[0].start == 0 && t.segments@[0].end == pcm_len,
{
    let n = split_on(fake_text(pcm_len, options), ':').len();
    lemma_split_nonempty(fake_text(pcm_len, options), ':');
    let l: int = pcm_len as int;
    let ni: int = n as int;
    assert(t.words@[0].start == 0) by {
        assert((l * 0) / ni == 0) by (nonlinear_arith)
            requires ni >= 1;
    }
    assert(t.words@[n - 1].end == pcm_len) by {
        assert((l * ((ni - 1) + 1)) / ni == l) by (nonlinear_arith)
            requires ni >= 1;
    }
    assert forall|i: int| 0 <= i < t.words@.len() implies #[trigger] t.words@[i].start <= t.words@[i].end by {
        assert((l * i) / ni <= (l * (i + 1)) / ni) by (nonlinear_arith)
            requires ni >= 1, i >= 0, l >= 0;
    }
}

} // verus!
