//! What an engine call takes and returns, and the rules about models that
//! both the HTTP layer and the engines apply.
//!
//! Times are counted in samples of the 16 kHz PCM the engine was handed
//! (one unit is 1/16000 s), which keeps chunk offsets exact.

pub mod cancel;
pub mod fake;
pub mod native;

pub use cancel::CancelFlag;

use vstd::prelude::*;

use crate::text::{
    chars_of, copy_opt_string, copy_strings, eq_ignore_case, join_strings, join_with, owned,
    str_eq, string_views, trim, trim_bounds, chars_eq_ignore_case, trimmed, opt_view, lemma_trim_idempotent, lower_all,
};

verus! {

#[derive(Debug)]
pub enum EngineError {
    UnknownModel(String),
    /// The request asked the model for something it cannot do at all, as
    /// opposed to a knob it merely has no runtime switch for. Caller error,
    /// not a server fault.
    Unsupported(String),
    /// The caller went away and the run was aborted on purpose. Not a
    /// failure: nobody is left to read the answer.
    Cancelled,
    Failed(String),
}

impl EngineError {
    /// The text the error displays as.
    pub open spec fn spec_message(&self) -> Seq<char> {
        match self {
            EngineError::UnknownModel(m) => "unknown model: "@ + m@,
            EngineError::Unsupported(m) => m@,
            EngineError::Cancelled => "transcription cancelled"@,
            EngineError::Failed(m) => "transcription failed: "@ + m@,
        }
    }

    /// The text the error displays as.
    pub fn message(&self) -> (r: String)
        ensures
            r@ == self.spec_message(),
    {
        match self {
            EngineError::UnknownModel(m) => {
                let mut r = owned("unknown model: ");
                r.append(m.as_str());
                r
            },
            EngineError::Unsupported(m) => m.clone(),
            EngineError::Cancelled => owned("transcription cancelled"),
            EngineError::Failed(m) => {
                let mut r = owned("transcription failed: ");
                r.append(m.as_str());
                r
            },
        }
    }
}

/// What the model should do with the audio.
#[derive(Debug, Clone, Copy, Default, PartialEq, Eq, Structural)]
pub enum Task {
    /// Transcribe speech in its source language.
    #[default]
    Transcribe,
    /// Translate speech into `TranscribeOptions::target_language`.
    Translate,
}

impl Task {
    pub open spec fn spec_as_str(self) -> Seq<char> {
        match self {
            Task::Transcribe => "transcribe"@,
            Task::Translate => "translate"@,
        }
    }

    /// The value the OpenAI `verbose_json` body reports as `task`.
    pub fn as_str(self) -> (r: &'static str)
        ensures
            r@ == self.spec_as_str(),
    {
        match self {
            Task::Transcribe => "transcribe",
            Task::Translate => "translate",
        }
    }
}

/// One timed row of a transcript - a segment or a word. Times are samples
/// from the start of the PCM buffer the engine was handed, not absolute
/// times in the original recording.
#[derive(Debug, Default, PartialEq)]
pub struct TimedSpan {
    pub start: i64,
    pub end: i64,
    pub text: String,
}

impl Clone for TimedSpan {
    fn clone(&self) -> (r: Self)
        ensures
            r == *self,
    {
        TimedSpan { start: self.start, end: self.end, text: self.text.clone() }
    }
}

/// `t` clamped into the range of `i64`.
pub open spec fn clamp_i64(t: int) -> i64 {
    if t < i64::MIN {
        i64::MIN
    } else if t > i64::MAX {
        i64::MAX
    } else {
        t as i64
    }
}

/// `a + b`, saturating at the bounds of `i64`.
pub fn saturating_add(a: i64, b: i64) -> (r: i64)
    ensures
        r == clamp_i64(a + b),
{
    let t = a as i128 + b as i128;
    if t < i64::MIN as i128 {
        i64::MIN
    } else if t > i64::MAX as i128 {
        i64::MAX
    } else {
        t as i64
    }
}

/// `spans` with every row moved `offset` later (saturating), texts
/// unchanged.
pub open spec fn shifted(spans: Seq<TimedSpan>, offset: int) -> Seq<TimedSpan> {
    spans.map_values(
        |s: TimedSpan|
            TimedSpan { start: clamp_i64(s.start + offset), end: clamp_i64(s.end + offset), text: s.text },
    )
}

fn shift_spans(spans: &mut Vec<TimedSpan>, offset: i64)
    ensures
        final(spans)@ == shifted(old(spans)@, offset as int),
{
    let ghost orig = spans@;
    let n = spans.len();
    let mut i: usize = 0;
    while i < n
        invariant
            n == spans.len() == orig.len(),
            i <= n,
            forall|k: int| 0 <= k < i ==> spans@[k] == #[trigger] shifted(orig, offset as int)[k],
            forall|k: int| i <= k < n ==> spans@[k] == orig[k],
        decreases n - i,
    {
        let old_span = spans[i].clone();
        assert(old_span == orig[i as int]);
        let moved = TimedSpan {
            start: saturating_add(old_span.start, offset),
            end: saturating_add(old_span.end, offset),
            text: old_span.text,
        };
        spans.set(i, moved);
        i += 1;
    }
    assert(spans@ =~= shifted(orig, offset as int));
}

/// Whether every row of `spans` stays inside `i64` when moved by `offset`.
pub open spec fn shift_fits(spans: Seq<TimedSpan>, offset: int) -> bool {
    forall|i: int|
        0 <= i < spans.len() ==> {
            &&& i64::MIN <= #[trigger] spans[i].start + offset <= i64::MAX
            &&& i64::MIN <= spans[i].end + offset <= i64::MAX
        }
}

/// Moving by zero changes nothing.
pub proof fn lemma_shift_zero(spans: Seq<TimedSpan>)
    ensures
        shifted(spans, 0) == spans,
{
    assert(shifted(spans, 0) =~= spans);
}

/// Moving by `a` and then by `b` is moving by `a + b`, as long as no row
/// leaves the range of `i64` on the way.
pub proof fn lemma_shift_compose(spans: Seq<TimedSpan>, a: int, b: int)
    requires
        shift_fits(spans, a),
        shift_fits(spans, a + b),
    ensures
        shifted(shifted(spans, a), b) == shifted(spans, a + b),
{
    assert(shifted(shifted(spans, a), b) =~= shifted(spans, a + b));
}

/// The result of one engine call: text plus whatever alignment rows the model
/// produced. Both row vectors may be empty - a model without timestamp
/// support, or a chunk the model returned nothing for.
#[derive(Debug, Default, PartialEq)]
pub struct Transcript {
    pub text: String,
    /// Language the model reports for this audio, when it reports one.
    pub language: Option<String>,
    pub segments: Vec<TimedSpan>,
    pub words: Vec<TimedSpan>,
}

impl Transcript {
    /// Text-only transcript, for models that produce no alignment data.
    pub fn text_only(text: String) -> (t: Transcript)
        ensures
            t.text == text,
            t.language is None,
            t.segments@.len() == 0,
            t.words@.len() == 0,
    {
        Transcript { text, language: None, segments: Vec::new(), words: Vec::new() }
    }

    /// Move every timed row `offset` samples later. Long audio is transcribed
    /// chunk by chunk and every engine times a chunk from that chunk's own
    /// start, so the offset of the chunk inside the recording has to be added
    /// back or every chunk restarts at zero.
    ///
    /// A row pushed past the range of `i64` stays at its bound.
    pub fn shift(&mut self, offset: i64)
        ensures
            final(self).text == old(self).text,
            final(self).language == old(self).language,
            final(self).segments@ == shifted(old(self).segments@, offset as int),
            final(self).words@ == shifted(old(self).words@, offset as int),
    {
        shift_spans(&mut self.segments, offset);
        shift_spans(&mut self.words, offset);
    }
}

/// Everything one engine call needs besides the audio: which model to use and
/// the knobs the HTTP layer lets a caller turn.
///
/// The toggles are tri-state on purpose. `None` means "whatever this model
/// family ships with", which is not the same as `Some(false)`: a family whose
/// published accuracy was measured with punctuation on must keep producing it
/// unless the caller actually asked for plain text.
#[derive(Debug, Clone, Default, PartialEq)]
pub struct TranscribeOptions {
    /// Request alias, or None for the default (first) model.
    pub model: Option<String>,
    /// Transcribe the speech or translate it.
    pub task: Task,
    /// Language hint for the audio, or None to let the model decide.
    pub language: Option<String>,
    /// Language to translate into; only meaningful for [`Task::Translate`],
    /// where None leaves the choice to the model (whisper only ever produces
    /// English).
    pub target_language: Option<String>,
    /// Punctuation and capitalization.
    pub pnc: Option<bool>,
    /// Inverse text normalization ("twenty five" -> "25").
    pub itn: Option<bool>,
}

/// What one loaded model is, as far as the HTTP layer needs to know. Every
/// field is what the engine reports about the model actually loaded, not what
/// the configuration asked for.
#[derive(Debug, Default, PartialEq)]
pub struct ModelInfo {
    /// Request alias, the id a client passes as `model`.
    pub id: String,
    /// Model architecture, e.g. "gigaam" or "whisper"; empty when unknown.
    pub arch: String,
    /// Language codes the model handles; empty when it does not enumerate any
    /// (a monolingual model usually does not).
    pub languages: Vec<String>,
    /// Whether the model can translate at all.
    pub supports_translate: bool,
    /// Languages it can translate into; empty means "whatever it was trained
    /// to produce" (whisper: English) rather than "none".
    pub translate_target_languages: Vec<String>,
    /// Longest audio one call may hand it, in milliseconds; None when
    /// unreported (zero is how a model says it has no limit of its own).
    pub max_audio_ms: Option<u64>,
}

/// The content of a [`ModelInfo`], as plain sequences.
pub struct ModelInfoView {
    pub id: Seq<char>,
    pub arch: Seq<char>,
    pub languages: Seq<Seq<char>>,
    pub supports_translate: bool,
    pub translate_target_languages: Seq<Seq<char>>,
    pub max_audio_ms: Option<u64>,
}

impl View for ModelInfo {
    type V = ModelInfoView;

    open spec fn view(&self) -> ModelInfoView {
        ModelInfoView {
            id: self.id@,
            arch: self.arch@,
            languages: string_views(self.languages@),
            supports_translate: self.supports_translate,
            translate_target_languages: string_views(self.translate_target_languages@),
            max_audio_ms: self.max_audio_ms,
        }
    }
}

impl Clone for ModelInfo {
    fn clone(&self) -> (r: Self)
        ensures
            r@ == self@,
    {
        ModelInfo {
            id: self.id.clone(),
            arch: self.arch.clone(),
            languages: copy_strings(&self.languages),
            supports_translate: self.supports_translate,
            translate_target_languages: copy_strings(&self.translate_target_languages),
            max_audio_ms: self.max_audio_ms,
        }
    }
}

/// Whether two language codes name the same language: equal once trimmed and
/// ASCII case-folded.
pub open spec fn spec_language_eq(a: Seq<char>, b: Seq<char>) -> bool {
    eq_ignore_case(trim(a), trim(b))
}

/// Compare two language codes the way a caller would expect: `EN` and ` en `
/// name the same language as `en`. Codes are ASCII, so this is not a Unicode
/// case-folding problem.
pub fn language_eq(a: &str, b: &str) -> (r: bool)
    ensures
        r == spec_language_eq(a@, b@),
{
    let va = chars_of(a);
    let vb = chars_of(b);
    let (alo, ahi) = trim_bounds(&va);
    let (blo, bhi) = trim_bounds(&vb);
    chars_eq_ignore_case(&va, &vb, alo, ahi, blo, bhi)
}

/// Index of the first of `langs` naming the same language as `target`.
pub open spec fn first_matching_language(langs: Seq<Seq<char>>, target: Seq<char>) -> Option<int>
    decreases langs.len(),
{
    if langs.len() == 0 {
        None
    } else if spec_language_eq(langs[0], target) {
        Some(0)
    } else {
        match first_matching_language(langs.drop_first(), target) {
            Some(i) => Some(i + 1),
            None => None,
        }
    }
}

/// [`first_matching_language`] finds the least index naming the language,
/// and finds none only when no entry names it.
pub proof fn lemma_first_matching_language(langs: Seq<Seq<char>>, target: Seq<char>)
    ensures
        match first_matching_language(langs, target) {
            Some(i) => 0 <= i < langs.len() && spec_language_eq(langs[i], target) && forall|j: int|
                0 <= j < i ==> !spec_language_eq(#[trigger] langs[j], target),
            None => forall|j: int| 0 <= j < langs.len() ==> !spec_language_eq(#[trigger] langs[j], target),
        },
    decreases langs.len(),
{
    if langs.len() > 0 {
        let rest = langs.drop_first();
        lemma_first_matching_language(rest, target);
        assert forall|j: int| 1 <= j < langs.len() implies langs[j] == rest[j - 1] by {}
        if !spec_language_eq(langs[0], target) {
            match first_matching_language(rest, target) {
                Some(i) => {
                    assert forall|j: int| 0 <= j < i + 1 implies !spec_language_eq(#[trigger] langs[j], target) by {
                        if j > 0 {
                            assert(langs[j] == rest[j - 1]);
                        }
                    }
                },
                None => {
                    assert forall|j: int| 0 <= j < langs.len() implies !spec_language_eq(#[trigger] langs[j], target) by {
                        if j > 0 {
                            assert(langs[j] == rest[j - 1]);
                        }
                    }
                },
            }
        }
    }
}

/// Index of the first of `langs` that names the same language as `target`.
fn find_language(langs: &Vec<String>, target: &str) -> (r: Option<usize>)
    ensures
        match r {
            Some(i) => i < langs.len() && spec_language_eq(langs@[i as int]@, target@) && forall|
                j: int,
            |
                0 <= j < i ==> !spec_language_eq(#[trigger] langs@[j]@, target@),
            None => forall|j: int|
                0 <= j < langs.len() ==> !spec_language_eq(#[trigger] langs@[j]@, target@),
        },
{
    let mut i: usize = 0;
    while i < langs.len()
        invariant
            i <= langs.len(),
            forall|j: int| 0 <= j < i ==> !spec_language_eq(#[trigger] langs@[j]@, target@),
        decreases langs.len() - i,
    {
        if language_eq(langs[i].as_str(), target) {
            return Some(i);
        }
        i += 1;
    }
    None
}

proof fn lemma_first_matching(langs: Seq<String>, target: Seq<char>, r: Option<usize>)
    requires
        match r {
            Some(i) => i < langs.len() && spec_language_eq(langs[i as int]@, target) && forall|
                j: int,
            |
                0 <= j < i ==> !spec_language_eq(#[trigger] langs[j]@, target),
            None => forall|j: int|
                0 <= j < langs.len() ==> !spec_language_eq(#[trigger] langs[j]@, target),
        },
    ensures
        first_matching_language(string_views(langs), target) == match r {
            Some(i) => Some(i as int),
            None => None::<int>,
        },
{
    let v = string_views(langs);
    lemma_first_matching_language(v, target);
    match first_matching_language(v, target) {
        Some(k) => {
            match r {
                Some(i) => {
                    if k < i {
                        assert(!spec_language_eq(langs[k]@, target));
                    }
                    if k > i {
                        assert(!spec_language_eq(v[i as int], target));
                    }
                },
                None => {
                    assert(!spec_language_eq(langs[k]@, target));
                },
            }
        },
        None => {
            if let Some(i) = r {
                assert(!spec_language_eq(v[i as int], target));
            }
        },
    }
}

impl ModelInfo {
    /// Why a model cannot serve a translation into `target`, if it cannot:
    /// one that cannot translate at all is refused whatever the target; one
    /// that lists its targets is refused a target none of them names; no
    /// target, or no list, leaves the choice to the model.
    pub open spec fn spec_translation_refusal(
        m: ModelInfoView,
        named: Seq<char>,
        target: Option<Seq<char>>,
    ) -> Option<Seq<char>> {
        if !m.supports_translate {
            Some(named + " cannot translate"@)
        } else {
            match target {
                None => None,
                Some(t) => {
                    let targets = m.translate_target_languages;
                    if targets.len() == 0 || first_matching_language(targets, t) is Some {
                        None
                    } else {
                        Some(
                            named + " cannot translate into '"@ + t + "' (supported: "@
                                + join_with(targets, ", "@) + ")"@,
                        )
                    }
                },
            }
        }
    }

    /// Why this model cannot serve this translation, if it cannot.
    ///
    /// The rule lives here, next to the fields it reads, because two layers
    /// apply it: the HTTP handler as a cheap pre-check before decoding an
    /// upload, and the engine as the authority right before the run. An
    /// empty target list is an information gap, not a claim of no targets.
    ///
    /// `named` is how the caller wants the model spelled in the message.
    pub fn translation_refusal(&self, named: &str, target: Option<&str>) -> (r: Option<String>)
        ensures
            r matches Some(m) ==> Self::spec_translation_refusal(self@, named@, opt_view(target)) == Some(m@),
            r is None ==> Self::spec_translation_refusal(self@, named@, opt_view(target)) is None,
    {
        if !self.supports_translate {
            let mut m = owned(named);
            m.append(" cannot translate");
            return Some(m);
        }
        let target = match target {
            Some(t) => t,
            None => return None,
        };
        let targets = &self.translate_target_languages;
        let found = find_language(targets, target);
        proof {
            lemma_first_matching(targets@, target@, found);
        }
        if targets.len() == 0 || found.is_some() {
            return None;
        }
        let mut m = owned(named);
        m.append(" cannot translate into '");
        m.append(target);
        m.append("' (supported: ");
        let listed = join_strings(targets, ", ");
        m.append(listed.as_str());
        m.append(")");
        Some(m)
    }

    /// The spelling of `target` handed to the model: its own listed spelling
    /// when one names the same language, the caller's trimmed otherwise.
    pub open spec fn spec_canonical_translate_target(m: ModelInfoView, target: Seq<char>) -> Seq<char> {
        let langs = m.translate_target_languages;
        match first_matching_language(langs, target) {
            Some(i) => langs[i],
            None => trim(target),
        }
    }

    /// The model's own spelling of `target`, when it lists one that names the
    /// same language. The library takes a short language code and decides
    /// what it accepts; handing it the caller's capitalization and spacing is
    /// asking it to reject something we just accepted.
    pub fn canonical_translate_target(&self, target: &str) -> (r: String)
        ensures
            r@ == Self::spec_canonical_translate_target(self@, target@),
    {
        let found = find_language(&self.translate_target_languages, target);
        proof {
            lemma_first_matching(self.translate_target_languages@, target@, found);
        }
        match found {
            Some(i) => self.translate_target_languages[i].clone(),
            None => trimmed(target),
        }
    }
}

/// Index of the model a request naming `alias` runs on: the first model
/// with that id when there is one, the first (default) model otherwise.
pub open spec fn spec_resolve_index(ids: Seq<Seq<char>>, alias: Option<Seq<char>>) -> Option<int> {
    let by_alias = match alias {
        Some(a) => if exists|i: int| 0 <= i < ids.len() && #[trigger] ids[i] == a {
            Some(
                choose|i: int|
                    0 <= i < ids.len() && #[trigger] ids[i] == a && forall|j: int|
                        0 <= j < i ==> #[trigger] ids[j] != a,
            )
        } else {
            None
        },
        None => None,
    };
    match by_alias {
        Some(i) => Some(i),
        None => if ids.len() > 0 {
            Some(0)
        } else {
            None
        },
    }
}

proof fn lemma_resolve_found(ids: Seq<Seq<char>>, a: Seq<char>, i: int)
    requires
        0 <= i < ids.len(),
        ids[i] == a,
        forall|j: int| 0 <= j < i ==> #[trigger] ids[j] != a,
    ensures
        spec_resolve_index(ids, Some(a)) == Some(i),
{
    let c = choose|c: int|
        0 <= c < ids.len() && #[trigger] ids[c] == a && forall|j: int|
            0 <= j < c ==> #[trigger] ids[j] != a;
    assert(c == i) by {
        if c < i {
            assert(ids[c] != a);
        }
        if c > i {
            assert(ids[i] != a);
        }
    }
}

/// The ids of `models`.
pub open spec fn model_ids(models: Seq<ModelInfo>) -> Seq<Seq<char>> {
    models.map_values(|m: ModelInfo| m.id@)
}

/// Where in `models` the model a request naming `alias` sits: that alias
/// when it is loaded (its first occurrence), the default (first) model
/// otherwise. None only when no model is loaded at all. `models` is in
/// configuration order.
pub fn resolve_index(models: &Vec<ModelInfo>, alias: Option<&str>) -> (r: Option<usize>)
    ensures
        match spec_resolve_index(model_ids(models@), opt_view(alias)) {
            Some(i) => r matches Some(k) && k == i && i < models@.len(),
            None => r is None,
        },
{
    let ghost ids = model_ids(models@);
    if let Some(a) = alias {
        let mut i: usize = 0;
        while i < models.len()
            invariant
                i <= models.len(),
                ids == model_ids(models@),
                alias == Some(a),
                forall|j: int| 0 <= j < i ==> #[trigger] ids[j] != a@,
            decreases models.len() - i,
        {
            if str_eq(models[i].id.as_str(), a) {
                assert(ids[i as int] == a@);
                proof {
                    lemma_resolve_found(ids, a@, i as int);
                }
                return Some(i);
            }
            i += 1;
        }
        assert(!exists|k: int| 0 <= k < ids.len() && #[trigger] ids[k] == a@);
    }
    if models.len() > 0 {
        Some(0)
    } else {
        None
    }
}

/// The model a request naming `alias` would actually run on: that alias
/// when it is loaded, the default model otherwise. None only when no model
/// is loaded at all. `models` is in configuration order.
pub fn resolve_model(models: &Vec<ModelInfo>, alias: Option<&str>) -> (r: Option<ModelInfo>)
    ensures
        match spec_resolve_index(model_ids(models@), opt_view(alias)) {
            Some(i) => r matches Some(m) && 0 <= i < models@.len() && m@ == models@[i]@,
            None => r is None,
        },
{
    match resolve_index(models, alias) {
        Some(i) => {
            let m = models[i].clone();
            assert(m@ == models@[i as int]@);
            Some(m)
        },
        None => None,
    }
}


/// The engines a server can run.
#[derive(Debug, Clone, Copy, PartialEq, Eq, Structural)]
pub enum EngineKind {
    /// The native engine (transcribe.cpp).
    Transcribe,
    /// The test engine.
    Fake,
}

/// The engine an `--engine` value names, or the error for one it does not.
pub open spec fn spec_engine_kind(name: Seq<char>) -> Result<EngineKind, Seq<char>> {
    if name == "transcribe"@ {
        Ok(EngineKind::Transcribe)
    } else if name == "fake"@ {
        Ok(EngineKind::Fake)
    } else {
        Err("unknown engine: "@ + name + " (expected \"transcribe\" or \"fake\")"@)
    }
}

/// See [`spec_engine_kind`].
pub fn engine_kind(name: &str) -> (r: Result<EngineKind, String>)
    ensures
        match spec_engine_kind(name@) {
            Ok(k) => r == Ok::<EngineKind, String>(k),
            Err(m) => r matches Err(e) && e@ == m,
        },
{
    if str_eq(name, "transcribe") {
        Ok(EngineKind::Transcribe)
    } else if str_eq(name, "fake") {
        Ok(EngineKind::Fake)
    } else {
        let mut m = owned("unknown engine: ");
        m.append(name);
        m.append(" (expected \"transcribe\" or \"fake\")");
        Err(m)
    }
}

/// Naming the same language is an equivalence: every code names its own
/// language, the relation is symmetric, and it is transitive.
pub proof fn lemma_language_eq_equivalence(a: Seq<char>, b: Seq<char>, c: Seq<char>)
    ensures
        spec_language_eq(a, a),
        spec_language_eq(a, b) == spec_language_eq(b, a),
        spec_language_eq(a, b) && spec_language_eq(b, c) ==> spec_language_eq(a, c),
{
}

/// The spelling handed to the model names the language the caller asked
/// for.
pub proof fn lemma_canonical_target_same_language(m: ModelInfoView, target: Seq<char>)
    ensures
        spec_language_eq(ModelInfo::spec_canonical_translate_target(m, target), target),
{
    let langs = m.translate_target_languages;
    lemma_first_matching_language(langs, target);
    if first_matching_language(langs, target) is None {
        lemma_trim_idempotent(target);
    }
}

/// The translation rule: a model that cannot translate refuses every
/// request; one that can accepts a request naming no target, accepts any
/// target when it lists none (an empty list is an information gap, not a
/// claim of no targets), and otherwise accepts exactly the targets naming
/// the same language as one it lists.
pub proof fn lemma_translation_rule(m: ModelInfoView, named: Seq<char>, target: Option<Seq<char>>)
    ensures
        !m.supports_translate ==> ModelInfo::spec_translation_refusal(m, named, target) is Some,
        m.supports_translate && target is None ==> ModelInfo::spec_translation_refusal(m, named, target) is None,
        m.supports_translate && m.translate_target_languages.len() == 0 ==> ModelInfo::spec_translation_refusal(m, named, target) is None,
        m.supports_translate && target is Some ==> (ModelInfo::spec_translation_refusal(m, named, target) is None
            <==> (m.translate_target_languages.len() == 0 || exists|i: int|
                0 <= i < m.translate_target_languages.len() && spec_language_eq(
                    #[trigger] m.translate_target_languages[i],
                    target->Some_0,
                ))),
{
    if let Some(t) = target {
        lemma_first_matching_language(m.translate_target_languages, t);
    }
}

} // verus!
