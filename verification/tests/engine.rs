use transcribe_server::engine::fake::FakeEngine;
use transcribe_server::engine::{
    engine_kind, EngineKind,
    language_eq, resolve_model, CancelFlag, EngineError, ModelInfo, Task, TimedSpan,
    TranscribeOptions, Transcript,
};

fn span(start: i64, end: i64, text: &str) -> TimedSpan {
    TimedSpan { start, end, text: text.to_string() }
}

/// Seconds to samples at 16 kHz.
fn s(seconds: f64) -> i64 {
    (seconds * 16_000.0).round() as i64
}

#[test]
fn text_only_has_no_rows() {
    let t = Transcript::text_only("hello".to_string());
    assert_eq!(t.text, "hello");
    assert!(t.language.is_none());
    assert!(t.segments.is_empty());
    assert!(t.words.is_empty());
}

#[test]
fn shift_moves_segments_and_words() {
    let mut t = Transcript {
        text: "a b".to_string(),
        language: Some("ru".to_string()),
        segments: vec![span(s(0.0), s(2.0), "a b")],
        words: vec![span(s(0.0), s(1.0), "a"), span(s(1.5), s(2.0), "b")],
    };
    t.shift(s(10.5));
    assert_eq!(t.segments, vec![span(s(10.5), s(12.5), "a b")]);
    assert_eq!(t.words, vec![span(s(10.5), s(11.5), "a"), span(s(12.0), s(12.5), "b")]);
    // Text and language are untouched.
    assert_eq!(t.text, "a b");
    assert_eq!(t.language.as_deref(), Some("ru"));
}

#[test]
fn shift_by_zero_is_identity() {
    let mut t = Transcript {
        text: "x".to_string(),
        language: None,
        segments: vec![span(s(1.0), s(2.0), "x")],
        words: vec![span(s(1.0), s(2.0), "x")],
    };
    let before = t.clone_for_test();
    t.shift(0);
    assert_eq!(t, before);
}

#[test]
fn shift_of_empty_transcript_is_fine() {
    let mut t = Transcript::text_only(String::new());
    t.shift(s(3.0));
    assert!(t.segments.is_empty());
    assert!(t.words.is_empty());
}

#[test]
fn shift_saturates_at_the_bounds() {
    let mut t = Transcript {
        text: String::new(),
        language: None,
        segments: vec![span(i64::MAX - 1, i64::MAX, "x")],
        words: vec![span(i64::MIN, i64::MIN + 1, "y")],
    };
    t.shift(5);
    assert_eq!(t.segments[0].start, i64::MAX);
    t.shift(-10);
    assert_eq!(t.words[0].start, i64::MIN);
}

#[test]
fn shifting_twice_is_shifting_by_the_sum() {
    let base = Transcript {
        text: "x".to_string(),
        language: None,
        segments: vec![span(100, 200, "x")],
        words: vec![span(100, 150, "x"), span(150, 200, "y")],
    };
    let mut a = base.clone_for_test();
    a.shift(30);
    a.shift(-7);
    let mut b = base.clone_for_test();
    b.shift(23);
    assert_eq!(a, b);
}

trait CloneForTest {
    fn clone_for_test(&self) -> Self;
}

impl CloneForTest for Transcript {
    fn clone_for_test(&self) -> Self {
        Transcript {
            text: self.text.clone(),
            language: self.language.clone(),
            segments: self.segments.clone(),
            words: self.words.clone(),
        }
    }
}

fn options(model: Option<&str>, language: Option<&str>) -> TranscribeOptions {
    TranscribeOptions {
        model: model.map(str::to_string),
        language: language.map(str::to_string),
        ..TranscribeOptions::default()
    }
}

#[test]
fn transcribe_without_model_uses_default() {
    let engine = FakeEngine;
    let result = engine
        .transcribe(3, &TranscribeOptions::default(), &CancelFlag::new())
        .expect("transcribe ok");
    assert_eq!(result.text, "fake:default:3");
    assert!(result.language.is_none());
}

#[test]
fn set_toggles_are_echoed_and_unset_ones_are_not() {
    let engine = FakeEngine;
    let both = TranscribeOptions { pnc: Some(false), itn: Some(true), ..options(Some("ru"), None) };
    let result = engine.transcribe(0, &both, &CancelFlag::new()).expect("transcribe ok");
    assert_eq!(result.text, "fake:ru:0:pnc=off:itn=on");
    let one = TranscribeOptions { pnc: Some(true), ..TranscribeOptions::default() };
    let result = engine.transcribe(0, &one, &CancelFlag::new()).expect("transcribe ok");
    assert_eq!(result.text, "fake:default:0:pnc=on");
}

#[test]
fn a_translation_request_is_echoed() {
    let engine = FakeEngine;
    let asked = TranscribeOptions {
        task: Task::Translate,
        target_language: Some("en".to_string()),
        ..options(Some("m"), None)
    };
    let result = engine.transcribe(10, &asked, &CancelFlag::new()).expect("transcribe ok");
    assert_eq!(result.text, "fake:m:10:translate=en");
    let auto = TranscribeOptions { task: Task::Translate, ..TranscribeOptions::default() };
    let result = engine.transcribe(10, &auto, &CancelFlag::new()).expect("transcribe ok");
    assert_eq!(result.text, "fake:default:10:translate=auto");
}

#[test]
fn transcribe_with_model_and_empty_pcm() {
    let engine = FakeEngine;
    let result = engine
        .transcribe(0, &options(Some("ru"), Some("ru")), &CancelFlag::new())
        .expect("transcribe ok");
    assert_eq!(result.text, "fake:ru:0");
    assert_eq!(result.language.as_deref(), Some("ru"));
    // Zero-length audio still yields rows, all of zero length.
    assert!(result.segments.iter().all(|s| s.start == 0 && s.end == 0));
    assert!(result.words.iter().all(|w| w.start == 0 && w.end == 0));
}

#[test]
fn segment_spans_the_whole_buffer() {
    let engine = FakeEngine;
    let result = engine
        .transcribe(32_000, &TranscribeOptions::default(), &CancelFlag::new())
        .expect("transcribe ok");
    assert_eq!(result.segments.len(), 1);
    assert_eq!(result.segments[0].start, 0);
    assert_eq!(result.segments[0].end, s(2.0));
    assert_eq!(result.segments[0].text, result.text);
}

#[test]
fn words_are_ordered_and_cover_the_buffer() {
    let engine = FakeEngine;
    let result = engine
        .transcribe(16_000, &TranscribeOptions::default(), &CancelFlag::new())
        .expect("transcribe ok");
    assert_eq!(result.words.len(), 3, "{:?}", result.words);
    assert_eq!(result.words[0].start, 0);
    assert_eq!(result.words.last().expect("last word").end, s(1.0));
    for pair in result.words.windows(2) {
        assert!(pair[0].start < pair[0].end, "empty word: {:?}", pair[0]);
        assert_eq!(pair[0].end, pair[1].start, "words must be contiguous");
    }
    let texts: Vec<&str> = result.words.iter().map(|w| w.text.as_str()).collect();
    assert_eq!(texts, ["fake", "default", "16000"]);
    assert_eq!(result.words[1].start, 5333);
}

#[test]
fn models_lists_fake_model() {
    let engine = FakeEngine;
    let models = engine.models();
    assert_eq!(models.len(), 1);
    assert_eq!(models[0].id, "fake-model");
    assert!(models[0].supports_translate);
}

#[test]
fn backend_is_fake() {
    let engine = FakeEngine;
    assert_eq!(engine.backend(), "fake");
}

#[test]
fn a_cancelled_call_does_no_work() {
    let cancel = CancelFlag::new();
    cancel.cancel();
    let err = FakeEngine
        .transcribe(16, &TranscribeOptions::default(), &cancel)
        .err()
        .expect("a cancelled call must not transcribe");
    assert!(matches!(err, EngineError::Cancelled));
}

#[test]
fn engine_errors_display_like_the_original_messages() {
    assert_eq!(EngineError::UnknownModel("x".into()).message(), "unknown model: x");
    assert_eq!(EngineError::Unsupported("nope".into()).message(), "nope");
    assert_eq!(EngineError::Cancelled.message(), "transcription cancelled");
    assert_eq!(EngineError::Failed("boom".into()).message(), "transcription failed: boom");
}

#[test]
fn task_names_match_the_verbose_body() {
    assert_eq!(Task::Transcribe.as_str(), "transcribe");
    assert_eq!(Task::Translate.as_str(), "translate");
    assert_eq!(Task::default(), Task::Transcribe);
}

#[test]
fn language_codes_compare_trimmed_and_case_folded() {
    assert!(language_eq("EN", " en "));
    assert!(language_eq("en", "en"));
    assert!(!language_eq("en", "eng"));
    assert!(!language_eq("ru", "en"));
    assert!(language_eq("", "  "));
}

fn model(id: &str, targets: &[&str], translate: bool) -> ModelInfo {
    ModelInfo {
        id: id.to_string(),
        supports_translate: translate,
        translate_target_languages: targets.iter().map(|t| t.to_string()).collect(),
        ..ModelInfo::default()
    }
}

#[test]
fn translation_refusal_follows_the_rule() {
    let whisper = model("w", &[], true);
    assert_eq!(whisper.translation_refusal("model 'w'", Some("de")), None);
    let gigaam = model("g", &[], false);
    assert_eq!(gigaam.translation_refusal("model 'g'", None).as_deref(), Some("model 'g' cannot translate"));
    let listed = model("c", &["en", "ru"], true);
    assert_eq!(listed.translation_refusal("model 'c'", Some(" EN ")), None);
    assert_eq!(listed.translation_refusal("model 'c'", None), None);
    assert_eq!(
        listed.translation_refusal("model 'c'", Some("de")).as_deref(),
        Some("model 'c' cannot translate into 'de' (supported: en, ru)")
    );
}

#[test]
fn canonical_target_uses_the_models_spelling() {
    let listed = model("c", &["en", "ru"], true);
    assert_eq!(listed.canonical_translate_target(" RU "), "ru");
    assert_eq!(listed.canonical_translate_target(" de "), "de");
}

#[test]
fn resolve_model_falls_back_to_the_default() {
    let models = vec![model("first", &[], false), model("second", &[], false)];
    assert_eq!(resolve_model(&models, Some("second")).unwrap().id, "second");
    assert_eq!(resolve_model(&models, Some("nope")).unwrap().id, "first");
    assert_eq!(resolve_model(&models, None).unwrap().id, "first");
    assert!(resolve_model(&Vec::new(), Some("x")).is_none());
}

#[test]
fn the_engine_flag_names_one_of_two_engines() {
    assert_eq!(engine_kind("fake"), Ok(EngineKind::Fake));
    assert_eq!(engine_kind("transcribe"), Ok(EngineKind::Transcribe));
    assert_eq!(
        engine_kind("whisper"),
        Err("unknown engine: whisper (expected \"transcribe\" or \"fake\")".to_string())
    );
}
