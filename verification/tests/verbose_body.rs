use transcribe_server::api::verbose::{body, joined_text, place_chunk, Chunk};
use transcribe_server::engine::{Task, TimedSpan, Transcript};

/// Seconds to samples at 16 kHz.
fn s(seconds: f64) -> i64 {
    (seconds * 16_000.0).round() as i64
}

fn span(start: f64, end: f64, text: &str) -> TimedSpan {
    TimedSpan { start: s(start), end: s(end), text: text.to_string() }
}

fn chunk(start: f64, end: f64, transcript: Transcript) -> Chunk {
    Chunk { span: s(start)..s(end), transcript }
}

/// Two chunks, the second one already shifted into absolute time.
fn two_chunks() -> Vec<Chunk> {
    vec![
        chunk(
            0.0,
            2.0,
            Transcript {
                text: "one two".to_string(),
                language: Some("ru".to_string()),
                segments: vec![span(0.0, 2.0, "one two")],
                words: vec![span(0.0, 1.0, "one"), span(1.0, 2.0, "two")],
            },
        ),
        chunk(
            2.0,
            3.5,
            Transcript {
                text: "three".to_string(),
                language: Some("ru".to_string()),
                segments: vec![span(2.0, 3.5, "three")],
                words: vec![span(2.0, 3.5, "three")],
            },
        ),
    ]
}

fn text_only(text: &str) -> Transcript {
    Transcript::text_only(text.to_string())
}

#[test]
fn body_has_the_openai_verbose_shape() {
    let body = body(&two_chunks(), Task::Transcribe, s(3.5) as usize, None);
    assert_eq!(body.task, "transcribe");
    assert_eq!(body.language, "ru");
    assert_eq!(body.duration_ms, 3500);
    assert_eq!(body.text, "one two three");
    let segments = &body.segments;
    assert_eq!(segments.len(), 2);
    assert_eq!(segments[0].id, 0);
    assert_eq!(segments[0].start_ms, 0);
    assert_eq!(segments[0].end_ms, 2000);
    assert_eq!(segments[0].text, "one two");
    assert_eq!(segments[1].id, 1);
    assert_eq!(segments[1].start_ms, 2000);
    assert_eq!(segments[1].end_ms, 3500);
}

#[test]
fn words_are_concatenated_in_order() {
    let body = body(&two_chunks(), Task::Transcribe, s(3.5) as usize, None);
    let words = body.words.expect("words array");
    let seen: Vec<(&str, i64)> = words.iter().map(|w| (w.word.as_str(), w.start_ms)).collect();
    assert_eq!(seen, [("one", 0), ("two", 1000), ("three", 2000)]);
}

#[test]
fn words_are_omitted_when_the_model_produced_none() {
    let chunks = vec![chunk(
        0.0,
        1.0,
        Transcript {
            text: "only text".to_string(),
            segments: vec![span(0.0, 1.0, "only text")],
            ..Transcript::default()
        },
    )];
    let body = body(&chunks, Task::Transcribe, s(1.0) as usize, None);
    assert!(body.words.is_none(), "{body:?}");
}

#[test]
fn chunk_without_segment_rows_falls_back_to_the_chunk_span() {
    let chunks = vec![chunk(0.0, 25.0, text_only("first")), chunk(25.0, 40.0, text_only("second"))];
    let body = body(&chunks, Task::Transcribe, s(40.0) as usize, None);
    let segments = &body.segments;
    assert_eq!(segments.len(), 2);
    assert_eq!(segments[0].start_ms, 0);
    assert_eq!(segments[0].end_ms, 25_000);
    assert_eq!(segments[0].text, "first");
    assert_eq!(segments[1].id, 1);
    assert_eq!(segments[1].start_ms, 25_000);
    assert_eq!(segments[1].end_ms, 40_000);
}

#[test]
fn silent_chunks_produce_no_segments_and_ids_stay_dense() {
    let chunks = vec![
        chunk(0.0, 1.0, text_only("")),
        chunk(
            1.0,
            2.0,
            Transcript {
                text: "spoken".to_string(),
                segments: vec![span(1.0, 2.0, "spoken")],
                ..Transcript::default()
            },
        ),
    ];
    let body = body(&chunks, Task::Transcribe, s(2.0) as usize, None);
    let segments = &body.segments;
    assert_eq!(segments.len(), 1);
    assert_eq!(segments[0].id, 0);
    assert_eq!(segments[0].text, "spoken");
    assert_eq!(body.text, "spoken");
}

#[test]
fn language_falls_back_to_the_requested_one_then_to_unknown() {
    let chunks = vec![chunk(0.0, 1.0, text_only("x"))];
    assert_eq!(body(&chunks, Task::Transcribe, 16_000, Some("ru")).language, "ru");
    assert_eq!(body(&chunks, Task::Transcribe, 16_000, None).language, "unknown");
    // A language the model detected wins over the requested one.
    let detected = vec![chunk(
        0.0,
        1.0,
        Transcript { text: "x".to_string(), language: Some("en".to_string()), ..Transcript::default() },
    )];
    assert_eq!(body(&detected, Task::Transcribe, 16_000, Some("ru")).language, "en");
}

#[test]
fn times_are_rounded_to_milliseconds() {
    // 0.3 s and a third of a second, in samples.
    let chunks = vec![chunk(
        0.0,
        1.0,
        Transcript {
            text: "x".to_string(),
            segments: vec![TimedSpan { start: 4800, end: 5333, text: "x".to_string() }],
            ..Transcript::default()
        },
    )];
    let body = body(&chunks, Task::Transcribe, 5333, None);
    assert_eq!(body.segments[0].start_ms, 300);
    assert_eq!(body.segments[0].end_ms, 333);
    assert_eq!(body.duration_ms, 333);
}

#[test]
fn no_chunks_yields_an_empty_but_well_formed_body() {
    let body = body(&Vec::new(), Task::Transcribe, 0, None);
    assert_eq!(body.text, "");
    assert_eq!(body.duration_ms, 0);
    assert_eq!(body.segments.len(), 0);
    assert!(body.words.is_none());
}

#[test]
fn joined_text_matches_the_plain_formats() {
    assert_eq!(joined_text(&two_chunks()), "one two three");
    assert_eq!(joined_text(&Vec::new()), "");
}

#[test]
fn the_task_is_reported_as_asked() {
    let body = body(&two_chunks(), Task::Translate, s(3.5) as usize, None);
    assert_eq!(body.task, "translate");
}

#[test]
fn half_milliseconds_round_away_from_zero() {
    let chunks = vec![chunk(
        0.0,
        1.0,
        Transcript {
            text: "x".to_string(),
            segments: vec![TimedSpan { start: 8, end: 24, text: "x".to_string() }],
            words: vec![TimedSpan { start: -8, end: 7, text: "x".to_string() }],
            ..Transcript::default()
        },
    )];
    let body = body(&chunks, Task::Transcribe, 0, None);
    assert_eq!(body.segments[0].start_ms, 1);
    assert_eq!(body.segments[0].end_ms, 2);
    let words = body.words.unwrap();
    assert_eq!(words[0].start_ms, -1);
    assert_eq!(words[0].end_ms, 0);
}

#[test]
fn a_placed_chunk_is_timed_from_the_recording_start() {
    let engine_rows = Transcript {
        text: "a".to_string(),
        language: None,
        segments: vec![TimedSpan { start: 0, end: 100, text: "a".to_string() }],
        words: vec![TimedSpan { start: 10, end: 90, text: "a".to_string() }],
    };
    let placed = place_chunk(engine_rows, 32_000, 48_000);
    assert_eq!(placed.span, 32_000..48_000);
    assert_eq!(placed.transcript.segments[0].start, 32_000);
    assert_eq!(placed.transcript.segments[0].end, 32_100);
    assert_eq!(placed.transcript.words[0].start, 32_010);
}
