use transcribe_server::engine::{resolve_model, ModelInfo};
use transcribe_server::server::lowered_chunk_us;

fn model(max_audio_ms: Option<u64>) -> ModelInfo {
    ModelInfo { id: "m".to_string(), max_audio_ms, ..ModelInfo::default() }
}

/// The chunk length in seconds for a configured length and a model.
fn chunk_sec(configured_sec: f64, m: Option<&ModelInfo>) -> f64 {
    match lowered_chunk_us((configured_sec * 1e6).round() as u64, m) {
        Some(us) => us as f64 / 1e6,
        None => configured_sec,
    }
}

#[test]
fn a_shorter_model_limit_lowers_the_configured_chunk() {
    assert_eq!(chunk_sec(25.0, Some(&model(Some(8_000)))), 7.5);
}

/// The chunk must land strictly inside the model's window.
#[test]
fn the_model_limit_is_never_used_to_its_last_second() {
    for limit in [2.0f64, 8.0, 30.0, 600.0] {
        let m = model(Some((limit * 1000.0) as u64));
        let chunk = chunk_sec(100_000.0, Some(&m));
        assert!(chunk < limit, "{chunk} does not stay inside {limit}");
        assert!(chunk >= limit * 0.5, "{chunk} wastes half of {limit}");
    }
}

#[test]
fn a_longer_model_limit_does_not_raise_it() {
    assert_eq!(chunk_sec(25.0, Some(&model(Some(600_000)))), 25.0);
}

#[test]
fn a_limit_equal_to_the_configured_chunk_still_lowers_it() {
    assert_eq!(chunk_sec(25.0, Some(&model(Some(25_000)))), 24.5);
}

#[test]
fn an_unreported_limit_keeps_the_configured_chunk() {
    assert_eq!(chunk_sec(25.0, Some(&model(None))), 25.0);
    // Zero is how the library spells "no limit of my own".
    assert_eq!(chunk_sec(25.0, Some(&model(Some(0)))), 25.0);
}

#[test]
fn no_models_loaded_keeps_the_configured_chunk() {
    assert_eq!(chunk_sec(25.0, None), 25.0);
}

#[test]
fn a_tiny_window_keeps_half_of_it() {
    assert_eq!(lowered_chunk_us(25_000_000, Some(&model(Some(600)))), Some(300_000));
}

fn named(id: &str, max_audio_ms: Option<u64>) -> ModelInfo {
    ModelInfo { id: id.to_string(), max_audio_ms, ..ModelInfo::default() }
}

/// An unknown alias runs on the default model, so its limit is the one that
/// applies -- the same fallback the engine itself makes.
#[test]
fn an_unknown_alias_uses_the_default_models_limit() {
    let models = vec![named("first", Some(8_000)), named("second", Some(20_000))];
    let for_alias = |alias: Option<&str>| chunk_sec(25.0, resolve_model(&models, alias).as_ref());
    assert_eq!(for_alias(Some("no-such-model")), 7.5);
    assert_eq!(for_alias(None), 7.5);
    assert_eq!(for_alias(Some("second")), 19.5);
}
