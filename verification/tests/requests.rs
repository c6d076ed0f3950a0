use transcribe_server::api::transcriptions::{
    multipart_error, parse_toggle_field, plan_request, reject_impossible_translation,
    single_translate_target, ResponseFormat, ServerDefaults, UploadFields,
};
use transcribe_server::engine::{ModelInfo, Task};

fn fields() -> UploadFields {
    UploadFields { has_file: true, ..UploadFields::default() }
}

fn model(id: &str, translate: bool, targets: &[&str]) -> ModelInfo {
    ModelInfo {
        id: id.to_string(),
        supports_translate: translate,
        translate_target_languages: targets.iter().map(|t| t.to_string()).collect(),
        ..ModelInfo::default()
    }
}

fn some(s: &str) -> Option<String> {
    Some(s.to_string())
}

#[test]
fn a_plain_request_is_json_with_the_server_defaults() {
    let defaults = ServerDefaults { language: some("ru"), pnc: Some(true), itn: None };
    let plan = plan_request(fields(), Task::Transcribe, None, &defaults).ok().unwrap();
    assert_eq!(plan.format, ResponseFormat::Json);
    assert_eq!(plan.options.language.as_deref(), Some("ru"));
    assert_eq!(plan.options.pnc, Some(true));
    assert_eq!(plan.options.itn, None);
    assert_eq!(plan.options.task, Task::Transcribe);
    assert_eq!(plan.reported_language.as_deref(), Some("ru"));
}

#[test]
fn request_fields_win_over_defaults() {
    let defaults = ServerDefaults { language: some("ru"), pnc: Some(true), itn: Some(true) };
    let f = UploadFields {
        language: some("  en "),
        pnc: some("OFF"),
        response_format: some("verbose_json"),
        model: some("m"),
        ..fields()
    };
    let plan = plan_request(f, Task::Transcribe, None, &defaults).ok().unwrap();
    assert_eq!(plan.format, ResponseFormat::VerboseJson);
    assert_eq!(plan.options.language.as_deref(), Some("en"));
    assert_eq!(plan.options.pnc, Some(false));
    assert_eq!(plan.options.itn, Some(true));
    assert_eq!(plan.options.model.as_deref(), Some("m"));
    // A blank language falls back to the default.
    let f = UploadFields { language: some("   "), ..fields() };
    let plan = plan_request(f, Task::Transcribe, None, &defaults).ok().unwrap();
    assert_eq!(plan.options.language.as_deref(), Some("ru"));
}

#[test]
fn fields_are_checked_in_order() {
    let d = ServerDefaults::default();
    let f = UploadFields { has_file: false, pnc: some("maybe"), itn: some("x"), response_format: some("srt"), ..fields() };
    assert_eq!(plan_request(f, Task::Transcribe, None, &d).err().unwrap().message, "pnc: expected on or off, got: maybe");
    let f = UploadFields { has_file: false, itn: some("x"), response_format: some("srt"), ..fields() };
    assert_eq!(plan_request(f, Task::Transcribe, None, &d).err().unwrap().message, "itn: expected on or off, got: x");
    let f = UploadFields { has_file: false, response_format: some("srt"), ..fields() };
    assert_eq!(
        plan_request(f, Task::Transcribe, None, &d).err().unwrap().message,
        "unsupported response_format: srt (expected json, verbose_json or text)"
    );
    let f = UploadFields { has_file: false, ..fields() };
    let err = plan_request(f, Task::Transcribe, None, &d).err().unwrap();
    assert_eq!((err.status, err.message.as_str()), (400, "missing required field: file"));
}

#[test]
fn a_long_bad_toggle_is_echoed_truncated() {
    let long = "x".repeat(40);
    let err = parse_toggle_field("pnc", Some(long)).err().unwrap();
    assert_eq!(err.message, format!("pnc: expected on or off, got: {}...", "x".repeat(32)));
    assert_eq!(parse_toggle_field("itn", Some("yes".to_string())).ok().unwrap(), Some(true));
    assert_eq!(parse_toggle_field("itn", None).ok().unwrap(), None);
}

#[test]
fn an_impossible_translation_is_refused_before_decoding() {
    let d = ServerDefaults::default();
    let gigaam = model("ru", false, &[]);
    let f = UploadFields { model: some("ru"), ..fields() };
    assert_eq!(
        plan_request(f, Task::Translate, Some(&gigaam), &d).err().unwrap().message,
        "model 'ru' cannot translate"
    );
    // An unknown alias names the model it resolved to.
    let f = UploadFields { model: some("nope"), ..fields() };
    assert_eq!(
        plan_request(f, Task::Translate, Some(&gigaam), &d).err().unwrap().message,
        "model 'nope' resolves to 'ru' cannot translate"
    );
    // The same model transcribes fine.
    let f = UploadFields { model: some("ru"), ..fields() };
    assert!(plan_request(f, Task::Transcribe, Some(&gigaam), &d).is_ok());
}

#[test]
fn a_translation_target_is_normalized_to_the_models_spelling() {
    let d = ServerDefaults { language: some("ru"), ..ServerDefaults::default() };
    let canary = model("c", true, &["en", "de"]);
    let f = UploadFields { target_language: some(" EN "), ..fields() };
    let plan = plan_request(f, Task::Translate, Some(&canary), &d).ok().unwrap();
    assert_eq!(plan.options.target_language.as_deref(), Some("en"));
    assert_eq!(plan.options.task, Task::Translate);
    assert_eq!(plan.reported_language.as_deref(), Some("en"));
    let f = UploadFields { target_language: some("fr"), ..fields() };
    assert_eq!(
        plan_request(f, Task::Translate, Some(&canary), &d).err().unwrap().message,
        "model 'c' cannot translate into 'fr' (supported: en, de)"
    );
}

#[test]
fn a_translation_reports_the_single_target_when_none_was_named() {
    let d = ServerDefaults { language: some("ru"), ..ServerDefaults::default() };
    let whisper = model("w", true, &["en"]);
    let plan = plan_request(fields(), Task::Translate, Some(&whisper), &d).ok().unwrap();
    assert_eq!(plan.options.target_language, None);
    assert_eq!(plan.reported_language.as_deref(), Some("en"));
    assert_eq!(single_translate_target(Some(&model("x", true, &["en", "de"]))), None);
    assert_eq!(single_translate_target(None), None);
}

#[test]
fn no_model_loaded_is_left_to_the_engine() {
    assert!(reject_impossible_translation(Some("x"), None, Some("en")).is_ok());
    let d = ServerDefaults::default();
    let f = UploadFields { target_language: some(" de "), ..fields() };
    let plan = plan_request(f, Task::Translate, None, &d).ok().unwrap();
    assert_eq!(plan.options.target_language.as_deref(), Some("de"));
}

#[test]
fn multipart_errors_keep_the_error_shape() {
    let e = multipart_error(true, "length limit exceeded", 256);
    assert_eq!((e.status, e.message.as_str()), (413, "request body exceeds the 256 MB limit"));
    let e = multipart_error(false, "bad boundary", 256);
    assert_eq!((e.status, e.message.as_str()), (400, "invalid multipart body: bad boundary"));
}
