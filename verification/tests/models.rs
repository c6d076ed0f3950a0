use transcribe_server::api::models::model_object;
use transcribe_server::engine::ModelInfo;

#[test]
fn openai_keys_are_always_present() {
    let object = model_object(&ModelInfo { id: "ru".to_string(), ..ModelInfo::default() });
    assert_eq!(object.id, "ru");
    assert_eq!(object.object, "model");
    assert_eq!(object.owned_by, "transcribe-server");
}

#[test]
fn unreported_capabilities_are_omitted_not_emptied() {
    let object = model_object(&ModelInfo { id: "ru".to_string(), ..ModelInfo::default() });
    assert!(object.arch.is_none(), "arch should be omitted");
    assert!(object.languages.is_none(), "languages should be omitted");
    assert!(object.translate_target_languages.is_none(), "translate_target_languages should be omitted");
    assert!(object.max_audio_ms.is_none(), "max_audio_sec should be omitted");
    // A false capability is a real answer, not a missing one.
    assert!(!object.supports_translate);
}

#[test]
fn reported_capabilities_are_carried_over() {
    let object = model_object(&ModelInfo {
        id: "ru".to_string(),
        arch: "gigaam".to_string(),
        languages: vec!["ru".to_string()],
        supports_translate: true,
        translate_target_languages: vec!["en".to_string()],
        max_audio_ms: Some(30_000),
    });
    assert_eq!(object.arch.as_deref(), Some("gigaam"));
    assert_eq!(object.languages, Some(vec!["ru".to_string()]));
    assert!(object.supports_translate);
    assert_eq!(object.translate_target_languages, Some(vec!["en".to_string()]));
    assert_eq!(object.max_audio_ms, Some(30_000));
}
