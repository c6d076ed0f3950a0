//! GET /v1/models: one OpenAI-style model object per loaded model.
//!
//! The three OpenAI keys are always there; what the library reports about
//! the loaded model is added next to them, so a client can pick a model by
//! what it can actually do. A field the model does not report is left out
//! rather than sent as an empty value.

use vstd::prelude::*;

use crate::engine::ModelInfo;
use crate::text::{copy_strings, string_views};

verus! {

/// The keys of one model object; a `None` key is omitted.
#[derive(Debug)]
pub struct ModelObject {
    pub id: String,
    pub object: &'static str,
    pub owned_by: &'static str,
    pub arch: Option<String>,
    pub languages: Option<Vec<String>>,
    /// A false capability is a real answer, not a missing one: always present.
    pub supports_translate: bool,
    pub translate_target_languages: Option<Vec<String>>,
    /// Milliseconds; rendered in seconds.
    pub max_audio_ms: Option<u64>,
}

/// The model object describing `model`.
pub fn model_object(model: &ModelInfo) -> (o: ModelObject)
    ensures
        o.id@ == model.id@,
        o.object@ == "model"@,
        o.owned_by@ == "transcribe-server"@,
        match o.arch {
            Some(a) => model.arch@.len() > 0 && a@ == model.arch@,
            None => model.arch@.len() == 0,
        },
        match o.languages {
            Some(l) => model.languages@.len() > 0 && string_views(l@) == string_views(model.languages@),
            None => model.languages@.len() == 0,
        },
        o.supports_translate == model.supports_translate,
        match o.translate_target_languages {
            Some(l) => model.translate_target_languages@.len() > 0 && string_views(l@) == string_views(
                model.translate_target_languages@,
            ),
            None => model.translate_target_languages@.len() == 0,
        },
        o.max_audio_ms == model.max_audio_ms,
{
    let arch = if model.arch.as_str().is_empty() {
        None
    } else {
        Some(model.arch.clone())
    };
    let languages = if model.languages.len() == 0 {
        None
    } else {
        Some(copy_strings(&model.languages))
    };
    let targets = if model.translate_target_languages.len() == 0 {
        None
    } else {
        Some(copy_strings(&model.translate_target_languages))
    };
    ModelObject {
        id: model.id.clone(),
        object: "model",
        owned_by: "transcribe-server",
        arch,
        languages,
        supports_translate: model.supports_translate,
        translate_target_languages: targets,
        max_audio_ms: model.max_audio_ms,
    }
}

} // verus!
