//! POST /v1/audio/transcriptions and /v1/audio/translations: what a
//! multipart request asks for, checked before anything expensive happens.
//!
//! Fields: `file` (required), `model`, `language`, `response_format`
//! (json|verbose_json|text, default json), `target_language`, `pnc`, `itn`.
//! Unknown extra fields are ignored, like the OpenAI API does. Every field is
//! validated only after the whole body was read, in a fixed order: `pnc`,
//! `itn`, `response_format`, `file`, then whether the model can translate.

use vstd::prelude::*;

use super::error::ApiError;
use crate::config::{spec_toggle, toggle};
use crate::engine::{ModelInfo, ModelInfoView, Task, TranscribeOptions};
use crate::text::{
    chars_of, copy_opt_string, opt_string_view, opt_view, owned, str_eq, string_from_range, trim,
    trimmed,
};

verus! {

/// The three shapes an answer can take.
#[derive(Debug, Clone, Copy, PartialEq, Eq, Structural)]
pub enum ResponseFormat {
    Json,
    VerboseJson,
    Text,
}

/// The multipart fields of one request, as read: whether a `file` part was
/// there, and the text of each other known field that was.
#[derive(Debug, Default)]
pub struct UploadFields {
    pub has_file: bool,
    pub model: Option<String>,
    pub language: Option<String>,
    pub response_format: Option<String>,
    pub target_language: Option<String>,
    pub pnc: Option<String>,
    pub itn: Option<String>,
}

/// Server-wide defaults a request field overrides.
#[derive(Debug, Default)]
pub struct ServerDefaults {
    pub language: Option<String>,
    pub pnc: Option<bool>,
    pub itn: Option<bool>,
}

/// What an accepted request will do.
#[derive(Debug)]
pub struct RequestPlan {
    pub format: ResponseFormat,
    pub options: TranscribeOptions,
    /// The language a `verbose_json` answer reports when no model detects
    /// one: the source language for a transcription, the target language for
    /// a translation (the text is in the target language).
    pub reported_language: Option<String>,
}

/// How a value is echoed in an error: at most 32 characters, then `...`
/// when it was longer. A field is only bounded by the upload limit, and an
/// error body that repeats it whole would defeat the limit.
pub open spec fn shown_value(text: Seq<char>) -> Seq<char> {
    if text.len() > 32 { text.take(32) + "..."@ } else { text }
}

/// Why a toggle field's value is refused, if it is.
pub open spec fn toggle_field_error(name: Seq<char>, value: Option<Seq<char>>) -> Option<Seq<char>> {
    match value {
        None => None,
        Some(text) => match spec_toggle(text) {
            Ok(_) => None,
            Err(_) => Some(name + ": expected on or off, got: "@ + shown_value(text)),
        },
    }
}

/// The value of a toggle field that was accepted.
pub open spec fn toggle_field_value(value: Option<Seq<char>>) -> Option<bool> {
    match value {
        None => None,
        Some(text) => match spec_toggle(text) {
            Ok(b) => Some(b),
            Err(_) => None,
        },
    }
}

/// A boolean request field, spelled exactly like its `--pnc`/`--itn` flag.
pub fn parse_toggle_field(name: &str, value: Option<String>) -> (r: Result<Option<bool>, ApiError>)
    ensures
        match toggle_field_error(name@, opt_string_view(value)) {
            Some(m) => r matches Err(e) && e.status == 400 && e.message@ == m
                && e.error_type@ == "invalid_request_error"@,
            None => r == Ok::<Option<bool>, ApiError>(toggle_field_value(opt_string_view(value))),
        },
{
    match value {
        None => Ok(None),
        Some(text) => match toggle(text.as_str()) {
            Ok(b) => Ok(Some(b)),
            Err(_) => {
                let v = chars_of(text.as_str());
                let mut m = owned(name);
                m.append(": expected on or off, got: ");
                if v.len() > 32 {
                    let shown = string_from_range(&v, 0, 32);
                    m.append(shown.as_str());
                    m.append("...");
                    assert(v@.subrange(0, 32) == text@.take(32));
                } else {
                    m.append(text.as_str());
                }
                Err(ApiError::bad_request(m))
            },
        },
    }
}

/// The format a `response_format` value names, or the error for one it
/// does not.
pub open spec fn spec_response_format(value: Option<Seq<char>>) -> Result<ResponseFormat, Seq<char>> {
    match value {
        None => Ok(ResponseFormat::Json),
        Some(v) => if v == "json"@ {
            Ok(ResponseFormat::Json)
        } else if v == "verbose_json"@ {
            Ok(ResponseFormat::VerboseJson)
        } else if v == "text"@ {
            Ok(ResponseFormat::Text)
        } else {
            Err("unsupported response_format: "@ + v + " (expected json, verbose_json or text)"@)
        },
    }
}

/// Each accepted `response_format` value names its own format: absent and
/// `json` give `Json`, `verbose_json` gives `VerboseJson`, `text` gives
/// `Text`, and no other value is accepted.
pub proof fn lemma_response_formats(value: Option<Seq<char>>)
    ensures
        spec_response_format(None) == Ok::<ResponseFormat, Seq<char>>(ResponseFormat::Json),
        spec_response_format(Some("json"@)) == Ok::<ResponseFormat, Seq<char>>(ResponseFormat::Json),
        spec_response_format(Some("verbose_json"@)) == Ok::<ResponseFormat, Seq<char>>(ResponseFormat::VerboseJson),
        spec_response_format(Some("text"@)) == Ok::<ResponseFormat, Seq<char>>(ResponseFormat::Text),
        spec_response_format(value) is Ok ==> value is None || value == Some("json"@) || value == Some(
            "verbose_json"@,
        ) || value == Some("text"@),
{
    reveal_strlit("json");
    reveal_strlit("verbose_json");
    reveal_strlit("text");
    assert("json"@.len() != "verbose_json"@.len());
    assert("json"@.len() == "text"@.len() && "json"@[0] != "text"@[0]);
    assert("text"@.len() != "verbose_json"@.len());
}

/// `response_format`: absent or `json`, `verbose_json`, `text`.
pub fn parse_response_format(value: Option<&str>) -> (r: Result<ResponseFormat, ApiError>)
    ensures
        match spec_response_format(opt_view(value)) {
            Ok(f) => r matches Ok(g) && g == f,
            Err(m) => r matches Err(e) && e.status == 400 && e.message@ == m
                && e.error_type@ == "invalid_request_error"@,
        },
        // Each accepted value plans its own format, and only that value
        // plans it; an absent field means `json`.
        opt_view(value) is None ==> r == Ok::<ResponseFormat, ApiError>(ResponseFormat::Json),
        opt_view(value) == Some("json"@) ==> r == Ok::<ResponseFormat, ApiError>(ResponseFormat::Json),
        opt_view(value) == Some("verbose_json"@) ==> r == Ok::<ResponseFormat, ApiError>(ResponseFormat::VerboseJson),
        opt_view(value) == Some("text"@) ==> r == Ok::<ResponseFormat, ApiError>(ResponseFormat::Text),
        r == Ok::<ResponseFormat, ApiError>(ResponseFormat::Json) ==> opt_view(value) is None || opt_view(value) == Some("json"@),
        r == Ok::<ResponseFormat, ApiError>(ResponseFormat::VerboseJson) ==> opt_view(value) == Some("verbose_json"@),
        r == Ok::<ResponseFormat, ApiError>(ResponseFormat::Text) ==> opt_view(value) == Some("text"@),
{
    proof {
        reveal_strlit("json");
        reveal_strlit("verbose_json");
        reveal_strlit("text");
        assert("json"@.len() != "verbose_json"@.len());
        assert("json"@.len() == "text"@.len() && "json"@[0] != "text"@[0]);
        assert("text"@.len() != "verbose_json"@.len());
    }
    match value {
        None => Ok(ResponseFormat::Json),
        Some(v) => if str_eq(v, "json") {
            Ok(ResponseFormat::Json)
        } else if str_eq(v, "verbose_json") {
            Ok(ResponseFormat::VerboseJson)
        } else if str_eq(v, "text") {
            Ok(ResponseFormat::Text)
        } else {
            let mut m = owned("unsupported response_format: ");
            m.append(v);
            m.append(" (expected json, verbose_json or text)");
            Err(ApiError::bad_request(m))
        },
    }
}

/// How an error names the model a request resolved to: an alias that
/// resolved to a different model is spelled out, so the message names the
/// model that was actually consulted.
pub open spec fn spec_named(requested: Option<Seq<char>>, id: Seq<char>) -> Seq<char> {
    match requested {
        Some(alias) => if alias != id {
            "model '"@ + alias + "' resolves to '"@ + id + "'"@
        } else {
            "model '"@ + id + "'"@
        },
        None => "model '"@ + id + "'"@,
    }
}

/// Why a translation is refused before anything expensive happens, if it is.
/// No model loaded is the engine's to report, not this.
pub open spec fn translation_error(
    requested: Option<Seq<char>>,
    model: Option<ModelInfoView>,
    target: Option<Seq<char>>,
) -> Option<Seq<char>> {
    match model {
        None => None,
        Some(m) => ModelInfo::spec_translation_refusal(m, spec_named(requested, m.id), target),
    }
}

/// Refuse a translation the model cannot produce, before anything expensive
/// happens. The rule itself lives on [`ModelInfo`], which is also what the
/// engine asks right before the run.
pub fn reject_impossible_translation(
    requested: Option<&str>,
    model: Option<&ModelInfo>,
    target: Option<&str>,
) -> (r: Result<(), ApiError>)
    ensures
        match translation_error(
            opt_view(requested),
            match model {
                Some(m) => Some(m@),
                None => None,
            },
            opt_view(target),
        ) {
            Some(msg) => r matches Err(e) && e.status == 400 && e.message@ == msg
                && e.error_type@ == "invalid_request_error"@,
            None => r is Ok,
        },
{
    let model = match model {
        Some(m) => m,
        None => return Ok(()),
    };
    let mut named = owned("model '");
    match requested {
        Some(alias) if !str_eq(alias, model.id.as_str()) => {
            named.append(alias);
            named.append("' resolves to '");
            named.append(model.id.as_str());
            named.append("'");
        },
        _ => {
            named.append(model.id.as_str());
            named.append("'");
        },
    }
    match model.translation_refusal(named.as_str(), target) {
        Some(refusal) => Err(ApiError::bad_request(refusal)),
        None => Ok(()),
    }
}

/// The language a translation comes out in when the caller named none:
/// knowable only when the model advertises exactly one target.
pub open spec fn spec_single_target(model: Option<ModelInfoView>) -> Option<Seq<char>> {
    match model {
        Some(m) => if m.translate_target_languages.len() == 1 {
            Some(m.translate_target_languages[0])
        } else {
            None
        },
        None => None,
    }
}

pub fn single_translate_target(model: Option<&ModelInfo>) -> (r: Option<String>)
    ensures
        opt_string_view(r) == spec_single_target(
            match model {
                Some(m) => Some(m@),
                None => None,
            },
        ),
{
    match model {
        Some(m) => if m.translate_target_languages.len() == 1 {
            Some(m.translate_target_languages[0].clone())
        } else {
            None
        },
        None => None,
    }
}

/// Why a request is refused before its upload is decoded, if it is: the
/// first failing check, in the fixed order.
pub open spec fn request_error(
    fields: UploadFields,
    task: Task,
    model: Option<ModelInfoView>,
) -> Option<Seq<char>> {
    if toggle_field_error("pnc"@, opt_string_view(fields.pnc)) is Some {
        toggle_field_error("pnc"@, opt_string_view(fields.pnc))
    } else if toggle_field_error("itn"@, opt_string_view(fields.itn)) is Some {
        toggle_field_error("itn"@, opt_string_view(fields.itn))
    } else if spec_response_format(opt_string_view(fields.response_format)) is Err {
        Some(spec_response_format(opt_string_view(fields.response_format))->Err_0)
    } else if !fields.has_file {
        Some("missing required field: file"@)
    } else if task == Task::Translate {
        translation_error(
            opt_string_view(fields.model),
            model,
            opt_string_view(fields.target_language),
        )
    } else {
        None
    }
}

/// The target language handed on for an accepted request: none for a
/// transcription; for a translation, the model's own spelling of the
/// requested one (trimmed when no model is loaded).
pub open spec fn planned_target(task: Task, model: Option<ModelInfoView>, target: Option<Seq<char>>) -> Option<Seq<char>> {
    match task {
        Task::Transcribe => None,
        Task::Translate => match target {
            None => None,
            Some(t) => match model {
                Some(m) => Some(ModelInfo::spec_canonical_translate_target(m, t)),
                None => Some(trim(t)),
            },
        },
    }
}

/// The source-language hint: the request's, trimmed, unless that is empty;
/// otherwise the server default.
pub open spec fn planned_language(requested: Option<Seq<char>>, default: Option<Seq<char>>) -> Option<Seq<char>> {
    match requested {
        Some(l) => if trim(l).len() > 0 { Some(trim(l)) } else { default },
        None => default,
    }
}

/// The language a `verbose_json` answer reports when no model detects one.
pub open spec fn planned_reported_language(
    task: Task,
    language: Option<Seq<char>>,
    target: Option<Seq<char>>,
    model: Option<ModelInfoView>,
) -> Option<Seq<char>> {
    match task {
        Task::Transcribe => language,
        Task::Translate => match target {
            Some(t) => Some(t),
            None => spec_single_target(model),
        },
    }
}

/// `a`, else `b`.
pub open spec fn or_else<T>(a: Option<T>, b: Option<T>) -> Option<T> {
    match a {
        Some(x) => Some(x),
        None => b,
    }
}

/// Check a request's fields and work out what it will do. `model` is the
/// model the request resolves to (see `resolve_model`). Request fields win
/// over the server-wide defaults; neither set leaves the model family's own
/// behavior untouched.
pub fn plan_request(
    fields: UploadFields,
    task: Task,
    model: Option<&ModelInfo>,
    defaults: &ServerDefaults,
) -> (r: Result<RequestPlan, ApiError>)
    ensures
        ({
            let mv = match model {
                Some(m) => Some(m@),
                None => None,
            };
            match request_error(fields, task, mv) {
                Some(msg) => r matches Err(e) && e.status == 400 && e.message@ == msg
                    && e.error_type@ == "invalid_request_error"@,
                None => r matches Ok(p) && {
                    let language = planned_language(
                        opt_string_view(fields.language),
                        opt_string_view(defaults.language),
                    );
                    let target = planned_target(task, mv, opt_string_view(fields.target_language));
                    &&& Ok::<ResponseFormat, Seq<char>>(p.format) == spec_response_format(
                        opt_string_view(fields.response_format),
                    )
                    &&& (p.format == ResponseFormat::Json <==> (opt_string_view(fields.response_format) is None
                        || opt_string_view(fields.response_format) == Some("json"@)))
                    &&& (p.format == ResponseFormat::VerboseJson <==> opt_string_view(fields.response_format)
                        == Some("verbose_json"@))
                    &&& (p.format == ResponseFormat::Text <==> opt_string_view(fields.response_format)
                        == Some("text"@))
                    &&& p.options.model == fields.model
                    &&& p.options.task == task
                    &&& opt_string_view(p.options.language) == language
                    &&& opt_string_view(p.options.target_language) == target
                    &&& p.options.pnc == or_else(toggle_field_value(opt_string_view(fields.pnc)), defaults.pnc)
                    &&& p.options.itn == or_else(toggle_field_value(opt_string_view(fields.itn)), defaults.itn)
                    &&& opt_string_view(p.reported_language) == planned_reported_language(task, language, target, mv)
                },
            }
        }),
{
    let UploadFields { has_file, model: model_field, language, response_format, target_language, pnc, itn } = fields;
    let pnc = match parse_toggle_field("pnc", pnc) {
        Ok(v) => v,
        Err(e) => return Err(e),
    };
    let itn = match parse_toggle_field("itn", itn) {
        Ok(v) => v,
        Err(e) => return Err(e),
    };
    let format = match &response_format {
        Some(f) => parse_response_format(Some(f.as_str())),
        None => parse_response_format(None),
    };
    let format = match format {
        Ok(f) => f,
        Err(e) => return Err(e),
    };
    if !has_file {
        return Err(ApiError::bad_request(owned("missing required field: file")));
    }
    let target = match task {
        Task::Transcribe => None,
        Task::Translate => {
            let check = match (&model_field, &target_language) {
                (Some(a), Some(t)) => reject_impossible_translation(Some(a.as_str()), model, Some(t.as_str())),
                (Some(a), None) => reject_impossible_translation(Some(a.as_str()), model, None),
                (None, Some(t)) => reject_impossible_translation(None, model, Some(t.as_str())),
                (None, None) => reject_impossible_translation(None, model, None),
            };
            if let Err(e) = check {
                return Err(e);
            }
            // Normalized once, here: everything downstream has to see the
            // same spelling that was accepted.
            match &target_language {
                None => None,
                Some(t) => match model {
                    Some(info) => Some(info.canonical_translate_target(t.as_str())),
                    None => Some(trimmed(t.as_str())),
                },
            }
        },
    };
    let language = match &language {
        Some(l) => {
            let t = trimmed(l.as_str());
            if t.as_str().is_empty() {
                copy_opt_string(&defaults.language)
            } else {
                Some(t)
            }
        },
        None => copy_opt_string(&defaults.language),
    };
    let reported_language = match task {
        Task::Transcribe => copy_opt_string(&language),
        Task::Translate => match &target {
            Some(t) => Some(t.clone()),
            None => single_translate_target(model),
        },
    };
    let pnc = match pnc {
        Some(v) => Some(v),
        None => defaults.pnc,
    };
    let itn = match itn {
        Some(v) => Some(v),
        None => defaults.itn,
    };
    let options = TranscribeOptions { model: model_field, task, language, target_language: target, pnc, itn };
    Ok(RequestPlan { format, options, reported_language })
}

/// A multipart body that could not be read: over the upload limit is 413
/// (in our error shape), anything else is a malformed body (400).
pub fn multipart_error(too_large: bool, body_text: &str, limit_mb: usize) -> (e: ApiError)
    ensures
        too_large ==> e.status == 413 && e.message@ == "request body exceeds the "@
            + crate::text::decimal(limit_mb as nat) + " MB limit"@,
        !too_large ==> e.status == 400 && e.message@ == "invalid multipart body: "@ + body_text@,
        e.error_type@ == "invalid_request_error"@,
{
    if too_large {
        ApiError::too_large(limit_mb)
    } else {
        let mut m = owned("invalid multipart body: ");
        m.append(body_text);
        ApiError::bad_request(m)
    }
}

} // verus!
