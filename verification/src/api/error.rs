//! OpenAI-style API errors: rendered as {"error":{"message":...,"type":...}}
//! with the HTTP status carried alongside.

use vstd::prelude::*;

use crate::engine::EngineError;
use crate::text::{decimal, owned, push_decimal};

verus! {

/// An API error: HTTP status, message, and OpenAI error type.
#[derive(Debug)]
pub struct ApiError {
    pub status: u16,
    pub message: String,
    pub error_type: &'static str,
}

impl ApiError {
    pub fn bad_request(msg: String) -> (e: ApiError)
        ensures
            e.status == 400,
            e.message == msg,
            e.error_type@ == "invalid_request_error"@,
    {
        ApiError { status: 400, message: msg, error_type: "invalid_request_error" }
    }

    pub fn unauthorized() -> (e: ApiError)
        ensures
            e.status == 401,
            e.message@ == "invalid or missing API key"@,
            e.error_type@ == "authentication_error"@,
    {
        ApiError {
            status: 401,
            message: owned("invalid or missing API key"),
            error_type: "authentication_error",
        }
    }

    pub fn too_large(limit_mb: usize) -> (e: ApiError)
        ensures
            e.status == 413,
            e.message@ == "request body exceeds the "@ + decimal(limit_mb as nat) + " MB limit"@,
            e.error_type@ == "invalid_request_error"@,
    {
        let mut m = owned("request body exceeds the ");
        push_decimal(&mut m, limit_mb as u64);
        m.append(" MB limit");
        ApiError { status: 413, message: m, error_type: "invalid_request_error" }
    }

    pub fn busy() -> (e: ApiError)
        ensures
            e.status == 503,
            e.message@ == "server is busy, try again later"@,
            e.error_type@ == "server_error"@,
    {
        ApiError {
            status: 503,
            message: owned("server is busy, try again later"),
            error_type: "server_error",
        }
    }

    /// The caller closed the connection before the answer was ready. Nginx's
    /// 499: no standard status says it, and no client ever reads this one.
    pub fn cancelled() -> (e: ApiError)
        ensures
            e.status == 499,
            e.message@ == "client closed the request"@,
            e.error_type@ == "server_error"@,
    {
        ApiError {
            status: 499,
            message: owned("client closed the request"),
            error_type: "server_error",
        }
    }

    pub fn internal(msg: String) -> (e: ApiError)
        ensures
            e.status == 500,
            e.message == msg,
            e.error_type@ == "server_error"@,
    {
        ApiError { status: 500, message: msg, error_type: "server_error" }
    }
}

/// How an engine failure reaches the client: a request the model cannot
/// serve is the caller's error (400), a cancelled run is 499, anything else
/// is the server's (500); the message is the engine error's text, except
/// for the cancelled run, which gets the 499 message.
pub fn engine_error(err: EngineError) -> (e: ApiError)
    ensures
        e.message@ == if err is Cancelled {
            "client closed the request"@
        } else {
            err.spec_message()
        },
        e.status == match err {
            EngineError::UnknownModel(_) | EngineError::Unsupported(_) => 400u16,
            EngineError::Cancelled => 499u16,
            EngineError::Failed(_) => 500u16,
        },
        e.error_type@ == match err {
            EngineError::UnknownModel(_) | EngineError::Unsupported(_) => "invalid_request_error"@,
            _ => "server_error"@,
        },
{
    match err {
        EngineError::UnknownModel(_) | EngineError::Unsupported(_) => ApiError::bad_request(
            err.message(),
        ),
        // Only reachable when the caller is already gone, so this response is
        // built for the log and never delivered.
        EngineError::Cancelled => ApiError::cancelled(),
        EngineError::Failed(_) => ApiError::internal(err.message()),
    }
}

} // verus!
