//! The HTTP API's decisions: errors, the model list, request validation,
//! the verbose response body and the streaming session protocol.

pub mod error;
pub mod models;
pub mod verbose;
pub mod transcriptions;
pub mod stream;
