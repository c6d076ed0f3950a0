//! OpenAI-compatible speech-to-text server: the request, session and
//! chunking rules, stated and proved.

pub mod api;
pub mod audio;
pub mod auth;
pub mod chunk;
pub mod config;
pub mod server;
pub mod engine;
pub mod text;
