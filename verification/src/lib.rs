//! Verified core of an OpenAI-compatible inference server.

pub mod engine;
pub mod float32;
pub mod header;
pub mod image_io;
pub mod json;
pub mod keep_alive;
pub mod logged_json;
pub mod metrics_drainer;
pub mod openai;
pub mod registry;
pub mod retry;
pub mod session_cache;
pub mod text;
