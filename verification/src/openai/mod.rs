//! The OpenAI-compatible chat endpoint.

pub mod agreement;
pub mod chat;
pub mod chunks;
pub mod conversion;
pub mod encoding;
pub mod errors;
pub mod exposed;
pub mod flow;
pub mod generate;
pub mod json_extract;
pub mod lifecycle;
pub mod metrics;
pub mod refusals;
pub mod reply;
pub mod request;
pub mod response;
pub mod streaming;
pub mod tool_call;
pub mod validation;
pub mod whole;
