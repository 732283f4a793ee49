//! The generation engine's request model and decision logic.

pub mod admission;
pub mod audio;
pub mod drafting;
pub mod error;
pub mod generator;
pub mod helpers;
pub mod image;
pub mod kv_quant;
pub mod placement;
pub mod speculative;
pub mod think;
pub mod types;
