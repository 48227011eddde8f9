//! A verified supervised-classification pipeline for the Iris dataset:
//! deterministic seeded sampling, feature/label separation, and numeric
//! class-code decoding, orchestrated around an external classification model.

pub mod codec;
pub mod error;
pub mod table;
pub mod pipeline;
pub mod sampler;
pub mod splitter;
