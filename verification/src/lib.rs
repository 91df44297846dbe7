//! Signal-processing and decoding core of an on-device speech-to-text
//! engine: acoustic configuration parsing and validation, runtime plan
//! selection, vocabulary loading, greedy CTC decoding, and the cache-key
//! logic that keeps at most one loaded model per configuration.

pub mod cache;
pub mod config;
pub mod ctc;
pub mod engine;
pub mod errors;
pub mod frontend;
pub mod report;
pub mod runtime;
pub mod schema;
pub mod text;
pub mod vocab;
