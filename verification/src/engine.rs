//! The pure part of loading a model: parsing and validating the
//! vocabulary and configuration texts and deriving everything the
//! engine needs from them. Reading the files, building the
//! floating-point tables and binding the inference session happen
//! outside the core, around this function.

use vstd::prelude::*;

use crate::config::{from_yaml_spec, GigaamConfig, TARGET_SAMPLE_RATE};
use crate::errors::EngineError;
use crate::frontend::{config_fault_matches, config_valid, quantize_bf16_spec, FrontendParams};
use crate::vocab::{parse_vocab_content, parse_vocab_spec, VocabResultV};

verus! {

/// Everything the engine derives from a model's text assets.
#[derive(Debug)]
pub struct ModelSetup {
    /// Validated frontend parameters.
    pub params: FrontendParams,
    /// Dense id-to-token table.
    pub vocab: Vec<String>,
    /// The CTC blank id.
    pub blank_idx: usize,
    /// Temporal subsampling factor, at least one.
    pub subsampling_factor: usize,
    /// The parsed configuration the above were derived from.
    pub config: GigaamConfig,
}

/// Parses the vocabulary and configuration texts of a model and
/// validates them, in the order a load performs them: vocabulary
/// first, then the configuration, its sample rate, and the frontend
/// invariants.
pub fn prepare_model_setup(vocab_content: &str, config_content: &str) -> (r: Result<
    ModelSetup,
    EngineError,
>)
    ensures
        match r {
            Ok(m) => {
                &&& (parse_vocab_spec(vocab_content@) matches VocabResultV::Parsed {
                    vocab,
                    blank,
                } && m.vocab.deep_view() == vocab && m.blank_idx == blank)
                &&& m.config@ == from_yaml_spec(config_content@)
                &&& m.config.sample_rate == TARGET_SAMPLE_RATE
                &&& config_valid(m.config@)
                &&& m.params.sample_rate == m.config.sample_rate
                &&& m.params.n_mels == m.config.n_mels
                &&& m.params.win_length == m.config.win_length
                &&& m.params.hop_length == m.config.hop_length
                &&& m.params.n_fft == m.config.n_fft
                &&& m.params.quantize_bf16 == quantize_bf16_spec(m.config@)
                &&& m.subsampling_factor == (if m.config.subsampling_factor >= 1 {
                    m.config.subsampling_factor
                } else {
                    1usize
                })
            },
            Err(e) => match parse_vocab_spec(vocab_content@) {
                VocabResultV::BadLine { line } => (e matches EngineError::InvalidVocabLine(l)
                    && l@ == line),
                VocabResultV::BadId { line } => (e matches EngineError::InvalidVocabId(l) && l@
                    == line),
                VocabResultV::NoBlank => e matches EngineError::MissingBlankToken,
                VocabResultV::Parsed { .. } => {
                    let c = from_yaml_spec(config_content@);
                    if c.sample_rate != TARGET_SAMPLE_RATE {
                        e matches EngineError::UnsupportedSampleRate { sample_rate }
                            && sample_rate == c.sample_rate
                    } else {
                        &&& !config_valid(c)
                        &&& e matches EngineError::InvalidConfig(f)
                        &&& config_fault_matches(c, f)
                    }
                },
            },
        },
{
    let parsed = match parse_vocab_content(vocab_content) {
        Ok(p) => p,
        Err(e) => {
            return Err(e);
        },
    };
    let (vocab, blank_idx) = parsed;
    let config = GigaamConfig::from_yaml(config_content);
    match config.check_sample_rate() {
        Ok(()) => {},
        Err(e) => {
            return Err(e);
        },
    }
    let params = match FrontendParams::from_config(&config) {
        Ok(p) => p,
        Err(e) => {
            return Err(e);
        },
    };
    let subsampling_factor: usize = if config.subsampling_factor >= 1 {
        config.subsampling_factor
    } else {
        1
    };
    Ok(ModelSetup { params, vocab, blank_idx, subsampling_factor, config })
}

} // verus!
