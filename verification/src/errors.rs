//! Error taxonomy of the engine core. Every failure is permanent and
//! reported upward with its context; nothing here is retried.

use vstd::prelude::*;

verus! {

/// Which acoustic-configuration invariant was violated.
#[derive(Debug, Clone)]
pub enum ConfigFault {
    /// Hop length must be positive.
    HopLengthZero,
    /// Window length must be positive.
    WinLengthZero,
    /// Transform size must be positive.
    FftLengthZero,
    /// Transform size must be at least the window length.
    FftShorterThanWindow { n_fft: usize, win_length: usize },
    /// Only the HTK mel scale is supported; carries the offending value.
    UnsupportedMelScale(String),
    /// Centered (zero-padded) framing is not supported.
    CenterNotSupported,
}

/// Which tensor binding could not be resolved against the model graph.
#[derive(Debug, Clone, Copy, PartialEq, Eq, Structural)]
pub enum SchemaSlot {
    FeaturesInput,
    FeatureLengthsInput,
    LogitsOutput,
}

/// Everything that can go wrong while loading a model or transcribing.
#[derive(Debug, Clone)]
pub enum EngineError {
    /// Malformed or unsupported acoustic parameters (load-time).
    InvalidConfig(ConfigFault),
    /// A mel filter whose center does not lie strictly between its edges.
    InvalidFilterGeometry { mel_idx: usize },
    /// A required model asset is absent; carries the missing path.
    MissingAsset(String),
    /// The parsed sample rate differs from the single supported target.
    UnsupportedSampleRate { sample_rate: usize },
    /// The model identifier is not one of the recognized ids.
    UnsupportedModelId(String),
    /// The inference backend failed to initialize; carries its message.
    BackendInitFailed(String),
    /// No input or output tensor matched the expected names or shapes.
    SchemaResolutionFailed(SchemaSlot),
    /// Transcription was requested before a model was loaded.
    NotLoaded,
    /// The inference call itself failed; carries the backend's message.
    InferenceFailed(String),
    /// The named output tensor is missing from the inference outputs.
    OutputNotFound(String),
    /// An output tensor has the wrong rank.
    ShapeMismatch { expected_rank: usize, actual_rank: usize },
    /// The cache lock was poisoned by a panicking holder.
    CacheUnavailable,
    /// A vocabulary line without a token/id separator; carries the line.
    InvalidVocabLine(String),
    /// A vocabulary line whose id does not parse; carries the line.
    InvalidVocabId(String),
    /// The vocabulary has no blank token.
    MissingBlankToken,
}

} // verus!
