//! Integer geometry of the spectral frontend: configuration validation,
//! frame arithmetic, and the reduced-precision coefficient truncation.
//! The floating-point window, filterbank and transform tables are built
//! outside the core from these validated parameters.

use vstd::prelude::*;

use crate::config::{ConfigV, GigaamConfig};
use crate::errors::{ConfigFault, EngineError};
use crate::text::{contains_spec, eq_ignore_ascii_case_spec, str_contains, str_eq_ignore_ascii_case};

verus! {

/// All construction-time invariants of an acoustic configuration.
pub open spec fn config_valid(c: ConfigV) -> bool {
    &&& c.hop_length > 0
    &&& c.win_length > 0
    &&& c.n_fft > 0
    &&& c.n_fft >= c.win_length
    &&& eq_ignore_ascii_case_spec(c.mel_scale, "htk"@)
    &&& !c.center
}

/// Whether the window and filter coefficients are rounded to reduced
/// mantissa precision: for the quantization-sensitive model family, or
/// for uncentered framing with the specific default transform size.
pub open spec fn quantize_bf16_spec(c: ConfigV) -> bool {
    contains_spec(c.model_name, "v3"@) || (!c.center && c.n_fft == 320)
}

/// Which configuration fault is reported for a configuration: the
/// checks run in a fixed order and the first violated one decides.
pub open spec fn config_fault_matches(c: ConfigV, f: ConfigFault) -> bool {
    match f {
        ConfigFault::HopLengthZero => c.hop_length == 0,
        ConfigFault::WinLengthZero => c.hop_length > 0 && c.win_length == 0,
        ConfigFault::FftLengthZero => c.hop_length > 0 && c.win_length > 0 && c.n_fft == 0,
        ConfigFault::FftShorterThanWindow { n_fft, win_length } => {
            &&& c.hop_length > 0
            &&& c.win_length > 0
            &&& c.n_fft > 0
            &&& c.n_fft < c.win_length
            &&& n_fft == c.n_fft
            &&& win_length == c.win_length
        },
        ConfigFault::UnsupportedMelScale(s) => {
            &&& c.hop_length > 0
            &&& c.win_length > 0
            &&& c.n_fft > 0
            &&& c.n_fft >= c.win_length
            &&& !eq_ignore_ascii_case_spec(c.mel_scale, "htk"@)
            &&& s@ == c.mel_scale
        },
        ConfigFault::CenterNotSupported => {
            &&& c.hop_length > 0
            &&& c.win_length > 0
            &&& c.n_fft > 0
            &&& c.n_fft >= c.win_length
            &&& eq_ignore_ascii_case_spec(c.mel_scale, "htk"@)
            &&& c.center
        },
    }
}

/// The validated integer parameters the frontend is built from.
#[derive(Debug, Clone, Copy, PartialEq, Eq, Structural)]
pub struct FrontendParams {
    pub sample_rate: usize,
    pub n_mels: usize,
    pub win_length: usize,
    pub hop_length: usize,
    pub n_fft: usize,
    pub quantize_bf16: bool,
}

impl FrontendParams {
    /// Validates a configuration, reporting the first violated invariant
    /// in a fixed order; on success the parameters carry over verbatim
    /// and the quantization mode is derived from the model identifier
    /// and framing parameters.
    pub fn from_config(config: &GigaamConfig) -> (r: Result<Self, EngineError>)
        ensures
            match r {
                Ok(p) => {
                    &&& config_valid(config@)
                    &&& p.sample_rate == config.sample_rate
                    &&& p.n_mels == config.n_mels
                    &&& p.win_length == config.win_length
                    &&& p.hop_length == config.hop_length
                    &&& p.n_fft == config.n_fft
                    &&& p.quantize_bf16 == quantize_bf16_spec(config@)
                },
                Err(e) => {
                    &&& !config_valid(config@)
                    &&& e matches EngineError::InvalidConfig(f)
                    &&& config_fault_matches(config@, f)
                },
            },
    {
        if config.hop_length == 0 {
            return Err(EngineError::InvalidConfig(ConfigFault::HopLengthZero));
        }
        if config.win_length == 0 {
            return Err(EngineError::InvalidConfig(ConfigFault::WinLengthZero));
        }
        if config.n_fft == 0 {
            return Err(EngineError::InvalidConfig(ConfigFault::FftLengthZero));
        }
        if config.n_fft < config.win_length {
            return Err(
                EngineError::InvalidConfig(
                    ConfigFault::FftShorterThanWindow {
                        n_fft: config.n_fft,
                        win_length: config.win_length,
                    },
                ),
            );
        }
        if !str_eq_ignore_ascii_case(config.mel_scale.as_str(), "htk") {
            return Err(
                EngineError::InvalidConfig(
                    ConfigFault::UnsupportedMelScale(config.mel_scale.clone()),
                ),
            );
        }
        if config.center {
            return Err(EngineError::InvalidConfig(ConfigFault::CenterNotSupported));
        }
        let quantize_bf16 = str_contains(config.model_name.as_str(), "v3") || (!config.center
            && config.n_fft == 320);
        Ok(
            Self {
                sample_rate: config.sample_rate,
                n_mels: config.n_mels,
                win_length: config.win_length,
                hop_length: config.hop_length,
                n_fft: config.n_fft,
                quantize_bf16,
            },
        )
    }

    /// Number of frequency bins of the one-sided power spectrum.
    pub fn n_freq_bins(&self) -> (r: usize)
        requires
            self.n_fft > 0,
        ensures
            r == self.n_fft / 2 + 1,
    {
        self.n_fft / 2 + 1
    }
}

/// Number of full analysis frames in a sample buffer: zero when the
/// buffer is shorter than the window, else one frame per hop with
/// trailing samples beyond the last full frame dropped.
pub open spec fn num_frames_spec(len: int, win_length: int, hop_length: int) -> int
    recommends
        win_length > 0,
        hop_length > 0,
{
    if len < win_length {
        0
    } else {
        (len - win_length) / hop_length + 1
    }
}

pub fn num_frames(len: usize, win_length: usize, hop_length: usize) -> (r: usize)
    requires
        win_length > 0,
        hop_length > 0,
    ensures
        r == num_frames_spec(len as int, win_length as int, hop_length as int),
{
    if len < win_length {
        0
    } else {
        proof {
            assert((len - win_length) / hop_length as int <= len - win_length) by (nonlinear_arith)
                requires
                    hop_length >= 1,
                    len >= win_length,
            ;
        }
        (len - win_length) / hop_length + 1
    }
}

/// Number of decodable time steps the model yields for a frame count,
/// after temporal subsampling; zero frames decode to zero steps.
pub open spec fn encoded_len_spec(frame_count: int, subsampling_factor: int) -> int
    recommends
        frame_count >= 0,
        subsampling_factor >= 1,
{
    if frame_count == 0 {
        0
    } else {
        (frame_count - 1) / subsampling_factor + 1
    }
}

pub fn encoded_len(frame_count: usize, subsampling_factor: usize) -> (r: usize)
    requires
        subsampling_factor >= 1,
    ensures
        r == encoded_len_spec(frame_count as int, subsampling_factor as int),
{
    if frame_count == 0 {
        0
    } else {
        proof {
            assert((frame_count - 1) / subsampling_factor as int <= frame_count - 1)
                by (nonlinear_arith)
                requires
                    subsampling_factor >= 1,
                    frame_count >= 1,
            ;
        }
        (frame_count - 1) / subsampling_factor + 1
    }
}

/// Truncates the 32-bit float representation to its top 16 bits,
/// emulating reduced mantissa precision bit-exactly. The caller passes
/// and receives the raw bit pattern.
pub fn quantize_to_bf16_bits(bits: u32) -> (r: u32)
    ensures
        r == bits & 0xFFFF_0000u32,
        r & 0x0000_FFFFu32 == 0,
    {
    proof {
        assert((bits & 0xFFFF_0000u32) & 0x0000_FFFFu32 == 0) by (bit_vector);
    }
    bits & 0xFFFF_0000
}

} // verus!
