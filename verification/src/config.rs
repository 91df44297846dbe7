//! The acoustic configuration: a typed view over model hyperparameters,
//! parsed from a simple `key: value` text format with defaults.

use vstd::prelude::*;
use vstd::string::*;

use crate::errors::EngineError;
use crate::text::{
    lines_spec, parse_usize, parse_usize_spec, split_lines, starts_with_spec, str_eq,
    str_strip_prefix, strip_comment, strip_comment_spec, trim_spec, trim_str,
};

verus! {

/// The single sample rate the engine accepts.
pub const TARGET_SAMPLE_RATE: usize = 16000;

/// Mathematical view of an acoustic configuration.
#[verifier::ext_equal]
pub ghost struct ConfigV {
    pub sample_rate: int,
    pub n_mels: int,
    pub win_length: int,
    pub hop_length: int,
    pub n_fft: int,
    pub center: bool,
    pub mel_scale: Seq<char>,
    pub subsampling_factor: int,
    pub model_name: Seq<char>,
}

/// Model hyperparameters read from the configuration file.
#[derive(Debug, Clone)]
pub struct GigaamConfig {
    pub sample_rate: usize,
    pub n_mels: usize,
    pub win_length: usize,
    pub hop_length: usize,
    pub n_fft: usize,
    pub center: bool,
    pub mel_scale: String,
    pub subsampling_factor: usize,
    pub model_name: String,
}

impl View for GigaamConfig {
    type V = ConfigV;

    open spec fn view(&self) -> ConfigV {
        ConfigV {
            sample_rate: self.sample_rate as int,
            n_mels: self.n_mels as int,
            win_length: self.win_length as int,
            hop_length: self.hop_length as int,
            n_fft: self.n_fft as int,
            center: self.center,
            mel_scale: self.mel_scale@,
            subsampling_factor: self.subsampling_factor as int,
            model_name: self.model_name@,
        }
    }
}

/// The documented defaults, used for every key a config file omits.
pub open spec fn default_config_spec() -> ConfigV {
    ConfigV {
        sample_rate: 16000,
        n_mels: 64,
        win_length: 320,
        hop_length: 160,
        n_fft: 320,
        center: false,
        mel_scale: "htk"@,
        subsampling_factor: 4,
        model_name: "v3_e2e_ctc"@,
    }
}

impl Default for GigaamConfig {
    fn default() -> (r: Self)
        ensures
            r@ == default_config_spec(),
    {
        Self {
            sample_rate: 16000,
            n_mels: 64,
            win_length: 320,
            hop_length: 160,
            n_fft: 320,
            center: false,
            mel_scale: String::from_str("htk"),
            subsampling_factor: 4,
            model_name: String::from_str("v3_e2e_ctc"),
        }
    }
}

/// The numeric value a config line assigns, or the current value when
/// the text does not parse as a `usize`.
pub open spec fn num_or_keep(cur: int, s: Seq<char>) -> int {
    match parse_usize_spec(s) {
        Some(v) => if v <= usize::MAX {
            v
        } else {
            cur
        },
        None => cur,
    }
}

/// The boolean value a config line assigns, or the current value when
/// the text is neither `true` nor `false`.
pub open spec fn bool_or_keep(cur: bool, s: Seq<char>) -> bool {
    if s == "true"@ {
        true
    } else if s == "false"@ {
        false
    } else {
        cur
    }
}

/// The effect of one configuration line: comments are stripped, blank
/// lines are skipped, a recognized `key:` updates its field (keeping
/// the old value if the right-hand side does not parse), and
/// unrecognized lines are ignored.
pub open spec fn apply_line_spec(c: ConfigV, line: Seq<char>) -> ConfigV {
    let t = trim_spec(strip_comment_spec(line));
    if t.len() == 0 {
        c
    } else if starts_with_spec(t, "sample_rate:"@) {
        ConfigV {
            sample_rate: num_or_keep(
                c.sample_rate,
                trim_spec(t.skip("sample_rate:"@.len() as int)),
            ),
            ..c
        }
    } else if starts_with_spec(t, "features:"@) {
        ConfigV { n_mels: num_or_keep(c.n_mels, trim_spec(t.skip("features:"@.len() as int))), ..c }
    } else if starts_with_spec(t, "win_length:"@) {
        ConfigV {
            win_length: num_or_keep(c.win_length, trim_spec(t.skip("win_length:"@.len() as int))),
            ..c
        }
    } else if starts_with_spec(t, "hop_length:"@) {
        ConfigV {
            hop_length: num_or_keep(c.hop_length, trim_spec(t.skip("hop_length:"@.len() as int))),
            ..c
        }
    } else if starts_with_spec(t, "n_fft:"@) {
        ConfigV { n_fft: num_or_keep(c.n_fft, trim_spec(t.skip("n_fft:"@.len() as int))), ..c }
    } else if starts_with_spec(t, "center:"@) {
        ConfigV { center: bool_or_keep(c.center, trim_spec(t.skip("center:"@.len() as int))), ..c }
    } else if starts_with_spec(t, "mel_scale:"@) {
        ConfigV { mel_scale: trim_spec(t.skip("mel_scale:"@.len() as int)), ..c }
    } else if starts_with_spec(t, "subsampling_factor:"@) {
        ConfigV {
            subsampling_factor: num_or_keep(
                c.subsampling_factor,
                trim_spec(t.skip("subsampling_factor:"@.len() as int)),
            ),
            ..c
        }
    } else if starts_with_spec(t, "model_name:"@) {
        ConfigV { model_name: trim_spec(t.skip("model_name:"@.len() as int)), ..c }
    } else {
        c
    }
}

/// The configuration after applying the lines from index `i` on.
pub open spec fn yaml_fold(c: ConfigV, lines: Seq<Seq<char>>, i: int) -> ConfigV
    decreases lines.len() - i,
{
    if i < 0 || i >= lines.len() {
        c
    } else {
        yaml_fold(apply_line_spec(c, lines[i]), lines, i + 1)
    }
}

/// The configuration a text describes: the defaults, updated line by line.
pub open spec fn from_yaml_spec(content: Seq<char>) -> ConfigV {
    yaml_fold(default_config_spec(), lines_spec(content), 0)
}

impl GigaamConfig {
    /// Parses a configuration text. Unknown keys and unparsable values
    /// are ignored; missing keys keep their defaults.
    pub fn from_yaml(content: &str) -> (r: Self)
        ensures
            r@ == from_yaml_spec(content@),
    {
        let mut config = GigaamConfig::default();
        let lines = split_lines(content);
        let ghost ls = lines.deep_view();
        let mut idx: usize = 0;
        while idx < lines.len()
            invariant
                idx <= lines.len(),
                ls == lines.deep_view(),
                ls == lines_spec(content@),
                from_yaml_spec(content@) == yaml_fold(config@, ls, idx as int),
            decreases lines.len() - idx,
        {
            let ghost old_cfg = config@;
            let line: &str = lines[idx];
            proof {
                assert(ls[idx as int] == lines@[idx as int]@);
            }
            let stripped = strip_comment(line);
            let t = trim_str(stripped);
            if t.unicode_len() == 0 {
                proof {
                    assert(apply_line_spec(old_cfg, line@) =~= old_cfg);
                }
            } else if let Some(rest) = str_strip_prefix(t, "sample_rate:") {
                proof {
                    assert(t@.skip("sample_rate:"@.len() as int) =~= rest@);
                }
                match parse_usize(trim_str(rest)) {
                    Some(v) => {
                        config.sample_rate = v;
                    },
                    None => {},
                }
                proof {
                    assert(config@ =~= apply_line_spec(old_cfg, line@));
                }
            } else if let Some(rest) = str_strip_prefix(t, "features:") {
                proof {
                    assert(t@.skip("features:"@.len() as int) =~= rest@);
                }
                match parse_usize(trim_str(rest)) {
                    Some(v) => {
                        config.n_mels = v;
                    },
                    None => {},
                }
                proof {
                    assert(config@ =~= apply_line_spec(old_cfg, line@));
                }
            } else if let Some(rest) = str_strip_prefix(t, "win_length:") {
                proof {
                    assert(t@.skip("win_length:"@.len() as int) =~= rest@);
                }
                match parse_usize(trim_str(rest)) {
                    Some(v) => {
                        config.win_length = v;
                    },
                    None => {},
                }
                proof {
                    assert(config@ =~= apply_line_spec(old_cfg, line@));
                }
            } else if let Some(rest) = str_strip_prefix(t, "hop_length:") {
                proof {
                    assert(t@.skip("hop_length:"@.len() as int) =~= rest@);
                }
                match parse_usize(trim_str(rest)) {
                    Some(v) => {
                        config.hop_length = v;
                    },
                    None => {},
                }
                proof {
                    assert(config@ =~= apply_line_spec(old_cfg, line@));
                }
            } else if let Some(rest) = str_strip_prefix(t, "n_fft:") {
                proof {
                    assert(t@.skip("n_fft:"@.len() as int) =~= rest@);
                }
                match parse_usize(trim_str(rest)) {
                    Some(v) => {
                        config.n_fft = v;
                    },
                    None => {},
                }
                proof {
                    assert(config@ =~= apply_line_spec(old_cfg, line@));
                }
            } else if let Some(rest) = str_strip_prefix(t, "center:") {
                proof {
                    assert(t@.skip("center:"@.len() as int) =~= rest@);
                }
                let tv = trim_str(rest);
                if str_eq(tv, "true") {
                    config.center = true;
                } else if str_eq(tv, "false") {
                    config.center = false;
                }
                proof {
                    assert(config@ =~= apply_line_spec(old_cfg, line@));
                }
            } else if let Some(rest) = str_strip_prefix(t, "mel_scale:") {
                proof {
                    assert(t@.skip("mel_scale:"@.len() as int) =~= rest@);
                }
                config.mel_scale = String::from_str(trim_str(rest));
                proof {
                    assert(config@ =~= apply_line_spec(old_cfg, line@));
                }
            } else if let Some(rest) = str_strip_prefix(t, "subsampling_factor:") {
                proof {
                    assert(t@.skip("subsampling_factor:"@.len() as int) =~= rest@);
                }
                match parse_usize(trim_str(rest)) {
                    Some(v) => {
                        config.subsampling_factor = v;
                    },
                    None => {},
                }
                proof {
                    assert(config@ =~= apply_line_spec(old_cfg, line@));
                }
            } else if let Some(rest) = str_strip_prefix(t, "model_name:") {
                proof {
                    assert(t@.skip("model_name:"@.len() as int) =~= rest@);
                }
                config.model_name = String::from_str(trim_str(rest));
                proof {
                    assert(config@ =~= apply_line_spec(old_cfg, line@));
                }
            } else {
                proof {
                    assert(apply_line_spec(old_cfg, line@) =~= old_cfg);
                }
            }
            idx += 1;
        }
        config
    }

    /// Rejects any sample rate but the single supported target.
    pub fn check_sample_rate(&self) -> (r: Result<(), EngineError>)
        ensures
            self.sample_rate == TARGET_SAMPLE_RATE <==> r is Ok,
            r is Err ==> (r->Err_0 matches EngineError::UnsupportedSampleRate { sample_rate }
                && sample_rate == self.sample_rate),
    {
        if self.sample_rate == TARGET_SAMPLE_RATE {
            Ok(())
        } else {
            Err(EngineError::UnsupportedSampleRate { sample_rate: self.sample_rate })
        }
    }
}

} // verus!
