use gigaam_core::config::GigaamConfig;
use gigaam_core::errors::{ConfigFault, EngineError};
use gigaam_core::frontend::FrontendParams;

#[test]
fn empty_config_text_yields_defaults() {
    let c = GigaamConfig::from_yaml("");
    assert_eq!(c.sample_rate, 16000);
    assert_eq!(c.n_mels, 64);
    assert_eq!(c.win_length, 320);
    assert_eq!(c.hop_length, 160);
    assert_eq!(c.n_fft, 320);
    assert!(!c.center);
    assert_eq!(c.mel_scale, "htk");
    assert_eq!(c.subsampling_factor, 4);
    assert_eq!(c.model_name, "v3_e2e_ctc");
}

#[test]
fn config_parses_recognized_keys_and_strips_comments() {
    let text = "sample_rate: 8000\nfeatures: 80 # mel bands\nwin_length: 400\nhop_length: 200\n# full-line comment\nn_fft: 512\ncenter: true\nmel_scale: mel\nsubsampling_factor: 8\nmodel_name: v2_demo\nunknown_key: 7\n";
    let c = GigaamConfig::from_yaml(text);
    assert_eq!(c.sample_rate, 8000);
    assert_eq!(c.n_mels, 80);
    assert_eq!(c.win_length, 400);
    assert_eq!(c.hop_length, 200);
    assert_eq!(c.n_fft, 512);
    assert!(c.center);
    assert_eq!(c.mel_scale, "mel");
    assert_eq!(c.subsampling_factor, 8);
    assert_eq!(c.model_name, "v2_demo");
}

#[test]
fn config_keeps_defaults_for_unparsable_values() {
    let c = GigaamConfig::from_yaml(
        "sample_rate: not_a_number\nfeatures: 99999999999999999999999999\ncenter: TRUE\n",
    );
    assert_eq!(c.sample_rate, 16000);
    assert_eq!(c.n_mels, 64);
    assert!(!c.center);
}

#[test]
fn config_accepts_plus_signed_numbers() {
    let c = GigaamConfig::from_yaml("sample_rate: +16000\nfeatures: +32\n");
    assert_eq!(c.sample_rate, 16000);
    assert_eq!(c.n_mels, 32);
}

#[test]
fn fft_shorter_than_window_fails_construction() {
    let mut c = GigaamConfig::default();
    c.n_fft = 100;
    c.win_length = 320;
    let r = FrontendParams::from_config(&c);
    assert!(matches!(
        r,
        Err(EngineError::InvalidConfig(ConfigFault::FftShorterThanWindow {
            n_fft: 100,
            win_length: 320,
        }))
    ));
}

#[test]
fn centered_framing_fails_construction() {
    let mut c = GigaamConfig::default();
    c.center = true;
    let r = FrontendParams::from_config(&c);
    assert!(matches!(r, Err(EngineError::InvalidConfig(ConfigFault::CenterNotSupported))));
}

#[test]
fn non_htk_mel_scale_fails_construction() {
    let mut c = GigaamConfig::default();
    c.mel_scale = String::from("mel");
    let r = FrontendParams::from_config(&c);
    assert!(matches!(
        r,
        Err(EngineError::InvalidConfig(ConfigFault::UnsupportedMelScale(s))) if s == "mel"
    ));
}

#[test]
fn zero_lengths_fail_construction_in_order() {
    let mut c = GigaamConfig::default();
    c.hop_length = 0;
    c.win_length = 0;
    assert!(matches!(
        FrontendParams::from_config(&c),
        Err(EngineError::InvalidConfig(ConfigFault::HopLengthZero))
    ));
    c.hop_length = 160;
    assert!(matches!(
        FrontendParams::from_config(&c),
        Err(EngineError::InvalidConfig(ConfigFault::WinLengthZero))
    ));
    c.win_length = 320;
    c.n_fft = 0;
    assert!(matches!(
        FrontendParams::from_config(&c),
        Err(EngineError::InvalidConfig(ConfigFault::FftLengthZero))
    ));
}

#[test]
fn mel_scale_comparison_ignores_ascii_case() {
    let mut c = GigaamConfig::default();
    c.mel_scale = String::from("HTK");
    let p = FrontendParams::from_config(&c).unwrap();
    assert_eq!(p.n_fft, 320);
}

#[test]
fn default_model_family_enables_quantization() {
    let c = GigaamConfig::default();
    let p = FrontendParams::from_config(&c).unwrap();
    assert!(p.quantize_bf16);
}

#[test]
fn other_model_without_default_fft_disables_quantization() {
    let mut c = GigaamConfig::default();
    c.model_name = String::from("v2_demo");
    c.n_fft = 512;
    let p = FrontendParams::from_config(&c).unwrap();
    assert!(!p.quantize_bf16);
}
