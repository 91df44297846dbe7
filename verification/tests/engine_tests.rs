use gigaam_core::engine::prepare_model_setup;
use gigaam_core::errors::{ConfigFault, EngineError};

const VOCAB: &str = "<unk> 0\n\u{2581}hello 1\nworld 2\n<blk> 3\n";

#[test]
fn setup_derives_params_vocab_and_subsampling() {
    let config = "sample_rate: 16000\nfeatures: 64\nwin_length: 320\nhop_length: 160\nn_fft: 320\nsubsampling_factor: 4\nmodel_name: v3_e2e_ctc\n";
    let m = prepare_model_setup(VOCAB, config).unwrap();
    assert_eq!(m.blank_idx, 3);
    assert_eq!(m.vocab[1], " hello");
    assert_eq!(m.params.n_mels, 64);
    assert_eq!(m.params.win_length, 320);
    assert_eq!(m.params.hop_length, 160);
    assert_eq!(m.params.n_fft, 320);
    assert!(m.params.quantize_bf16);
    assert_eq!(m.subsampling_factor, 4);
}

#[test]
fn zero_subsampling_factor_is_clamped_to_one() {
    let m = prepare_model_setup(VOCAB, "subsampling_factor: 0\n").unwrap();
    assert_eq!(m.subsampling_factor, 1);
}

#[test]
fn wrong_sample_rate_is_rejected() {
    let r = prepare_model_setup(VOCAB, "sample_rate: 8000\n");
    assert!(matches!(r, Err(EngineError::UnsupportedSampleRate { sample_rate: 8000 })));
}

#[test]
fn invalid_config_is_rejected_after_vocab() {
    let r = prepare_model_setup(VOCAB, "n_fft: 64\n");
    assert!(matches!(
        r,
        Err(EngineError::InvalidConfig(ConfigFault::FftShorterThanWindow { .. }))
    ));
}

#[test]
fn vocab_errors_take_precedence() {
    let r = prepare_model_setup("broken\n", "sample_rate: 8000\n");
    assert!(matches!(r, Err(EngineError::InvalidVocabLine(_))));
}
