use gigaam_core::frontend::{encoded_len, num_frames, quantize_to_bf16_bits};
use gigaam_core::report::NativeTranscriptionReport;

#[test]
fn one_second_of_audio_frames_as_expected() {
    assert_eq!(num_frames(16000, 320, 160), 99);
}

#[test]
fn input_shorter_than_window_yields_zero_frames() {
    assert_eq!(num_frames(319, 320, 160), 0);
    assert_eq!(num_frames(0, 320, 160), 0);
}

#[test]
fn window_sized_input_yields_one_frame() {
    assert_eq!(num_frames(320, 320, 160), 1);
    assert_eq!(num_frames(479, 320, 160), 1);
    assert_eq!(num_frames(480, 320, 160), 2);
}

#[test]
fn encoded_len_subsamples_frames() {
    assert_eq!(encoded_len(99, 4), 25);
    assert_eq!(encoded_len(1, 4), 1);
    assert_eq!(encoded_len(4, 4), 1);
    assert_eq!(encoded_len(5, 4), 2);
}

#[test]
fn zero_frames_encode_to_zero_steps() {
    assert_eq!(encoded_len(0, 4), 0);
}

#[test]
fn bf16_truncation_clears_low_mantissa_bits() {
    assert_eq!(quantize_to_bf16_bits(0x3F81_23FF), 0x3F81_0000);
    assert_eq!(quantize_to_bf16_bits(0xFFFF_FFFF), 0xFFFF_0000);
    assert_eq!(quantize_to_bf16_bits(0x0000_FFFF), 0);
}

#[test]
fn empty_report_has_no_text_and_zero_inference_timings() {
    let r = NativeTranscriptionReport::empty(String::from("cpu"), 7, 9);
    assert_eq!(r.text, "");
    assert_eq!(r.timings.feature_extraction_ms, 7);
    assert_eq!(r.timings.ort_run_ms, 0);
    assert_eq!(r.timings.decode_ms, 0);
    assert_eq!(r.timings.total_ms, 9);
    assert_eq!(r.provider_summary, "cpu");
}
