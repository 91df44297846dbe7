use gigaam_core::report::{
    escape_json_string, NativeTranscriptionReport, NativeTranscriptionTimings,
};

#[test]
fn json_escaping_covers_backslash_and_quote() {
    assert_eq!(escape_json_string("plain"), "plain");
    assert_eq!(escape_json_string("a\"b"), "a\\\"b");
    assert_eq!(escape_json_string("a\\b"), "a\\\\b");
    assert_eq!(escape_json_string("\\\""), "\\\\\\\"");
    assert_eq!(escape_json_string(""), "");
}

#[test]
fn report_renders_flat_json() {
    let r = NativeTranscriptionReport {
        text: String::from("hello"),
        timings: NativeTranscriptionTimings {
            feature_extraction_ms: 1,
            ort_run_ms: 2,
            decode_ms: 3,
            total_ms: 4,
        },
        provider_summary: String::from("mode=cpu"),
    };
    assert_eq!(
        r.to_json(),
        "{\"provider\":\"mode=cpu\",\"feature_extraction_ms\":1,\"ort_run_ms\":2,\"decode_ms\":3,\"total_ms\":4}"
    );
}

#[test]
fn report_escapes_provider_summary_in_json() {
    let r = NativeTranscriptionReport {
        text: String::new(),
        timings: NativeTranscriptionTimings::default(),
        provider_summary: String::from("a\"b\\c"),
    };
    assert_eq!(
        r.to_json(),
        "{\"provider\":\"a\\\"b\\\\c\",\"feature_extraction_ms\":0,\"ort_run_ms\":0,\"decode_ms\":0,\"total_ms\":0}"
    );
}

#[test]
fn report_renders_large_timings_in_decimal() {
    let r = NativeTranscriptionReport {
        text: String::new(),
        timings: NativeTranscriptionTimings {
            feature_extraction_ms: 12345678901234567890,
            ort_run_ms: 0,
            decode_ms: 10,
            total_ms: 107,
        },
        provider_summary: String::from("p"),
    };
    assert_eq!(
        r.to_json(),
        "{\"provider\":\"p\",\"feature_extraction_ms\":12345678901234567890,\"ort_run_ms\":0,\"decode_ms\":10,\"total_ms\":107}"
    );
}

#[test]
fn default_timings_are_zero() {
    let t = NativeTranscriptionTimings::default();
    assert_eq!(t.feature_extraction_ms, 0);
    assert_eq!(t.ort_run_ms, 0);
    assert_eq!(t.decode_ms, 0);
    assert_eq!(t.total_ms, 0);
}
