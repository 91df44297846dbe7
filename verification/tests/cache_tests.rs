use gigaam_core::cache::{
    compose_cache_key, model_onnx_filename, model_subdirectory_name, required_model_files,
    resolve_model_directory, EngineCacheKeys,
};
use gigaam_core::errors::EngineError;
use gigaam_core::runtime::RuntimeOptions;

#[test]
fn model_ids_resolve_to_their_assets() {
    assert_eq!(model_subdirectory_name("gigaam-v3-e2e-ctc-int8").unwrap(), "gigaam-v3-e2e-ctc-int8");
    assert_eq!(model_subdirectory_name("gigaam-v3-e2e-ctc").unwrap(), "gigaam-v3-e2e-ctc");
    assert_eq!(model_onnx_filename("gigaam-v3-e2e-ctc-int8").unwrap(), "v3_e2e_ctc.int8.onnx");
    assert_eq!(model_onnx_filename("gigaam-v3-e2e-ctc").unwrap(), "v3_e2e_ctc.onnx");
}

#[test]
fn unknown_model_id_is_rejected() {
    let r = model_subdirectory_name("whisper-tiny");
    assert!(matches!(r, Err(EngineError::UnsupportedModelId(m)) if m == "whisper-tiny"));
    let r = model_onnx_filename("whisper-tiny");
    assert!(matches!(r, Err(EngineError::UnsupportedModelId(_))));
    let r = resolve_model_directory("/models", "whisper-tiny");
    assert!(matches!(r, Err(EngineError::UnsupportedModelId(_))));
}

#[test]
fn model_directory_joins_root_and_subdirectory() {
    let p = resolve_model_directory("/data/models", "gigaam-v3-e2e-ctc").unwrap();
    assert_eq!(p, "/data/models/gigaam-v3-e2e-ctc");
}

#[test]
fn required_files_list_weights_vocab_and_config() {
    let files = required_model_files("gigaam-v3-e2e-ctc-int8").unwrap();
    assert_eq!(files, vec!["v3_e2e_ctc.int8.onnx", "v3_e2e_ctc_vocab.txt", "v3_e2e_ctc.yaml"]);
}

#[test]
fn cache_key_carries_location_and_options() {
    let o = RuntimeOptions::from_ids("fast", "cpu");
    let k = compose_cache_key("/m", "gigaam-v3-e2e-ctc", o).unwrap();
    assert_eq!(k, "/m/gigaam-v3-e2e-ctc?profile=fast;accelerator=cpu");
}

#[test]
fn option_change_forces_exactly_one_reload() {
    let mut cache = EngineCacheKeys::new();
    let mut loads = 0;

    let fast_cpu = RuntimeOptions::from_ids("fast", "cpu");
    let k1 = compose_cache_key("/m", "gigaam-v3-e2e-ctc", fast_cpu).unwrap();
    if cache.needs_reload(&k1) {
        loads += 1;
        cache.record_load(k1.clone());
    }
    assert_eq!(loads, 1);

    // The same model and options again: no further load.
    if cache.needs_reload(&k1) {
        loads += 1;
        cache.record_load(k1.clone());
    }
    assert_eq!(loads, 1);

    // Same model path, profile changed to quality: exactly one reload.
    let quality_cpu = RuntimeOptions::from_ids("quality", "cpu");
    let k2 = compose_cache_key("/m", "gigaam-v3-e2e-ctc", quality_cpu).unwrap();
    assert_ne!(k1, k2);
    if cache.needs_reload(&k2) {
        loads += 1;
        cache.record_load(k2.clone());
    }
    assert_eq!(loads, 2);
}

#[test]
fn setting_different_options_invalidates_the_cache() {
    let mut cache = EngineCacheKeys::new();
    let k = compose_cache_key("/m", "gigaam-v3-e2e-ctc", RuntimeOptions::default()).unwrap();
    cache.record_load(k.clone());
    assert!(!cache.needs_reload(&k));

    let changed = cache.set_runtime_options(RuntimeOptions::from_ids("fast", "cpu"));
    assert!(changed);
    assert!(cache.needs_reload(&k));

    let changed_again = cache.set_runtime_options(RuntimeOptions::from_ids("fast", "cpu"));
    assert!(!changed_again);
}

#[test]
fn clear_unloads_and_is_idempotent() {
    let mut cache = EngineCacheKeys::new();
    let k = compose_cache_key("/m", "gigaam-v3-e2e-ctc", RuntimeOptions::default()).unwrap();
    cache.record_load(k.clone());
    cache.clear();
    assert!(cache.needs_reload(&k));
    cache.clear();
    assert!(cache.needs_reload(&k));
}
