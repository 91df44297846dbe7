use gigaam_core::runtime::{
    ProviderPlan, RuntimeAcceleratorMode, RuntimeOptions, RuntimeSpeedProfile, SessionRuntimePlan,
};

#[test]
fn speed_profile_ids_round_trip() {
    assert_eq!(RuntimeSpeedProfile::from_id("fast"), RuntimeSpeedProfile::Fast);
    assert_eq!(RuntimeSpeedProfile::from_id("quality"), RuntimeSpeedProfile::Quality);
    assert_eq!(RuntimeSpeedProfile::from_id("balanced"), RuntimeSpeedProfile::Balanced);
    assert_eq!(RuntimeSpeedProfile::from_id("anything"), RuntimeSpeedProfile::Balanced);
    assert_eq!(RuntimeSpeedProfile::Fast.as_id(), "fast");
    assert_eq!(RuntimeSpeedProfile::Quality.as_id(), "quality");
    assert_eq!(RuntimeSpeedProfile::Balanced.as_id(), "balanced");
}

#[test]
fn accelerator_mode_ids_round_trip() {
    assert_eq!(RuntimeAcceleratorMode::from_id("cpu"), RuntimeAcceleratorMode::Cpu);
    assert_eq!(RuntimeAcceleratorMode::from_id("auto"), RuntimeAcceleratorMode::Auto);
    assert_eq!(RuntimeAcceleratorMode::from_id("gpu"), RuntimeAcceleratorMode::Auto);
    assert_eq!(RuntimeAcceleratorMode::Cpu.as_id(), "cpu");
    assert_eq!(RuntimeAcceleratorMode::Auto.as_id(), "auto");
}

#[test]
fn cache_fragment_serializes_both_fields() {
    let o = RuntimeOptions::from_ids("fast", "cpu");
    assert_eq!(o.cache_fragment(), "profile=fast;accelerator=cpu");
    let d = RuntimeOptions::default();
    assert_eq!(d.cache_fragment(), "profile=balanced;accelerator=auto");
}

#[test]
fn quality_profile_forgoes_half_precision() {
    assert!(RuntimeSpeedProfile::Balanced.nnapi_use_fp16());
    assert!(RuntimeSpeedProfile::Fast.nnapi_use_fp16());
    assert!(!RuntimeSpeedProfile::Quality.nnapi_use_fp16());
}

#[test]
fn cpu_mode_thread_counts_follow_profile() {
    assert_eq!(RuntimeSpeedProfile::Balanced.cpu_threads(), (4, 1, false));
    assert_eq!(RuntimeSpeedProfile::Fast.cpu_threads(), (6, 1, false));
    assert_eq!(RuntimeSpeedProfile::Quality.cpu_threads(), (4, 1, true));
}

#[test]
fn auto_mode_registers_all_three_backends_single_threaded() {
    let o = RuntimeOptions::from_ids("balanced", "auto");
    let plan = SessionRuntimePlan::from_runtime_options(o, true, false, true);
    assert_eq!(
        plan.providers,
        vec![
            ProviderPlan::Xnnpack { intra_threads: 4 },
            ProviderPlan::Nnapi { disable_cpu: true, use_fp16: true },
            ProviderPlan::Cpu,
        ]
    );
    assert_eq!(plan.intra_threads, 1);
    assert_eq!(plan.inter_threads, 1);
    assert!(!plan.parallel_execution);
    assert_eq!(
        plan.provider_summary,
        "mode=auto, profile=balanced, requested=[XNNPACK(available=true,threads=4), \
         NNAPI(available=false,disable_cpu=true,fp16=true), CPU(available=true)]"
    );
}

#[test]
fn auto_mode_quality_disables_half_precision() {
    let o = RuntimeOptions::from_ids("quality", "auto");
    let plan = SessionRuntimePlan::from_runtime_options(o, false, false, true);
    assert_eq!(plan.providers[1], ProviderPlan::Nnapi { disable_cpu: true, use_fp16: false });
}

#[test]
fn cpu_mode_registers_only_the_cpu_backend() {
    let o = RuntimeOptions::from_ids("fast", "cpu");
    let plan = SessionRuntimePlan::from_runtime_options(o, false, false, true);
    assert_eq!(plan.providers, vec![ProviderPlan::Cpu]);
    assert_eq!(plan.intra_threads, 6);
    assert_eq!(plan.inter_threads, 1);
    assert!(!plan.parallel_execution);
    assert_eq!(
        plan.provider_summary,
        "mode=cpu, profile=fast, requested=[CPU(available=true)]"
    );
}

#[test]
fn cpu_mode_quality_enables_parallel_execution() {
    let o = RuntimeOptions::from_ids("quality", "cpu");
    let plan = SessionRuntimePlan::from_runtime_options(o, false, false, true);
    assert_eq!(plan.intra_threads, 4);
    assert!(plan.parallel_execution);
}
