//! Runtime options (speed profile and accelerator mode) and the session
//! runtime plan derived from them: candidate backend list, thread counts,
//! and a diagnostic summary string.

use vstd::prelude::*;
use vstd::string::*;

use crate::text::str_eq;

verus! {

/// Number of intra-op threads requested from the vector-accelerated backend.
pub const XNNPACK_THREAD_COUNT: usize = 4;

/// Speed preference for the inference backend.
#[derive(Debug, Clone, Copy, PartialEq, Eq, Structural)]
pub enum RuntimeSpeedProfile {
    Balanced,
    Fast,
    Quality,
}

/// The profile selected by a textual identifier; unrecognized
/// identifiers fall back to `Balanced`.
pub open spec fn profile_from_id_spec(value: Seq<char>) -> RuntimeSpeedProfile {
    if value == "fast"@ {
        RuntimeSpeedProfile::Fast
    } else if value == "quality"@ {
        RuntimeSpeedProfile::Quality
    } else {
        RuntimeSpeedProfile::Balanced
    }
}

impl RuntimeSpeedProfile {
    /// Identifier string of a profile.
    pub open spec fn id_spec(self) -> Seq<char> {
        match self {
            RuntimeSpeedProfile::Balanced => "balanced"@,
            RuntimeSpeedProfile::Fast => "fast"@,
            RuntimeSpeedProfile::Quality => "quality"@,
        }
    }

    pub fn from_id(value: &str) -> (r: Self)
        ensures
            r == profile_from_id_spec(value@),
    {
        if str_eq(value, "fast") {
            Self::Fast
        } else if str_eq(value, "quality") {
            Self::Quality
        } else {
            Self::Balanced
        }
    }

    pub fn as_id(&self) -> (r: &'static str)
        ensures
            r@ == self.id_spec(),
    {
        match self {
            Self::Balanced => "balanced",
            Self::Fast => "fast",
            Self::Quality => "quality",
        }
    }

    /// Whether the accelerator backend is asked for half precision:
    /// every profile but `Quality` accepts it for speed.
    pub fn nnapi_use_fp16(self) -> (r: bool)
        ensures
            r == !(self is Quality),
    {
        !matches!(self, Self::Quality)
    }

    /// Thread counts and parallel-execution flag used when only the
    /// generic CPU backend is registered: (intra, inter, parallel).
    pub fn cpu_threads(self) -> (r: (usize, usize, bool))
        ensures
            self is Balanced ==> r == (4usize, 1usize, false),
            self is Fast ==> r == (6usize, 1usize, false),
            self is Quality ==> r == (4usize, 1usize, true),
    {
        match self {
            Self::Balanced => (4, 1, false),
            Self::Fast => (6, 1, false),
            Self::Quality => (4, 1, true),
        }
    }
}

/// Hardware-acceleration preference.
#[derive(Debug, Clone, Copy, PartialEq, Eq, Structural)]
pub enum RuntimeAcceleratorMode {
    Auto,
    Cpu,
}

/// The accelerator mode selected by a textual identifier; unrecognized
/// identifiers fall back to `Auto`.
pub open spec fn mode_from_id_spec(value: Seq<char>) -> RuntimeAcceleratorMode {
    if value == "cpu"@ {
        RuntimeAcceleratorMode::Cpu
    } else {
        RuntimeAcceleratorMode::Auto
    }
}

impl RuntimeAcceleratorMode {
    /// Identifier string of a mode.
    pub open spec fn id_spec(self) -> Seq<char> {
        match self {
            RuntimeAcceleratorMode::Auto => "auto"@,
            RuntimeAcceleratorMode::Cpu => "cpu"@,
        }
    }

    pub fn from_id(value: &str) -> (r: Self)
        ensures
            r == mode_from_id_spec(value@),
    {
        if str_eq(value, "cpu") {
            Self::Cpu
        } else {
            Self::Auto
        }
    }

    pub fn as_id(&self) -> (r: &'static str)
        ensures
            r@ == self.id_spec(),
    {
        match self {
            Self::Auto => "auto",
            Self::Cpu => "cpu",
        }
    }
}

/// Caller preference for how the acoustic model should be run; used
/// verbatim as a cache-key fragment.
#[derive(Debug, Clone, Copy, PartialEq, Eq, Structural)]
pub struct RuntimeOptions {
    pub speed_profile: RuntimeSpeedProfile,
    pub accelerator_mode: RuntimeAcceleratorMode,
}

impl Default for RuntimeOptions {
    fn default() -> (r: Self)
        ensures
            r.speed_profile is Balanced,
            r.accelerator_mode is Auto,
    {
        Self {
            speed_profile: RuntimeSpeedProfile::Balanced,
            accelerator_mode: RuntimeAcceleratorMode::Auto,
        }
    }
}

/// The cache-key fragment that serializes a pair of runtime options.
pub open spec fn fragment_spec(options: RuntimeOptions) -> Seq<char> {
    "profile="@ + options.speed_profile.id_spec() + ";accelerator="@
        + options.accelerator_mode.id_spec()
}

impl RuntimeOptions {
    pub fn from_ids(speed_profile: &str, accelerator_mode: &str) -> (r: Self)
        ensures
            r.speed_profile == profile_from_id_spec(speed_profile@),
            r.accelerator_mode == mode_from_id_spec(accelerator_mode@),
    {
        Self {
            speed_profile: RuntimeSpeedProfile::from_id(speed_profile),
            accelerator_mode: RuntimeAcceleratorMode::from_id(accelerator_mode),
        }
    }

    pub fn cache_fragment(self) -> (r: String)
        ensures
            r@ == fragment_spec(self),
    {
        let mut s = String::new();
        s.append("profile=");
        s.append(self.speed_profile.as_id());
        s.append(";accelerator=");
        s.append(self.accelerator_mode.as_id());
        proof {
            assert(s@ =~= fragment_spec(self));
        }
        s
    }
}

/// One candidate backend with its resolved configuration, in the order
/// the inference runtime should try them.
#[derive(Debug, Clone, Copy, PartialEq, Eq, Structural)]
pub enum ProviderPlan {
    Xnnpack { intra_threads: usize },
    Nnapi { disable_cpu: bool, use_fp16: bool },
    Cpu,
}

/// Diagnostic summary recorded for `Auto` mode: the mode, the profile,
/// and the resolved configuration of every candidate backend.
pub open spec fn auto_summary_spec(
    profile: RuntimeSpeedProfile,
    xnn_available: bool,
    nnapi_available: bool,
    cpu_available: bool,
) -> Seq<char> {
    "mode=auto, profile="@ + profile.id_spec() + ", requested=[XNNPACK(available="@
        + bool_str_spec(xnn_available) + ",threads=4), NNAPI(available="@
        + bool_str_spec(nnapi_available) + ",disable_cpu=true,fp16="@
        + bool_str_spec(!(profile is Quality)) + "), CPU(available="@
        + bool_str_spec(cpu_available) + ")]"@
}

/// Diagnostic summary recorded for `Cpu` mode.
pub open spec fn cpu_summary_spec(profile: RuntimeSpeedProfile, cpu_available: bool) -> Seq<
    char,
> {
    "mode=cpu, profile="@ + profile.id_spec() + ", requested=[CPU(available="@
        + bool_str_spec(cpu_available) + ")]"@
}

pub open spec fn bool_str_spec(b: bool) -> Seq<char> {
    if b {
        "true"@
    } else {
        "false"@
    }
}

fn bool_str(b: bool) -> (r: &'static str)
    ensures
        r@ == bool_str_spec(b),
{
    if b {
        "true"
    } else {
        "false"
    }
}

/// How a session for the acoustic model should be built: ordered backend
/// candidates, thread counts, and a diagnostic summary. Pure policy,
/// independent of any loaded model.
#[derive(Debug, Clone)]
pub struct SessionRuntimePlan {
    pub providers: Vec<ProviderPlan>,
    pub provider_summary: String,
    pub intra_threads: usize,
    pub inter_threads: usize,
    pub parallel_execution: bool,
}

impl SessionRuntimePlan {
    /// Selects backends and thread counts for the given options. The
    /// availability flags come from probing the backends; they only enter
    /// the diagnostic summary — all candidates are registered regardless,
    /// since the inference runtime performs its own fallback.
    pub fn from_runtime_options(
        options: RuntimeOptions,
        xnn_available: bool,
        nnapi_available: bool,
        cpu_available: bool,
    ) -> (r: Self)
        ensures
            options.accelerator_mode is Auto ==> {
                &&& r.providers@ == seq![
                    ProviderPlan::Xnnpack { intra_threads: XNNPACK_THREAD_COUNT },
                    ProviderPlan::Nnapi {
                        disable_cpu: true,
                        use_fp16: !(options.speed_profile is Quality),
                    },
                    ProviderPlan::Cpu,
                ]
                &&& r.intra_threads == 1
                &&& r.inter_threads == 1
                &&& r.parallel_execution == false
                &&& r.provider_summary@ == auto_summary_spec(
                    options.speed_profile,
                    xnn_available,
                    nnapi_available,
                    cpu_available,
                )
            },
            options.accelerator_mode is Cpu ==> {
                &&& r.providers@ == seq![ProviderPlan::Cpu]
                &&& options.speed_profile is Balanced ==> (r.intra_threads, r.inter_threads,
                r.parallel_execution) == (4usize, 1usize, false)
                &&& options.speed_profile is Fast ==> (r.intra_threads, r.inter_threads,
                r.parallel_execution) == (6usize, 1usize, false)
                &&& options.speed_profile is Quality ==> (r.intra_threads, r.inter_threads,
                r.parallel_execution) == (4usize, 1usize, true)
                &&& r.provider_summary@ == cpu_summary_spec(options.speed_profile, cpu_available)
            },
    {
        match options.accelerator_mode {
            RuntimeAcceleratorMode::Auto => {
                let mut providers: Vec<ProviderPlan> = Vec::new();
                providers.push(ProviderPlan::Xnnpack { intra_threads: XNNPACK_THREAD_COUNT });
                providers.push(
                    ProviderPlan::Nnapi {
                        disable_cpu: true,
                        use_fp16: options.speed_profile.nnapi_use_fp16(),
                    },
                );
                providers.push(ProviderPlan::Cpu);

                let mut summary = String::new();
                summary.append("mode=auto, profile=");
                summary.append(options.speed_profile.as_id());
                summary.append(", requested=[XNNPACK(available=");
                summary.append(bool_str(xnn_available));
                summary.append(",threads=4), NNAPI(available=");
                summary.append(bool_str(nnapi_available));
                summary.append(",disable_cpu=true,fp16=");
                summary.append(bool_str(options.speed_profile.nnapi_use_fp16()));
                summary.append("), CPU(available=");
                summary.append(bool_str(cpu_available));
                summary.append(")]");
                proof {
                    assert(summary@ =~= auto_summary_spec(
                        options.speed_profile,
                        xnn_available,
                        nnapi_available,
                        cpu_available,
                    ));
                    assert(providers@ =~= seq![
                        ProviderPlan::Xnnpack { intra_threads: XNNPACK_THREAD_COUNT },
                        ProviderPlan::Nnapi {
                            disable_cpu: true,
                            use_fp16: !(options.speed_profile is Quality),
                        },
                        ProviderPlan::Cpu,
                    ]);
                }
                Self {
                    providers,
                    provider_summary: summary,
                    intra_threads: 1,
                    inter_threads: 1,
                    parallel_execution: false,
                }
            },
            RuntimeAcceleratorMode::Cpu => {
                let threads = options.speed_profile.cpu_threads();
                let mut providers: Vec<ProviderPlan> = Vec::new();
                providers.push(ProviderPlan::Cpu);

                let mut summary = String::new();
                summary.append("mode=cpu, profile=");
                summary.append(options.speed_profile.as_id());
                summary.append(", requested=[CPU(available=");
                summary.append(bool_str(cpu_available));
                summary.append(")]");
                proof {
                    assert(summary@ =~= cpu_summary_spec(options.speed_profile, cpu_available));
                    assert(providers@ =~= seq![ProviderPlan::Cpu]);
                }
                Self {
                    providers,
                    provider_summary: summary,
                    intra_threads: threads.0,
                    inter_threads: threads.1,
                    parallel_execution: threads.2,
                }
            },
        }
    }
}

} // verus!
