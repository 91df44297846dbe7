//! Model asset naming and the engine-cache key logic: the fingerprint
//! that keys a loaded model, and the state that guarantees at most one
//! loaded engine per fingerprint, reloaded on any option change.

use vstd::prelude::*;
use vstd::string::*;

use crate::errors::EngineError;
use crate::runtime::{fragment_spec, RuntimeAcceleratorMode, RuntimeOptions, RuntimeSpeedProfile};
use crate::text::str_eq;

verus! {

/// The model subdirectory a model id resolves to, if the id is known.
pub open spec fn model_subdir_spec(model_id: Seq<char>) -> Option<Seq<char>> {
    if model_id == "gigaam-v3-e2e-ctc-int8"@ {
        Some("gigaam-v3-e2e-ctc-int8"@)
    } else if model_id == "gigaam-v3-e2e-ctc"@ {
        Some("gigaam-v3-e2e-ctc"@)
    } else {
        None
    }
}

/// The model-weights filename a model id resolves to, if the id is known.
pub open spec fn model_onnx_spec(model_id: Seq<char>) -> Option<Seq<char>> {
    if model_id == "gigaam-v3-e2e-ctc-int8"@ {
        Some("v3_e2e_ctc.int8.onnx"@)
    } else if model_id == "gigaam-v3-e2e-ctc"@ {
        Some("v3_e2e_ctc.onnx"@)
    } else {
        None
    }
}

/// Maps a model id to its subdirectory name.
pub fn model_subdirectory_name(model_id: &str) -> (r: Result<&'static str, EngineError>)
    ensures
        match model_subdir_spec(model_id@) {
            Some(sub) => r matches Ok(s) && s@ == sub,
            None => (r matches Err(EngineError::UnsupportedModelId(m)) && m@ == model_id@),
        },
{
    if str_eq(model_id, "gigaam-v3-e2e-ctc-int8") {
        Ok("gigaam-v3-e2e-ctc-int8")
    } else if str_eq(model_id, "gigaam-v3-e2e-ctc") {
        Ok("gigaam-v3-e2e-ctc")
    } else {
        Err(EngineError::UnsupportedModelId(String::from_str(model_id)))
    }
}

/// Maps a model id to its weights filename.
pub fn model_onnx_filename(model_id: &str) -> (r: Result<&'static str, EngineError>)
    ensures
        match model_onnx_spec(model_id@) {
            Some(name) => r matches Ok(s) && s@ == name,
            None => (r matches Err(EngineError::UnsupportedModelId(m)) && m@ == model_id@),
        },
{
    if str_eq(model_id, "gigaam-v3-e2e-ctc-int8") {
        Ok("v3_e2e_ctc.int8.onnx")
    } else if str_eq(model_id, "gigaam-v3-e2e-ctc") {
        Ok("v3_e2e_ctc.onnx")
    } else {
        Err(EngineError::UnsupportedModelId(String::from_str(model_id)))
    }
}

/// The files a model directory must hold: the weights, the vocabulary
/// text, and the configuration text.
pub fn required_model_files(model_id: &str) -> (r: Result<Vec<&'static str>, EngineError>)
    ensures
        match model_onnx_spec(model_id@) {
            Some(name) => (r matches Ok(files) && files.deep_view() =~= seq![
                name,
                "v3_e2e_ctc_vocab.txt"@,
                "v3_e2e_ctc.yaml"@,
            ]),
            None => (r matches Err(EngineError::UnsupportedModelId(m)) && m@ == model_id@),
        },
{
    let onnx = match model_onnx_filename(model_id) {
        Ok(name) => name,
        Err(e) => {
            return Err(e);
        },
    };
    let mut files: Vec<&'static str> = Vec::new();
    files.push(onnx);
    files.push("v3_e2e_ctc_vocab.txt");
    files.push("v3_e2e_ctc.yaml");
    Ok(files)
}

/// The path of a model's directory under the models root.
pub open spec fn model_dir_spec(models_root: Seq<char>, sub: Seq<char>) -> Seq<char> {
    models_root + "/"@ + sub
}

/// Resolves the directory that holds a model's assets.
pub fn resolve_model_directory(models_root: &str, model_id: &str) -> (r: Result<
    String,
    EngineError,
>)
    ensures
        match model_subdir_spec(model_id@) {
            Some(sub) => r matches Ok(p) && p@ == model_dir_spec(models_root@, sub),
            None => (r matches Err(EngineError::UnsupportedModelId(m)) && m@ == model_id@),
        },
{
    let sub = match model_subdirectory_name(model_id) {
        Ok(s) => s,
        Err(e) => {
            return Err(e);
        },
    };
    let mut p = String::from_str(models_root);
    p.append("/");
    p.append(sub);
    proof {
        assert(p@ =~= model_dir_spec(models_root@, model_subdir_spec(model_id@)->Some_0));
    }
    Ok(p)
}

/// The cache-key fingerprint of a (model location, runtime options)
/// pair.
pub open spec fn cache_key_spec(
    models_root: Seq<char>,
    sub: Seq<char>,
    options: RuntimeOptions,
) -> Seq<char> {
    models_root + "/"@ + sub + "?"@ + fragment_spec(options)
}

/// Composes the cache-key fingerprint for a model location and options.
pub fn compose_cache_key(models_root: &str, model_id: &str, runtime_options: RuntimeOptions) -> (r:
    Result<String, EngineError>)
    ensures
        match model_subdir_spec(model_id@) {
            Some(sub) => r matches Ok(k) && k@ == cache_key_spec(models_root@, sub, runtime_options),
            None => (r matches Err(EngineError::UnsupportedModelId(m)) && m@ == model_id@),
        },
{
    let sub = match model_subdirectory_name(model_id) {
        Ok(s) => s,
        Err(e) => {
            return Err(e);
        },
    };
    let fragment = runtime_options.cache_fragment();
    let mut k = String::from_str(models_root);
    k.append("/");
    k.append(sub);
    k.append("?");
    k.append(fragment.as_str());
    proof {
        assert(k@ =~= cache_key_spec(
            models_root@,
            model_subdir_spec(model_id@)->Some_0,
            runtime_options,
        ));
    }
    Ok(k)
}

/// Two distinct option pairs always serialize to distinct fragments.
pub proof fn lemma_fragment_injective(o1: RuntimeOptions, o2: RuntimeOptions)
    requires
        o1 != o2,
    ensures
        fragment_spec(o1) != fragment_spec(o2),
{
    reveal_strlit("profile=");
    reveal_strlit(";accelerator=");
    reveal_strlit("balanced");
    reveal_strlit("fast");
    reveal_strlit("quality");
    reveal_strlit("auto");
    reveal_strlit("cpu");
    let f1 = fragment_spec(o1);
    let f2 = fragment_spec(o2);
    let p1 = o1.speed_profile;
    let p2 = o2.speed_profile;
    assert(f1.len() == 21 + p1.id_spec().len() + o1.accelerator_mode.id_spec().len());
    assert(f2.len() == 21 + p2.id_spec().len() + o2.accelerator_mode.id_spec().len());
    if f1.len() == f2.len() {
        assert((p1 is Balanced && p2 is Quality) || (p1 is Quality && p2 is Balanced));
        assert(f1[8] == p1.id_spec()[0]);
        assert(f2[8] == p2.id_spec()[0]);
        assert(p1.id_spec()[0] != p2.id_spec()[0]);
        assert(f1[8] != f2[8]);
    }
}

/// A change of runtime options alone changes the cache key, even for
/// the same model location: a pure option change forces a reload.
pub proof fn lemma_cache_key_distinguishes_options(
    models_root: Seq<char>,
    sub: Seq<char>,
    o1: RuntimeOptions,
    o2: RuntimeOptions,
)
    requires
        o1 != o2,
    ensures
        cache_key_spec(models_root, sub, o1) != cache_key_spec(models_root, sub, o2),
{
    lemma_fragment_injective(o1, o2);
    let prefix = models_root + "/"@ + sub + "?"@;
    let k1 = cache_key_spec(models_root, sub, o1);
    let k2 = cache_key_spec(models_root, sub, o2);
    assert(k1 =~= prefix + fragment_spec(o1));
    assert(k2 =~= prefix + fragment_spec(o2));
    if k1 == k2 {
        assert(k1.len() == prefix.len() + fragment_spec(o1).len());
        assert(k2.len() == prefix.len() + fragment_spec(o2).len());
        assert(fragment_spec(o1).len() == fragment_spec(o2).len());
        assert forall|m: int|
            0 <= m < fragment_spec(o1).len() implies fragment_spec(o1)[m] == fragment_spec(
            o2,
        )[m] by {
            assert((prefix + fragment_spec(o1))[prefix.len() + m] == fragment_spec(o1)[m]);
            assert((prefix + fragment_spec(o2))[prefix.len() + m] == fragment_spec(o2)[m]);
        }
        assert(fragment_spec(o1) =~= fragment_spec(o2));
    }
}

/// The key side of the process-wide engine cache: which fingerprint
/// the currently loaded engine (if any) belongs to, and the runtime
/// options the next load will use. The loaded engine itself lives
/// beside this state, outside the core.
#[derive(Debug)]
pub struct EngineCacheKeys {
    pub model_key: Option<String>,
    pub runtime_options: RuntimeOptions,
}

impl EngineCacheKeys {
    /// A fresh cache: nothing loaded, default options.
    pub fn new() -> (r: Self)
        ensures
            r.model_key is None,
            r.runtime_options.speed_profile is Balanced,
            r.runtime_options.accelerator_mode is Auto,
    {
        Self {
            model_key: None,
            runtime_options: RuntimeOptions {
                speed_profile: RuntimeSpeedProfile::Balanced,
                accelerator_mode: RuntimeAcceleratorMode::Auto,
            },
        }
    }

    /// Adopts new runtime options; any actual change invalidates the
    /// cached key so the next use reloads. Returns whether it did.
    pub fn set_runtime_options(&mut self, options: RuntimeOptions) -> (changed: bool)
        ensures
            changed == (old(self).runtime_options != options),
            final(self).runtime_options == options,
            changed ==> final(self).model_key is None,
            !changed ==> final(self).model_key == old(self).model_key,
    {
        if self.runtime_options != options {
            self.runtime_options = options;
            self.model_key = None;
            true
        } else {
            false
        }
    }

    /// Whether a load is needed for the given fingerprint: always when
    /// nothing is cached, and whenever the fingerprint differs.
    pub fn needs_reload(&self, cache_key: &str) -> (r: bool)
        ensures
            r == !(self.model_key matches Some(k) && k@ == cache_key@),
    {
        match &self.model_key {
            Some(k) => !str_eq(k.as_str(), cache_key),
            None => true,
        }
    }

    /// Records that an engine for the given fingerprint is now the one
    /// loaded instance.
    pub fn record_load(&mut self, cache_key: String)
        ensures
            final(self).model_key == Some(cache_key),
            final(self).runtime_options == old(self).runtime_options,
    {
        self.model_key = Some(cache_key);
    }

    /// Unloads unconditionally; idempotent.
    pub fn clear(&mut self)
        ensures
            final(self).model_key is None,
            final(self).runtime_options == old(self).runtime_options,
    {
        self.model_key = None;
    }
}

} // verus!
