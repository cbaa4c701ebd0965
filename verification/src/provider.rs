//! Execution-provider selection for model sessions, model-file variants,
//! and the processing pipeline's configuration.

use vstd::prelude::*;
use crate::text::{ascii_lower, is_ascii_text, lowered, str_eq, to_lowercase};

verus! {

/// GPU/accelerator execution provider.
#[derive(Debug, Clone)]
pub enum GpuProvider {
    /// Try CUDA, then DirectML, then the CPU.
    Auto,
    /// CUDA on the given device.
    Cuda { device_id: i32 },
    /// DirectML on the given device.
    DirectML { device_id: i32 },
    /// VitisAI on an NPU, with its configuration file and cache directory.
    Npu { config_file: String, cache_dir: String },
    /// CPU only.
    Cpu,
}

impl Default for GpuProvider {
    fn default() -> (r: Self)
        ensures
            r is Auto,
    {
        GpuProvider::Auto
    }
}

/// The name shown for a provider.
pub open spec fn provider_display_name(p: GpuProvider) -> Seq<char> {
    match p {
        GpuProvider::Auto => "Auto (CUDA > DirectML > CPU)"@,
        GpuProvider::Cuda { .. } => "CUDA"@,
        GpuProvider::DirectML { .. } => "DirectML"@,
        GpuProvider::Npu { .. } => "VitisAI NPU"@,
        GpuProvider::Cpu => "CPU"@,
    }
}

/// One entry of a session's execution-provider chain.
#[derive(Debug, Clone)]
pub enum ExecutionProvider {
    /// CUDA, on the given device or the default one.
    Cuda { device_id: Option<i32> },
    /// DirectML, on the given device or the default one.
    DirectML { device_id: Option<i32> },
    /// VitisAI with its configuration file, cache directory and cache key.
    Vitis { config_file: String, cache_dir: String, cache_key: String },
    /// The CPU.
    Cpu,
}

/// How a model session is to be built: whether the memory pattern is
/// switched off, and the providers to try in order.
#[derive(Debug)]
pub struct SessionPlan {
    pub disable_memory_pattern: bool,
    pub providers: Vec<ExecutionProvider>,
}

/// The file name of a model variant: `<stem>_<tag>.<ext>`.
pub open spec fn variant_name(stem: Seq<char>, tag: Seq<char>, ext: Seq<char>) -> Seq<char> {
    stem + "_"@ + tag + "."@ + ext
}

/// `r` is the provider selected by the override `ep` (compared after
/// lower-casing as `str::to_lowercase` does), with the NPU settings `npu_config` and `npu_cache` or
/// their defaults.
pub open spec fn is_detected(r: GpuProvider, ep: Option<&str>, npu_config: Option<String>, npu_cache: Option<String>) -> bool {
    match ep {
        Option::None => r is Auto,
        Option::Some(e) => {
            let sel = lowered(e@);
            let config = match npu_config {
                Option::Some(c) => c@,
                Option::None => "vaip_config.json"@,
            };
            let cache = match npu_cache {
                Option::Some(c) => c@,
                Option::None => "./npu_cache"@,
            };
            if sel == "cuda"@ {
                r == (GpuProvider::Cuda { device_id: 0 })
            } else if sel == "directml"@ {
                r == (GpuProvider::DirectML { device_id: 0 })
            } else if sel == "npu"@ {
                r matches GpuProvider::Npu { config_file, cache_dir } && config_file@ == config && cache_dir@ == cache
            } else if sel == "cpu"@ {
                r is Cpu
            } else {
                r is Auto
            }
        },
    }
}
/// The override is read without regard to case: an override whose lower
/// case (as `str::to_lowercase` gives it) is `cuda`, `directml`, `npu` or
/// `cpu` selects that provider however it is spelled, in particular any
/// ASCII spelling of `cpu` selects the CPU; any other override selects the
/// automatic chain.
pub proof fn lemma_override_ignores_case(
    r: GpuProvider,
    e: &str,
    npu_config: Option<String>,
    npu_cache: Option<String>,
)
    requires
        is_detected(r, Some(e), npu_config, npu_cache),
    ensures
        lowered(e@) == "cuda"@ ==> r == (GpuProvider::Cuda { device_id: 0 }),
        lowered(e@) == "directml"@ ==> r == (GpuProvider::DirectML { device_id: 0 }),
        lowered(e@) == "npu"@ ==> r is Npu,
        lowered(e@) == "cpu"@ ==> r is Cpu,
        is_ascii_text(e@) && Seq::new(e@.len(), |i: int| ascii_lower(e@[i])) == "cpu"@ ==> r is Cpu,
        lowered(e@) != "cuda"@ && lowered(e@) != "directml"@ && lowered(e@) != "npu"@ && lowered(e@) != "cpu"@
            ==> r is Auto,
{
    lemma_override_names_distinct();
}

/// The four override names differ from one another.
proof fn lemma_override_names_distinct()
    ensures
        "cuda"@ != "directml"@,
        "cuda"@ != "npu"@,
        "cuda"@ != "cpu"@,
        "directml"@ != "npu"@,
        "directml"@ != "cpu"@,
        "npu"@ != "cpu"@,
{
    reveal_strlit("cuda");
    reveal_strlit("directml");
    reveal_strlit("npu");
    reveal_strlit("cpu");
    assert("cuda"@[1] != "directml"@[1]);
    assert("cuda"@.len() != "npu"@.len());
    assert("cuda"@[1] != "cpu"@[1]);
    assert("directml"@.len() != "npu"@.len());
    assert("directml"@.len() != "cpu"@.len());
    assert("npu"@[0] != "cpu"@[0]);
}

/// Two overrides with the same lower case select the same provider.
pub proof fn lemma_same_lower_case_same_provider(
    r1: GpuProvider,
    r2: GpuProvider,
    e1: &str,
    e2: &str,
    npu_config: Option<String>,
    npu_cache: Option<String>,
)
    requires
        is_detected(r1, Some(e1), npu_config, npu_cache),
        is_detected(r2, Some(e2), npu_config, npu_cache),
        lowered(e1@) == lowered(e2@),
    ensures
        r1 is Auto <==> r2 is Auto,
        r1 is Cpu <==> r2 is Cpu,
        r1 is Cuda ==> r1 == r2,
        r1 is DirectML ==> r1 == r2,
        r1 matches GpuProvider::Npu { config_file: f1, cache_dir: d1 } ==> r2 matches GpuProvider::Npu {
            config_file: f2,
            cache_dir: d2,
        } && f1@ == f2@ && d1@ == d2@,
{
    lemma_override_ignores_case(r1, e1, npu_config, npu_cache);
    lemma_override_ignores_case(r2, e2, npu_config, npu_cache);
}

impl GpuProvider {
    /// The provider that the environment asks for. `ep` is the value of the
    /// override (`cuda`, `directml`, `npu` or `cpu` in any case, compared
    /// after lower-casing; anything else, or no override, means the
    /// automatic chain), `npu_config` and `npu_cache` those of the NPU settings,
    /// with `vaip_config.json` and `./npu_cache` as defaults.
    pub fn detect(ep: Option<&str>, npu_config: Option<String>, npu_cache: Option<String>) -> (r: GpuProvider)
        ensures
            is_detected(r, ep, npu_config, npu_cache),
            ep matches Some(e) && lowered(e@) == "cpu"@ ==> r is Cpu,
            ep matches Some(e) && lowered(e@) == "cuda"@ ==> r == (GpuProvider::Cuda { device_id: 0 }),
            ep matches Some(e) && lowered(e@) == "directml"@ ==> r == (GpuProvider::DirectML { device_id: 0 }),
            ep matches Some(e) && lowered(e@) == "npu"@ ==> r is Npu,
    {
        proof {
            lemma_override_names_distinct();
            reveal_strlit("cuda");
            reveal_strlit("directml");
            reveal_strlit("cpu");
            reveal_strlit("npu");
        }
        match ep {
            None => GpuProvider::Auto,
            Some(e) => {
                let l = to_lowercase(e);
                if str_eq(l.as_str(), "cuda") {
                    GpuProvider::Cuda { device_id: 0 }
                } else if str_eq(l.as_str(), "directml") {
                    GpuProvider::DirectML { device_id: 0 }
                } else if str_eq(l.as_str(), "npu") {
                    let config_file = match npu_config {
                        Some(c) => c,
                        None => String::from_str("vaip_config.json"),
                    };
                    let cache_dir = match npu_cache {
                        Some(c) => c,
                        None => String::from_str("./npu_cache"),
                    };
                    GpuProvider::Npu { config_file, cache_dir }
                } else if str_eq(l.as_str(), "cpu") {
                    GpuProvider::Cpu
                } else {
                    GpuProvider::Auto
                }
            },
        }
    }

    /// Human-readable name for the provider.
    pub fn display_name(&self) -> (r: &'static str)
        ensures
            r@ == provider_display_name(*self),
    {
        match self {
            GpuProvider::Auto => "Auto (CUDA > DirectML > CPU)",
            GpuProvider::Cuda { .. } => "CUDA",
            GpuProvider::DirectML { .. } => "DirectML",
            GpuProvider::Npu { .. } => "VitisAI NPU",
            GpuProvider::Cpu => "CPU",
        }
    }

    /// How to build a session: DirectML and VitisAI (and the automatic
    /// chain, which may pick DirectML) need the memory pattern off; each
    /// provider is followed by the CPU as fallback.
    pub fn session_plan(&self) -> (plan: SessionPlan)
        ensures
            plan.disable_memory_pattern == (self is Auto || self is DirectML || self is Npu),
            match *self {
                GpuProvider::Auto => plan.providers@.len() == 3 && plan.providers@[0] == (ExecutionProvider::Cuda {
                    device_id: None,
                }) && plan.providers@[1] == (ExecutionProvider::DirectML { device_id: None })
                    && plan.providers@[2] is Cpu,
                GpuProvider::Cuda { device_id } => plan.providers@.len() == 2 && plan.providers@[0]
                    == (ExecutionProvider::Cuda { device_id: Some(device_id) }) && plan.providers@[1] is Cpu,
                GpuProvider::DirectML { device_id } => plan.providers@.len() == 2 && plan.providers@[0]
                    == (ExecutionProvider::DirectML { device_id: Some(device_id) }) && plan.providers@[1] is Cpu,
                GpuProvider::Npu { config_file, cache_dir } => plan.providers@.len() == 2 && (
                plan.providers@[0] matches ExecutionProvider::Vitis { config_file: f, cache_dir: d, cache_key: k }
                    && f@ == config_file@ && d@ == cache_dir@ && k@ == "deep-forge"@) && plan.providers@[1] is Cpu,
                GpuProvider::Cpu => plan.providers@.len() == 1 && plan.providers@[0] is Cpu,
            },
    {
        let disable_memory_pattern = match self {
            GpuProvider::Auto => true,
            GpuProvider::DirectML { .. } => true,
            GpuProvider::Npu { .. } => true,
            _ => false,
        };
        let mut providers: Vec<ExecutionProvider> = Vec::new();
        match self {
            GpuProvider::Auto => {
                providers.push(ExecutionProvider::Cuda { device_id: None });
                providers.push(ExecutionProvider::DirectML { device_id: None });
            },
            GpuProvider::Cuda { device_id } => {
                providers.push(ExecutionProvider::Cuda { device_id: Some(*device_id) });
            },
            GpuProvider::DirectML { device_id } => {
                providers.push(ExecutionProvider::DirectML { device_id: Some(*device_id) });
            },
            GpuProvider::Npu { config_file, cache_dir } => {
                providers.push(
                    ExecutionProvider::Vitis {
                        config_file: config_file.clone(),
                        cache_dir: cache_dir.clone(),
                        cache_key: String::from_str("deep-forge"),
                    },
                );
            },
            GpuProvider::Cpu => {},
        }
        providers.push(ExecutionProvider::Cpu);
        SessionPlan { disable_memory_pattern, providers }
    }

    /// The model file to load for a model `<stem>.<ext>` named `base_name`:
    /// the FP16 variant first, then (for the NPU) the INT8 variant, and
    /// otherwise the model itself. `int8_present` and `fp16_present` say
    /// which variants exist.
    pub fn resolve_model_path(
        &self,
        stem: &str,
        ext: &str,
        base_name: &str,
        int8_present: bool,
        fp16_present: bool,
    ) -> (r: String)
        ensures
            r@ == if fp16_present {
                variant_name(stem@, "fp16"@, ext@)
            } else if self is Npu && int8_present {
                variant_name(stem@, "int8"@, ext@)
            } else {
                base_name@
            },
    {
        let is_npu = match self {
            GpuProvider::Npu { .. } => true,
            _ => false,
        };
        if fp16_present {
            model_variant_name(stem, "fp16", ext)
        } else if is_npu && int8_present {
            model_variant_name(stem, "int8", ext)
        } else {
            String::from_str(base_name)
        }
    }
}

/// The file name of a model variant, `<stem>_<tag>.<ext>`.
pub fn model_variant_name(stem: &str, tag: &str, ext: &str) -> (r: String)
    ensures
        r@ == variant_name(stem@, tag@, ext@),
{
    let mut r = String::from_str(stem);
    r.append("_");
    r.append(tag);
    r.append(".");
    r.append(ext);
    r
}

/// Models that must be present for face swapping, relative to the models
/// directory.
pub open spec fn required_model_paths() -> Seq<Seq<char>> {
    seq!["inswapper_128.onnx"@, "buffalo_l/buffalo_l/det_10g.onnx"@, "gfpgan-1024.onnx"@]
}

/// The detection model, relative to the models directory.
pub const DETECTOR_MODEL: &'static str = "buffalo_l/buffalo_l/det_10g.onnx";

/// Models that must be present for face swapping.
pub fn required_models() -> (r: Vec<&'static str>)
    ensures
        r@.len() == required_model_paths().len(),
        forall|i: int| 0 <= i < r@.len() ==> #[trigger] r@[i]@ == required_model_paths()[i],
{
    let mut r: Vec<&'static str> = Vec::new();
    r.push("inswapper_128.onnx");
    r.push("buffalo_l/buffalo_l/det_10g.onnx");
    r.push("gfpgan-1024.onnx");
    r
}

/// What validation found of one model: whether its file is present and,
/// when it is, whether a session could be built from it.
#[derive(Debug, Clone, Copy)]
pub struct ModelCheck {
    pub present: bool,
    pub loaded: bool,
}

/// The positions, in order, of the models that are present but failed to
/// load; a missing model is downloaded on first use and fails nothing.
pub open spec fn failed_positions(checks: Seq<ModelCheck>) -> Seq<usize>
    decreases checks.len(),
{
    if checks.len() == 0 {
        Seq::empty()
    } else {
        let rest = failed_positions(checks.drop_last());
        let last = checks.last();
        if last.present && !last.loaded {
            rest.push((checks.len() - 1) as usize)
        } else {
            rest
        }
    }
}

/// Validation passes exactly when every model that is present loaded.
pub proof fn lemma_validation_passes(checks: Seq<ModelCheck>)
    ensures
        failed_positions(checks).len() == 0 <==> forall|i: int|
            0 <= i < checks.len() && (#[trigger] checks[i]).present ==> checks[i].loaded,
    decreases checks.len(),
{
    if checks.len() > 0 {
        let init = checks.drop_last();
        let n = checks.len() - 1;
        lemma_validation_passes(init);
        assert(checks.last() == checks[n]);
        let all_ok = forall|i: int| 0 <= i < checks.len() && (#[trigger] checks[i]).present ==> checks[i].loaded;
        let init_ok = forall|i: int| 0 <= i < init.len() && (#[trigger] init[i]).present ==> init[i].loaded;
        if all_ok {
            assert forall|i: int| 0 <= i < init.len() && (#[trigger] init[i]).present implies init[i].loaded by {
                assert(init[i] == checks[i]);
            }
            assert(checks[n].present ==> checks[n].loaded);
        }
        if failed_positions(checks).len() == 0 {
            assert(!(checks[n].present && !checks[n].loaded));
            assert(init_ok);
            assert forall|i: int| 0 <= i < checks.len() && (#[trigger] checks[i]).present implies checks[i].loaded by {
                if i < n {
                    assert(init[i] == checks[i]);
                }
            }
        }
    }
}

/// The models that fail validation: those present that did not load.
/// Validation passes exactly when this is empty.
pub fn failed_models(checks: &Vec<ModelCheck>) -> (r: Vec<usize>)
    ensures
        r@ == failed_positions(checks@),
{
    let mut r: Vec<usize> = Vec::new();
    let mut i: usize = 0;
    while i < checks.len()
        invariant
            i <= checks@.len(),
            r@ == failed_positions(checks@.take(i as int)),
        decreases checks@.len() - i,
    {
        assert(checks@.take(i as int + 1).drop_last() =~= checks@.take(i as int));
        if checks[i].present && !checks[i].loaded {
            r.push(i);
        }
        i = i + 1;
    }
    assert(checks@.take(checks@.len() as int) =~= checks@);
    r
}

/// Configuration of the processing pipeline.
#[derive(Debug, Clone)]
pub struct PipelineConfig {
    pub face_swap_enabled: bool,
    pub face_enhancer_gfpgan: bool,
    pub face_enhancer_gpen256: bool,
    pub face_enhancer_gpen512: bool,
    pub jpeg_quality: u8,
}

impl Default for PipelineConfig {
    fn default() -> (r: Self)
        ensures
            r.face_swap_enabled,
            !r.face_enhancer_gfpgan,
            !r.face_enhancer_gpen256,
            !r.face_enhancer_gpen512,
            r.jpeg_quality == 80,
    {
        PipelineConfig {
            face_swap_enabled: true,
            face_enhancer_gfpgan: false,
            face_enhancer_gpen256: false,
            face_enhancer_gpen512: false,
            jpeg_quality: 80,
        }
    }
}

} // verus!
