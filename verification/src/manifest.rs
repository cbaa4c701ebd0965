//! The model manifest: every model the engine uses, where it lives under
//! the models directory and where it is downloaded from, and the status of
//! each on disk.

use vstd::prelude::*;

verus! {

/// Base URL of the primary model repository.
pub const PRIMARY_REPO: &'static str = "https://huggingface.co/phenixstar/deep-forge-models/resolve/main";

/// One model of the manifest.
#[derive(Debug, Clone, Copy)]
pub struct ModelInfo {
    /// Display name.
    pub name: &'static str,
    /// Path under the models directory.
    pub path: &'static str,
    /// Path in the primary repository.
    pub url_suffix: &'static str,
    /// Fallback download URL (empty when there is none).
    pub fallback_url: &'static str,
    /// Approximate size in MB.
    pub size_mb: u32,
    /// Whether basic face swapping needs it.
    pub required: bool,
    /// Description for the model manager.
    pub description: &'static str,
}

impl ModelInfo {
    /// Primary download URL: the repository, a slash, the suffix.
    pub fn url(&self) -> (r: String)
        ensures
            r@ == PRIMARY_REPO@ + "/"@ + self.url_suffix@,
    {
        let mut r = String::from_str(PRIMARY_REPO);
        r.append("/");
        r.append(self.url_suffix);
        r
    }
}

/// The manifest entry for a model.
pub open spec fn entry(
    name: &'static str,
    path: &'static str,
    fallback_url: &'static str,
    size_mb: u32,
    required: bool,
    description: &'static str,
) -> ModelInfo {
    ModelInfo { name, path, url_suffix: path, fallback_url, size_mb, required, description }
}

/// All models, in manifest order.
pub open spec fn manifest() -> Seq<ModelInfo> {
    seq![
        entry("SCRFD Face Detector", "buffalo_l/buffalo_l/det_10g.onnx",
            "https://huggingface.co/facefusion/models/resolve/main/det_10g.onnx", 16, true,
            "SCRFD 10GF face detection model (InsightFace buffalo_l)"),
        entry("ArcFace Embedding (w600k_r50)", "buffalo_l/buffalo_l/w600k_r50.onnx",
            "https://huggingface.co/facefusion/models/resolve/main/w600k_r50.onnx", 166, true,
            "ArcFace R50 face recognition/embedding model"),
        entry("Inswapper 128 (FP32)", "inswapper_128.onnx",
            "https://huggingface.co/ezioruan/inswapper_128.onnx/resolve/main/inswapper_128.onnx", 554, true,
            "InsightFace inswapper face swap model (FP32)"),
        entry("Inswapper 128 (FP16)", "inswapper_128_fp16.onnx",
            "https://huggingface.co/facefusion/models/resolve/main/inswapper_128_fp16.onnx", 277, false,
            "FP16 variant — 2x faster on GPU, auto-selected when present"),
        entry("SCRFD INT8 (NPU)", "buffalo_l/buffalo_l/det_10g_int8.onnx", "", 4, false,
            "INT8 QDQ quantized SCRFD — auto-selected when using NPU provider"),
        entry("ArcFace INT8 (NPU)", "buffalo_l/buffalo_l/w600k_r50_int8.onnx", "", 44, false,
            "INT8 QDQ quantized ArcFace — auto-selected when using NPU provider"),
        entry("Inswapper 128 INT8 (NPU)", "inswapper_128_int8.onnx", "", 139, false,
            "INT8 QDQ quantized inswapper — auto-selected when using NPU provider"),
        entry("GFPGAN 1024", "gfpgan-1024.onnx",
            "https://huggingface.co/facefusion/models/resolve/main/gfpgan_1.4.onnx", 332, false,
            "GFPGAN v1.4 face enhancement (1024x1024)"),
        entry("GPEN-BFR 256", "GPEN-BFR-256.onnx",
            "https://huggingface.co/facefusion/models/resolve/main/GPEN-BFR-256.onnx", 80, false,
            "GPEN blind face restoration (256x256, fast)"),
        entry("GPEN-BFR 512", "GPEN-BFR-512.onnx",
            "https://huggingface.co/facefusion/models/resolve/main/GPEN-BFR-512.onnx", 80, false,
            "GPEN blind face restoration (512x512, quality)"),
    ]
}

/// Exactly the detector, the ArcFace embedding model and the FP32
/// inswapper are required: every FP16 or INT8 variant and every enhancer
/// is optional.
pub proof fn lemma_required_models()
    ensures
        manifest().len() == 10,
        forall|i: int|
            0 <= i < manifest().len() ==> ((#[trigger] manifest()[i]).required <==> (manifest()[i].path@
                == "buffalo_l/buffalo_l/det_10g.onnx"@ || manifest()[i].path@ == "buffalo_l/buffalo_l/w600k_r50.onnx"@
                || manifest()[i].path@ == "inswapper_128.onnx"@)),
{
    reveal_strlit("buffalo_l/buffalo_l/det_10g.onnx");
    reveal_strlit("buffalo_l/buffalo_l/w600k_r50.onnx");
    reveal_strlit("inswapper_128.onnx");
    reveal_strlit("inswapper_128_fp16.onnx");
    reveal_strlit("buffalo_l/buffalo_l/det_10g_int8.onnx");
    reveal_strlit("buffalo_l/buffalo_l/w600k_r50_int8.onnx");
    reveal_strlit("inswapper_128_int8.onnx");
    reveal_strlit("gfpgan-1024.onnx");
    reveal_strlit("GPEN-BFR-256.onnx");
    reveal_strlit("GPEN-BFR-512.onnx");
    let m = manifest();
    assert forall|i: int| 0 <= i < m.len() implies ((#[trigger] m[i]).required <==> (m[i].path@
        == "buffalo_l/buffalo_l/det_10g.onnx"@ || m[i].path@ == "buffalo_l/buffalo_l/w600k_r50.onnx"@ || m[i].path@
        == "inswapper_128.onnx"@)) by {
        let len = m[i].path@.len();
        if i == 3 {
            assert(len == 23);
        } else if i == 4 {
            assert(len == 37);
        } else if i == 5 {
            assert(len == 39);
        } else if i == 6 {
            assert(len == 23);
        } else if i == 7 {
            assert(len == 16);
        } else if i == 8 {
            assert(len == 17);
        } else if i == 9 {
            assert(len == 17);
        }
    }
}

/// All models used by the engine, with their download sources.
pub fn models() -> (r: Vec<ModelInfo>)
    ensures
        r@ == manifest(),
        forall|i: int|
            0 <= i < r@.len() ==> ((#[trigger] r@[i]).required <==> (r@[i].path@ == "buffalo_l/buffalo_l/det_10g.onnx"@
                || r@[i].path@ == "buffalo_l/buffalo_l/w600k_r50.onnx"@ || r@[i].path@ == "inswapper_128.onnx"@)),
{
    proof {
        lemma_required_models();
    }
    let mut r: Vec<ModelInfo> = Vec::new();
    r.push(ModelInfo { name: "SCRFD Face Detector", path: "buffalo_l/buffalo_l/det_10g.onnx",
        url_suffix: "buffalo_l/buffalo_l/det_10g.onnx",
        fallback_url: "https://huggingface.co/facefusion/models/resolve/main/det_10g.onnx", size_mb: 16,
        required: true, description: "SCRFD 10GF face detection model (InsightFace buffalo_l)" });
    r.push(ModelInfo { name: "ArcFace Embedding (w600k_r50)", path: "buffalo_l/buffalo_l/w600k_r50.onnx",
        url_suffix: "buffalo_l/buffalo_l/w600k_r50.onnx",
        fallback_url: "https://huggingface.co/facefusion/models/resolve/main/w600k_r50.onnx", size_mb: 166,
        required: true, description: "ArcFace R50 face recognition/embedding model" });
    r.push(ModelInfo { name: "Inswapper 128 (FP32)", path: "inswapper_128.onnx", url_suffix: "inswapper_128.onnx",
        fallback_url: "https://huggingface.co/ezioruan/inswapper_128.onnx/resolve/main/inswapper_128.onnx",
        size_mb: 554, required: true, description: "InsightFace inswapper face swap model (FP32)" });
    r.push(ModelInfo { name: "Inswapper 128 (FP16)", path: "inswapper_128_fp16.onnx",
        url_suffix: "inswapper_128_fp16.onnx",
        fallback_url: "https://huggingface.co/facefusion/models/resolve/main/inswapper_128_fp16.onnx",
        size_mb: 277, required: false, description: "FP16 variant — 2x faster on GPU, auto-selected when present" });
    r.push(ModelInfo { name: "SCRFD INT8 (NPU)", path: "buffalo_l/buffalo_l/det_10g_int8.onnx",
        url_suffix: "buffalo_l/buffalo_l/det_10g_int8.onnx", fallback_url: "", size_mb: 4, required: false,
        description: "INT8 QDQ quantized SCRFD — auto-selected when using NPU provider" });
    r.push(ModelInfo { name: "ArcFace INT8 (NPU)", path: "buffalo_l/buffalo_l/w600k_r50_int8.onnx",
        url_suffix: "buffalo_l/buffalo_l/w600k_r50_int8.onnx", fallback_url: "", size_mb: 44, required: false,
        description: "INT8 QDQ quantized ArcFace — auto-selected when using NPU provider" });
    r.push(ModelInfo { name: "Inswapper 128 INT8 (NPU)", path: "inswapper_128_int8.onnx",
        url_suffix: "inswapper_128_int8.onnx", fallback_url: "", size_mb: 139, required: false,
        description: "INT8 QDQ quantized inswapper — auto-selected when using NPU provider" });
    r.push(ModelInfo { name: "GFPGAN 1024", path: "gfpgan-1024.onnx", url_suffix: "gfpgan-1024.onnx",
        fallback_url: "https://huggingface.co/facefusion/models/resolve/main/gfpgan_1.4.onnx", size_mb: 332,
        required: false, description: "GFPGAN v1.4 face enhancement (1024x1024)" });
    r.push(ModelInfo { name: "GPEN-BFR 256", path: "GPEN-BFR-256.onnx", url_suffix: "GPEN-BFR-256.onnx",
        fallback_url: "https://huggingface.co/facefusion/models/resolve/main/GPEN-BFR-256.onnx", size_mb: 80,
        required: false, description: "GPEN blind face restoration (256x256, fast)" });
    r.push(ModelInfo { name: "GPEN-BFR 512", path: "GPEN-BFR-512.onnx", url_suffix: "GPEN-BFR-512.onnx",
        fallback_url: "https://huggingface.co/facefusion/models/resolve/main/GPEN-BFR-512.onnx", size_mb: 80,
        required: false, description: "GPEN blind face restoration (512x512, quality)" });
    assert(r@ =~= manifest());
    r
}

/// What the file system says of one model's file: whether it exists, and
/// its length in bytes when its metadata could be read.
#[derive(Debug, Clone, Copy)]
pub struct FileProbe {
    pub exists: bool,
    pub len: Option<u64>,
}

/// A model and the state of its file.
#[derive(Debug, Clone, Copy)]
pub struct ModelStatus {
    pub info: ModelInfo,
    pub file_exists: bool,
    pub file_size_mb: u32,
}

/// Whole mebibytes in a file of `len` bytes, as a `u32` (truncating).
pub open spec fn size_in_mb(len: Option<u64>) -> u32 {
    match len {
        Some(l) => (l / 1048576) as u32,
        None => 0,
    }
}

/// Whole mebibytes in a file of `len` bytes; zero when unknown.
pub fn file_size_mb(len: Option<u64>) -> (r: u32)
    ensures
        r == size_in_mb(len),
{
    match len {
        Some(l) => (l / (1024 * 1024)) as u32,
        None => 0,
    }
}

/// The status of every model, given the probe of each model's file in
/// manifest order.
pub fn check_models(probes: &Vec<FileProbe>) -> (r: Vec<ModelStatus>)
    requires
        probes@.len() == manifest().len(),
    ensures
        r@.len() == manifest().len(),
        forall|i: int| 0 <= i < r@.len() ==> #[trigger] r@[i] == (ModelStatus {
            info: manifest()[i],
            file_exists: probes@[i].exists,
            file_size_mb: size_in_mb(probes@[i].len),
        }),
{
    let all = models();
    let mut r: Vec<ModelStatus> = Vec::new();
    let mut i: usize = 0;
    while i < all.len()
        invariant
            all@ == manifest(),
            probes@.len() == manifest().len(),
            i <= all@.len(),
            r@.len() == i,
            forall|j: int| 0 <= j < i ==> #[trigger] r@[j] == (ModelStatus {
                info: manifest()[j],
                file_exists: probes@[j].exists,
                file_size_mb: size_in_mb(probes@[j].len),
            }),
        decreases all@.len() - i,
    {
        let probe = &probes[i];
        r.push(ModelStatus { info: all[i], file_exists: probe.exists, file_size_mb: file_size_mb(probe.len) });
        i = i + 1;
    }
    r
}

} // verus!
