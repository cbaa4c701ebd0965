use deep_forge::provider::{
    failed_models, model_variant_name, required_models, ExecutionProvider, GpuProvider, ModelCheck, PipelineConfig,
};

#[test]
fn display_names() {
    assert_eq!(GpuProvider::Auto.display_name(), "Auto (CUDA > DirectML > CPU)");
    assert_eq!(GpuProvider::Cuda { device_id: 1 }.display_name(), "CUDA");
    assert_eq!(GpuProvider::DirectML { device_id: 0 }.display_name(), "DirectML");
    assert_eq!(GpuProvider::Npu { config_file: String::new(), cache_dir: String::new() }.display_name(), "VitisAI NPU");
    assert_eq!(GpuProvider::Cpu.display_name(), "CPU");
    assert!(matches!(GpuProvider::default(), GpuProvider::Auto));
}

#[test]
fn detect_from_override() {
    assert!(matches!(GpuProvider::detect(None, None, None), GpuProvider::Auto));
    assert!(matches!(GpuProvider::detect(Some("CUDA"), None, None), GpuProvider::Cuda { device_id: 0 }));
    assert!(matches!(GpuProvider::detect(Some("DirectML"), None, None), GpuProvider::DirectML { device_id: 0 }));
    assert!(matches!(GpuProvider::detect(Some("cpu"), None, None), GpuProvider::Cpu));
    assert!(matches!(GpuProvider::detect(Some("tpu"), None, None), GpuProvider::Auto));
    match GpuProvider::detect(Some("NPU"), None, Some("/tmp/c".into())) {
        GpuProvider::Npu { config_file, cache_dir } => {
            assert_eq!(config_file, "vaip_config.json");
            assert_eq!(cache_dir, "/tmp/c");
        }
        _ => panic!("expected the NPU provider"),
    }
    match GpuProvider::detect(Some("npu"), Some("my.json".into()), None) {
        GpuProvider::Npu { config_file, cache_dir } => {
            assert_eq!(config_file, "my.json");
            assert_eq!(cache_dir, "./npu_cache");
        }
        _ => panic!("expected the NPU provider"),
    }
}

#[test]
fn session_plans() {
    let plan = GpuProvider::Auto.session_plan();
    assert!(plan.disable_memory_pattern);
    assert_eq!(plan.providers.len(), 3);
    assert!(matches!(plan.providers[0], ExecutionProvider::Cuda { device_id: None }));
    assert!(matches!(plan.providers[1], ExecutionProvider::DirectML { device_id: None }));
    assert!(matches!(plan.providers[2], ExecutionProvider::Cpu));

    let plan = GpuProvider::Cuda { device_id: 2 }.session_plan();
    assert!(!plan.disable_memory_pattern);
    assert!(matches!(plan.providers[..], [ExecutionProvider::Cuda { device_id: Some(2) }, ExecutionProvider::Cpu]));

    let plan = GpuProvider::DirectML { device_id: 1 }.session_plan();
    assert!(plan.disable_memory_pattern);
    assert!(matches!(plan.providers[..], [ExecutionProvider::DirectML { device_id: Some(1) }, ExecutionProvider::Cpu]));

    let plan = GpuProvider::Npu { config_file: "c.json".into(), cache_dir: "cache".into() }.session_plan();
    assert!(plan.disable_memory_pattern);
    match &plan.providers[..] {
        [ExecutionProvider::Vitis { config_file, cache_dir, cache_key }, ExecutionProvider::Cpu] => {
            assert_eq!((config_file.as_str(), cache_dir.as_str(), cache_key.as_str()), ("c.json", "cache", "deep-forge"));
        }
        _ => panic!("unexpected NPU plan"),
    }

    let plan = GpuProvider::Cpu.session_plan();
    assert!(!plan.disable_memory_pattern);
    assert!(matches!(plan.providers[..], [ExecutionProvider::Cpu]));
}

#[test]
fn model_variants() {
    assert_eq!(model_variant_name("det_10g", "fp16", "onnx"), "det_10g_fp16.onnx");
    let npu = GpuProvider::Npu { config_file: String::new(), cache_dir: String::new() };
    assert_eq!(npu.resolve_model_path("det_10g", "onnx", "det_10g.onnx", true, true), "det_10g_fp16.onnx");
    assert_eq!(npu.resolve_model_path("det_10g", "onnx", "det_10g.onnx", true, false), "det_10g_int8.onnx");
    assert_eq!(npu.resolve_model_path("det_10g", "onnx", "det_10g.onnx", false, true), "det_10g_fp16.onnx");
    assert_eq!(npu.resolve_model_path("det_10g", "onnx", "det_10g.onnx", false, false), "det_10g.onnx");
    let cpu = GpuProvider::Cpu;
    assert_eq!(cpu.resolve_model_path("x", "onnx", "x.onnx", true, false), "x.onnx");
    assert_eq!(cpu.resolve_model_path("x", "onnx", "x.onnx", true, true), "x_fp16.onnx");
}

#[test]
fn pipeline_defaults() {
    let c = PipelineConfig::default();
    assert!(c.face_swap_enabled);
    assert!(!c.face_enhancer_gfpgan && !c.face_enhancer_gpen256 && !c.face_enhancer_gpen512);
    assert_eq!(c.jpeg_quality, 80);
}

#[test]
fn required_model_list() {
    assert_eq!(required_models(), vec!["inswapper_128.onnx", "buffalo_l/buffalo_l/det_10g.onnx", "gfpgan-1024.onnx"]);
}

#[test]
fn validation_fails_on_present_models_that_do_not_load() {
    let c = |present, loaded| ModelCheck { present, loaded };
    assert!(failed_models(&vec![c(true, true), c(false, false), c(false, true)]).is_empty());
    assert_eq!(failed_models(&vec![c(true, false), c(false, false), c(true, true), c(true, false)]), vec![0, 3]);
    assert!(failed_models(&Vec::new()).is_empty());
}
