use deep_forge::manifest::{check_models, file_size_mb, models, FileProbe, PRIMARY_REPO};

#[test]
fn manifest_lists_all_models() {
    let all = models();
    assert_eq!(all.len(), 10);
    assert_eq!(all[0].name, "SCRFD Face Detector");
    assert_eq!(all[0].path, "buffalo_l/buffalo_l/det_10g.onnx");
    assert_eq!(all.iter().filter(|m| m.required).count(), 3);
    assert_eq!(all[9].size_mb, 80);
    assert!(all.iter().all(|m| m.url_suffix == m.path));
}

#[test]
fn model_url() {
    let all = models();
    assert_eq!(
        all[2].url(),
        "https://huggingface.co/phenixstar/deep-forge-models/resolve/main/inswapper_128.onnx"
    );
    assert!(all[0].url().starts_with(PRIMARY_REPO));
}

#[test]
fn sizes_in_mebibytes() {
    assert_eq!(file_size_mb(None), 0);
    assert_eq!(file_size_mb(Some(1024 * 1024 - 1)), 0);
    assert_eq!(file_size_mb(Some(5 * 1024 * 1024 + 7)), 5);
    assert_eq!(file_size_mb(Some(u64::MAX)), ((u64::MAX / (1024 * 1024)) as u32));
}

#[test]
fn model_statuses() {
    let probes: Vec<FileProbe> = (0..10)
        .map(|i| FileProbe { exists: i % 2 == 0, len: if i == 0 { Some(16 * 1024 * 1024 + 5) } else { None } })
        .collect();
    let statuses = check_models(&probes);
    assert_eq!(statuses.len(), 10);
    assert!(statuses[0].file_exists);
    assert_eq!(statuses[0].file_size_mb, 16);
    assert!(!statuses[1].file_exists);
    assert_eq!(statuses[1].file_size_mb, 0);
    assert_eq!(statuses[3].info.name, "Inswapper 128 (FP16)");
}
