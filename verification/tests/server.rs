use deep_forge::capture::CameraInfo;
use deep_forge::server::{
    bind_address, format_token, generate_test_frame, parse_models_dir_arg, parse_npu_flag, parse_remote_flag,
    persisted_token, select_camera, select_swap_images, swap_refusal, EnhancerSettings, InputMode, SettingsUpdate,
};

fn args(v: &[&str]) -> Vec<String> {
    v.iter().map(|s| s.to_string()).collect()
}

#[test]
fn models_dir_argument() {
    assert_eq!(parse_models_dir_arg(&args(&["server", "--models-dir", "/m"])), Some("/m".to_string()));
    assert_eq!(parse_models_dir_arg(&args(&["server", "--models-dir"])), None);
    assert_eq!(parse_models_dir_arg(&args(&["server"])), None);
    assert_eq!(
        parse_models_dir_arg(&args(&["s", "--models-dir", "a", "--models-dir", "b"])),
        Some("a".to_string())
    );
}

#[test]
fn flags() {
    assert!(parse_remote_flag(&args(&["s", "--remote"])));
    assert!(!parse_remote_flag(&args(&["s", "--remote-x"])));
    assert!(parse_npu_flag(&args(&["s", "--npu", "--remote"])));
    assert!(!parse_npu_flag(&args(&["s"])));
    assert_eq!(bind_address(true), "0.0.0.0:8008");
    assert_eq!(bind_address(false), "127.0.0.1:8008");
}

#[test]
fn tokens() {
    assert_eq!(persisted_token("  0123456789abcdef\n"), Some("0123456789abcdef".to_string()));
    assert_eq!(persisted_token("short"), None);
    assert_eq!(persisted_token(""), None);
    assert_eq!(format_token(0, u64::MAX), "0000000000000000ffffffffffffffff");
    assert_eq!(format_token(0x1a2b, 10), format!("{:016x}{:016x}", 0x1a2bu64, 10u64));
    let t = format_token(12345, 67890);
    assert_eq!(t.len(), 32);
    assert_eq!(persisted_token(&t), Some(t.clone()));
}

#[test]
fn settings_updates() {
    let mut s = EnhancerSettings { face_enhancer_gfpgan: false, face_enhancer_gpen256: true, face_enhancer_gpen512: false };
    let u = SettingsUpdate { face_enhancer: Some(true), face_enhancer_gpen256: None, face_enhancer_gpen512: Some(false) };
    s.apply(&u);
    assert!(s.face_enhancer_gfpgan && s.face_enhancer_gpen256 && !s.face_enhancer_gpen512);
    s.apply(&u);
    assert!(s.face_enhancer_gfpgan && s.face_enhancer_gpen256 && !s.face_enhancer_gpen512);
    s.apply(&SettingsUpdate { face_enhancer: None, face_enhancer_gpen256: None, face_enhancer_gpen512: None });
    assert!(s.face_enhancer_gfpgan && s.face_enhancer_gpen256 && !s.face_enhancer_gpen512);
}

#[test]
fn camera_selection() {
    let cams = vec![CameraInfo { index: 0, name: "a".into() }, CameraInfo { index: 2, name: "b".into() }];
    assert_eq!(select_camera(&cams, 2).unwrap(), 2);
    let e = select_camera(&cams, 99).unwrap_err();
    assert_eq!((e.status, e.message.as_str()), (400, "Camera 99 not available"));
}

#[test]
fn swap_inputs() {
    let f = |n: &str, b: &[u8]| (n.to_string(), b.to_vec());
    let (s, t) = select_swap_images(&vec![f("target", b"t1"), f("other", b"o"), f("source", b"s"), f("target", b"t2")])
        .unwrap();
    assert_eq!((s.as_slice(), t.as_slice()), (&b"s"[..], &b"t2"[..]));
    let e = select_swap_images(&vec![f("target", b"t")]).unwrap_err();
    assert_eq!((e.status, e.message.as_str()), (400, "missing multipart field: source"));
    let e = select_swap_images(&vec![f("source", b"s")]).unwrap_err();
    assert_eq!((e.status, e.message.as_str()), (400, "missing multipart field: target"));
    let e = select_swap_images(&Vec::new()).unwrap_err();
    assert_eq!(e.message, "missing multipart field: source");
}

#[test]
fn test_frame_is_blue() {
    let px = generate_test_frame();
    assert_eq!(px.len(), 640 * 480 * 3);
    assert!(px.chunks_exact(3).all(|c| c == [0, 0, 200]));
}

#[test]
fn input_mode_default() {
    assert!(InputMode::default() == InputMode::Camera);
}

#[test]
fn swap_refusals_in_order() {
    let e = swap_refusal(false, 0, 0, false).unwrap();
    assert_eq!((e.status, e.message.as_str()), (503, "models not loaded"));
    let e = swap_refusal(true, 0, 0, false).unwrap();
    assert_eq!((e.status, e.message.as_str()), (422, "no face detected in source image"));
    let e = swap_refusal(true, 2, 0, false).unwrap();
    assert_eq!((e.status, e.message.as_str()), (422, "no face detected in target image"));
    let e = swap_refusal(true, 1, 3, false).unwrap();
    assert_eq!((e.status, e.message.as_str()), (503, "models not loaded"));
    assert!(swap_refusal(true, 1, 1, true).is_none());
}
