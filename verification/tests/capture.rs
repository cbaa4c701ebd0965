use deep_forge::capture::{list_cameras, list_cameras_stub, CameraCapture};

#[test]
fn one_stub_camera() {
    let cams = list_cameras().unwrap();
    assert_eq!(cams.len(), 1);
    assert_eq!(cams[0].index, 0);
    assert_eq!(cams[0].name, "Stub Camera (opencv feature disabled)");
    assert_eq!(list_cameras_stub().unwrap()[0].name, cams[0].name);
}

#[test]
fn synthetic_frames() {
    let mut cam = CameraCapture::open(0).unwrap();
    let f = cam.read_frame().unwrap();
    assert_eq!((f.height, f.width, f.data.len()), (480, 640, 480 * 640 * 3));
    // Column 300, any row: (300 + 0) mod 256.
    assert_eq!(f.data[(7 * 640 + 300) * 3 + 1], 44);
    let g = cam.read_frame().unwrap();
    assert_eq!(g.data[(7 * 640 + 300) * 3 + 1], 45);
    assert_eq!(g.data[0], 1);
}

#[test]
fn resolution_changes_frames() {
    let mut cam = CameraCapture::open(3).unwrap();
    cam.set_resolution(4, 2);
    let f = cam.read_frame().unwrap();
    assert_eq!((f.height, f.width), (2, 4));
    assert_eq!(f.data, vec![0, 0, 0, 1, 1, 1, 2, 2, 2, 3, 3, 3, 0, 0, 0, 1, 1, 1, 2, 2, 2, 3, 3, 3]);
    cam.set_resolution(0, 0);
    assert!(cam.read_frame().unwrap().data.is_empty());
}
