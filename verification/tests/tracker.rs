use deep_forge::tracker::FaceTracker;

#[derive(Clone, Debug, PartialEq)]
struct DummyFace {
    bbox: [f32; 4],
    score: f32,
    landmarks: [[f32; 2]; 5],
    embedding: Option<Vec<f32>>,
}

fn dummy_face() -> DummyFace {
    DummyFace {
        bbox: [10.0, 20.0, 110.0, 120.0],
        score: 0.95,
        landmarks: [[0.0; 2]; 5],
        embedding: None,
    }
}

#[test]
fn detect_on_first_frame() {
    let t: FaceTracker<DummyFace> = FaceTracker::new(10);
    assert!(t.should_detect());
}

#[test]
fn skip_after_detection() {
    let mut t = FaceTracker::new(10);
    t.update_detected(vec![dummy_face()]);
    assert!(!t.should_detect());
}

#[test]
fn detect_after_interval() {
    let mut t = FaceTracker::new(3);
    t.update_detected(vec![dummy_face()]);
    assert!(!t.should_detect());
    let _ = t.get_cached();
    assert!(!t.should_detect());
    let _ = t.get_cached();
    assert!(t.should_detect());
}

#[test]
fn invalidate_forces_detection() {
    let mut t = FaceTracker::new(10);
    t.update_detected(vec![dummy_face()]);
    assert!(!t.should_detect());
    t.invalidate();
    assert!(t.should_detect());
}

#[test]
fn cached_faces_returned() {
    let mut t = FaceTracker::new(10);
    t.update_detected(vec![dummy_face(), dummy_face()]);
    let cached = t.get_cached();
    assert_eq!(cached.len(), 2);
}

#[test]
fn interval_zero_becomes_one() {
    let mut t: FaceTracker<DummyFace> = FaceTracker::new(0);
    assert_eq!(t.interval(), 1);
    t.set_interval(7);
    assert_eq!(t.interval(), 7);
    t.set_interval(0);
    assert_eq!(t.interval(), 1);
}

#[test]
fn detection_repeats_every_interval_frames() {
    // After a detection, skip k (k = 1, 2, ...) leaves detection due exactly
    // when (k + 1) is a multiple of the interval.
    for interval in 2u32..6 {
        let mut t = FaceTracker::new(interval);
        t.update_detected(vec![dummy_face()]);
        for k in 1u32..20 {
            let _ = t.get_cached();
            assert_eq!(t.should_detect(), (k + 1) % interval == 0, "interval {interval}, skip {k}");
        }
    }
}

#[test]
fn processing_loop_detects_every_interval_frames() {
    // Frame k (from 1) runs detection exactly when (k - 1) is a multiple of
    // the interval; an interval of one detects on every frame.
    for interval in 1u32..6 {
        let mut t = FaceTracker::new(interval);
        for k in 1u32..30 {
            let detect = t.should_detect();
            assert_eq!(detect, (k - 1) % interval == 0, "interval {interval}, frame {k}");
            if detect {
                t.update_detected(vec![dummy_face()]);
            } else {
                let _ = t.get_cached();
            }
        }
    }
}

#[test]
fn interval_one_detects_again_after_detection() {
    let mut t = FaceTracker::new(1);
    t.update_detected(vec![dummy_face()]);
    assert!(t.should_detect());
}

#[test]
fn cache_survives_skips_and_empty_detection_forces_detect() {
    let mut t = FaceTracker::new(4);
    t.update_detected(vec![dummy_face()]);
    assert_eq!(t.get_cached().to_vec(), vec![dummy_face()]);
    assert_eq!(t.face_count(), 1);
    t.update_detected(Vec::new());
    assert!(t.should_detect());
    assert_eq!(t.face_count(), 0);
}
