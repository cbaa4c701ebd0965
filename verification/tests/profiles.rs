use deep_forge::profiles::{
    apply_profile_update, check_photo_capacity, embedding_bytes, embedding_words, new_profile_fields,
    next_photo_index, order_newest_first, photo_file_name, photo_refusal, read_thumbnail_b64, remove_photo, ProfileBody,
    EMBEDDING_DIM,
};

fn names(v: &[&str]) -> Vec<String> {
    v.iter().map(|s| s.to_string()).collect()
}

#[test]
fn new_profile_trims_name() {
    let (name, description) =
        new_profile_fields(ProfileBody { name: Some("  Alice \n".into()), description: None }).unwrap();
    assert_eq!(name, "Alice");
    assert_eq!(description, "");
    let (_, description) =
        new_profile_fields(ProfileBody { name: Some("Bob".into()), description: Some("friend".into()) }).unwrap();
    assert_eq!(description, "friend");
}

#[test]
fn new_profile_needs_a_name() {
    for name in [None, Some(String::new()), Some("   ".to_string())] {
        let e = new_profile_fields(ProfileBody { name, description: None }).unwrap_err();
        assert_eq!(e.status, 400);
        assert_eq!(e.message, "name is required");
    }
}

#[test]
fn update_profile_fields() {
    let name = "Alice".to_string();
    let description = "old".to_string();
    let (n, d) =
        apply_profile_update(&name, &description, ProfileBody { name: None, description: None }).unwrap();
    assert_eq!((n.as_str(), d.as_str()), ("Alice", "old"));
    let (n, d) = apply_profile_update(
        &name,
        &description,
        ProfileBody { name: Some(" Carol ".into()), description: Some("new".into()) },
    )
    .unwrap();
    assert_eq!((n.as_str(), d.as_str()), ("Carol", "new"));
    let e = apply_profile_update(&name, &description, ProfileBody { name: Some(" ".into()), description: None })
        .unwrap_err();
    assert_eq!((e.status, e.message.as_str()), (400, "name cannot be empty"));
}

#[test]
fn photo_names() {
    assert_eq!(photo_file_name(0), "photo_0.jpg");
    assert_eq!(photo_file_name(5), "photo_5.jpg");
    assert_eq!(photo_file_name(1234), "photo_1234.jpg");
}

#[test]
fn next_photo_fills_the_first_gap() {
    assert_eq!(next_photo_index(&Vec::new()), 0);
    assert_eq!(next_photo_index(&names(&["photo_0.jpg", "photo_2.jpg"])), 1);
    assert_eq!(next_photo_index(&names(&["photo_1.jpg", "photo_0.jpg", "photo_2.jpg"])), 3);
    let all = names(&["photo_0.jpg", "photo_1.jpg", "photo_2.jpg", "photo_3.jpg", "photo_4.jpg", "photo_5.jpg", "x"]);
    assert_eq!(next_photo_index(&all), 7);
}

#[test]
fn photo_capacity() {
    assert!(check_photo_capacity(5).is_ok());
    let e = check_photo_capacity(6).unwrap_err();
    assert_eq!((e.status, e.message.as_str()), (400, "max 6 photos"));
}

#[test]
fn remove_photo_slot() {
    let photos = names(&["photo_0.jpg", "photo_3.jpg", "photo_1.jpg"]);
    assert_eq!(remove_photo(&photos, 3).unwrap(), names(&["photo_0.jpg", "photo_1.jpg"]));
    let e = remove_photo(&photos, 4).unwrap_err();
    assert_eq!((e.status, e.message.as_str()), (404, "photo_4.jpg not found"));
}

#[test]
fn add_then_remove_restores_photos() {
    let photos = names(&["photo_0.jpg", "photo_2.jpg"]);
    let idx = next_photo_index(&photos);
    let mut grown = photos.clone();
    grown.push(photo_file_name(idx));
    assert_eq!(remove_photo(&grown, idx).unwrap(), photos);
}

#[test]
fn listing_is_newest_first_and_stable() {
    assert_eq!(order_newest_first(&vec![10, 30, 20, 30, 10]), vec![1, 3, 2, 0, 4]);
    assert!(order_newest_first(&Vec::new()).is_empty());
    assert_eq!(order_newest_first(&vec![5, 5, 5]), vec![0, 1, 2]);
}

#[test]
fn embedding_roundtrip() {
    let floats: Vec<f32> = (0..EMBEDDING_DIM).map(|i| (i as f32 - 256.0) / 100.0).collect();
    let words: Vec<u32> = floats.iter().map(|f| f.to_bits()).collect();
    let bytes = embedding_bytes(&words);
    let expected: Vec<u8> = floats.iter().flat_map(|v| v.to_le_bytes()).collect();
    assert_eq!(bytes, expected);
    let back = embedding_words(&bytes).unwrap();
    assert_eq!(back, words);
}

#[test]
fn embedding_of_wrong_length_is_absent() {
    assert!(embedding_words(&vec![0; 2047]).is_none());
    assert!(embedding_words(&vec![0; 2049]).is_none());
    assert_eq!(embedding_words(&vec![1; 2048]).unwrap()[0], 0x0101_0101);
}

#[test]
fn thumbnail_base64() {
    assert_eq!(read_thumbnail_b64(None), "");
    assert_eq!(read_thumbnail_b64(Some(b"Man".to_vec())), "TWFu");
    assert_eq!(read_thumbnail_b64(Some(b"Ma".to_vec())), "TWE=");
    assert_eq!(read_thumbnail_b64(Some(b"M".to_vec())), "TQ==");
    assert_eq!(read_thumbnail_b64(Some(vec![0xfb, 0xff])), "+/8=");
    assert_eq!(read_thumbnail_b64(Some(Vec::new())), "");
}

#[test]
fn unicode_white_space_is_trimmed() {
    let blank = "\u{3000}\t\u{2003}\u{85}\u{a0}".to_string();
    assert!(new_profile_fields(ProfileBody { name: Some(blank), description: None }).is_err());
    let (name, _) =
        new_profile_fields(ProfileBody { name: Some("\u{2028} Zoë\u{202f}".into()), description: None }).unwrap();
    assert_eq!(name, "Zoë");
    // A zero-width space is not white space and stays.
    let (name, _) = new_profile_fields(ProfileBody { name: Some("\u{200b}x".into()), description: None }).unwrap();
    assert_eq!(name, "\u{200b}x");
}

#[test]
fn photo_upload_refusals_in_order() {
    let r = |found, count, uploaded, valid, models, faces| {
        photo_refusal(found, count, uploaded, valid, models, faces).map(|e| (e.status, e.message))
    };
    assert_eq!(r(false, 9, false, false, false, 0), Some((404, "profile not found".to_string())));
    assert_eq!(r(true, 6, false, false, false, 0), Some((400, "max 6 photos".to_string())));
    assert_eq!(r(true, 5, false, false, false, 0), Some((400, "no file uploaded".to_string())));
    assert_eq!(r(true, 0, true, false, false, 0), Some((422, "invalid image data".to_string())));
    assert_eq!(
        r(true, 0, true, true, false, 0),
        Some((503, "models not loaded (detector/swapper required)".to_string()))
    );
    assert_eq!(r(true, 0, true, true, true, 0), Some((422, "no face detected in photo".to_string())));
    assert_eq!(r(true, 5, true, true, true, 2), None);
}
