use deep_forge::codec::{
    decode_to_bgr_frame, encode_bgr_frame_to_jpeg, encode_jpeg, make_thumbnail, normalized_photo_jpeg, JpegError,
    ThumbnailError,
};
use deep_forge::frame::Frame;
use deep_forge::server::generate_test_frame;

fn gradient_frame(h: usize, w: usize) -> Frame {
    let mut data = Vec::new();
    for y in 0..h {
        for x in 0..w {
            data.push((x * 4) as u8);
            data.push((y * 4) as u8);
            data.push(128);
        }
    }
    Frame::from_vec(h, w, data).unwrap()
}

#[test]
fn invalid_image_is_refused() {
    assert!(decode_to_bgr_frame(b"not-a-valid-image-xyzxyz").is_err());
    assert!(decode_to_bgr_frame(&[]).is_err());
}

#[test]
fn jpeg_roundtrip_keeps_size_and_approximate_colors() {
    let f = Frame::filled(16, 24, 100);
    let jpeg = encode_bgr_frame_to_jpeg(&f).unwrap();
    assert_eq!(&jpeg[..2], &[0xFF, 0xD8]);
    let g = decode_to_bgr_frame(&jpeg).unwrap();
    assert_eq!((g.height, g.width), (16, 24));
    assert!(g.data.iter().all(|&v| (95..=105).contains(&v)));
}

#[test]
fn decode_swaps_rgb_to_bgr() {
    // A solid red image decodes with red in the third channel.
    let rgb: Vec<u8> = (0..8 * 8).flat_map(|_| [250u8, 0, 0]).collect();
    let jpeg = encode_jpeg(8, 8, &rgb).unwrap();
    let g = decode_to_bgr_frame(&jpeg).unwrap();
    assert!(g.data[2] > 200 && g.data[0] < 50);
}

#[test]
fn encode_jpeg_short_buffer_is_refused() {
    assert!(matches!(encode_jpeg(4, 4, &[0; 10]), Err(JpegError::InvalidDimensions)));
}

#[test]
fn encode_test_frame() {
    let jpeg = encode_jpeg(640, 480, &generate_test_frame()).unwrap();
    let g = decode_to_bgr_frame(&jpeg).unwrap();
    assert_eq!((g.height, g.width), (480, 640));
    // The test frame is blue: the first (blue) channel dominates.
    assert!(g.data[0] > 150 && g.data[2] < 50);
}

#[test]
fn thumbnail_of_region() {
    let f = gradient_frame(40, 60);
    let thumb = make_thumbnail(&f, 10, 5, 50, 35).unwrap();
    let g = decode_to_bgr_frame(&thumb).unwrap();
    assert_eq!((g.height, g.width), (128, 128));
}

#[test]
fn thumbnail_of_empty_region_is_refused() {
    let f = gradient_frame(10, 10);
    assert!(matches!(make_thumbnail(&f, 5, 2, 5, 8), Err(ThumbnailError::EmptyCrop)));
    assert!(matches!(make_thumbnail(&f, 2, 7, 8, 3), Err(ThumbnailError::EmptyCrop)));
}

#[test]
fn empty_frame_cannot_be_encoded() {
    assert!(encode_bgr_frame_to_jpeg(&Frame::filled(0, 5, 0)).is_err());
    assert!(encode_bgr_frame_to_jpeg(&Frame::filled(5, 0, 0)).is_err());
    assert!(matches!(encode_jpeg(0, 0, &[]), Err(JpegError::Image(_))));
}

#[test]
fn oversized_side_cannot_be_encoded() {
    assert!(encode_bgr_frame_to_jpeg(&Frame::filled(1, 65536, 0)).is_err());
    assert!(encode_bgr_frame_to_jpeg(&Frame::filled(1, 65535, 0)).is_ok());
}

#[test]
fn uploaded_photo_is_normalised_to_jpeg() {
    // A JPEG of quality 100 is re-encoded: same size, JPEG bytes, different file.
    let rgb: Vec<u8> = (0..12 * 20).flat_map(|i| [(i % 256) as u8, 40, 200]).collect();
    let upload = encode_jpeg(20, 12, &rgb).unwrap();
    let stored = normalized_photo_jpeg(&upload).unwrap();
    assert_ne!(stored, upload);
    assert_eq!(&stored[..2], &[0xFF, 0xD8]);
    let g = decode_to_bgr_frame(&stored).unwrap();
    assert_eq!((g.height, g.width), (12, 20));
    assert!(normalized_photo_jpeg(b"not-a-valid-image-xyzxyz").is_err());
    assert!(normalized_photo_jpeg(&[]).is_err());
}
