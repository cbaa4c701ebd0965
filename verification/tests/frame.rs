use deep_forge::frame::{
    bgr_to_rgb_interleaved, bgr_to_rgb_planes, crop_frame, rgb_interleaved_to_bgr, rgb_planes_to_bgr, Frame,
};

fn solid_frame(h: usize, w: usize, val: u8) -> Frame {
    Frame::filled(h, w, val)
}

fn gradient_frame(h: usize, w: usize) -> Frame {
    let mut data = Vec::new();
    for y in 0..h {
        for x in 0..w {
            for c in 0..3 {
                data.push(((y * 31 + x * 7 + c) % 256) as u8);
            }
        }
    }
    Frame::from_vec(h, w, data).unwrap()
}

#[test]
fn crop_correct_dims() {
    let src = solid_frame(100, 100, 50);
    let crop = crop_frame(&src, 10, 20, 40, 70);
    assert_eq!((crop.height, crop.width, crop.data.len() / (crop.height * crop.width)), (30, 50, 3));
}

#[test]
fn crop_copies_the_region() {
    let src = gradient_frame(6, 5);
    let crop = crop_frame(&src, 1, 2, 4, 5);
    assert_eq!((crop.height, crop.width), (3, 3));
    for dy in 0..3 {
        for dx in 0..3 {
            for c in 0..3 {
                let expected = src.data[((1 + dy) * 5 + 2 + dx) * 3 + c];
                assert_eq!(crop.data[(dy * 3 + dx) * 3 + c], expected);
            }
        }
    }
}

#[test]
fn crop_empty_region() {
    let src = gradient_frame(4, 4);
    let crop = crop_frame(&src, 2, 2, 2, 4);
    assert_eq!(crop.height, 0);
    assert!(crop.data.is_empty());
}

#[test]
fn from_vec_checks_length() {
    assert!(Frame::from_vec(2, 2, vec![0; 12]).is_some());
    assert!(Frame::from_vec(2, 2, vec![0; 11]).is_none());
    assert!(Frame::from_vec(usize::MAX, 2, vec![]).is_none());
}

#[test]
fn filled_frame_has_every_byte_set() {
    let f = solid_frame(3, 4, 9);
    assert_eq!(f.data.len(), 36);
    assert!(f.data.iter().all(|&v| v == 9));
}

#[test]
fn planes_are_red_green_blue() {
    // One pixel: blue 1, green 2, red 3; a second: blue 4, green 5, red 6.
    let f = Frame::from_vec(1, 2, vec![1, 2, 3, 4, 5, 6]).unwrap();
    assert_eq!(bgr_to_rgb_planes(&f), vec![3, 6, 2, 5, 1, 4]);
}

#[test]
fn planes_roundtrip() {
    let f = gradient_frame(5, 7);
    let planes = bgr_to_rgb_planes(&f);
    let g = rgb_planes_to_bgr(&planes, 5, 7);
    assert_eq!((g.height, g.width), (5, 7));
    assert_eq!(g.data, f.data);
}

#[test]
fn interleaved_is_rgb_order() {
    let f = Frame::from_vec(1, 2, vec![1, 2, 3, 4, 5, 6]).unwrap();
    assert_eq!(bgr_to_rgb_interleaved(&f), vec![3, 2, 1, 6, 5, 4]);
}

#[test]
fn interleaved_roundtrip() {
    let f = gradient_frame(4, 9);
    let rgb = bgr_to_rgb_interleaved(&f);
    let g = rgb_interleaved_to_bgr(9, 4, &rgb);
    assert_eq!(g.data, f.data);
}

#[test]
fn interleaved_ignores_trailing_bytes() {
    let g = rgb_interleaved_to_bgr(1, 1, &vec![10, 20, 30, 99, 99]);
    assert_eq!(g.data, vec![30, 20, 10]);
}
