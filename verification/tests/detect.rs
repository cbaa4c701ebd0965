use deep_forge::detect::{anchor_center, fpn_levels, nms_select, DET_SIZE, NUM_ANCHORS};

fn no_overlap(n: usize) -> Vec<Vec<bool>> {
    vec![vec![false; n]; n]
}

#[test]
fn suppression_drops_overlapping_later_candidates() {
    // Candidates best first; 1 overlaps 0, 2 is distinct.
    let mut ov = no_overlap(3);
    ov[1][0] = true;
    ov[0][1] = true;
    assert_eq!(nms_select(&ov), vec![0, 2]);
}

#[test]
fn suppression_keeps_all_disjoint() {
    assert_eq!(nms_select(&no_overlap(5)), vec![0, 1, 2, 3, 4]);
}

#[test]
fn suppression_only_counts_kept_candidates() {
    // 1 overlaps 0 and is dropped; 2 overlaps only 1, which was dropped,
    // so 2 stays.
    let mut ov = no_overlap(3);
    ov[1][0] = true;
    ov[2][1] = true;
    assert_eq!(nms_select(&ov), vec![0, 2]);
}

#[test]
fn suppression_of_nothing() {
    assert!(nms_select(&Vec::new()).is_empty());
}

#[test]
fn pyramid_levels() {
    let levels = fpn_levels();
    assert_eq!(levels, vec![(8, 12800), (16, 3200), (32, 800)]);
    for (stride, anchors) in levels {
        let side = DET_SIZE / stride;
        assert_eq!(anchors, side * side * NUM_ANCHORS);
    }
}

#[test]
fn anchor_centres() {
    assert_eq!(anchor_center(0, 8), (0, 0));
    assert_eq!(anchor_center(1, 8), (0, 0));
    assert_eq!(anchor_center(2, 8), (8, 0));
    // cell 80 is the first of the second row on the stride-8 grid (80 columns).
    assert_eq!(anchor_center(160, 8), (0, 8));
    assert_eq!(anchor_center(12799, 8), (632, 632));
    assert_eq!(anchor_center(799, 32), (608, 608));
}
