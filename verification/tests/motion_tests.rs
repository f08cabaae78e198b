use editors_engine::effects::motion_tracking::{extract_patch, find_best_match, TrackParams, TrackerKind};

fn solid_frame(width: usize, height: usize, color: u8) -> Vec<u8> {
    vec![color, color, color, 255].iter().cycle().take(width * height * 4).cloned().collect()
}

#[test]
fn patch_inside_frame_has_lumas_row_by_row() {
    let width = 4;
    let height = 3;
    let mut frame = solid_frame(width, height, 10);
    // pixel (2, 1) white
    let idx = (1 * width + 2) * 4;
    frame[idx] = 255;
    frame[idx + 1] = 255;
    frame[idx + 2] = 255;
    let patch = extract_patch(&frame, width, height, 2, 1, 1).unwrap();
    assert_eq!(patch.len(), 9);
    // (54 + 183 + 19) * 10 >> 8 == 10; white gives (256 * 255) >> 8 == 255
    assert_eq!(patch, vec![10, 10, 10, 10, 255, 10, 10, 10, 10]);
}

#[test]
fn patch_outside_frame_is_none() {
    let frame = solid_frame(4, 4, 0);
    assert!(extract_patch(&frame, 4, 4, 0, 2, 1).is_none());
    assert!(extract_patch(&frame, 4, 4, 3, 2, 1).is_none());
    assert!(extract_patch(&frame, 4, 4, 2, 3, 1).is_none());
    assert!(extract_patch(&frame, 4, 4, 2, 2, 0).is_some());
}

#[test]
fn track_params_default() {
    let p = TrackParams::default();
    assert_eq!(p.kind, TrackerKind::Point);
    assert_eq!(p.search_half_size, 16);
    assert_eq!(p.patch_half_size, 8);
}

#[test]
fn best_match_stays_on_a_static_feature() {
    let width = 32;
    let height = 32;
    let mut frame = solid_frame(width, height, 50);
    for y in 14..18 {
        for x in 14..18 {
            let idx = (y * width + x) * 4;
            frame[idx] = 255;
            frame[idx + 1] = 255;
            frame[idx + 2] = 255;
        }
    }
    let params = TrackParams::default();
    let found = find_best_match(&frame, width, height, 16, 16, params.search_half_size, params.patch_half_size);
    assert_eq!(found, Some((16, 16, 0)));
}

#[test]
fn best_match_needs_the_reference_inside_the_frame() {
    let frame = solid_frame(8, 8, 90);
    assert_eq!(find_best_match(&frame, 8, 8, 1, 1, 2, 3), None);
    assert_eq!(find_best_match(&frame, 8, 8, 6, 4, 2, 2), None);
}

#[test]
fn best_match_takes_the_first_smallest_sad() {
    // A uniform frame: every candidate inside it has SAD 0, so the first
    // in scan order (top row, leftmost) that fits wins.
    let frame = solid_frame(10, 10, 77);
    assert_eq!(find_best_match(&frame, 10, 10, 5, 5, 2, 1), Some((3, 3, 0)));
    // Near the left edge the first fitting column is the patch's own.
    assert_eq!(find_best_match(&frame, 10, 10, 1, 5, 2, 1), Some((1, 3, 0)));
}

#[test]
fn best_match_follows_a_moved_feature() {
    let width = 24;
    let height = 24;
    let mut frame = solid_frame(width, height, 20);
    // a bright 3x3 square centred at (10, 12)
    for y in 11..14 {
        for x in 9..12 {
            let idx = (y * width + x) * 4;
            frame[idx] = 240;
            frame[idx + 1] = 240;
            frame[idx + 2] = 240;
        }
    }
    assert_eq!(find_best_match(&frame, width, height, 10, 12, 3, 2), Some((10, 12, 0)));
}
