use editors_engine::effects::transitions::{Transition, TransitionType};

fn make_solid_frame(w: u32, h: u32, r: u8, g: u8, b: u8) -> Vec<u8> {
    let mut data = Vec::with_capacity((w * h * 4) as usize);
    for _ in 0..(w * h) {
        data.push(r);
        data.push(g);
        data.push(b);
        data.push(255);
    }
    data
}

fn gradient_frame(w: u32, h: u32, seed: u8) -> Vec<u8> {
    let mut data = Vec::new();
    for y in 0..h {
        for x in 0..w {
            data.push((x as u8).wrapping_mul(7).wrapping_add(seed));
            data.push((y as u8).wrapping_mul(13).wrapping_add(seed));
            data.push(seed);
            data.push(200);
        }
    }
    data
}

#[test]
fn test_wipe_left() {
    let from = make_solid_frame(100, 100, 255, 0, 0);
    let to = make_solid_frame(100, 100, 0, 255, 0);
    let transition = Transition::new(TransitionType::WipeLeft, 500, "a", "b");
    // At 50% progress the split column is 50.
    let result = transition.wipe_frames(&from, &to, 100, 100, 50);
    let left_pixel = &result[0..4];
    let right_pixel = &result[(99 * 4)..(99 * 4 + 4)];
    assert_eq!(left_pixel[1], 255, "Left side should be to_frame (green)");
    assert_eq!(right_pixel[0], 255, "Right side should be from_frame (red)");
}

#[test]
fn test_all_transitions_have_names() {
    for t in TransitionType::all_transitions() {
        assert!(!t.display_name().is_empty());
        assert!(!t.icon().is_empty());
    }
}

#[test]
fn test_default_duration_ms() {
    assert_eq!(TransitionType::Cut.default_duration_ms(), 0);
    assert!(TransitionType::Fade.default_duration_ms() > 0);
    assert!(TransitionType::Dissolve.default_duration_ms() > 0);
}

#[test]
fn test_from_str_lossy() {
    assert_eq!(TransitionType::from_str_lossy("fade"), Some(TransitionType::Fade));
    assert_eq!(TransitionType::from_str_lossy("Dissolve"), Some(TransitionType::Dissolve));
    assert_eq!(TransitionType::from_str_lossy("wipe_left"), Some(TransitionType::WipeLeft));
    assert_eq!(TransitionType::from_str_lossy("unknown"), None);
}

#[test]
fn transition_catalog_values() {
    let all = TransitionType::all_transitions();
    assert_eq!(all.len(), 12);
    assert_eq!(all[0], TransitionType::Cut);
    assert_eq!(all[11], TransitionType::Spin);
    assert_eq!(TransitionType::WipeUp.display_name(), "Wipe Up");
    assert_eq!(TransitionType::ZoomOut.icon(), "zoom_out");
    assert_eq!(TransitionType::Dissolve.default_duration_ms(), 700);
    assert_eq!(TransitionType::SlideRight.default_duration_ms(), 400);
    assert_eq!(TransitionType::ZoomIn.default_duration_ms(), 600);
    assert_eq!(TransitionType::from_str_lossy("SLIDELEFT"), Some(TransitionType::SlideLeft));
    assert_eq!(TransitionType::from_str_lossy("zoom_out"), Some(TransitionType::ZoomOut));
    assert_eq!(TransitionType::from_str_lossy("zoom out"), None);
}

#[test]
fn transition_new_uses_default_for_zero_duration() {
    let t = Transition::new(TransitionType::Dissolve, 0, "a", "b");
    assert_eq!(t.duration_ms, 700);
    assert_eq!(t.from_clip_id, "a");
    assert_eq!(t.to_clip_id, "b");
    assert_eq!(t.id.len(), 36);
    let t2 = Transition::new(TransitionType::Dissolve, 250, "a", "b");
    assert_eq!(t2.duration_ms, 250);
    assert_ne!(t.id, t2.id);
    let t3 = Transition::with_default_duration(TransitionType::SlideLeft, "x", "y");
    assert_eq!(t3.duration_ms, 400);
}

#[test]
fn spatial_transitions() {
    let spatial = [
        TransitionType::WipeLeft, TransitionType::WipeRight, TransitionType::WipeUp,
        TransitionType::WipeDown, TransitionType::SlideLeft, TransitionType::SlideRight,
        TransitionType::ZoomIn, TransitionType::ZoomOut,
    ];
    for t in TransitionType::all_transitions() {
        let tr = Transition::new(t, 0, "a", "b");
        assert_eq!(tr.is_spatial(), spatial.contains(&t), "{:?}", t);
    }
}

#[test]
fn wipes_in_each_direction() {
    let (w, h) = (4u32, 3u32);
    let from = make_solid_frame(w, h, 10, 10, 10);
    let to = make_solid_frame(w, h, 90, 90, 90);
    let pixel = |frame: &Vec<u8>, x: u32, y: u32| frame[((y * w + x) * 4) as usize];
    let right = Transition::new(TransitionType::WipeRight, 0, "a", "b").wipe_frames(&from, &to, w, h, 3);
    assert_eq!(pixel(&right, 2, 0), 10);
    assert_eq!(pixel(&right, 3, 0), 90);
    let up = Transition::new(TransitionType::WipeUp, 0, "a", "b").wipe_frames(&from, &to, w, h, 1);
    assert_eq!(pixel(&up, 3, 0), 90);
    assert_eq!(pixel(&up, 0, 1), 10);
    let down = Transition::new(TransitionType::WipeDown, 0, "a", "b").wipe_frames(&from, &to, w, h, 2);
    assert_eq!(pixel(&down, 0, 1), 10);
    assert_eq!(pixel(&down, 0, 2), 90);
    assert_eq!(down.len(), (w * h * 4) as usize);
}

#[test]
fn wipe_and_slide_ends_show_one_frame() {
    let (w, h) = (5u32, 4u32);
    let from = gradient_frame(w, h, 1);
    let to = gradient_frame(w, h, 77);
    let left = Transition::new(TransitionType::WipeLeft, 0, "a", "b");
    assert_eq!(left.wipe_frames(&from, &to, w, h, 0), from);
    assert_eq!(left.wipe_frames(&from, &to, w, h, w), to);
    let down = Transition::new(TransitionType::WipeDown, 0, "a", "b");
    assert_eq!(down.wipe_frames(&from, &to, w, h, h), from);
    assert_eq!(down.wipe_frames(&from, &to, w, h, 0), to);
    for t in [TransitionType::SlideLeft, TransitionType::SlideRight] {
        let slide = Transition::new(t, 0, "a", "b");
        assert_eq!(slide.slide_frames(&from, &to, w, h, 0), from);
        assert_eq!(slide.slide_frames(&from, &to, w, h, w as i32), to);
    }
}

#[test]
fn slides_move_columns() {
    let (w, h) = (4u32, 2u32);
    let from = gradient_frame(w, h, 1);
    let to = gradient_frame(w, h, 100);
    let at = |frame: &Vec<u8>, x: u32, y: u32| frame[((y * w + x) * 4) as usize];
    let left = Transition::new(TransitionType::SlideLeft, 0, "a", "b").slide_frames(&from, &to, w, h, 1);
    // Column x shows outgoing column x + 1; the last column shows incoming column 0.
    assert_eq!(at(&left, 0, 1), at(&from, 1, 1));
    assert_eq!(at(&left, 3, 0), at(&to, 0, 0));
    let right = Transition::new(TransitionType::SlideRight, 0, "a", "b").slide_frames(&from, &to, w, h, 1);
    assert_eq!(at(&right, 1, 0), at(&from, 0, 0));
    assert_eq!(at(&right, 0, 1), at(&to, 3, 1));
    // Beyond the full width no frame covers the pixels: opaque black.
    let far = Transition::new(TransitionType::SlideLeft, 0, "a", "b").slide_frames(&from, &to, w, h, 9);
    assert_eq!(&far[0..4], &[0, 0, 0, 255]);
}
