use editors_engine::effects::stabilization::{crop_frame, estimate_motion_offset, shift_frame};

#[test]
fn estimate_motion_zero_for_identical_frames() {
    let frame = vec![128u8; 64 * 64 * 4];
    let mv = estimate_motion_offset(&frame, &frame, 64, 64, 16, 8);
    assert_eq!(mv, (0, 0));
}

#[test]
fn apply_correction_zero_is_noop() {
    let mut frame = vec![100u8; 16 * 16 * 4];
    let orig = frame.clone();
    shift_frame(&mut frame, 16, 16, 0, 0);
    assert_eq!(frame, orig);
}

#[test]
fn crop_center_reduces_dimensions() {
    let frame = vec![128u8; 100 * 100 * 4];
    let new_w = ((100f32) * (1.0 - 0.2f32)).round() as usize;
    let out = crop_frame(&frame, 100, 100, new_w, new_w);
    assert_eq!(new_w, 80);
    assert_eq!(out.len(), 80 * 80 * 4);
}

fn gradient(width: usize, height: usize, ox: usize, oy: usize) -> Vec<u8> {
    let mut f = vec![0u8; width * height * 4];
    for y in 0..height {
        for x in 0..width {
            let i = (y * width + x) * 4;
            let v = (((x + ox) * 7 + (y + oy) * 13) % 251) as u8;
            f[i] = v;
            f[i + 1] = v;
            f[i + 2] = v;
            f[i + 3] = 255;
        }
    }
    f
}

#[test]
fn motion_follows_a_moved_picture() {
    let prev = gradient(32, 32, 10, 10);
    let curr = gradient(32, 32, 7, 12);
    assert_eq!(estimate_motion_offset(&prev, &curr, 32, 32, 8, 4), (3, -2));
    assert_eq!(estimate_motion_offset(&prev, &prev, 32, 32, 8, 4), (0, 0));
    assert_eq!(estimate_motion_offset(&prev, &curr, 32, 32, 0, 2), (0, 0));
}

#[test]
fn shift_moves_pixels_and_blackens_edges() {
    let mut f: Vec<u8> = (0..(3 * 2 * 4) as u8).collect();
    f.push(77);
    let orig = f.clone();
    shift_frame(&mut f, 3, 2, 1, 0);
    assert_eq!(&f[0..4], &[0, 0, 0, 255]);
    assert_eq!(&f[4..8], &orig[0..4]);
    assert_eq!(&f[8..12], &orig[4..8]);
    assert_eq!(&f[12..16], &[0, 0, 0, 255]);
    assert_eq!(f[24], 77);
    let mut g = orig.clone();
    shift_frame(&mut g, 3, 2, -5, 9);
    assert!(g[..24].chunks(4).all(|p| p == [0, 0, 0, 255]));
}

#[test]
fn crop_takes_the_centre() {
    let f: Vec<u8> = (0..(4 * 4 * 4) as u8).collect();
    let out = crop_frame(&f, 4, 4, 2, 2);
    let px = |x: usize, y: usize| f[(y * 4 + x) * 4..(y * 4 + x) * 4 + 4].to_vec();
    assert_eq!(out, [px(1, 1), px(2, 1), px(1, 2), px(2, 2)].concat());
    assert!(crop_frame(&f, 4, 4, 0, 3).is_empty());
}

use editors_engine::effects::retiming::{match_blocks, BlockMatch};

#[test]
fn blocks_match_a_moved_picture() {
    let a = gradient(8, 4, 10, 10);
    let b = gradient(8, 4, 9, 10);
    let m = match_blocks(&a, &b, 8, 4, 4, 1);
    assert_eq!(m.len(), 2);
    assert_eq!(m[0], BlockMatch { x: 0, y: 0, dx: 1, dy: 0, sad: m[0].sad });
    assert_eq!((m[1].x, m[1].y), (4, 0));
    let same = match_blocks(&a, &a, 8, 4, 3, 1);
    assert_eq!(same.len(), 6);
    assert!(same.iter().all(|b| b.sad == 0));
    assert_eq!((same[0].dx, same[0].dy), (0, 0));
    assert_eq!((same[5].x, same[5].y), (6, 3));
    assert!(match_blocks(&[], &[], 0, 5, 2, 1).is_empty());
}
