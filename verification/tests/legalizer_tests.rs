use editors_engine::effects::legalizer::{hard_clamp_table, legalize_pixels};

fn luma(p: &[u8]) -> i32 {
    (54 * p[0] as i32 + 183 * p[1] as i32 + 19 * p[2] as i32) >> 8
}

#[test]
fn hard_clamp_mode() {
    let mut pixels = vec![255u8, 255, 255, 255];
    legalize_pixels(&mut pixels, &hard_clamp_table(16, 235), &hard_clamp_table(16, 240));
    let y = luma(&pixels);
    assert!(y <= 236, "expected ~235, got y={}", y);
}

#[test]
fn hard_clamp_lifts_black_and_keeps_alpha_and_tail() {
    let mut pixels = vec![0u8, 0, 0, 77, 128, 128, 128, 9, 5];
    legalize_pixels(&mut pixels, &hard_clamp_table(16, 235), &hard_clamp_table(16, 240));
    assert!(luma(&pixels[0..4]) >= 14 && luma(&pixels[0..4]) <= 20);
    assert_eq!(pixels[3], 77);
    assert_eq!(pixels[7], 9);
    assert_eq!(pixels[8], 5);
    assert!((luma(&pixels[4..8]) - 128).abs() <= 2);
    let t = hard_clamp_table(16, 240);
    assert_eq!((t[0], t[16], t[100], t[240], t[255]), (16, 16, 100, 240, 240));
}

#[test]
fn identity_tables_round_trip_grey() {
    let id: Vec<i32> = (0..256).collect();
    let mut pixels = vec![200u8, 200, 200, 255];
    legalize_pixels(&mut pixels, &id, &id);
    assert_eq!(&pixels[..3], &[200, 200, 200]);
}

#[test]
fn hard_clamp_lowers_white_to_legal_luma() {
    let mut pixels = vec![255u8, 255, 255, 255, 0, 0, 0, 255];
    legalize_pixels(&mut pixels, &hard_clamp_table(16, 235), &hard_clamp_table(16, 240));
    assert_eq!(luma(&pixels[0..4]), 235);
    assert_eq!(luma(&pixels[4..8]), 16);
}

fn soft_table(lo: i32, hi: i32, knee: f32) -> Vec<i32> {
    let range = (hi - lo) as f32;
    let knee = knee.clamp(0.5, 0.99);
    let high_knee = lo as f32 + knee * range;
    let low_knee = lo as f32 + (1.0 - knee) * range;
    (0..256)
        .map(|value| {
            let v = value as f32;
            let out = if v > high_knee {
                let headroom = hi as f32 - high_knee;
                high_knee + headroom * (1.0 - (-(v - high_knee) / headroom).exp())
            } else if v < low_knee {
                let headroom = low_knee - lo as f32;
                low_knee - headroom * (1.0 - (-(low_knee - v) / headroom).exp())
            } else {
                v
            };
            out.round() as i32
        })
        .collect()
}

fn legalize_soft(pixels: &mut Vec<u8>) {
    legalize_pixels(pixels, &soft_table(16, 235, 0.9), &soft_table(16, 240, 0.9));
}

#[test]
fn legalize_pure_black() {
    let mut pixels = vec![0u8, 0, 0, 255];
    legalize_soft(&mut pixels);
    let y = luma(&pixels);
    assert!(y >= 14 && y <= 20, "expected legal black ~16, got y={}", y);
}

#[test]
fn legalize_pure_white() {
    let mut pixels = vec![255u8, 255, 255, 255];
    legalize_soft(&mut pixels);
    let y = luma(&pixels);
    assert!(y <= 238, "expected legal white ~235, got y={}", y);
}

#[test]
fn legalize_mid_gray_unchanged() {
    let mut pixels = vec![128u8, 128, 128, 255];
    let orig_y = (54 * 128 + 183 * 128 + 19 * 128) >> 8;
    legalize_soft(&mut pixels);
    let new_y = luma(&pixels);
    assert!((new_y - orig_y).abs() <= 2, "expected ~unchanged, orig={} new={}", orig_y, new_y);
}
