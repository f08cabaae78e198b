use editors_engine::project::clip::{Clip, ClipTransform};
use editors_engine::project::track::{Track, TrackType};

fn f(bits: u64) -> f64 {
    f64::from_bits(bits)
}

#[test]
fn test_clip_new() {
    let clip = Clip::new("video.mp4");
    assert_eq!(clip.source_path, "video.mp4");
    assert_eq!(f(clip.trim_in_bits), 0.0);
    assert_eq!(f(clip.trim_out_bits), 10.0);
    assert_eq!(f(clip.speed_bits), 1.0);
}

#[test]
fn test_clip_with_trim() {
    let clip = Clip::with_trim("video.mp4", 5.0f64.to_bits(), 15.0f64.to_bits());
    assert_eq!(f(clip.trim_in_bits), 5.0);
    assert_eq!(f(clip.trim_out_bits), 15.0);
}

#[test]
fn test_clip_set_speed() {
    let mut clip = Clip::new("video.mp4");
    clip.set_speed(0.5f64.to_bits());
    assert!((f(clip.speed_bits) - 0.5).abs() < 1e-9);
}

#[test]
fn test_clip_set_volume_pan() {
    let mut clip = Clip::new("video.mp4");
    clip.set_volume(1.5f64.to_bits());
    clip.set_pan((-0.5f64).to_bits());
    assert!((f(clip.volume_bits) - 1.5).abs() < 1e-9);
    assert!((f(clip.pan_bits) - (-0.5)).abs() < 1e-9);
}

#[test]
fn test_clip_effects() {
    let mut clip = Clip::new("video.mp4");
    clip.add_effect("blur");
    clip.add_effect("sharpen");
    assert_eq!(clip.effects.len(), 2);
    clip.add_effect("blur");
    assert_eq!(clip.effects.len(), 2);
    clip.remove_effect("blur");
    assert_eq!(clip.effects.len(), 1);
    assert_eq!(clip.effects[0], "sharpen");
}

#[test]
fn test_clip_transform_default() {
    let t = ClipTransform::default();
    assert!((f(t.scale_x_bits) - 1.0).abs() < 1e-9);
    assert!((f(t.opacity_bits) - 1.0).abs() < 1e-9);
}

#[test]
fn test_clip_unique_ids() {
    let c1 = Clip::new("a.mp4");
    let c2 = Clip::new("a.mp4");
    assert_ne!(c1.id, c2.id);
}

#[test]
fn clip_levels_are_clamped() {
    let mut clip = Clip::new("a.mp4");
    clip.set_speed(0.0f64.to_bits());
    assert_eq!(f(clip.speed_bits), 0.01);
    clip.set_speed((-3.0f64).to_bits());
    assert_eq!(f(clip.speed_bits), 0.01);
    clip.set_speed(f64::NAN.to_bits());
    assert_eq!(f(clip.speed_bits), 0.01);
    clip.set_speed(4.0f64.to_bits());
    assert_eq!(f(clip.speed_bits), 4.0);
    clip.set_volume(3.0f64.to_bits());
    assert_eq!(f(clip.volume_bits), 2.0);
    clip.set_volume((-1.0f64).to_bits());
    assert_eq!(f(clip.volume_bits), 0.0);
    clip.set_pan(7.0f64.to_bits());
    assert_eq!(f(clip.pan_bits), 1.0);
    clip.set_pan((-7.0f64).to_bits());
    assert_eq!(f(clip.pan_bits), -1.0);
    let t = ClipTransform::new().with_opacity(1.5f64.to_bits());
    assert_eq!(f(t.opacity_bits), 1.0);
    let t = t.with_position(3.0f64.to_bits(), 4.0f64.to_bits()).with_scale(2.0f64.to_bits(), 0.5f64.to_bits());
    assert_eq!((f(t.x_bits), f(t.y_bits)), (3.0, 4.0));
    assert_eq!((f(t.scale_x_bits), f(t.scale_y_bits)), (2.0, 0.5));
    assert_eq!(f(t.with_rotation(90.0f64.to_bits()).rotation_bits), 90.0);
}

#[test]
fn clip_filters_add_remove_and_undo() {
    let mut clip = Clip::default();
    assert_eq!(clip.source_path, "");
    clip.add_filter("grain");
    clip.add_filter("vignette");
    clip.add_filter("grain");
    assert_eq!(clip.filters, vec!["grain".to_string(), "vignette".to_string()]);
    clip.remove_filter("grain");
    assert_eq!(clip.filters, vec!["vignette".to_string()]);
    clip.remove_filter("absent");
    assert_eq!(clip.filters, vec!["vignette".to_string()]);
    clip.filters.push("x".to_string());
    clip.filters.push("x".to_string());
    clip.remove_filter("x");
    assert_eq!(clip.filters, vec!["vignette".to_string()]);
}

#[test]
fn test_track_new() {
    let track = Track::new("Video 1", TrackType::Video);
    assert_eq!(track.name, "Video 1");
    assert_eq!(track.track_type, TrackType::Video);
    assert!(track.clips.is_empty());
    assert!(!track.muted);
    assert!(!track.solo);
    assert!(!track.locked);
}

#[test]
fn test_track_add_clip() {
    let mut track = Track::new("V1", TrackType::Video);
    track.add_clip(Clip::new("a.mp4"));
    track.add_clip(Clip::new("b.mp4"));
    assert_eq!(track.clip_count(), 2);
}

#[test]
fn test_track_remove_clip() {
    let mut track = Track::new("V1", TrackType::Video);
    track.add_clip(Clip::new("a.mp4"));
    track.add_clip(Clip::new("b.mp4"));
    let removed = track.remove_clip(0);
    assert!(removed.is_ok());
    assert_eq!(track.clip_count(), 1);
    assert_eq!(track.clips[0].source_path, "b.mp4");
}

#[test]
fn test_track_remove_clip_out_of_bounds() {
    let mut track = Track::new("V1", TrackType::Video);
    let result = track.remove_clip(5);
    assert!(result.is_err());
}

#[test]
fn test_track_move_clip() {
    let mut track = Track::new("V1", TrackType::Video);
    track.add_clip(Clip::new("a.mp4"));
    track.add_clip(Clip::new("b.mp4"));
    track.add_clip(Clip::new("c.mp4"));
    track.move_clip(0, 2).unwrap();
    assert_eq!(track.clips[0].source_path, "b.mp4");
    assert_eq!(track.clips[1].source_path, "c.mp4");
    assert_eq!(track.clips[2].source_path, "a.mp4");
}

#[test]
fn test_track_is_audible() {
    let mut track = Track::new("A1", TrackType::Audio);
    assert!(track.is_audible(false));
    track.muted = true;
    assert!(!track.is_audible(false));
    track.muted = false;
    track.solo = true;
    assert!(track.is_audible(true));
}

#[test]
fn test_track_toggle() {
    let mut track = Track::new("V1", TrackType::Video);
    track.toggle_mute();
    assert!(track.muted);
    track.toggle_mute();
    assert!(!track.muted);
    track.toggle_solo();
    assert!(track.solo);
    track.toggle_lock();
    assert!(track.locked);
}

#[test]
fn track_errors_and_lookups() {
    let mut track = Track::new("V1", TrackType::Video);
    assert_eq!(track.remove_clip(5).unwrap_err(), "Clip index 5 out of bounds (len=0)");
    track.add_clip(Clip::new("a.mp4"));
    track.add_clip(Clip::new("b.mp4"));
    assert_eq!(
        track.move_clip(0, 2).unwrap_err(),
        "Clip index out of bounds: from=0, to=2, len=2"
    );
    let id_b = track.clips[1].id.clone();
    assert_eq!(track.find_clip_index_by_id(&id_b), Some(1));
    assert_eq!(track.find_clip_index_by_id("nope"), None);
    track.move_clip(1, 0).unwrap();
    assert_eq!(track.find_clip_index_by_id(&id_b), Some(0));
    track.move_clip(0, 1).unwrap();
    assert_eq!(track.clips[0].source_path, "a.mp4");
    assert_eq!(track.clips[1].source_path, "b.mp4");
    let removed = track.remove_clip(1).unwrap();
    assert_eq!(removed.id, id_b);
    track.reorder_clips();
    assert_eq!(track.clip_count(), 1);
    assert!(!Track::new("A", TrackType::Audio).is_audible(true));
    track.set_volume(5.0f64.to_bits());
    assert_eq!(f64::from_bits(track.volume_bits), 2.0);
    track.set_pan((-0.25f64).to_bits());
    assert_eq!(f64::from_bits(track.pan_bits), -0.25);
}
