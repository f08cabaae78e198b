use editors_engine::project::clip::Clip;
use editors_engine::project::timeline::{Marker, MarkerType, Region, Timeline};
use editors_engine::project::track::{Track, TrackType};
use editors_engine::project::Project;

fn f(bits: u64) -> f64 {
    f64::from_bits(bits)
}

fn clip_duration(clip: &Clip) -> f64 {
    let speed = f(clip.speed_bits);
    if speed.abs() < f64::EPSILON {
        0.0
    } else {
        (f(clip.trim_out_bits) - f(clip.trim_in_bits)) / speed.abs()
    }
}

fn timeline_duration(tl: &Timeline) -> f64 {
    tl.tracks
        .iter()
        .map(|t| t.clips.iter().map(clip_duration).sum::<f64>())
        .fold(0.0f64, |a, b| a.max(b))
}

fn region_duration(region: &Region) -> f64 {
    (f(region.end_bits) - f(region.start_bits)).max(0.0)
}

fn region_contains(region: &Region, time: f64) -> bool {
    time >= f(region.start_bits) && time <= f(region.end_bits)
}

#[test]
fn test_timeline_new() {
    let tl = Timeline::new();
    assert!(tl.tracks.is_empty());
    assert_eq!(timeline_duration(&tl), 0.0);
    assert!(tl.markers.is_empty());
    assert!(tl.regions.is_empty());
}

#[test]
fn test_timeline_add_track() {
    let mut tl = Timeline::new();
    let track = Track::new("Video 1", TrackType::Video);
    tl.add_track(track);
    assert_eq!(tl.track_count(), 1);
}

#[test]
fn test_timeline_remove_track() {
    let mut tl = Timeline::new();
    tl.add_track(Track::new("Video 1", TrackType::Video));
    tl.add_track(Track::new("Audio 1", TrackType::Audio));
    let removed = tl.remove_track(0);
    assert!(removed.is_ok());
    assert_eq!(tl.track_count(), 1);
    assert_eq!(tl.tracks[0].name, "Audio 1");
}

#[test]
fn test_timeline_remove_track_out_of_bounds() {
    let mut tl = Timeline::new();
    let result = tl.remove_track(5);
    assert!(result.is_err());
}

#[test]
fn test_timeline_reorder_tracks() {
    let mut tl = Timeline::new();
    tl.add_track(Track::new("A", TrackType::Video));
    tl.add_track(Track::new("B", TrackType::Audio));
    tl.reorder_tracks(0, 1).unwrap();
    assert_eq!(tl.tracks[0].name, "B");
    assert_eq!(tl.tracks[1].name, "A");
}

#[test]
fn test_timeline_reorder_tracks_out_of_bounds() {
    let mut tl = Timeline::new();
    tl.add_track(Track::new("A", TrackType::Video));
    let result = tl.reorder_tracks(0, 5);
    assert!(result.is_err());
}

#[test]
fn test_timeline_add_marker() {
    let mut tl = Timeline::new();
    tl.add_marker(Marker::new(5.0f64.to_bits(), "Start"));
    assert_eq!(tl.markers.len(), 1);
    assert_eq!(tl.markers[0].name, "Start");
}

#[test]
fn test_timeline_remove_marker() {
    let mut tl = Timeline::new();
    tl.add_marker(Marker::new(5.0f64.to_bits(), "A"));
    tl.add_marker(Marker::new(10.0f64.to_bits(), "B"));
    let removed = tl.remove_marker(0).unwrap();
    assert_eq!(removed.name, "A");
    assert_eq!(tl.markers.len(), 1);
}

#[test]
fn test_timeline_add_region() {
    let mut tl = Timeline::new();
    tl.add_region(Region::new(0.0f64.to_bits(), 10.0f64.to_bits(), "Selection"));
    assert_eq!(tl.regions.len(), 1);
}

#[test]
fn test_region_duration() {
    let region = Region::new(2.0f64.to_bits(), 8.0f64.to_bits(), "Test");
    assert!((region_duration(&region) - 6.0).abs() < 1e-9);
}

#[test]
fn test_region_contains() {
    let region = Region::new(2.0f64.to_bits(), 8.0f64.to_bits(), "Test");
    assert!(region_contains(&region, 5.0));
    assert!(!region_contains(&region, 1.0));
    assert!(region_contains(&region, 2.0));
}

#[test]
fn test_marker_with_color_and_type() {
    let marker = Marker::new(5.0f64.to_bits(), "Chapter")
        .with_color("#00FF00")
        .with_type(MarkerType::Chapter);
    assert_eq!(marker.color, "#00FF00");
    assert_eq!(marker.marker_type, MarkerType::Chapter);
}

#[test]
fn test_timeline_ripple_delete_out_of_bounds() {
    let mut tl = Timeline::new();
    tl.add_track(Track::new("V1", TrackType::Video));
    let result = tl.ripple_delete(5, 0);
    assert!(result.is_err());
}

#[test]
fn timeline_error_messages() {
    let mut tl = Timeline::new();
    assert_eq!(tl.remove_track(3).unwrap_err(), "Track index 3 out of bounds (len=0)");
    tl.add_track(Track::new("A", TrackType::Video));
    assert_eq!(
        tl.reorder_tracks(0, 7).unwrap_err(),
        "Track index out of bounds: from=0, to=7, len=1"
    );
    assert_eq!(tl.ripple_delete(2, 0).unwrap_err(), "Track index 2 out of bounds");
    assert_eq!(tl.ripple_delete(0, 4).unwrap_err(), "Clip index 4 out of bounds on track 0 (len=0)");
    assert_eq!(tl.remove_marker(0).unwrap_err(), "Marker index out of bounds");
    assert_eq!(tl.remove_region(0).unwrap_err(), "Region index out of bounds");
}

#[test]
fn timeline_ripple_delete_closes_the_gap() {
    let mut tl = Timeline::new();
    let mut v = Track::new("V", TrackType::Video);
    v.add_clip(Clip::new("a.mp4"));
    v.add_clip(Clip::new("b.mp4"));
    v.add_clip(Clip::new("c.mp4"));
    tl.add_track(Track::new("A", TrackType::Audio));
    tl.add_track(v);
    tl.ripple_delete(1, 1).unwrap();
    assert_eq!(tl.tracks.len(), 2);
    assert_eq!(tl.tracks[0].name, "A");
    let names: Vec<&str> = tl.tracks[1].clips.iter().map(|c| c.source_path.as_str()).collect();
    assert_eq!(names, vec!["a.mp4", "c.mp4"]);
    assert_eq!(timeline_duration(&tl), 20.0);
}

#[test]
fn timeline_reorder_back_restores_the_order() {
    let mut tl = Timeline::new();
    for name in ["A", "B", "C", "D"] {
        tl.add_track(Track::new(name, TrackType::Video));
    }
    tl.reorder_tracks(0, 2).unwrap();
    let order: Vec<&str> = tl.tracks.iter().map(|t| t.name.as_str()).collect();
    assert_eq!(order, vec!["B", "C", "A", "D"]);
    tl.reorder_tracks(2, 0).unwrap();
    let order: Vec<&str> = tl.tracks.iter().map(|t| t.name.as_str()).collect();
    assert_eq!(order, vec!["A", "B", "C", "D"]);
}

#[test]
fn timeline_add_then_remove_marker_and_region() {
    let mut tl = Timeline::new();
    tl.add_marker(Marker::new(1.0f64.to_bits(), "M"));
    tl.add_region(Region::new(0.0f64.to_bits(), 1.0f64.to_bits(), "R"));
    assert_eq!(tl.remove_marker(0).unwrap().name, "M");
    assert_eq!(tl.remove_region(0).unwrap().name, "R");
    assert!(tl.markers.is_empty() && tl.regions.is_empty());
    assert_eq!(tl.timebase, 30);
}

#[test]
fn project_starts_with_an_empty_timeline() {
    let p = Project::new("Demo");
    assert_eq!(p.name, "Demo");
    assert!(p.timeline.tracks.is_empty());
    assert_eq!(p.timeline.timebase, 30);
    assert_eq!(p.settings.width, 1920);
    assert!(p.media_assets.is_empty());
}

#[test]
fn test_project_metadata_default() {
    let meta = editors_engine::project::project::ProjectMetadata::default();
    assert!(meta.author.is_empty());
    assert!(meta.description.is_empty());
    assert!(meta.tags.is_empty());
    assert_eq!(meta.version, "0.1.0");
}

#[test]
fn test_project_new() {
    let project = Project::new("Test Project");
    assert_eq!(project.name, "Test Project");
    assert_eq!(project.settings.width, 1920);
    assert_eq!(project.settings.height, 1080);
    assert_eq!(f32::from_bits(project.settings.fps_bits), 30.0);
}

#[test]
fn test_project_with_settings() {
    let settings = editors_engine::project::ProjectSettings {
        width: 3840,
        height: 2160,
        fps_bits: 60.0f32.to_bits(),
        ..Default::default()
    };
    let project = Project::with_settings("4K Project", settings);
    assert_eq!(project.settings.width, 3840);
    assert_eq!(project.settings.height, 2160);
    assert_eq!(f32::from_bits(project.settings.fps_bits), 60.0);
}

#[test]
fn test_project_unique_ids() {
    let p1 = Project::new("P1");
    let p2 = Project::new("P2");
    assert_ne!(p1.id, p2.id);
}
