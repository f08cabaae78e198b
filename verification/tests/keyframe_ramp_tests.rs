use editors_engine::effects::retiming::{RampInterpolation, SpeedPoint, SpeedRamp};
use editors_engine::project::keyframes::{
    AnimatableProperty, EasingCurve, InterpolationType, Keyframe, KeyframeAnimation, KeyframeSegment, KeyframeTrack,
};

fn s(v: f64) -> u64 {
    v.to_bits()
}

fn v(v: f32) -> u32 {
    v.to_bits()
}

#[test]
fn test_keyframe_track_sorted_insert() {
    let mut track: KeyframeTrack<u32> = KeyframeTrack::new();
    track.add_keyframe(Keyframe::new(s(2.0), v(20.0)));
    track.add_keyframe(Keyframe::new(s(0.0), v(0.0)));
    track.add_keyframe(Keyframe::new(s(1.0), v(10.0)));
    assert_eq!(f64::from_bits(track.keyframes[0].time_bits), 0.0);
    assert_eq!(f64::from_bits(track.keyframes[1].time_bits), 1.0);
    assert_eq!(f64::from_bits(track.keyframes[2].time_bits), 2.0);
}

#[test]
fn test_keyframe_track_remove() {
    let mut track: KeyframeTrack<u32> = KeyframeTrack::new();
    track.add_keyframe(Keyframe::new(s(0.0), v(0.0)));
    track.add_keyframe(Keyframe::new(s(1.0), v(10.0)));
    let removed = track.remove_keyframe(0);
    assert!(removed.is_some());
    assert_eq!(track.len(), 1);
}

#[test]
fn test_keyframe_track_time_range() {
    let mut track: KeyframeTrack<u32> = KeyframeTrack::new();
    assert!(track.time_range().is_none());
    track.add_keyframe(Keyframe::new(s(2.0), v(20.0)));
    track.add_keyframe(Keyframe::new(s(5.0), v(50.0)));
    let range = track.time_range().unwrap();
    assert!((f64::from_bits(range.0) - 2.0).abs() < 1e-9);
    assert!((f64::from_bits(range.1) - 5.0).abs() < 1e-9);
}

#[test]
fn test_keyframe_animation_is_animated() {
    let mut anim = KeyframeAnimation::new(AnimatableProperty::Opacity);
    assert!(!anim.is_animated());
    anim.add_keyframe(s(0.0), v(1.0));
    assert!(anim.is_animated());
}

#[test]
fn keyframes_at_equal_times_keep_order() {
    let mut anim = KeyframeAnimation::new(AnimatableProperty::EffectParam("gain".to_string()))
        .with_easing(EasingCurve::EaseInQuad);
    anim.add_keyframe(s(1.0), v(1.0));
    anim.add_keyframe_with_interpolation(s(1.0), v(2.0), InterpolationType::Hold);
    anim.add_keyframe(s(0.5), v(3.0));
    assert_eq!(anim.keyframe_count(), 3);
    let values: Vec<f32> = anim.track.keyframes.iter().map(|k| f32::from_bits(k.value)).collect();
    assert_eq!(values, vec![3.0, 1.0, 2.0]);
    assert_eq!(anim.track.keyframes[2].interpolation_type, InterpolationType::Hold);
    assert_eq!(anim.easing, EasingCurve::EaseInQuad);
    let k = Keyframe::new(s(0.0), 7u8).with_interpolation(InterpolationType::Bounce);
    assert_eq!(k.interpolation_type, InterpolationType::Bounce);
    assert_eq!(f32::from_bits(k.bezier_in_handle.x_bits), 0.33);
    assert_eq!(f32::from_bits(k.bezier_out_handle.y_bits), 1.0);
    let mut t: KeyframeTrack<u8> = KeyframeTrack::new();
    assert!(t.is_empty());
    assert!(t.remove_keyframe(0).is_none());
    t.add_keyframe(Keyframe::new(f64::NAN.to_bits(), 1));
    t.add_keyframe(Keyframe::new(s(-1.0), 2));
    assert_eq!(t.keyframes[0].value, 1);
    assert_eq!(t.keyframes[1].value, 2);
}

#[test]
fn test_speed_ramp_new() {
    let ramp = SpeedRamp::new();
    assert_eq!(ramp.points.len(), 1);
    assert_eq!(f64::from_bits(ramp.points[0].speed_bits), 1.0);
}

#[test]
fn test_add_point_sorted() {
    let mut ramp = SpeedRamp::new();
    ramp.add_point(SpeedPoint::new(s(10.0), s(2.0)));
    ramp.add_point(SpeedPoint::new(s(5.0), s(1.5)));
    assert_eq!(f64::from_bits(ramp.points[0].time_bits), 0.0);
    assert_eq!(f64::from_bits(ramp.points[1].time_bits), 5.0);
    assert_eq!(f64::from_bits(ramp.points[2].time_bits), 10.0);
}

#[test]
fn test_remove_point() {
    let mut ramp = SpeedRamp::new();
    ramp.add_point(SpeedPoint::new(s(5.0), s(2.0)));
    ramp.add_point(SpeedPoint::new(s(10.0), s(1.5)));
    let removed = ramp.remove_point(1);
    assert!(removed.is_some());
    assert_eq!(ramp.points.len(), 2);
}

#[test]
fn test_remove_last_point_fails() {
    let mut ramp = SpeedRamp::new();
    assert!(ramp.remove_point(0).is_none());
}

#[test]
fn test_speed_point_constructor() {
    let p = SpeedPoint::new(s(5.0), s(2.0));
    assert_eq!(f64::from_bits(p.time_bits), 5.0);
    assert_eq!(f64::from_bits(p.speed_bits), 2.0);
    assert_eq!(p.interpolation, RampInterpolation::Linear);
}

#[test]
fn test_speed_point_bezier_handles() {
    let p = SpeedPoint::new(s(5.0), s(2.0)).with_bezier(s(-0.2), s(-0.1), s(0.2), s(0.1));
    assert_eq!((f64::from_bits(p.bezier_handle_in.0), f64::from_bits(p.bezier_handle_in.1)), (-0.2, -0.1));
    assert_eq!((f64::from_bits(p.bezier_handle_out.0), f64::from_bits(p.bezier_handle_out.1)), (0.2, 0.1));
}

#[test]
fn ramp_constant_and_equal_times() {
    let mut ramp = SpeedRamp::constant(s(2.0));
    assert_eq!(f64::from_bits(ramp.points[0].speed_bits), 2.0);
    assert_eq!(f64::from_bits(ramp.points[0].bezier_handle_in.0), -0.1);
    ramp.add_point(SpeedPoint::new(s(0.0), s(3.0)));
    assert_eq!(f64::from_bits(ramp.points[1].speed_bits), 3.0);
    assert!(ramp.remove_point(5).is_none());
    assert_eq!(f64::from_bits(ramp.remove_point(0).unwrap().speed_bits), 2.0);
    assert!(ramp.remove_point(0).is_none());
    assert_eq!(ramp.points.len(), 1);
}

/// Evaluates an `f32` track as the application does for linear and held
/// segments.
fn value_at(track: &KeyframeTrack<u32>, time: f64) -> f32 {
    match track.segment_at(s(time)) {
        KeyframeSegment::Empty => 0.0,
        KeyframeSegment::At(i) => f32::from_bits(track.keyframes[i].value),
        KeyframeSegment::Between(i, j) => {
            let (l, r) = (&track.keyframes[i], &track.keyframes[j]);
            let (a, b) = (f32::from_bits(l.value), f32::from_bits(r.value));
            let (t0, t1) = (f64::from_bits(l.time_bits), f64::from_bits(r.time_bits));
            let t = ((time - t0) / (t1 - t0)) as f32;
            match l.interpolation_type {
                InterpolationType::Hold | InterpolationType::Constant => a,
                _ => a + (b - a) * t,
            }
        }
    }
}

#[test]
fn test_keyframe_track_evaluate_linear() {
    let mut track: KeyframeTrack<u32> = KeyframeTrack::new();
    track.add_keyframe(Keyframe::new(s(0.0), v(0.0)));
    track.add_keyframe(Keyframe::new(s(1.0), v(100.0)));
    assert!((value_at(&track, 0.5) - 50.0).abs() < 1e-3);
}

#[test]
fn test_keyframe_track_evaluate_hold() {
    let mut track: KeyframeTrack<u32> = KeyframeTrack::new();
    track.add_keyframe(Keyframe::new(s(0.0), v(0.0)).with_interpolation(InterpolationType::Hold));
    track.add_keyframe(Keyframe::new(s(1.0), v(100.0)));
    assert!((value_at(&track, 0.5) - 0.0).abs() < 1e-3);
}

#[test]
fn test_keyframe_track_evaluate_before_first() {
    let mut track: KeyframeTrack<u32> = KeyframeTrack::new();
    track.add_keyframe(Keyframe::new(s(1.0), v(10.0)));
    track.add_keyframe(Keyframe::new(s(2.0), v(20.0)));
    assert!((value_at(&track, 0.5) - 10.0).abs() < 1e-3);
}

#[test]
fn test_keyframe_track_evaluate_after_last() {
    let mut track: KeyframeTrack<u32> = KeyframeTrack::new();
    track.add_keyframe(Keyframe::new(s(0.0), v(10.0)));
    track.add_keyframe(Keyframe::new(s(1.0), v(20.0)));
    assert!((value_at(&track, 2.0) - 20.0).abs() < 1e-3);
}

#[test]
fn test_keyframe_track_single_keyframe() {
    let mut track: KeyframeTrack<u32> = KeyframeTrack::new();
    track.add_keyframe(Keyframe::new(s(1.0), v(42.0)));
    assert!((value_at(&track, 0.0) - 42.0).abs() < 1e-3);
    assert!((value_at(&track, 5.0) - 42.0).abs() < 1e-3);
}

#[test]
fn test_keyframe_track_empty() {
    let track: KeyframeTrack<u32> = KeyframeTrack::new();
    assert!((value_at(&track, 0.0)).abs() < 1e-3);
}

#[test]
fn test_keyframe_animation_evaluate() {
    let mut anim = KeyframeAnimation::new(AnimatableProperty::PositionX);
    anim.add_keyframe(s(0.0), v(0.0));
    anim.add_keyframe(s(1.0), v(100.0));
    assert!((value_at(&anim.track, 0.5) - 50.0).abs() < 1.0);
}

#[test]
fn segments_of_a_three_keyframe_track() {
    let mut track: KeyframeTrack<u32> = KeyframeTrack::new();
    for t in [0.0, 1.0, 2.0] {
        track.add_keyframe(Keyframe::new(s(t), v(0.0)));
    }
    assert_eq!(track.segment_at(s(-1.0)), KeyframeSegment::At(0));
    assert_eq!(track.segment_at(s(0.0)), KeyframeSegment::At(0));
    assert_eq!(track.segment_at(s(0.5)), KeyframeSegment::Between(0, 1));
    assert_eq!(track.segment_at(s(1.0)), KeyframeSegment::Between(1, 2));
    assert_eq!(track.segment_at(s(1.5)), KeyframeSegment::Between(1, 2));
    assert_eq!(track.segment_at(s(2.0)), KeyframeSegment::At(2));
    assert_eq!(track.segment_at(s(9.0)), KeyframeSegment::At(2));
    let empty: KeyframeTrack<u32> = KeyframeTrack::new();
    assert_eq!(empty.segment_at(s(0.0)), KeyframeSegment::Empty);
}
