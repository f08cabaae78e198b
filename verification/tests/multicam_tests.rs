use editors_engine::effects::multicam::{AngleTransition, CameraAngle, CutPoint, MulticamGroup, MulticamManager};

fn ms(v: f64) -> u64 {
    v.to_bits()
}

#[test]
fn test_camera_angle_new() {
    let a = CameraAngle::new("Cam 1", "/cam1.mp4");
    assert_eq!(a.name, "Cam 1");
    assert_eq!(f64::from_bits(a.offset_ms_bits), 0.0);
}

#[test]
fn test_multicam_group_new() {
    let g = MulticamGroup::new("Event");
    assert_eq!(g.angles.len(), 0);
    assert_eq!(g.cut_count(), 0);
}

#[test]
fn test_add_first_angle_is_reference() {
    let mut g = MulticamGroup::new("Event");
    let a = CameraAngle::new("Cam 1", "/cam1.mp4");
    let a_id = a.id.clone();
    g.add_angle(a);
    assert!(g.angles[0].is_reference);
    assert_eq!(g.active_angle_id, a_id);
}

#[test]
fn test_add_second_angle() {
    let mut g = MulticamGroup::new("Event");
    g.add_angle(CameraAngle::new("Cam 1", "/cam1.mp4"));
    g.add_angle(CameraAngle::new("Cam 2", "/cam2.mp4"));
    assert_eq!(g.angle_count(), 2);
    assert!(!g.angles[1].is_reference);
}

#[test]
fn test_set_reference() {
    let mut g = MulticamGroup::new("Event");
    g.add_angle(CameraAngle::new("Cam 1", "/cam1.mp4"));
    g.add_angle(CameraAngle::new("Cam 2", "/cam2.mp4"));
    let id2 = g.angles[1].id.clone();
    g.set_reference(&id2);
    assert!(g.angles[1].is_reference);
    assert!(!g.angles[0].is_reference);
}

#[test]
fn test_switch_angle() {
    let mut g = MulticamGroup::new("Event");
    g.add_angle(CameraAngle::new("Cam 1", "/cam1.mp4"));
    g.add_angle(CameraAngle::new("Cam 2", "/cam2.mp4"));
    let id2 = g.angles[1].id.clone();
    g.switch_angle(ms(5000.0), &id2);
    assert_eq!(g.cut_count(), 1);
}

#[test]
fn test_angle_at_time() {
    let mut g = MulticamGroup::new("Event");
    let a1 = CameraAngle::new("Cam 1", "/cam1.mp4");
    let a1_id = a1.id.clone();
    g.add_angle(a1);
    let a2 = CameraAngle::new("Cam 2", "/cam2.mp4");
    let a2_id = a2.id.clone();
    g.add_angle(a2);
    g.switch_angle(ms(5000.0), &a2_id);
    assert_eq!(g.angle_at_time(ms(2000.0)).unwrap().id, a1_id);
    assert_eq!(g.angle_at_time(ms(8000.0)).unwrap().id, a2_id);
}

#[test]
fn test_cut_point_with_transition() {
    let cut = CutPoint::new(ms(5000.0), "a1", "a2")
        .with_transition(AngleTransition::Dissolve { duration_ms_bits: ms(500.0) });
    match cut.transition {
        AngleTransition::Dissolve { duration_ms_bits } => assert_eq!(f64::from_bits(duration_ms_bits), 500.0),
        _ => panic!("Expected dissolve"),
    }
}

#[test]
fn test_remove_cut_point() {
    let mut g = MulticamGroup::new("Event");
    g.add_angle(CameraAngle::new("Cam 1", "/cam1.mp4"));
    g.add_angle(CameraAngle::new("Cam 2", "/cam2.mp4"));
    let id2 = g.angles[1].id.clone();
    g.switch_angle(ms(5000.0), &id2);
    let cut_id = g.cut_points[0].id.clone();
    assert!(g.remove_cut_point(&cut_id).is_some());
    assert_eq!(g.cut_count(), 0);
}

#[test]
fn test_reference_angle() {
    let mut g = MulticamGroup::new("Event");
    g.add_angle(CameraAngle::new("Cam 1", "/cam1.mp4"));
    assert!(g.reference_angle().is_some());
    assert!(g.reference_angle().unwrap().is_reference);
}

#[test]
fn test_manager() {
    let mut mgr = MulticamManager::new();
    let g = MulticamGroup::new("Event");
    let id = g.id.clone();
    mgr.add(g);
    assert!(mgr.get(&id).is_some());
    assert_eq!(mgr.list().len(), 1);
}

#[test]
fn test_wipe_transitions() {
    let cut = CutPoint::new(ms(5000.0), "a1", "a2")
        .with_transition(AngleTransition::WipeLeft { duration_ms_bits: ms(300.0) });
    match cut.transition {
        AngleTransition::WipeLeft { duration_ms_bits } => assert_eq!(f64::from_bits(duration_ms_bits), 300.0),
        _ => panic!(),
    }
}

#[test]
fn test_cut_points_sorted() {
    let mut g = MulticamGroup::new("Event");
    g.add_angle(CameraAngle::new("Cam 1", "/cam1.mp4"));
    g.add_angle(CameraAngle::new("Cam 2", "/cam2.mp4"));
    let a1_id = g.angles[0].id.clone();
    let a2_id = g.angles[1].id.clone();
    g.add_cut_point(CutPoint::new(ms(10000.0), &a1_id, &a2_id));
    g.add_cut_point(CutPoint::new(ms(5000.0), &a1_id, &a2_id));
    assert_eq!(f64::from_bits(g.cut_points[0].time_ms_bits), 5000.0);
}

#[test]
fn test_angle_transition_default() {
    assert!(matches!(AngleTransition::default(), AngleTransition::Cut));
}

#[test]
fn manager_replaces_removes_and_edits() {
    let mut mgr = MulticamManager::new();
    let g = MulticamGroup::new("First");
    let id = g.id.clone();
    let mut again = g.clone();
    again.name = "Renamed".to_string();
    mgr.add(g);
    mgr.add(MulticamGroup::new("Other"));
    mgr.add(again);
    assert_eq!(mgr.list().len(), 2);
    assert_eq!(mgr.get(&id).unwrap().name, "Renamed");
    assert_eq!(mgr.list()[0].name, "Renamed");
    mgr.get_mut(&id).unwrap().name = "Edited".to_string();
    assert_eq!(mgr.get(&id).unwrap().name, "Edited");
    assert!(mgr.get_mut("missing").is_none());
    assert_eq!(mgr.remove(&id).unwrap().name, "Edited");
    assert!(mgr.get(&id).is_none());
    assert!(mgr.remove(&id).is_none());
    assert_eq!(mgr.list().len(), 1);
}

#[test]
fn angle_before_any_cut_and_unknown_targets() {
    let mut g = MulticamGroup::new("Event");
    assert!(g.angle_at_time(ms(0.0)).is_none());
    g.switch_angle(ms(100.0), "nowhere");
    assert_eq!(g.cut_count(), 0);
    g.add_angle(CameraAngle::new("Cam 1", "/cam1.mp4"));
    let a1 = g.angles[0].id.clone();
    g.switch_angle(ms(1000.0), "ghost");
    assert_eq!(g.cut_points[0].from_angle_id, a1);
    assert!(g.angle_at_time(ms(1000.0)).is_none());
    assert_eq!(g.angle_at_time(ms(999.0)).unwrap().id, a1);
    g.set_reference("none");
    assert!(g.reference_angle().is_none());
}
