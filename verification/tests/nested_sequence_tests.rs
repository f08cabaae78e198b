use editors_engine::effects::nested_sequence::{NestedSequence, NestedSequenceManager, SubClip};

fn ms(v: f64) -> u64 {
    v.to_bits()
}

fn make_clip(offset: f64, duration: f64) -> SubClip {
    SubClip {
        id: format!("clip-{}-{}", offset, duration),
        source_path: "/test.mp4".into(),
        trim_in_ms_bits: ms(0.0),
        trim_out_ms_bits: ms(duration),
        offset_ms_bits: ms(offset),
        speed_bits: ms(1.0),
        volume_bits: 1.0f32.to_bits(),
        muted: false,
        effects: vec!["fx1".to_string()],
    }
}

#[test]
fn nested_sequence_new_and_add() {
    let mut seq = NestedSequence::new("Test Seq", 1920, 1080, ms(30.0));
    assert_eq!(seq.name, "Test Seq");
    assert!(seq.sub_clips.is_empty());
    seq.add_clip(make_clip(5000.0, 3000.0));
    seq.add_clip(make_clip(0.0, 5000.0));
    assert_eq!(f64::from_bits(seq.sub_clips[0].offset_ms_bits), 0.0);
    let id = seq.sub_clips[1].id.clone();
    assert!(seq.remove_clip(&id).is_some());
    assert!(seq.remove_clip(&id).is_none());
    assert_eq!(seq.sub_clips.len(), 1);
}

#[test]
fn flatten_copies_every_clip() {
    let mut seq = NestedSequence::new("Test", 1920, 1080, ms(30.0));
    seq.add_clip(make_clip(0.0, 5000.0));
    seq.add_clip(make_clip(5000.0, 3000.0));
    let flat = seq.flatten();
    assert_eq!(flat.len(), 2);
    assert_eq!(f64::from_bits(flat[1].timeline_offset_ms_bits), 5000.0);
    assert_eq!(flat[0].effects, vec!["fx1".to_string()]);
}

#[test]
fn manager_add_get_remove_flatten() {
    let mut mgr = NestedSequenceManager::new();
    let mut seq = NestedSequence::new("Test", 1920, 1080, ms(30.0));
    seq.add_clip(make_clip(0.0, 5000.0));
    let id = seq.id.clone();
    mgr.add(seq);
    assert!(mgr.get(&id).is_some());
    let flat = mgr.flatten_all();
    assert_eq!(flat.len(), 1);
    assert_eq!(flat.get(&id).unwrap().len(), 1);
    mgr.get_mut(&id).unwrap().name = "Renamed".into();
    assert_eq!(mgr.list()[0].name, "Renamed");
    assert!(mgr.remove(&id).is_some());
    assert!(mgr.get(&id).is_none());
}
