use editors_engine::effects::macro_system::{ActionType, Macro, MacroAction, MacroPlayer, MacroRecorder, RecorderState};
use editors_engine::keyed::KeyedStore;

fn ms(v: f64) -> u64 {
    v.to_bits()
}

fn tick<'a>(player: &mut MacroPlayer, delta_ms: f64, m: &'a Macro) -> Vec<&'a MacroAction> {
    let time = f64::from_bits(player.current_time_ms_bits) + delta_ms * f64::from_bits(m.playback_speed_bits);
    player.tick_to(time.to_bits(), m)
}

fn record(rec: &mut MacroRecorder, action_type: ActionType, target: &str, params: KeyedStore<u64>) {
    let elapsed = match &rec.current_macro {
        Some(m) => f64::from_bits(m.total_duration_ms()) + 100.0,
        None => 0.0,
    };
    rec.record_action_at(action_type, target, params, elapsed.to_bits());
}

#[test]
fn test_macro_new() {
    let m = Macro::new("Test Macro");
    assert_eq!(m.name, "Test Macro");
    assert!(m.actions.is_empty());
}

#[test]
fn test_macro_record() {
    let mut m = Macro::new("Test");
    m.record(MacroAction::new(ActionType::SetParameter, "effect1", ms(100.0)));
    assert_eq!(m.action_count(), 1);
}

#[test]
fn test_macro_remove_action() {
    let mut m = Macro::new("Test");
    m.record(MacroAction::new(ActionType::SetParameter, "e1", ms(0.0)));
    m.record(MacroAction::new(ActionType::SetParameter, "e2", ms(100.0)));
    assert!(m.remove_action(0).is_some());
    assert_eq!(m.action_count(), 1);
}

#[test]
fn test_macro_insert_action() {
    let mut m = Macro::new("Test");
    m.record(MacroAction::new(ActionType::SetParameter, "e1", ms(0.0)));
    m.record(MacroAction::new(ActionType::SetParameter, "e2", ms(200.0)));
    m.insert_action(1, MacroAction::new(ActionType::SplitClip, "clip1", ms(100.0)));
    assert_eq!(m.action_count(), 3);
}

#[test]
fn test_macro_duration() {
    let mut m = Macro::new("Test");
    m.record(MacroAction::new(ActionType::SetParameter, "e1", ms(0.0)));
    m.record(MacroAction::new(ActionType::SetParameter, "e2", ms(500.0)));
    assert_eq!(f64::from_bits(m.total_duration_ms()), 500.0);
}

#[test]
fn test_action_with_params() {
    let action = MacroAction::new(ActionType::SetParameter, "effect1", ms(100.0))
        .with_param("intensity", ms(0.75))
        .with_description("Set intensity");
    assert_eq!(action.parameters.len(), 1);
    assert_eq!(action.description, "Set intensity");
}

#[test]
fn test_recorder_start_stop() {
    let mut rec = MacroRecorder::new();
    rec.start_recording("Test");
    assert!(rec.is_recording());
    let result = rec.stop_recording();
    assert!(result.is_some());
    assert!(!rec.is_recording());
}

#[test]
fn test_recorder_record_action() {
    let mut rec = MacroRecorder::new();
    rec.start_recording("Test");
    let mut params = KeyedStore::new();
    params.insert("val", ms(0.5));
    record(&mut rec, ActionType::SetParameter, "e1", params);
    let m = rec.stop_recording().unwrap();
    assert_eq!(m.action_count(), 1);
}

#[test]
fn test_recorder_pause_resume() {
    let mut rec = MacroRecorder::new();
    rec.start_recording("Test");
    rec.pause();
    assert_eq!(rec.state, RecorderState::Paused);
    record(&mut rec, ActionType::SetParameter, "e1", KeyedStore::new());
    rec.resume();
    record(&mut rec, ActionType::SetParameter, "e2", KeyedStore::new());
    let m = rec.stop_recording().unwrap();
    assert_eq!(m.action_count(), 1);
}

#[test]
fn test_player_tick() {
    let mut m = Macro::new("Test");
    m.record(MacroAction::new(ActionType::SetParameter, "e1", ms(0.0)));
    m.record(MacroAction::new(ActionType::SetParameter, "e2", ms(200.0)));
    let mut player = MacroPlayer::new();
    player.start();
    let fired = tick(&mut player, 250.0, &m);
    assert_eq!(fired.len(), 2);
}

#[test]
fn test_player_sequential() {
    let mut m = Macro::new("Test");
    m.record(MacroAction::new(ActionType::SetParameter, "e1", ms(0.0)));
    m.record(MacroAction::new(ActionType::SetParameter, "e2", ms(200.0)));
    let mut player = MacroPlayer::new();
    player.start();
    let f1 = tick(&mut player, 100.0, &m);
    assert_eq!(f1.len(), 1);
    let f2 = tick(&mut player, 150.0, &m);
    assert_eq!(f2.len(), 1);
}

#[test]
fn test_player_loops() {
    let mut m = Macro::new("Test");
    m.loop_count = 2;
    m.record(MacroAction::new(ActionType::SetParameter, "e1", ms(0.0)));
    let mut player = MacroPlayer::new();
    player.start();
    tick(&mut player, 100.0, &m);
    tick(&mut player, 100.0, &m);
    assert_eq!(player.completed_loops, 2);
    assert!(!player.is_playing);
}

#[test]
fn test_player_speed() {
    let mut m = Macro::new("Test");
    m.playback_speed_bits = ms(2.0);
    m.record(MacroAction::new(ActionType::SetParameter, "e1", ms(100.0)));
    let mut player = MacroPlayer::new();
    player.start();
    let fired = tick(&mut player, 60.0, &m);
    assert_eq!(fired.len(), 1);
}

#[test]
fn action_descriptions_and_edits() {
    let a = MacroAction::new(ActionType::SwitchAngle, "g", ms(0.0));
    assert_eq!(a.description, "SwitchAngle");
    let c = MacroAction::new(ActionType::Custom("say \"hi\"".to_string()), "g", ms(0.0));
    assert_eq!(c.description, "Custom(\"say \\\"hi\\\"\")");
    let a = a.with_param("x", ms(1.0)).with_param("x", ms(2.0));
    assert_eq!(a.parameters.len(), 1);
    assert_eq!(f64::from_bits(*a.parameters.get("x").unwrap()), 2.0);
    let mut m = Macro::new("M");
    assert_eq!(f64::from_bits(m.total_duration_ms()), 0.0);
    assert!(m.remove_action(0).is_none());
    m.insert_action(3, MacroAction::new(ActionType::AddMask, "c", ms(1.0)));
    assert_eq!(m.action_count(), 0);
    m.insert_action(0, MacroAction::new(ActionType::AddMask, "c", ms(1.0)));
    assert_eq!(m.action_count(), 1);
}

#[test]
fn player_stays_stopped_and_loops_forever() {
    let mut m = Macro::new("Test");
    m.record(MacroAction::new(ActionType::SetPan, "t", ms(50.0)));
    let mut player = MacroPlayer::new();
    assert!(tick(&mut player, 100.0, &m).is_empty());
    assert_eq!(player.current_time_ms_bits, 0);
    m.is_looping = true;
    player.start();
    for _ in 0..5 {
        assert_eq!(tick(&mut player, 60.0, &m).len(), 1);
        assert!(player.is_playing);
        assert_eq!(player.next_action_idx, 0);
    }
    assert_eq!(player.completed_loops, 5);
    player.stop();
    assert!(tick(&mut player, 60.0, &m).is_empty());
    let mut rec = MacroRecorder::new();
    record(&mut rec, ActionType::SetPan, "t", KeyedStore::new());
    assert!(rec.current_macro.is_none());
    rec.start_recording("R");
    record(&mut rec, ActionType::SetPan, "t", KeyedStore::new());
    record(&mut rec, ActionType::SetPan, "t", KeyedStore::new());
    let made = rec.stop_recording().unwrap();
    assert_eq!(f64::from_bits(made.actions[1].timestamp_ms_bits), 200.0);
    assert_eq!(rec.state, RecorderState::Idle);
}
