use editors_engine::effects::workspace::{
    PanelPosition, UserPreferences, WorkspaceLayout, WorkspacePanel, DEFAULT_FPS_BITS,
};

fn panel(id: &str, name: &str, position: PanelPosition, w: f32, h: f32) -> WorkspacePanel {
    WorkspacePanel {
        panel_id: id.into(),
        panel_name: name.into(),
        position,
        width_ratio_bits: w.to_bits(),
        height_ratio_bits: h.to_bits(),
        is_collapsed: false,
        tab_index: 0,
    }
}

#[test]
fn test_workspace_layout_new() {
    let layout = WorkspaceLayout::new("Custom");
    assert_eq!(layout.name, "Custom");
    assert!(layout.panels.is_empty());
}

#[test]
fn test_workspace_add_panel() {
    let mut layout = WorkspaceLayout::new("Test");
    layout.add_panel(panel("test", "Test", PanelPosition::Left, 0.25, 1.0));
    assert_eq!(layout.panels.len(), 1);
}

#[test]
fn test_workspace_panels_at() {
    let mut layout = WorkspaceLayout::new("Test");
    layout.add_panel(panel("left1", "L1", PanelPosition::Left, 0.25, 1.0));
    layout.add_panel(panel("right1", "R1", PanelPosition::Right, 0.25, 1.0));
    assert_eq!(layout.panels_at(PanelPosition::Left).len(), 1);
}

#[test]
fn test_builtin_edit_layout() {
    let layout = WorkspaceLayout::edit_layout();
    assert!(layout.is_builtin);
    assert!(layout.panels.len() >= 4);
}

#[test]
fn test_builtin_color_layout() {
    let layout = WorkspaceLayout::color_layout();
    assert!(layout.is_builtin);
}

#[test]
fn test_builtin_audio_layout() {
    let layout = WorkspaceLayout::audio_layout();
    assert!(layout.is_builtin);
}

#[test]
fn test_user_preferences_default() {
    let prefs = UserPreferences::default();
    assert_eq!(prefs.theme, "dark");
    assert_eq!(prefs.max_undo_levels, 100);
    assert!(prefs.gpu_acceleration);
}

#[test]
fn test_default_key_bindings() {
    let prefs = UserPreferences::default();
    assert!(prefs.key_bindings.len() >= 10);
    let save = prefs.find_binding("save");
    assert!(save.is_some());
    assert_eq!(save.unwrap().key, "Ctrl+S");
}

#[test]
fn test_set_binding_existing() {
    let mut prefs = UserPreferences::default();
    prefs.set_binding("save", "Ctrl+Shift+S");
    assert_eq!(prefs.find_binding("save").unwrap().key, "Ctrl+Shift+S");
}

#[test]
fn test_set_binding_new() {
    let mut prefs = UserPreferences::default();
    let count = prefs.key_bindings.len();
    prefs.set_binding("custom_action", "F12");
    assert_eq!(prefs.key_bindings.len(), count + 1);
}

#[test]
fn test_get_panel_by_id() {
    let layout = WorkspaceLayout::edit_layout();
    assert!(layout.get_panel("inspector").is_some());
    assert!(layout.get_panel("nonexistent").is_none());
}

#[test]
fn new_binding_is_global_and_found() {
    let mut prefs = UserPreferences::default();
    prefs.set_binding("custom_action", "F12");
    let b = prefs.find_binding("custom_action").unwrap();
    assert_eq!(b.key, "F12");
    assert_eq!(b.context, "global");
    assert_eq!(b.description, "");
    assert_eq!(prefs.find_binding("undo").unwrap().key, "Ctrl+Z");
    assert!(prefs.find_binding("SAVE").is_none());
}

#[test]
fn preferences_defaults_in_full() {
    let prefs = UserPreferences::default();
    assert_eq!(prefs.language, "en");
    assert_eq!(prefs.auto_save_interval_sec, 120);
    assert_eq!(f64::from_bits(prefs.default_fps_bits), 30.0);
    assert_eq!(DEFAULT_FPS_BITS, 30.0f64.to_bits());
    assert_eq!(prefs.default_resolution, (1920, 1080));
    assert_eq!(prefs.preview_quality, "medium");
    assert!(prefs.show_waveform);
    assert!(!prefs.show_scopes);
    assert_eq!(prefs.proxy_mode, "auto");
    assert_eq!(prefs.key_bindings.len(), 12);
    assert_eq!(prefs.key_bindings[11].action, "export");
}

#[test]
fn builtin_layout_ratios() {
    let ratio = |b: u32| f32::from_bits(b);
    let edit = WorkspaceLayout::edit_layout();
    assert_eq!(edit.id, "builtin_edit");
    let names: Vec<&str> = edit.panels.iter().map(|p| p.panel_id.as_str()).collect();
    assert_eq!(names, vec!["inspector", "timeline", "preview", "effects"]);
    assert_eq!(ratio(edit.panels[0].width_ratio_bits), 0.25);
    assert_eq!(ratio(edit.panels[1].height_ratio_bits), 0.35);
    assert_eq!(ratio(edit.panels[2].height_ratio_bits), 0.65);
    let color = WorkspaceLayout::color_layout();
    assert_eq!(ratio(color.panels[0].width_ratio_bits), 0.3);
    assert_eq!(ratio(color.panels[2].width_ratio_bits), 0.45);
    let audio = WorkspaceLayout::audio_layout();
    assert_eq!(audio.panels.len(), 3);
    assert_eq!(ratio(audio.panels[1].width_ratio_bits), 0.7);
    assert_eq!(audio.panels_at(PanelPosition::Bottom)[0].panel_name, "Timeline");
    assert!(audio.panels_at(PanelPosition::Top).is_empty());
    assert_eq!(edit.get_panel("effects").unwrap().position, PanelPosition::Left);
}
