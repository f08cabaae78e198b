use editors_engine::effects::preset::{Preset, PresetManager, PresetType};

fn bits(x: f64) -> u64 {
    x.to_bits()
}

#[test]
fn test_preset_new() {
    let p = Preset::new("Test", PresetType::ColorGrade);
    assert_eq!(p.name, "Test");
    assert!(!p.is_builtin);
    assert!(!p.is_favorite);
}

#[test]
fn test_preset_params() {
    let mut p = Preset::new("Test", PresetType::Effect);
    p.set_param("intensity", bits(0.75));
    assert_eq!(p.get_param("intensity").map(f64::from_bits), Some(0.75));
    assert_eq!(p.get_param("missing"), None);
}

#[test]
fn test_preset_toggle_favorite() {
    let mut p = Preset::new("Test", PresetType::ColorGrade);
    p.toggle_favorite();
    assert!(p.is_favorite);
    p.toggle_favorite();
    assert!(!p.is_favorite);
}

#[test]
fn test_preset_manager_add() {
    let mut mgr = PresetManager::new();
    mgr.add(Preset::new("Test", PresetType::ColorGrade));
    assert_eq!(mgr.count(), 1);
}

#[test]
fn test_preset_manager_by_type() {
    let mut mgr = PresetManager::new();
    mgr.add(Preset::new("CG1", PresetType::ColorGrade));
    mgr.add(Preset::new("FX1", PresetType::Effect));
    assert_eq!(mgr.by_type(PresetType::ColorGrade).len(), 1);
}

#[test]
fn test_preset_manager_favorites() {
    let mut mgr = PresetManager::new();
    let mut p = Preset::new("Fav", PresetType::ColorGrade);
    p.is_favorite = true;
    mgr.add(p);
    mgr.add(Preset::new("NotFav", PresetType::Effect));
    assert_eq!(mgr.favorites().len(), 1);
}

#[test]
fn test_preset_manager_search() {
    let mut mgr = PresetManager::new();
    let mut p = Preset::new("Cinematic Look", PresetType::ColorGrade);
    p.tags.push("cinematic".to_string());
    mgr.add(p);
    assert_eq!(mgr.search("cinematic").len(), 1);
    assert_eq!(mgr.search("missing").len(), 0);
}

#[test]
fn test_preset_manager_remove() {
    let mut mgr = PresetManager::new();
    let p = Preset::new("Test", PresetType::ColorGrade);
    let id = p.id.clone();
    mgr.add(p);
    assert!(mgr.remove(&id).is_some());
    assert_eq!(mgr.count(), 0);
}

#[test]
fn test_preset_by_category() {
    let mut mgr = PresetManager::new();
    let mut p = Preset::new("Test", PresetType::ColorGrade);
    p.category = "cinematic".to_string();
    mgr.add(p);
    assert_eq!(mgr.by_category("cinematic").len(), 1);
}

#[test]
fn preset_defaults_and_param_replacement() {
    let mut p = Preset::new("Grade", PresetType::ColorGrade);
    assert_eq!(p.category, "Custom");
    assert_eq!(p.author, "User");
    assert_eq!(p.id.len(), 36);
    assert_eq!(p.created_at_ms, p.modified_at_ms);
    p.set_param("lift_r", bits(-0.02));
    p.set_param("gain_r", bits(0.06));
    p.set_param("lift_r", bits(0.01));
    assert_eq!(p.parameters.len(), 2);
    assert_eq!(p.get_param("lift_r").map(f64::from_bits), Some(0.01));
    assert_eq!(p.get_param("gain_r").map(f64::from_bits), Some(0.06));
}

#[test]
fn manager_replaces_same_id_and_searches_each_field() {
    let mut mgr = PresetManager::new();
    let mut a = Preset::new("Soft Pastel", PresetType::ColorGrade);
    a.description = "Gentle WASHED colours".to_string();
    let id = a.id.clone();
    mgr.add(a);
    let mut b = Preset::new("Replacement", PresetType::Audio);
    b.id = id.clone();
    mgr.add(b);
    assert_eq!(mgr.count(), 1);
    assert_eq!(mgr.get(&id).unwrap().name, "Replacement");
    assert!(mgr.get("nope").is_none());

    let mut c = Preset::new("Night", PresetType::Grain);
    c.tags.push("Film".to_string());
    c.description = "washed out".to_string();
    mgr.add(c);
    assert_eq!(mgr.search("FILM").len(), 1);
    assert_eq!(mgr.search("washed").len(), 1);
    assert_eq!(mgr.search("").len(), 2);
    assert_eq!(mgr.search("replace").len(), 1);

    if let Some(p) = mgr.get_mut(&id) {
        p.toggle_favorite();
    }
    assert_eq!(mgr.favorites().len(), 1);
    assert!(mgr.remove("nope").is_none());
    assert_eq!(mgr.count(), 2);
}

#[test]
fn test_builtin_presets() {
    let mut mgr = PresetManager::new();
    mgr.load_builtin_presets();
    assert!(mgr.count() >= 4);
    assert!(mgr.by_type(PresetType::ColorGrade).len() >= 4);
}

#[test]
fn builtin_grades_carry_their_parameters() {
    let mut mgr = PresetManager::new();
    mgr.load_builtin_presets();
    assert_eq!(mgr.count(), 4);
    let soft = mgr.by_category("soft");
    assert_eq!(soft.len(), 1);
    assert_eq!(soft[0].name, "Soft Pastel");
    assert!(soft[0].is_builtin);
    assert_eq!(soft[0].get_param("lift_b").map(f64::from_bits), Some(0.06));
    let bw = mgr.by_category("bw");
    assert_eq!(bw[0].parameters.len(), 3);
    assert_eq!(bw[0].get_param("contrast").map(f64::from_bits), Some(1.5));
}
