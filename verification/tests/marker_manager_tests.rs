use editors_engine::effects::markers::{youtube_chapter_listing, Marker, MarkerColor, MarkerManager, MarkerType};

fn ms(v: f64) -> u64 {
    v.to_bits()
}

fn export_youtube(mgr: &MarkerManager) -> String {
    let entries: Vec<(u64, String)> = mgr
        .chapters()
        .iter()
        .map(|m| ((f64::from_bits(m.position_ms_bits) / 1000.0) as u64, m.name.clone()))
        .collect();
    youtube_chapter_listing(&entries)
}

#[test]
fn test_marker_new() {
    let m = Marker::new("Test", ms(5000.0), MarkerColor::Red);
    assert_eq!(m.name, "Test");
    assert_eq!(f64::from_bits(m.position_ms_bits), 5000.0);
    assert_eq!(m.color, MarkerColor::Red);
}

#[test]
fn test_chapter_marker() {
    let m = Marker::chapter("Intro", ms(0.0));
    assert_eq!(m.marker_type, MarkerType::Chapter);
    assert_eq!(m.color, MarkerColor::Orange);
}

#[test]
fn test_marker_manager_add() {
    let mut mgr = MarkerManager::new();
    mgr.add(Marker::new("A", ms(1000.0), MarkerColor::Blue));
    mgr.add(Marker::new("B", ms(3000.0), MarkerColor::Green));
    assert_eq!(mgr.count(), 2);
}

#[test]
fn test_marker_manager_sorted() {
    let mut mgr = MarkerManager::new();
    mgr.add(Marker::new("B", ms(3000.0), MarkerColor::Blue));
    mgr.add(Marker::new("A", ms(1000.0), MarkerColor::Red));
    assert_eq!(mgr.markers[0].name, "A");
}

#[test]
fn test_marker_manager_remove() {
    let mut mgr = MarkerManager::new();
    let m = Marker::new("Test", ms(1000.0), MarkerColor::Red);
    let id = m.id.clone();
    mgr.add(m);
    assert!(mgr.remove(&id).is_some());
    assert_eq!(mgr.count(), 0);
}

#[test]
fn test_next_after() {
    let mut mgr = MarkerManager::new();
    mgr.add(Marker::new("A", ms(1000.0), MarkerColor::Red));
    mgr.add(Marker::new("B", ms(3000.0), MarkerColor::Blue));
    let next = mgr.next_after(ms(1500.0));
    assert!(next.is_some());
    assert_eq!(next.unwrap().name, "B");
}

#[test]
fn test_prev_before() {
    let mut mgr = MarkerManager::new();
    mgr.add(Marker::new("A", ms(1000.0), MarkerColor::Red));
    mgr.add(Marker::new("B", ms(3000.0), MarkerColor::Blue));
    let prev = mgr.prev_before(ms(2500.0));
    assert!(prev.is_some());
    assert_eq!(prev.unwrap().name, "A");
}

#[test]
fn test_chapters() {
    let mut mgr = MarkerManager::new();
    mgr.add(Marker::chapter("Intro", ms(0.0)));
    mgr.add(Marker::new("Note", ms(1000.0), MarkerColor::Red));
    mgr.add(Marker::chapter("Main", ms(5000.0)));
    assert_eq!(mgr.chapters().len(), 2);
}

#[test]
fn test_export_youtube() {
    let mut mgr = MarkerManager::new();
    mgr.add(Marker::chapter("Intro", ms(0.0)));
    mgr.add(Marker::chapter("Main", ms(120000.0)));
    let output = export_youtube(&mgr);
    assert!(output.contains("0:00 Intro"));
    assert!(output.contains("2:00 Main"));
}

#[test]
fn test_by_color() {
    let mut mgr = MarkerManager::new();
    mgr.add(Marker::new("Red1", ms(1000.0), MarkerColor::Red));
    mgr.add(Marker::new("Blue1", ms(2000.0), MarkerColor::Blue));
    mgr.add(Marker::new("Red2", ms(3000.0), MarkerColor::Red));
    assert_eq!(mgr.by_color(MarkerColor::Red).len(), 2);
}

#[test]
fn test_by_type() {
    let mut mgr = MarkerManager::new();
    mgr.add(Marker::chapter("Ch1", ms(0.0)));
    mgr.add(Marker::new("Note", ms(1000.0), MarkerColor::Red));
    assert_eq!(mgr.by_type(MarkerType::Chapter).len(), 1);
}

#[test]
fn test_youtube_hours() {
    let mut mgr = MarkerManager::new();
    mgr.add(Marker::chapter("Long", ms(7200000.0)));
    let output = export_youtube(&mgr);
    assert!(output.contains("2:00:00"));
}

#[test]
fn test_empty_manager() {
    let mgr = MarkerManager::new();
    assert_eq!(mgr.count(), 0);
    assert!(mgr.next_after(ms(0.0)).is_none());
    assert!(mgr.prev_before(ms(0.0)).is_none());
    assert!(mgr.chapters().is_empty());
    assert_eq!(export_youtube(&mgr), "");
}

#[test]
fn markers_sort_stably_and_navigate() {
    let mut mgr = MarkerManager::new();
    mgr.add(Marker::new("late", ms(9000.0), MarkerColor::Gray));
    mgr.add(Marker::new("first", ms(2000.0), MarkerColor::Red));
    mgr.add(Marker::new("second", ms(2000.0), MarkerColor::Blue));
    mgr.add(Marker::new("neg", ms(-5.0), MarkerColor::Pink));
    let names: Vec<&str> = mgr.markers.iter().map(|m| m.name.as_str()).collect();
    assert_eq!(names, vec!["neg", "first", "second", "late"]);
    assert_eq!(mgr.next_after(ms(2000.0)).unwrap().name, "late");
    assert!(mgr.next_after(ms(9000.0)).is_none());
    assert_eq!(mgr.prev_before(ms(2000.0)).unwrap().name, "neg");
    assert_eq!(mgr.prev_before(ms(2000.5)).unwrap().name, "second");
    assert!(mgr.prev_before(ms(-5.0)).is_none());
    assert!(mgr.remove("missing").is_none());
    assert_eq!(mgr.count(), 4);
}

#[test]
fn chapter_listing_lines() {
    let entries = vec![(0u64, "Intro".to_string()), (65, "Part".to_string()), (3725, "Late".to_string())];
    assert_eq!(youtube_chapter_listing(&entries), "0:00 Intro\n1:05 Part\n1:02:05 Late");
    assert_eq!(youtube_chapter_listing(&vec![]), "");
}
