use editors_engine::project::interop::{
    export, export_edl, export_fcpxml, export_otio, format_timecode, format_timecode_seconds, ms_to_frames,
    InteropClip, InteropFormat, InteropTimeline,
};

fn clip(path: &str, src_in: i64, src_out: i64, start: i64, end: i64, name: &str) -> InteropClip {
    InteropClip {
        source_path: path.to_string(),
        source_in_ms: src_in,
        source_out_ms: src_out,
        timeline_start_ms: start,
        timeline_end_ms: end,
        track_index: 0,
        name: name.to_string(),
    }
}

fn sample_timeline() -> InteropTimeline {
    InteropTimeline {
        name: "Test Edit".into(),
        frame_rate_num: 24000,
        frame_rate_den: 1001,
        width: 1920,
        height: 1080,
        clips: vec![
            clip("/media/clip1.mp4", 0, 2000, 0, 2000, "Clip 1"),
            clip("/media/clip2.mp4", 500, 2500, 2000, 4000, "Clip 2"),
        ],
    }
}

#[test]
fn export_edl_has_title_and_events() {
    let tl = sample_timeline();
    let edl = export_edl(&tl);
    assert!(edl.contains("TITLE: Test Edit"));
    assert!(edl.contains("001  AX       V"));
    assert!(edl.contains("FROM CLIP NAME: Clip 1"));
    assert!(edl.contains("002  AX       V"));
}

#[test]
fn export_fcpxml_is_valid_xml() {
    let tl = sample_timeline();
    let xml = export_fcpxml(&tl);
    assert!(xml.starts_with("<?xml"));
    assert!(xml.contains("<fcpxml version=\"1.10\">"));
    assert!(xml.contains("<asset-clip"));
    assert!(xml.contains("</fcpxml>"));
}

#[test]
fn export_otio_is_valid_json() {
    let tl = sample_timeline();
    let json = export_otio(&tl);
    assert!(json.starts_with("{"));
    assert!(json.contains("\"OTIO_SCHEMA\": \"Timeline.1\""));
    let _: serde_json::Value = serde_json::from_str(&json).expect("OTIO output must be valid JSON");
}

#[test]
fn format_timecode_zero() {
    let tc = format_timecode(0, 24000, 1001);
    assert_eq!(tc, "00:00:00:00");
}

#[test]
fn format_timecode_one_second() {
    let tc = format_timecode(1000, 24, 1);
    assert_eq!(tc, "00:00:01:00");
}

#[test]
fn format_timecode_hours_and_negative() {
    assert_eq!(format_timecode(3_723_500, 25, 1), "01:02:03:13");
    assert_eq!(format_timecode(-1500, 24, 1), "00:00:-1:-12");
    assert_eq!(format_timecode(1001, 30000, 1001), "00:00:01:00");
}

#[test]
fn timecode_helpers() {
    assert_eq!(format_timecode_seconds(-250), "-250");
    assert_eq!(ms_to_frames(1000, 24000, 1001), 24);
    assert_eq!(ms_to_frames(-1000, 24, 1), -24);
    assert_eq!(ms_to_frames(5, 0, 0), 0);
    assert_eq!(ms_to_frames(5, 1, 0), i64::MAX);
}

#[test]
fn edl_exact_event_text() {
    let tl = InteropTimeline {
        name: "T".into(),
        frame_rate_num: 25,
        frame_rate_den: 1,
        width: 10,
        height: 10,
        clips: vec![clip("/a/b.mov", 0, 1000, 40, 1040, "B")],
    };
    assert_eq!(
        export_edl(&tl),
        "TITLE: T\nFCM: NON-DROP FRAME\n\n001  AX       V     C        00:00:00:00 00:00:01:00 00:00:00:01 00:00:01:01\nFROM CLIP NAME: B\nSOURCE: b.mov\n\n"
    );
}

#[test]
fn fcpxml_dedupes_assets_and_sorts_spine() {
    let tl = InteropTimeline {
        name: "S".into(),
        frame_rate_num: 30,
        frame_rate_den: 1,
        width: 640,
        height: 480,
        clips: vec![
            clip("/m/x.mp4", 0, 100, 500, 600, "late"),
            clip("/m/y.mp4", 0, 100, 0, 100, "early"),
            clip("/m/x.mp4", 10, 110, 200, 300, "middle"),
        ],
    };
    let xml = export_fcpxml(&tl);
    assert_eq!(xml.matches("<asset id=").count(), 2);
    assert!(xml.contains("<asset id=\"r2\" name=\"x.mp4\" src=\"/m/x.mp4\""));
    assert!(xml.contains("<asset id=\"r3\" name=\"y.mp4\" src=\"/m/y.mp4\""));
    assert!(xml.contains("name=\"FFVideoFormat640x480p30\" frameDuration=\"1/30s\""));
    let e = xml.find("name=\"early\" ref=\"r3\" offset=\"0s\" duration=\"100s\" start=\"0s\"").unwrap();
    let m = xml.find("name=\"middle\" ref=\"r2\" offset=\"200s\" duration=\"100s\" start=\"10s\"").unwrap();
    let l = xml.find("name=\"late\" ref=\"r2\" offset=\"500s\"").unwrap();
    assert!(e < m && m < l);
}

#[test]
fn export_dispatches_by_format() {
    let tl = sample_timeline();
    assert_eq!(export(&tl, InteropFormat::Edl), export_edl(&tl));
    assert_eq!(export(&tl, InteropFormat::Fcpxml), export_fcpxml(&tl));
    assert_eq!(export(&tl, InteropFormat::OpenTimelineIO), export_otio(&tl));
}

#[test]
fn otio_escapes_names_and_orders_clips() {
    let tl = InteropTimeline {
        name: "Quote \"q\"".into(),
        frame_rate_num: 24,
        frame_rate_den: 1,
        width: 1,
        height: 1,
        clips: vec![clip("/p/2.mp4", 1000, 2000, 50, 60, "second"), clip("/p/1.mp4", 0, 500, 0, 10, "first")],
    };
    let json = export_otio(&tl);
    let v: serde_json::Value = serde_json::from_str(&json).unwrap();
    assert_eq!(v["name"], "Quote \"q\"");
    let children = &v["tracks"]["children"][0]["children"];
    assert_eq!(children[0]["name"], "first");
    assert_eq!(children[1]["name"], "second");
    assert_eq!(children[1]["source_range"]["start_time"]["value"], 24);
    assert_eq!(children[1]["source_range"]["duration"]["value"], 24);
}
