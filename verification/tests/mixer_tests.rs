use editors_engine::effects::mixer_pro::{AudioMixerPro, AutomationLane, ChannelStrip, SubmixBus, VuMeter};

fn ms(v: f64) -> u64 {
    v.to_bits()
}

fn val(v: f32) -> u32 {
    v.to_bits()
}

#[test]
fn test_channel_strip_new() {
    let ch = ChannelStrip::new("Test");
    assert_eq!(ch.name, "Test");
    assert_eq!(f32::from_bits(ch.volume_db_bits), 0.0);
    assert!(!ch.muted);
}

#[test]
fn test_aux_send() {
    let mut ch = ChannelStrip::new("Test");
    ch.add_aux_send("reverb", val(-6.0), true);
    assert_eq!(ch.aux_sends.len(), 1);
    assert!(ch.aux_sends[0].pre_fader);
}

#[test]
fn test_submix() {
    let sub = SubmixBus::new("Music");
    assert_eq!(sub.name, "Music");
    assert_eq!(f32::from_bits(sub.volume_db_bits), 0.0);
}

#[test]
fn test_mixer_counts() {
    let mut mixer = AudioMixerPro::new();
    mixer.add_channel(ChannelStrip::new("Ch1"));
    mixer.add_channel(ChannelStrip::new("Ch2"));
    mixer.add_submix(SubmixBus::new("Sub1"));
    assert_eq!(mixer.channel_count(), 2);
    assert_eq!(mixer.submix_count(), 1);
}

#[test]
fn test_automation_sorted_insert() {
    let mut lane = AutomationLane::new("vol");
    lane.add_point(ms(1000.0), val(0.8));
    lane.add_point(ms(0.0), val(0.5));
    assert_eq!(f64::from_bits(lane.points[0].time_ms_bits), 0.0);
}

#[test]
fn test_get_automation_creates() {
    let mut ch = ChannelStrip::new("Test");
    ch.get_automation("volume");
    assert_eq!(ch.automation.len(), 1);
}

#[test]
fn automation_lanes_are_reused_and_solos_counted() {
    let mut ch = ChannelStrip::new("Test");
    ch.get_automation("pan").add_point(ms(5.0), val(1.0));
    ch.get_automation("volume");
    ch.get_automation("pan").add_point(ms(1.0), val(0.0));
    assert_eq!(ch.automation.len(), 2);
    assert_eq!(ch.automation[0].points.len(), 2);
    assert_eq!(f64::from_bits(ch.automation[0].points[0].time_ms_bits), 1.0);
    let mut mixer = AudioMixerPro::new();
    assert_eq!(mixer.solo_count(), 0);
    let mut a = ChannelStrip::new("a");
    a.solo = true;
    let b = ChannelStrip::new("b");
    let mut c = ChannelStrip::new("c");
    c.solo = true;
    let c_id = c.id.clone();
    mixer.add_channel(a);
    mixer.add_channel(b);
    mixer.add_channel(c.clone());
    assert_eq!(mixer.solo_count(), 2);
    c.solo = false;
    mixer.add_channel(c);
    assert_eq!(mixer.solo_count(), 1);
    assert_eq!(mixer.channel_count(), 3);
    assert!(mixer.channels.get(&c_id).is_some());
    assert_eq!(VuMeter::default(), VuMeter::new());
}
