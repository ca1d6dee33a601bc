use tideline::notifications::{self as notif, notification_for, NotifConfig};
use tideline::rpc::AudioSource;
use tideline::tones::{self, apply_settings_event, debounce_allows, tone_for_event, Tone, TonesConfig, TonesEventValue};

#[test]
fn default_is_enabled() {
    assert!(NotifConfig::default().enabled);
}

#[test]
fn notification_titles() {
    let sources = vec![AudioSource { name: "mic".to_string(), description: "USB Mic".to_string() }];
    let (t, b) = notification_for(true, "ptt", Some("mic"), Some(&sources)).unwrap();
    assert_eq!(t, "USB Mic — PTT mode");
    assert_eq!(b, "Hold the bind to transmit");
    let (t, _) = notification_for(true, "open", Some("other"), Some(&sources)).unwrap();
    assert_eq!(t, "other — Open mic");
    let (t, _) = notification_for(true, "open", None, None).unwrap();
    assert_eq!(t, "Open mic");
    assert!(notification_for(false, "open", None, None).is_none());
    assert!(notification_for(true, "loud", None, None).is_none());
}

#[test]
fn notif_settings_event() {
    let c = notif::apply_settings_event(NotifConfig { enabled: true }, "enabled", Some(false));
    assert!(!c.enabled);
    let c = notif::apply_settings_event(NotifConfig { enabled: true }, "other", Some(false));
    assert!(c.enabled);
    assert_eq!(notif::check_section("x").unwrap_err(), "unknown section_id x");
}

#[test]
fn tones_default_is_enabled_full_volume() {
    let c = TonesConfig::default();
    assert!(c.enabled);
    assert_eq!(c.volume, 100);
    assert_eq!(c.clamped_volume(), 100);
}

#[test]
fn volume_clamps_above_100() {
    let c = TonesConfig { enabled: true, volume: 250 };
    assert_eq!(c.clamped_volume(), 100);
    let c = apply_settings_event(TonesConfig::default(), "volume", TonesEventValue { flag: None, number: Some(42) });
    assert_eq!(c.volume, 42);
    let c = apply_settings_event(TonesConfig::default(), "volume", TonesEventValue { flag: None, number: Some(500) });
    assert_eq!(c.volume, 100);
    let c = apply_settings_event(TonesConfig::default(), "enabled", TonesEventValue { flag: Some(false), number: None });
    assert!(!c.enabled);
}

#[test]
fn tone_choice_and_debounce() {
    assert_eq!(tone_for_event("tideline-ptt:state_changed", true, Some("up")), Some(Tone::Up));
    assert_eq!(tone_for_event("tideline-ptt:state_changed", true, Some("down")), Some(Tone::Down));
    assert_eq!(tone_for_event("tideline-ptt:state_changed", false, Some("up")), None);
    assert_eq!(tone_for_event("other", true, Some("up")), None);
    assert_eq!(tone_for_event("tideline-ptt:state_changed", true, None), None);
    assert!(debounce_allows(1040, 1000));
    assert!(!debounce_allows(1039, 1000));
    assert!(!debounce_allows(5, 1000));
    assert_eq!(tones::check_section("main"), Ok(()));
    assert!(tones::now_millis() > 0);
}

fn volume_scalar(c: &TonesConfig) -> f32 {
    (c.clamped_volume() as f32 / 100.0).clamp(0.0, 1.0)
}

#[test]
fn default_is_enabled_full_volume() {
    let c = TonesConfig::default();
    assert!(c.enabled);
    assert_eq!(c.volume, 100);
    assert_eq!(volume_scalar(&c), 1.0);
}

#[test]
fn volume_scalar_clamps_above_100() {
    let c = TonesConfig { enabled: true, volume: 250 };
    assert_eq!(volume_scalar(&c), 1.0);
    assert_eq!(c.clamped_volume(), 100);
}
