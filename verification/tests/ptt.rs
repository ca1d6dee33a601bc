use tideline::binding::{Binding, Modifier};
use tideline::keys::{key_to_binding, key_to_binding_key, key_to_mouse_token, modifier_for_key};
use tideline::ptt_config::{mode_from_wire, mode_wire, notify_title, play_tone, PluginConfig, PttCore};
use tideline::ptt_events::{
    decode_keybind, decode_ptt_event, target_sources, KeyOp, PttCommand, PttEventParams, PttEventValue,
};
use tideline::ptt_state::{hold_press, hold_release, toggle_mode, Mode, PerSourceState};
use tideline::ptt_ui::{
    error_banner,
    banner_action, heading_text, section_layout, shows_binding_captures, status_pill, CaptureMethod, SectionPart,
};
use tideline::strmap::StrMap;

fn rt(s: &str) -> String {
    Binding::parse(s).unwrap().format()
}

#[test]
fn keyboard_plain() {
    assert_eq!(rt("F12"), "F12");
}

#[test]
fn keyboard_one_mod() {
    assert_eq!(rt("Ctrl+F12"), "Ctrl+F12");
}

#[test]
fn keyboard_three_mods() {
    assert_eq!(rt("Ctrl+Shift+Alt+F12"), "Ctrl+Shift+Alt+F12");
}

#[test]
fn keyboard_named() {
    assert_eq!(rt("ScrollLock"), "ScrollLock");
}

#[test]
fn mouse_plain() {
    assert_eq!(rt("Mouse5"), "Mouse5");
}

#[test]
fn mouse_with_mod() {
    assert_eq!(rt("Ctrl+Mouse5"), "Ctrl+Mouse5");
}

#[test]
fn mod_order_normalized() {
    assert_eq!(rt("Shift+Ctrl+F1"), "Ctrl+Shift+F1");
}

#[test]
fn invalid_returns_err() {
    assert!(Binding::parse("").is_err());
    assert!(Binding::parse("Bogus+F12").is_err());
    assert!(Binding::parse("Ctrl+").is_err());
}

#[test]
fn binding_parse_error_messages() {
    assert_eq!(Binding::parse("").unwrap_err(), "empty binding");
    assert!(Binding::parse("Bogus+F12").unwrap_err().contains("Bogus"));
}

#[test]
fn binding_aliases_are_canonical() {
    assert_eq!(rt("Meta+F12"), "Super+F12");
    assert!(Binding::parse("meta+F12").is_err());
    let b = Binding::parse("Win+Shift+Mouse5").unwrap();
    assert_eq!(
        b,
        Binding::Mouse { mods: vec![Modifier::Shift, Modifier::Super], button: "Mouse5".to_string() }
    );
}

#[test]
fn binding_format_then_parse_gives_back_binding() {
    for s in ["F1", "Ctrl+Alt+Delete", "Shift+Mouse4", "Super+Space"] {
        let b = Binding::parse(s).unwrap();
        assert_eq!(Binding::parse(&b.format()).unwrap(), b);
    }
}

const SRC: &str = "alsa_input.test";

#[test]
fn open_to_ptt_mutes() {
    let mut s = PerSourceState { mode: Mode::Open, hold_active: false };
    let e = toggle_mode(&mut s, SRC);
    assert_eq!(s.mode, Mode::Ptt);
    assert!(!s.hold_active);
    assert_eq!(e.source_name, SRC);
    assert_eq!(e.set_muted, Some(true));
    assert_eq!(e.mode_changed, Some(Mode::Ptt));
    assert_eq!(e.transmit_changed, Some(false));
}

#[test]
fn ptt_to_open_unmutes() {
    let mut s = PerSourceState { mode: Mode::Ptt, hold_active: false };
    let e = toggle_mode(&mut s, SRC);
    assert_eq!(s.mode, Mode::Open);
    assert_eq!(e.source_name, SRC);
    assert_eq!(e.set_muted, Some(false));
    assert_eq!(e.mode_changed, Some(Mode::Open));
    assert_eq!(e.transmit_changed, Some(true));
}

#[test]
fn hold_noop_in_open() {
    let mut s = PerSourceState { mode: Mode::Open, hold_active: false };
    let e_press = hold_press(&mut s, SRC);
    let e_release = hold_release(&mut s, SRC);
    assert_eq!(e_press.set_muted, None);
    assert_eq!(e_press.transmit_changed, None);
    assert_eq!(e_release.set_muted, None);
    assert_eq!(e_release.transmit_changed, None);
    assert!(!s.hold_active);
}

#[test]
fn hold_press_in_ptt_unmutes() {
    let mut s = PerSourceState { mode: Mode::Ptt, hold_active: false };
    let e = hold_press(&mut s, SRC);
    assert!(s.hold_active);
    assert_eq!(e.source_name, SRC);
    assert_eq!(e.set_muted, Some(false));
    assert_eq!(e.transmit_changed, Some(true));
}

#[test]
fn hold_release_in_ptt_mutes() {
    let mut s = PerSourceState { mode: Mode::Ptt, hold_active: true };
    let e = hold_release(&mut s, SRC);
    assert!(!s.hold_active);
    assert_eq!(e.source_name, SRC);
    assert_eq!(e.set_muted, Some(true));
    assert_eq!(e.transmit_changed, Some(false));
}

#[test]
fn double_press_idempotent() {
    let mut s = PerSourceState { mode: Mode::Ptt, hold_active: false };
    let _ = hold_press(&mut s, SRC);
    let e = hold_press(&mut s, SRC);
    assert_eq!(e.set_muted, None);
    assert_eq!(e.transmit_changed, None);
    assert!(s.hold_active);
}

#[test]
fn double_release_idempotent() {
    let mut s = PerSourceState { mode: Mode::Ptt, hold_active: false };
    let e = hold_release(&mut s, SRC);
    assert_eq!(e.set_muted, None);
    assert_eq!(e.transmit_changed, None);
    assert!(!s.hold_active);
}

#[test]
fn toggle_to_ptt_resets_hold() {
    let mut s = PerSourceState { mode: Mode::Open, hold_active: true };
    let e = toggle_mode(&mut s, SRC);
    assert_eq!(s.mode, Mode::Ptt);
    assert!(!s.hold_active);
    assert_eq!(e.set_muted, Some(true));
}

#[test]
fn transmitting_open_always_true() {
    let s = PerSourceState { mode: Mode::Open, hold_active: false };
    assert!(s.transmitting());
}

#[test]
fn transmitting_ptt_follows_hold() {
    let s_off = PerSourceState { mode: Mode::Ptt, hold_active: false };
    let s_on = PerSourceState { mode: Mode::Ptt, hold_active: true };
    assert!(!s_off.transmitting());
    assert!(s_on.transmitting());
}

#[test]
fn toggle_twice_restores_mode_and_releases_hold() {
    let mut s = PerSourceState { mode: Mode::Ptt, hold_active: true };
    let _ = toggle_mode(&mut s, SRC);
    let _ = toggle_mode(&mut s, SRC);
    assert_eq!(s, PerSourceState { mode: Mode::Ptt, hold_active: false });
}

#[test]
fn press_then_release_returns_to_start() {
    let start = PerSourceState { mode: Mode::Ptt, hold_active: false };
    let mut s = start;
    let _ = hold_press(&mut s, SRC);
    assert!(s.transmitting());
    let _ = hold_release(&mut s, SRC);
    assert_eq!(s, start);
}

#[test]
fn default_has_no_bindings_or_sources() {
    let cfg = PluginConfig::default();
    assert!(cfg.mode_toggle_binding.is_none());
    assert!(cfg.hold_binding.is_none());
    assert!(cfg.enabled_sources.is_empty());
    assert!(cfg.mode_by_source.is_empty());
}

#[test]
fn mode_for_returns_open_when_unset() {
    let cfg = PluginConfig::default();
    assert_eq!(cfg.mode_for("unknown"), Mode::Open);
}

#[test]
fn mode_for_returns_persisted_value() {
    let mut mode_by_source = StrMap::new();
    mode_by_source.insert("src1".to_string(), Mode::Ptt);
    let cfg = PluginConfig { mode_by_source, ..PluginConfig::default() };
    assert_eq!(cfg.mode_for("src1"), Mode::Ptt);
    assert_eq!(cfg.mode_for("src2"), Mode::Open);
}

#[test]
fn input_enabled_adds_once_and_disabling_forgets_mode() {
    let mut cfg = PluginConfig::default();
    cfg.set_input_enabled("mic", true);
    cfg.set_input_enabled("mic", true);
    assert_eq!(cfg.enabled_sources, vec!["mic".to_string()]);
    cfg.mode_by_source.insert("mic".to_string(), Mode::Ptt);
    cfg.set_input_enabled("mic", false);
    assert!(cfg.enabled_sources.is_empty());
    assert_eq!(cfg.mode_for("mic"), Mode::Open);
}

#[test]
fn legacy_input_device_becomes_the_enabled_source() {
    let mut cfg = PluginConfig::default();
    cfg.apply_legacy(Some("old_mic".to_string()), Some(Mode::Ptt));
    assert_eq!(cfg.enabled_sources, vec!["old_mic".to_string()]);
    assert_eq!(cfg.mode_for("old_mic"), Mode::Ptt);

    let mut with_sources = PluginConfig::default();
    with_sources.set_input_enabled("src1", true);
    with_sources.apply_legacy(Some("old_mic".to_string()), Some(Mode::Ptt));
    assert_eq!(with_sources.enabled_sources, vec!["src1".to_string()]);

    let mut empty_name = PluginConfig::default();
    empty_name.apply_legacy(Some(String::new()), None);
    assert!(empty_name.enabled_sources.is_empty());
}

#[test]
fn mode_wire_names() {
    assert_eq!(mode_wire(Mode::Open), "open");
    assert_eq!(mode_wire(Mode::Ptt), "ptt");
    assert_eq!(mode_from_wire("ptt"), Some(Mode::Ptt));
    assert_eq!(mode_from_wire("PTT"), None);
    assert_eq!(notify_title(Mode::Open), "Mic — open");
    assert_eq!(notify_title(Mode::Ptt), "Mic — push-to-talk");
    assert_eq!(play_tone(true), "up");
    assert_eq!(play_tone(false), "down");
}

#[test]
fn runtime_toggle_saves_mode_and_keeps_state_in_step() {
    let mut cfg = PluginConfig::default();
    cfg.set_input_enabled("mic", true);
    let mut core = PttCore::new_without_client(cfg);
    assert_eq!(core.state_of("mic"), PerSourceState { mode: Mode::Open, hold_active: false });
    let fx = core.toggle_mode("mic");
    assert_eq!(fx.persist_mode, Some(Mode::Ptt));
    assert_eq!(core.config.mode_for("mic"), Mode::Ptt);
    assert_eq!(core.state_of("mic").mode, Mode::Ptt);
    let fx = core.hold_press("mic");
    assert_eq!(fx.set_muted, Some(false));
    assert!(core.state_of("mic").transmitting());
    let plan = core.mute_plan();
    assert_eq!(plan, vec![("mic".to_string(), false)]);
    let _ = core.hold_release("mic");
    assert_eq!(core.mute_plan(), vec![("mic".to_string(), true)]);
    core.set_input_enabled("mic", false);
    assert!(core.mute_plan().is_empty());
    assert_eq!(core.config.mode_for("mic"), Mode::Open);
}

#[test]
fn keybind_action_ids() {
    let (op, src) = decode_keybind("hold_press:alsa_input.usb");
    assert_eq!(op, Some(KeyOp::HoldPress));
    assert_eq!(src.as_deref(), Some("alsa_input.usb"));
    let (op, src) = decode_keybind("toggle_mode");
    assert_eq!(op, Some(KeyOp::ToggleMode));
    assert!(src.is_none());
    let (op, _) = decode_keybind("explode:x");
    assert_eq!(op, None);
    let all = vec!["a".to_string(), "b".to_string()];
    assert_eq!(target_sources(None, &all), all);
    assert_eq!(target_sources(Some("c".to_string()), &all), vec!["c".to_string()]);
}

fn event(section: &str, id: &str, value: PttEventValue, source: Option<&str>) -> PttEventParams {
    PttEventParams {
        section_id: section.to_string(),
        event_id: id.to_string(),
        value,
        context_source: source.map(|s| s.to_string()),
    }
}

#[test]
fn settings_events_decode() {
    let e = decode_ptt_event(&event("nope", "x", PttEventValue::Null, None));
    assert_eq!(e.unwrap_err(), "unknown section_id nope");
    let e = decode_ptt_event(&event("tideline-ptt", "tideline-ptt:toggle_mode", PttEventValue::Null, Some("m")));
    assert_eq!(e.unwrap(), PttCommand::ToggleMode { source: Some("m".to_string()) });
    let e = decode_ptt_event(&event("tideline-ptt-input", "tideline-ptt:input_enabled", PttEventValue::Flag(true), Some("m")));
    assert_eq!(e.unwrap(), PttCommand::SetInputEnabled { source: "m".to_string(), enabled: true });
    let e = decode_ptt_event(&event("tideline-ptt", "tideline-ptt:input_enabled", PttEventValue::Text("yes".into()), Some("m")));
    assert_eq!(e.unwrap(), PttCommand::SetInputEnabled { source: "m".to_string(), enabled: false });
    let e = decode_ptt_event(&event("tideline-ptt", "tideline-ptt:input_enabled", PttEventValue::Flag(true), None));
    assert_eq!(e.unwrap(), PttCommand::Ignore);
    let e = decode_ptt_event(&event("tideline-ptt", "tideline-ptt:set_hold_binding", PttEventValue::Text("Ctrl+F9".into()), None));
    assert_eq!(
        e.unwrap(),
        PttCommand::SetBinding { mode_toggle: false, binding: Some(Binding::parse("Ctrl+F9").unwrap()) }
    );
    let e = decode_ptt_event(&event("tideline-ptt", "tideline-ptt:set_mode_toggle_binding", PttEventValue::Null, None));
    assert_eq!(e.unwrap(), PttCommand::SetBinding { mode_toggle: true, binding: None });
    let e = decode_ptt_event(&event("tideline-ptt", "tideline-ptt:set_mode_toggle_binding", PttEventValue::Text("Bogus+".into()), None));
    assert_eq!(e.unwrap(), PttCommand::Ignore);
    let e = decode_ptt_event(&event("tideline-ptt", "tideline-ptt:install_udev_rule", PttEventValue::Null, None));
    assert_eq!(e.unwrap(), PttCommand::InstallUdevRule);
    let e = decode_ptt_event(&event("tideline-ptt", "other", PttEventValue::Null, None));
    assert_eq!(e.unwrap(), PttCommand::Ignore);
}

#[test]
fn f12_with_ctrl_shift() {
    let mods = vec![Modifier::Shift, Modifier::Ctrl];
    let b = key_to_binding(88, &mods).unwrap();
    assert_eq!(b.format(), "Ctrl+Shift+F12");
}

#[test]
fn mouse5_no_mods() {
    let b = key_to_binding(0x114, &Vec::new()).unwrap();
    assert_eq!(b.format(), "Mouse5");
}

#[test]
fn pure_modifier_returns_none() {
    assert!(key_to_binding(29, &Vec::new()).is_none());
}

#[test]
fn key_code_names() {
    assert_eq!(key_to_binding_key(30), Some("A"));
    assert_eq!(key_to_binding_key(11), Some("0"));
    assert_eq!(key_to_binding_key(194), Some("F24"));
    assert_eq!(key_to_binding_key(55), None);
    assert_eq!(key_to_mouse_token(0x110), Some("Mouse1"));
    assert_eq!(modifier_for_key(126), Some(Modifier::Super));
    assert_eq!(modifier_for_key(30), None);
}

#[test]
fn settings_section_decisions() {
    assert_eq!(heading_text(CaptureMethod::Evdev), "Push-to-talk (evdev)");
    assert_eq!(heading_text(CaptureMethod::NotSet), "Push-to-talk");
    assert_eq!(banner_action(CaptureMethod::Portal), Some(("Configure shortcuts in System Settings", "tideline-ptt:configure_shortcuts")));
    assert_eq!(banner_action(CaptureMethod::NotSet), None);
    assert!(shows_binding_captures(CaptureMethod::Evdev));
    assert!(!shows_binding_captures(CaptureMethod::Portal));
}

#[test]
fn status_pill_error_overrides_mode() {
    let p = status_pill(PerSourceState { mode: Mode::Open, hold_active: false }, true);
    assert_eq!(p.text, "PTT error");
    assert_eq!(p.tone, "warning");
    assert!(!p.pulse);
}

#[test]
fn status_pill_open_no_error_pulses_true() {
    let p = status_pill(PerSourceState { mode: Mode::Open, hold_active: false }, false);
    assert_eq!(p.text, "Open mic");
    assert_eq!(p.tone, "primary");
    assert!(p.pulse);
}

#[test]
fn status_pill_ptt_held_lives() {
    let p = status_pill(PerSourceState { mode: Mode::Ptt, hold_active: true }, false);
    assert_eq!(p.text, "PTT — live");
    assert!(p.pulse);
}

#[test]
fn status_pill_ptt_idle_muted() {
    let p = status_pill(PerSourceState { mode: Mode::Ptt, hold_active: false }, false);
    assert_eq!(p.text, "PTT — muted");
    assert_eq!(p.tone, "error");
    assert!(!p.pulse);
}

#[test]
fn section_lists_a_switch_per_source_after_the_select() {
    assert_eq!(
        section_layout(CaptureMethod::Portal, false, 2),
        vec![
            SectionPart::Heading,
            SectionPart::InputDeviceSelect,
            SectionPart::SourceToggle(0),
            SectionPart::SourceToggle(1)
        ]
    );
}

#[test]
fn section_with_error_puts_banner_after_heading() {
    assert_eq!(
        section_layout(CaptureMethod::Evdev, true, 0),
        vec![
            SectionPart::Heading,
            SectionPart::ErrorBanner,
            SectionPart::ModeToggleCapture,
            SectionPart::HoldCapture,
            SectionPart::InputDeviceSelect
        ]
    );
    assert_eq!(
        section_layout(CaptureMethod::NotSet, true, 0),
        vec![SectionPart::Heading, SectionPart::ErrorBanner, SectionPart::InputDeviceSelect]
    );
    assert_eq!(error_banner(CaptureMethod::NotSet, "x").action, None);
}

#[test]
fn settings_section_no_error_no_evdev_omits_bindings_and_banner() {
    let v = section_layout(CaptureMethod::Portal, false, 0);
    assert_eq!(v, vec![SectionPart::Heading, SectionPart::InputDeviceSelect]);
}

#[test]
fn settings_section_evdev_includes_binding_captures() {
    let v = section_layout(CaptureMethod::Evdev, false, 0);
    assert_eq!(
        v,
        vec![SectionPart::Heading, SectionPart::ModeToggleCapture, SectionPart::HoldCapture, SectionPart::InputDeviceSelect]
    );
}

#[test]
fn settings_section_with_error_adds_banner() {
    let v = section_layout(CaptureMethod::Evdev, true, 0);
    assert!(v.contains(&SectionPart::ErrorBanner));
    let b = error_banner(CaptureMethod::Evdev, "denied");
    assert_eq!(b.text, "denied");
    assert_eq!(b.tone, "warning");
    assert_eq!(b.action.unwrap().1, "tideline-ptt:install_udev_rule");
}

#[test]
fn settings_section_portal_error_uses_configure_action() {
    let v = section_layout(CaptureMethod::Portal, true, 0);
    assert!(v.contains(&SectionPart::ErrorBanner));
    let b = error_banner(CaptureMethod::Portal, "oops");
    assert_eq!(b.action.unwrap().1, "tideline-ptt:configure_shortcuts");
}

#[test]
fn core_input_enabled_adds_then_removes_source() {
    let mut core = PttCore::new_without_client(PluginConfig::default());
    core.set_input_enabled("mic", true);
    core.set_input_enabled("mic", true);
    assert_eq!(core.config.enabled_sources, vec!["mic".to_string()]);
    core.toggle_mode("mic");
    assert_eq!(core.config.mode_for("mic"), Mode::Ptt);
    core.set_input_enabled("mic", false);
    assert!(core.config.enabled_sources.is_empty());
    assert_eq!(core.config.mode_for("mic"), Mode::Open);
}
