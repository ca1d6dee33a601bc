use tideline::audition::{Audition, AuditionPhase, AuditionStatus};
use tideline::audition_player::{
    audition_link_pairs, link_succeeded, next_player_step, node_ports, player_node_name, player_node_props,
    text_less, PlayerExit, PlayerStep, PLAYER_FAILURE_LIMIT,
};
use tideline::catalog::{
    cache_is_fresh, categorize, category_label, collect_recommended, collection_installed,
    eq_ignore_ascii_case, find_plugin_by_uri, format_label, max_source_mtime, parse_carla_discovery,
    parse_category, recommended_uri_needles, select_driver, Category, PluginInfo, PluginScanCache,
    CACHE_SCHEMA_VERSION,
};
use tideline::chains::{dedupe_by_id, saved_effect_format, saved_file_version, default_version, persisted_from_attached, ChannelEffectsData, ChainState, Effect, Format, PERSIST_VERSION, UNITY_GAIN_BITS};
use tideline::plugin_host::file_uri_to_path;
use tideline::plugin_paths::{paths_equal, plugin_search_paths, visible_entry_count};
use tideline::ids::{channel_jack_client, id_from_text, id_text, slug_for_channel, uuid_from_target};
use tideline::install::{detect_distro, install_command, is_lsp_entry, tail_lines, Distro, InstallProbe};
use tideline::persist::{decode_optional_state, decode_state, encode_state};
use tideline::pipewire::{
    build_all_directives, build_directives_for_channel, channel_routes, chain_should_apply, CaptureSide, ChannelKind,
    ChannelRoute, ContributedChannel, Directive, MixRoute, PlaybackSide, PropValue,
};
use tideline::rack_event::{decode_rack_event, reorder_drop, window_title, RackAction, RackEventValue};
use tideline::rack_model::{
    chain_power_on, chain_state_label, channel_card_variant, check_overlay_surface, install_hints, rack_body, rack_rows, RackBody,
};
use tideline::slot_order::reorder_slots;

fn plugin(uri: &str, name: &str, vendor: &str) -> PluginInfo {
    PluginInfo {
        format: Format::Lv2,
        uri: uri.to_string(),
        name: name.to_string(),
        vendor: vendor.to_string(),
        category: String::new(),
        audio_inputs: 2,
        audio_outputs: 2,
        has_custom_ui: false,
    }
}

#[test]
fn cache_is_fresh_returns_false_when_mtime_zero() {
    let cache = PluginScanCache {
        schema_version: CACHE_SCHEMA_VERSION,
        scanned_at: 0,
        source_mtime_max: 1,
        source_entry_count: 0,
        source_mtimes: vec![None, None],
        plugins: vec![],
    };
    // No plugin folder has a change time (none exists) -> never fresh, so a rescan happens.
    assert!(!cache_is_fresh(&cache, &vec![None, None], 0));
    assert!(!cache_is_fresh(&cache, &vec![], 0));
}

#[test]
fn fresh_cache_check_handles_missing_dirs() {
    let cache = PluginScanCache::default();
    assert!(!cache_is_fresh(&cache, &vec![], 0));
}

#[test]
fn cache_freshness_needs_matching_mtimes_and_count() {
    let cache = PluginScanCache {
        schema_version: CACHE_SCHEMA_VERSION,
        scanned_at: 5,
        source_mtime_max: 100,
        source_entry_count: 7,
        source_mtimes: vec![Some(100), None, Some(40)],
        plugins: vec![],
    };
    assert!(cache_is_fresh(&cache, &vec![Some(100), None, Some(40)], 7));
    assert!(!cache_is_fresh(&cache, &vec![Some(101), None, Some(40)], 7));
    assert!(!cache_is_fresh(&cache, &vec![Some(100), None, Some(40)], 8));
    let old = PluginScanCache { schema_version: 1, ..cache.clone() };
    assert!(!cache_is_fresh(&old, &vec![Some(100), None, Some(40)], 7));
}

#[test]
fn change_below_the_newest_folder_time_makes_cache_stale() {
    let cache = PluginScanCache {
        schema_version: CACHE_SCHEMA_VERSION,
        scanned_at: 5,
        source_mtime_max: 100,
        source_entry_count: 7,
        source_mtimes: vec![Some(100), Some(40)],
        plugins: vec![],
    };
    assert!(!cache_is_fresh(&cache, &vec![Some(100), Some(41)], 7));
    assert!(!cache_is_fresh(&cache, &vec![Some(100), None], 7));
    assert!(!cache_is_fresh(&cache, &vec![Some(100)], 7));
}

#[test]
fn max_source_mtime_skips_unreadable_folders() {
    assert_eq!(max_source_mtime(&[]), 0);
    assert_eq!(max_source_mtime(&[None, Some(5), Some(3), None]), 5);
}

#[test]
fn dummy_wins_when_present() {
    let avail = vec!["JACK".into(), "Dummy".into(), "PulseAudio".into()];
    assert_eq!(select_driver(&avail).as_deref(), Some("Dummy"));
}

#[test]
fn jack_beats_pulse() {
    let avail = vec!["PulseAudio".into(), "JACK".into()];
    assert_eq!(select_driver(&avail).as_deref(), Some("JACK"));
}

#[test]
fn first_when_no_preferred() {
    let avail = vec!["SDL".into(), "ALSA".into()];
    assert_eq!(select_driver(&avail).as_deref(), Some("SDL"));
}

#[test]
fn empty_returns_none() {
    assert!(select_driver(&[]).is_none());
}

#[test]
fn case_insensitive_match() {
    let avail = vec!["jack".into()];
    assert_eq!(select_driver(&avail).as_deref(), Some("jack"));
}

#[test]
fn ascii_case_comparison() {
    assert!(eq_ignore_ascii_case("PulseAudio", "pulseaudio"));
    assert!(!eq_ignore_ascii_case("Pulse", "PulseAudio"));
}

#[test]
fn arch_maps_to_pacman() {
    let cmd = install_command(Distro::Arch);
    assert!(cmd.starts_with("pacman -S --noconfirm"));
    assert!(cmd.contains("carla"));
    assert!(cmd.contains("lsp-plugins-vst3"));
}

#[test]
fn debian_maps_to_apt_with_umbrella_lsp() {
    let cmd = install_command(Distro::DebianUbuntu);
    assert!(cmd.contains("apt-get"));
    assert!(cmd.contains("carla"));
    assert!(cmd.contains("lsp-plugins"));
    assert!(!cmd.contains("lsp-plugins-vst3"));
}

#[test]
fn fedora_maps_to_dnf() {
    let cmd = install_command(Distro::Fedora);
    assert!(cmd.contains("dnf"));
}

#[test]
fn detect_distro_handles_synthetic_os_release() {
    let arch = "ID=arch\nNAME=\"Arch Linux\"\n";
    assert_eq!(detect_distro(arch), Some(Distro::Arch));
    let ubuntu = "ID=ubuntu\nID_LIKE=debian\n";
    assert_eq!(detect_distro(ubuntu), Some(Distro::DebianUbuntu));
    let fedora = "ID=fedora\n";
    assert_eq!(detect_distro(fedora), Some(Distro::Fedora));
}

#[test]
fn detect_distro_quotes_and_family_fallback() {
    assert_eq!(detect_distro("ID=\"manjaro\"\r\n"), Some(Distro::Arch));
    assert_eq!(detect_distro("ID=neon\nID_LIKE=\"ubuntu debian\"\n"), Some(Distro::DebianUbuntu));
    assert_eq!(detect_distro("ID=garuda\nID_LIKE=arch"), Some(Distro::Arch));
    assert_eq!(detect_distro("ID=nobara\nID_LIKE=\"rhel fedora\""), Some(Distro::Fedora));
    assert_eq!(detect_distro("ID=gentoo\n"), None);
    assert_eq!(detect_distro(""), None);
}

#[test]
fn install_probe_treats_missing_carla_as_needs_install() {
    let probe = InstallProbe { carla_path: None, lsp_plugins_present: false };
    assert!(probe.needs_install());
}

#[test]
fn install_probe_treats_both_present_as_ok() {
    let probe = InstallProbe { carla_path: Some("/usr/bin/carla".into()), lsp_plugins_present: true };
    assert!(!probe.needs_install());
}

#[test]
fn install_probe_missing_lsp_needs_install() {
    let probe = InstallProbe { carla_path: Some("/usr/bin/carla".into()), lsp_plugins_present: false };
    assert!(probe.needs_install());
}

#[test]
fn installer_error_tail_keeps_last_lines() {
    let text: String = (1..=25).map(|i| format!("line{i}\n")).collect();
    let tail = tail_lines(&text, 20);
    assert!(tail.starts_with("line6\n"));
    assert!(tail.ends_with("line25"));
    assert_eq!(tail.lines().count(), 20);
    assert_eq!(tail_lines("a\r\nb", 20), "a\nb");
    assert_eq!(tail_lines("", 20), "");
}

#[test]
fn parses_one_lv2_plugin_block() {
    let stdout = "\
carla-discovery::uri::http://lsp-plug.in/plugins/lv2/gate_mono
carla-discovery::name::LSP Gate Mono
carla-discovery::maker::Linux Studio Plugins Project
carla-discovery::category::dynamics
carla-discovery::end::------------
";
    let v = parse_carla_discovery(Format::Lv2, stdout);
    assert_eq!(v.len(), 1);
    assert_eq!(v[0].name, "LSP Gate Mono");
    assert_eq!(v[0].vendor, "Linux Studio Plugins Project");
    assert_eq!(v[0].category, Category::Dynamics);
}

#[test]
fn parses_two_blocks_with_categories() {
    let stdout = "\
carla-discovery::uri::a
carla-discovery::name::A
carla-discovery::maker::vendor
carla-discovery::category::eq
carla-discovery::end::------------
carla-discovery::uri::b
carla-discovery::name::B
carla-discovery::maker::vendor
carla-discovery::category::reverb
carla-discovery::end::------------
";
    let v = parse_carla_discovery(Format::Vst3, stdout);
    assert_eq!(v.len(), 2);
    assert_eq!(v[0].category, Category::Eq);
    assert_eq!(v[1].category, Category::Reverb);
}

#[test]
fn drops_blocks_missing_uri_or_name() {
    let stdout = "\
carla-discovery::name::orphan
carla-discovery::end::------------
";
    let v = parse_carla_discovery(Format::Lv2, stdout);
    assert!(v.is_empty());
}

#[test]
fn categories_by_class_words() {
    assert_eq!(categorize("Parametric EQ"), Category::Eq);
    assert_eq!(categorize("CompressorPlugin"), Category::Dynamics);
    assert_eq!(categorize("ReverbPlugin"), Category::Reverb);
    assert_eq!(categorize("Chorus"), Category::Modulation);
    assert_eq!(categorize("Analyser"), Category::Utility);
    assert_eq!(categorize("Generator"), Category::Other);
    assert_eq!(parse_category("filter"), Category::Eq);
    assert_eq!(parse_category("Filter"), Category::Other);
    assert_eq!(category_label(Category::Eq), "EQ");
    assert_eq!(format_label(Format::Vst3), "VST3");
}

#[test]
fn recommendations_follow_channel_width() {
    let plugins = vec![
        plugin("http://lsp-plug.in/plugins/lv2/gate_stereo", "Gate Stereo", "LSP"),
        plugin("http://lsp-plug.in/plugins/lv2/gate_mono", "Gate Mono", "LSP"),
        plugin("http://calf.sourceforge.net/plugins/Compressor", "Calf Compressor", "Calf"),
    ];
    let mono = collect_recommended(&plugins, true);
    assert_eq!(mono, vec![1, 2]);
    let stereo = collect_recommended(&plugins, false);
    assert_eq!(stereo, vec![2]);
    assert_eq!(recommended_uri_needles(true).len(), 12);
    assert_eq!(recommended_uri_needles(false)[0], "werman/noise-suppression-for-voice#stereo");
}

#[test]
fn installed_collections_ignore_case() {
    let plugins = vec![plugin("urn:x", "ReaComp", "Cockos")];
    assert!(collection_installed(&plugins, &["reacomp"]));
    assert!(!collection_installed(&plugins, &["lsp plug"]));
    let hints = install_hints(&plugins);
    assert!(!hints.show_reaplugs);
    assert!(hints.show_reapack);
    assert_eq!(hints.arch_packages, vec!["lsp-plugins", "calf", "x42-plugins", "swh-plugins"]);
    assert_eq!(hints.deb_packages, vec!["lsp-plugins", "calf-plugins", "x42-plugins", "swh-plugins"]);
    assert_eq!(find_plugin_by_uri(&plugins, "urn:x"), Some(0));
    assert_eq!(find_plugin_by_uri(&plugins, "urn:y"), None);
}

#[test]
fn empty_state_round_trips() {
    let chunk = b"";
    let s = encode_state(chunk);
    assert_eq!(decode_state(&s).unwrap(), Vec::<u8>::new());
}

#[test]
fn arbitrary_state_round_trips() {
    let chunk = b"<carla-state-chunk>raw bytes \x00\x01\x02</>";
    let s = encode_state(chunk);
    assert_eq!(decode_state(&s).unwrap(), chunk.to_vec());
}

#[test]
fn invalid_b64_returns_none() {
    assert!(decode_state("not valid base64!@#$").is_none());
}

#[test]
fn state_text_is_standard_base64() {
    assert_eq!(encode_state(b"hi"), "aGk=");
    assert_eq!(decode_optional_state(&Some("aGk=".to_string())), Some(b"hi".to_vec()));
    assert_eq!(decode_optional_state(&None), None);
}

fn removed_id(text: &str) -> Option<u128> {
    let none = RackEventValue { text: None, flag: None, drop_type: None, from_id: None };
    match decode_rack_event(&format!("remove:{text}"), &none) {
        Ok(RackAction::Remove { effect }) => Some(effect),
        _ => None,
    }
}

#[test]
fn channel_node_name_matches_engine() {
    let ch = removed_id("8fc82af3-1dfc-41ce-8eb0-528e68852657").unwrap();
    assert_eq!(channel_jack_client(ch), "tideline-fx-8fc82af31dfc41ce8eb0528e68852657");
}

#[test]
fn identifier_text_forms() {
    let id = 0x8fc82af3_1dfc_41ce_8eb0_528e68852657u128;
    assert_eq!(slug_for_channel(id), "8fc82af31dfc41ce8eb0528e68852657");
    let mut ch = route_channel(ChannelKind::Output);
    ch.uuid = id;
    match &build_directives_for_channel(&ch, &vec![])[0] {
        Directive::DestroyModule { target_tag } => assert_eq!(target_tag.channel_uuid, "8fc82af3-1dfc-41ce-8eb0-528e68852657"),
        other => panic!("expected a destroy, got {other:?}"),
    }
    assert_eq!(removed_id("8fc82af31dfc41ce8eb0528e68852657"), Some(id));
    assert_eq!(removed_id("8FC82AF3-1DFC-41CE-8EB0-528E68852657"), Some(id));
    assert_eq!(removed_id("not-an-id"), None);
    assert_eq!(uuid_from_target("tideline-fx-abc"), "abc");
    assert_eq!(uuid_from_target("other-node"), "other-node");
}

fn effect(id: u128, uri: &str) -> Effect {
    Effect::lv2_with_id(id, uri.to_string())
}

#[test]
fn attach_then_detach() {
    let mut state = ChainState::new();
    let channel = 7u128;
    let e = Effect::new_lv2("uri".to_string());
    let eid = e.id;
    state.attach_effect(channel, e);
    assert_eq!(state.chain_order(channel), vec![eid]);
    state.detach_effect(channel, eid);
    assert!(state.chain_order(channel).is_empty());
}

#[test]
fn channels_with_effects_filters_empty() {
    let mut state = ChainState::new();
    let c1 = 1u128;
    let c2 = 2u128;
    state.attach_effect(c1, effect(10, "uri"));
    state.set_chain_order(c2, vec![]);
    let mut got = state.channels_with_effects();
    got.sort();
    assert_eq!(got, vec![c1]);
}

#[test]
fn attach_twice_keeps_one_entry() {
    let mut state = ChainState::new();
    state.attach_effect(1, effect(10, "a"));
    state.attach_effect(1, effect(10, "a2"));
    assert_eq!(state.chain_order(1), vec![10]);
    assert_eq!(state.effect(1, 10).unwrap().uri, "a2");
}

#[test]
fn snapshot_channel_returns_effects_in_chain_order() {
    let mut state = ChainState::new();
    let channel = 3u128;
    let e1 = Effect::new_lv2("uri-a".to_string());
    let e2 = Effect::new_lv2("uri-b".to_string());
    let id1 = e1.id;
    let id2 = e2.id;
    state.attach_effect(channel, e1);
    state.attach_effect(channel, e2);
    let snap = state.snapshot_channel(channel);
    assert_eq!(snap.effects.len(), 2);
    assert_eq!(snap.effects[0].id, id1);
    assert_eq!(snap.effects[1].id, id2);
    assert!(!snap.chain_bypassed);
}

#[test]
fn snapshot_channel_reflects_chain_bypass_flag() {
    let mut state = ChainState::new();
    let channel = 3u128;
    state.set_chain_bypass(channel, true);
    assert!(state.snapshot_channel(channel).chain_bypassed);
}

#[test]
fn switches_read_back_and_default() {
    let mut state = ChainState::new();
    assert!(!state.get_lowcut(5));
    assert_eq!(state.get_input_gain(5), UNITY_GAIN_BITS);
    state.set_lowcut(5, true);
    state.set_clipguard(5, true);
    state.set_input_gain(5, 0x4000_0000);
    assert!(state.get_lowcut(5));
    assert!(state.get_clipguard(5));
    assert_eq!(state.get_input_gain(5), 0x4000_0000);
    state.clear_chain_state();
    assert!(!state.get_lowcut(5));
}

#[test]
fn effect_updates_touch_only_stored_slots() {
    let mut state = ChainState::new();
    state.attach_effect(1, effect(10, "a"));
    state.set_effect_bypassed(1, 10, true);
    state.set_effect_state_b64(1, 10, "AAAA".to_string());
    let e = state.effect(1, 10).unwrap();
    assert!(e.bypassed);
    assert_eq!(e.state_b64.as_deref(), Some("AAAA"));
    state.set_effect_bypassed(1, 99, true);
    assert!(state.effect(1, 99).is_none());
}

#[test]
fn snapshot_covers_every_known_channel() {
    let mut state = ChainState::new();
    state.attach_effect(1, effect(10, "a"));
    state.attach_effect(1, effect(11, "b"));
    state.set_chain_order(1, vec![11, 99, 10]);
    state.set_chain_bypass(2, true);
    state.set_lowcut(3, true);
    state.set_input_gain(4, 7);
    let snap = state.snapshot_persisted();
    assert_eq!(snap.version, 2);
    assert_eq!(snap.channels.len(), 4);
    let one = snap.channels.get(&1).unwrap();
    let ids: Vec<u128> = one.effects.iter().map(|e| e.id).collect();
    assert_eq!(ids, vec![11, 10]);
    assert!(snap.channels.get(&2).unwrap().bypassed);
    assert!(snap.channels.get(&3).unwrap().lowcut);
    assert_eq!(snap.channels.get(&4).unwrap().input_gain, 7);
    assert_eq!(snap.channels.get(&3).unwrap().input_gain, UNITY_GAIN_BITS);
}

#[test]
fn forget_channel_drops_order_and_bypass() {
    let mut state = ChainState::new();
    state.attach_effect(1, effect(10, "a"));
    state.set_chain_bypass(1, true);
    state.forget_channel(1);
    assert!(state.chain_order(1).is_empty());
    assert!(!state.get_chain_bypass(1));
}

#[test]
fn dedupe_keeps_first_of_each_id() {
    let v = vec![effect(1, "a"), effect(2, "b"), effect(1, "c")];
    let d = dedupe_by_id(&v);
    assert_eq!(d.len(), 2);
    assert_eq!(d[0].uri, "a");
    assert_eq!(d[1].uri, "b");
}

fn value() -> RackEventValue {
    RackEventValue { text: None, flag: None, drop_type: None, from_id: None }
}

const A: &str = "00000000-0000-0000-0000-00000000000a";
const B: &str = "00000000-0000-0000-0000-00000000000b";

#[test]
fn rack_events_decode() {
    assert_eq!(decode_rack_event("add:urn:p", &value()).unwrap(), RackAction::Add { uri: "urn:p".to_string() });
    let menu = RackEventValue { text: Some("add:urn:q".to_string()), ..value() };
    assert_eq!(decode_rack_event("add_effect", &menu).unwrap(), RackAction::Add { uri: "urn:q".to_string() });
    assert_eq!(decode_rack_event(&format!("remove:{A}"), &value()).unwrap(), RackAction::Remove { effect: 10 });
    assert_eq!(decode_rack_event("remove:zz", &value()).unwrap_err(), "bad effect id zz");
    let off = RackEventValue { flag: Some(false), ..value() };
    assert_eq!(
        decode_rack_event(&format!("bypass:{A}"), &off).unwrap(),
        RackAction::Bypass { effect: 10, bypassed: true }
    );
    assert_eq!(decode_rack_event("chain_bypass", &value()).unwrap(), RackAction::ChainBypass { bypassed: false });
    assert_eq!(decode_rack_event("rescan", &value()).unwrap(), RackAction::Rescan);
    assert_eq!(decode_rack_event("frobnicate", &value()).unwrap_err(), "unknown rack event frobnicate");
}

#[test]
fn rack_drop_events_decode() {
    let drop = RackEventValue {
        drop_type: Some("drop".to_string()),
        from_id: Some(format!("rack-row:{A}")),
        ..value()
    };
    assert_eq!(
        decode_rack_event(&format!("rack-row:{B}"), &drop).unwrap(),
        RackAction::Reorder { source: 10, target: 11 }
    );
    assert_eq!(decode_rack_event(&format!("rack-row:{A}"), &drop).unwrap(), RackAction::Unchanged);
    let hover = RackEventValue { drop_type: Some("hover".to_string()), ..value() };
    assert_eq!(
        decode_rack_event(&format!("rack-row:{B}"), &hover).unwrap_err(),
        "unsupported rack-row event type hover"
    );
    let no_from = RackEventValue { drop_type: Some("drop".to_string()), ..value() };
    assert_eq!(decode_rack_event(&format!("rack-row:{B}"), &no_from).unwrap_err(), "drop event missing from_id");
    let odd = RackEventValue { drop_type: Some("drop".to_string()), from_id: Some("x".to_string()), ..value() };
    assert_eq!(decode_rack_event(&format!("rack-row:{B}"), &odd).unwrap_err(), "from_id has unexpected shape x");
    assert!(RackAction::Reorder { source: 1, target: 2 }.mutates());
    assert!(!RackAction::Rescan.mutates());
}

#[test]
fn drop_moves_source_before_target() {
    assert_eq!(reorder_drop(&vec![1, 2, 3, 4], 4, 2), Some(vec![1, 4, 2, 3]));
    assert_eq!(reorder_drop(&vec![1, 2, 3, 4], 1, 3), Some(vec![2, 1, 3, 4]));
    assert_eq!(reorder_drop(&vec![1, 2, 3], 2, 9), Some(vec![1, 3, 2]));
    assert_eq!(reorder_drop(&vec![1, 2, 3], 7, 1), None);
    assert_eq!(window_title("Gate"), "Gate — Tideline");
}

#[test]
fn slots_follow_new_order() {
    let slots = vec![(1u128, 'a'), (2, 'b'), (3, 'c')];
    assert_eq!(reorder_slots(slots, &[3, 9, 1]), vec![(3, 'c'), (1, 'a'), (2, 'b')]);
}

#[test]
fn rack_rows_reflect_state() {
    let mut state = ChainState::new();
    state.attach_effect(1, effect(10, "urn:a"));
    state.attach_effect(1, effect(11, "urn:b"));
    state.set_effect_bypassed(1, 11, true);
    let mut catalog = vec![plugin("urn:a", "A", "v")];
    catalog[0].has_custom_ui = true;
    let rows = rack_rows(&state, 1, &catalog);
    assert_eq!(rows.len(), 2);
    assert!(rows[0].toggle_on && !rows[0].muted && rows[0].has_ui);
    assert!(!rows[1].toggle_on && rows[1].muted && !rows[1].has_ui);
    state.set_chain_bypass(1, true);
    assert!(rack_rows(&state, 1, &catalog)[0].muted);
    assert_eq!(rack_body(false, 2), RackBody::NoPlugins);
    assert_eq!(rack_body(true, 0), RackBody::Empty);
    assert_eq!(rack_body(true, 2), RackBody::List);
    assert_eq!(chain_state_label(true), "Bypassed");
    assert_eq!(channel_card_variant(false), "ghost");
    assert_eq!(channel_card_variant(true), "primary");
    assert_eq!(check_overlay_surface("nope").unwrap_err(), "channel_overlay.render: unknown surface_id nope");
}

fn route_channel(kind: ChannelKind) -> ChannelRoute {
    ChannelRoute {
        uuid: 0x12345678_9abc_def0_1234_56789abcdef0,
        kind,
        slug: "voice".to_string(),
        sources: vec!["alsa_in.0".to_string(), "alsa_in.1".to_string()],
        physical_source: "alsa_input.mic".to_string(),
        sink_node: "voice_sink".to_string(),
        fx_source_node: "fx_source.voice".to_string(),
        mixes: vec![
            MixRoute {
                sinks: vec!["out_a".to_string()],
                capture_nodes: vec!["cap_a".to_string()],
                playback_nodes: vec!["pb_a".to_string()],
            },
            MixRoute {
                sinks: vec!["hp_out".to_string()],
                capture_nodes: vec!["cap_hp".to_string()],
                playback_nodes: vec!["pb_hp".to_string()],
            },
        ],
    }
}

#[test]
fn output_channel_emits_destroy_then_pre_then_post_per_mix_sink() {
    let ch = route_channel(ChannelKind::Output);
    let dirs = build_directives_for_channel(&ch, &vec![effect(1, "x")]);
    assert_eq!(dirs.len(), 4);
    assert!(matches!(dirs[0], Directive::DestroyModule { .. }));
    for d in &dirs[1..] {
        assert!(matches!(d, Directive::LoadModule { rewireable_tag: Some(_), .. }));
    }
    let routes = channel_routes(&ch);
    assert_eq!(routes[0].capture, CaptureSide::SinkMonitor);
    assert_eq!(routes[0].capture_name, "capture.voice-fx-pre");
    assert_eq!(routes[0].playback_target, "tideline-fx-123456789abcdef0123456789abcdef0");
    assert_eq!(routes[2].playback_target, "hp_out");
}

#[test]
fn input_channel_emits_destroy_then_one_per_source_then_one_post() {
    let ch = route_channel(ChannelKind::Input);
    let dirs = build_directives_for_channel(&ch, &vec![effect(1, "x")]);
    assert_eq!(dirs.len(), 4);
    assert!(matches!(dirs[0], Directive::DestroyModule { .. }));
    let routes = channel_routes(&ch);
    assert_eq!(routes[1].capture_name, "capture.voice-fx-src-1");
    assert_eq!(routes[1].capture_target, "alsa_in.1");
    assert_eq!(routes[2].playback, PlaybackSide::Target);
    assert_eq!(routes[2].playback_target, "voice_sink");
}

#[test]
fn physical_input_with_empty_source_emits_nothing() {
    let mut ch = route_channel(ChannelKind::PhysicalInput);
    ch.physical_source = String::new();
    assert!(build_directives_for_channel(&ch, &vec![effect(1, "x")]).is_empty());
}

#[test]
fn physical_input_routes_through_virtual_source() {
    let ch = route_channel(ChannelKind::PhysicalInput);
    let dirs = build_directives_for_channel(&ch, &vec![effect(1, "x")]);
    assert_eq!(dirs.len(), 5);
    match &dirs[2] {
        Directive::LoadModule { module, playback_props, .. } => {
            assert_eq!(module, "libpipewire-module-loopback");
            assert_eq!(playback_props[1], ("target.object".to_string(), PropValue::Quoted("fx_source.voice".to_string())));
            assert_eq!(playback_props[2], ("node.autoconnect".to_string(), PropValue::Literal("false".to_string())));
            assert_eq!(playback_props.len(), 4);
        }
        other => panic!("expected a loopback, got {other:?}"),
    }
    match &dirs[3] {
        Directive::LoadModule { playback_props, .. } => {
            assert_eq!(playback_props[1], ("target.object".to_string(), PropValue::Quoted("out_a".to_string())));
            assert!(playback_props.iter().all(|(k, _)| k != "node.autoconnect"));
        }
        other => panic!("expected a loopback, got {other:?}"),
    }
}

#[test]
fn all_effects_bypassed_emits_only_destroy() {
    let ch = route_channel(ChannelKind::Output);
    let mut e = effect(1, "x");
    e.bypassed = true;
    let dirs = build_directives_for_channel(&ch, &vec![e]);
    assert_eq!(dirs.len(), 1);
    match &dirs[0] {
        Directive::DestroyModule { target_tag } => {
            assert_eq!(target_tag.channel_uuid, "12345678-9abc-def0-1234-56789abcdef0");
            assert_eq!(target_tag.role, "output_loopback");
        }
        other => panic!("expected a destroy, got {other:?}"),
    }
    assert!(!chain_should_apply(&vec![], false));
    assert!(!chain_should_apply(&vec![effect(1, "x")], true));
    assert!(chain_should_apply(&vec![effect(1, "x")], false));
}

#[test]
fn audition_phases() {
    let mut a = Audition::new();
    assert!(a.check_start_record("").is_err());
    assert!(a.check_start_record("mic").is_ok());
    a.record_started(5, "/tmp/s.wav".to_string());
    assert_eq!(a.status_for(5, true), AuditionStatus { channel_uuid: Some(5), phase: AuditionPhase::Recording, has_sample: true });
    assert_eq!(a.status_for(6, true), AuditionStatus { channel_uuid: None, phase: AuditionPhase::Idle, has_sample: false });
    let busy = a.check_start_record("mic").unwrap_err();
    assert_eq!(busy, "audition busy on channel 00000000-0000-0000-0000-000000000005 (phase Recording)");
    assert_eq!(
        a.check_stop_record(6).unwrap_err(),
        "audition belongs to 00000000-0000-0000-0000-000000000005, not 00000000-0000-0000-0000-000000000006"
    );
    assert!(a.check_stop_record(5).is_ok());
    assert_eq!(a.record_stopped().unwrap(), "/tmp/s.wav");
    assert_eq!(a.check_start_loop(5).unwrap(), "/tmp/s.wav");
    a.set_phase(AuditionPhase::Looping);
    assert_eq!(a.check_pause_loop(5, 0).unwrap_err(), "audition pid not yet known — try again");
    assert!(a.check_pause_loop(5, 42).is_ok());
    a.set_phase(AuditionPhase::Paused);
    assert_eq!(a.check_save(5).unwrap_err(), "cannot save while phase is Paused — stop the loop first");
    assert!(a.check_resume_loop(5, 42).is_ok());
    assert!(a.check_stop_loop(5).is_ok());
    a.set_phase(AuditionPhase::Idle);
    assert_eq!(a.check_stop_loop(5).unwrap_err(), "not looping (phase Idle)");
    assert!(a.discard(Some(6)).is_none());
    let gone = a.discard(None).unwrap();
    assert!(gone.owns_sample);
    assert!(a.session.is_none());
    assert_eq!(a.check_save(5).unwrap_err(), "no audition session");
}

#[test]
fn audition_loaded_file_is_not_owned() {
    let mut a = Audition::new();
    assert!(a.check_load_file().is_ok());
    a.file_loaded(1, "/home/u/x.wav".to_string());
    assert_eq!(a.check_save(1).unwrap(), "/home/u/x.wav");
    let s = a.discard(Some(1)).unwrap();
    assert!(!s.owns_sample);
}

#[test]
fn file_uri_loses_its_scheme() {
    assert_eq!(file_uri_to_path("file:///usr/lib/lv2/gate.lv2/gate_ui.so"), "/usr/lib/lv2/gate.lv2/gate_ui.so");
    assert_eq!(file_uri_to_path("file://"), "");
}

#[test]
fn non_file_uri_is_kept() {
    assert_eq!(file_uri_to_path("/usr/lib/lv2/x.so"), "/usr/lib/lv2/x.so");
    assert_eq!(file_uri_to_path("http://lsp-plug.in/ui"), "http://lsp-plug.in/ui");
    assert_eq!(file_uri_to_path("FILE:///x"), "FILE:///x");
}

#[test]
fn saved_chains_default_to_current_version() {
    assert_eq!(default_version(), 2);
    assert_eq!(default_version(), PERSIST_VERSION);
}

#[test]
fn text_order_follows_str_order() {
    let cases = [("a", "b"), ("b", "a"), ("ab", "abc"), ("abc", "ab"), ("abc", "abc"), ("Z", "a"), ("\u{e9}", "z"), ("", "a"), ("", "")];
    for (a, b) in cases {
        assert_eq!(text_less(a, b), a < b, "{a:?} < {b:?}");
    }
}

#[test]
fn player_ports_are_the_trimmed_lines_of_the_node() {
    let listing = "tideline-audition-x:output_FR\n  tideline-audition-x:output_FL  \nother:out\ntideline-audition-xy:output_MONO\r\n";
    let ports = node_ports(listing, "tideline-audition-x");
    assert_eq!(ports, vec!["tideline-audition-x:output_FR".to_string(), "tideline-audition-x:output_FL".to_string()]);
}

#[test]
fn stereo_player_links_in_sorted_order() {
    let listing = "tideline-audition-x:output_FR\n  tideline-audition-x:output_FL  \nother:out\n";
    let pairs = audition_link_pairs(listing, "tideline-audition-x", "tideline-fx-abc").unwrap();
    assert_eq!(
        pairs,
        vec![
            ("tideline-audition-x:output_FL".to_string(), "tideline-fx-abc:in_FL".to_string()),
            ("tideline-audition-x:output_FR".to_string(), "tideline-fx-abc:in_FR".to_string()),
        ]
    );
}

#[test]
fn mono_player_feeds_both_inputs() {
    let listing = "alsa:capture_1\ntideline-audition-x:output_MONO\n";
    let pairs = audition_link_pairs(listing, "tideline-audition-x", "fx").unwrap();
    assert_eq!(
        pairs,
        vec![
            ("tideline-audition-x:output_MONO".to_string(), "fx:in_FL".to_string()),
            ("tideline-audition-x:output_MONO".to_string(), "fx:in_FR".to_string()),
        ]
    );
}

#[test]
fn three_ports_link_the_two_smallest() {
    let listing = "n:c\nn:a\nn:b\n";
    let pairs = audition_link_pairs(listing, "n", "fx").unwrap();
    assert_eq!(pairs[0].0, "n:a");
    assert_eq!(pairs[1].0, "n:b");
}

#[test]
fn no_player_ports_yet() {
    assert_eq!(audition_link_pairs("", "tideline-audition-x", "fx"), None);
    assert_eq!(audition_link_pairs("tideline-audition-xy:output_FL\n", "tideline-audition-x", "fx"), None);
}

#[test]
fn existing_link_counts_as_linked() {
    assert!(link_succeeded(true, ""));
    assert!(link_succeeded(false, "failed to link ports: File exists"));
    assert!(!link_succeeded(false, "failed to link ports: No such file or directory"));
}

#[test]
fn player_node_is_named_after_the_client() {
    assert_eq!(player_node_name("tideline-fx-0123abcd"), "tideline-audition-0123abcd");
    assert_eq!(player_node_name("custom-client"), "tideline-audition-custom-client");
    assert_eq!(player_node_props("tideline-audition-0123abcd"), "node.name=tideline-audition-0123abcd,node.autoconnect=false");
}

#[test]
fn player_steps_after_each_kind_of_exit() {
    assert_eq!(next_player_step(3, PlayerExit::Finished), (0, PlayerStep::Restart { delay_ms: 0 }));
    assert_eq!(next_player_step(3, PlayerExit::WaitFailed), (3, PlayerStep::Restart { delay_ms: 200 }));
    assert_eq!(next_player_step(0, PlayerExit::SpawnFailed), (1, PlayerStep::Restart { delay_ms: 500 }));
    assert_eq!(next_player_step(4, PlayerExit::ExitedWithError), (5, PlayerStep::Restart { delay_ms: 200 }));
    assert_eq!(next_player_step(5, PlayerExit::SpawnFailed), (6, PlayerStep::GiveUp));
    assert_eq!(next_player_step(5, PlayerExit::ExitedWithError), (6, PlayerStep::GiveUp));
}

#[test]
fn player_gives_up_on_the_sixth_failure_in_a_row() {
    let mut failures = 0;
    let mut runs = 0;
    loop {
        runs += 1;
        let (f, step) = next_player_step(failures, PlayerExit::ExitedWithError);
        failures = f;
        if step == PlayerStep::GiveUp {
            break;
        }
        assert!(failures <= PLAYER_FAILURE_LIMIT);
    }
    assert_eq!(runs, 6);
}

#[test]
fn all_directives_cover_only_channels_whose_chain_applies() {
    let mut with_fx = route_channel(ChannelKind::Output);
    with_fx.uuid = 1;
    let mut bypassed = route_channel(ChannelKind::Input);
    bypassed.uuid = 2;
    let mut empty = route_channel(ChannelKind::PhysicalInput);
    empty.uuid = 3;
    let mut input = route_channel(ChannelKind::Input);
    input.uuid = 4;
    let expected_first = build_directives_for_channel(&with_fx, &vec![effect(10, "a")]);
    let expected_last = build_directives_for_channel(&input, &vec![effect(11, "b"), effect(12, "c")]);
    let channels = vec![
        ContributedChannel { route: with_fx, data: ChannelEffectsData { effects: vec![effect(10, "a")], chain_bypassed: false } },
        ContributedChannel { route: bypassed, data: ChannelEffectsData { effects: vec![effect(13, "d")], chain_bypassed: true } },
        ContributedChannel { route: empty, data: ChannelEffectsData { effects: vec![], chain_bypassed: false } },
        ContributedChannel {
            route: input,
            data: ChannelEffectsData { effects: vec![effect(11, "b"), effect(12, "c")], chain_bypassed: false },
        },
    ];
    let all = build_all_directives(&channels);
    assert_eq!(all.len(), expected_first.len() + expected_last.len());
    assert_eq!(all[..expected_first.len()], expected_first[..]);
    assert_eq!(all[expected_first.len()..], expected_last[..]);
}

#[test]
fn all_directives_of_nothing_is_nothing() {
    assert!(build_all_directives(&vec![]).is_empty());
}

#[test]
fn attached_data_becomes_saved_chains() {
    let mut e2 = effect(21, "b");
    e2.bypassed = true;
    let entries = vec![
        (5u128, ChannelEffectsData { effects: vec![effect(20, "a")], chain_bypassed: true }),
        (6u128, ChannelEffectsData { effects: vec![], chain_bypassed: true }),
        (7u128, ChannelEffectsData { effects: vec![e2.clone()], chain_bypassed: false }),
    ];
    let p = persisted_from_attached(&entries);
    assert_eq!(p.version, 2);
    assert_eq!(p.channels.len(), 2);
    let five = p.channels.get(&5).unwrap();
    assert!(five.bypassed && !five.lowcut && !five.clipguard);
    assert_eq!(five.input_gain, UNITY_GAIN_BITS);
    assert_eq!(five.effects, vec![effect(20, "a")]);
    assert!(p.channels.get(&6).is_none());
    let seven = p.channels.get(&7).unwrap();
    assert!(!seven.bypassed);
    assert_eq!(seven.effects, vec![e2]);
}

#[test]
fn later_attached_data_for_a_channel_wins() {
    let entries = vec![
        (5u128, ChannelEffectsData { effects: vec![effect(20, "a")], chain_bypassed: false }),
        (5u128, ChannelEffectsData { effects: vec![effect(30, "z")], chain_bypassed: true }),
    ];
    let p = persisted_from_attached(&entries);
    assert_eq!(p.channels.len(), 1);
    let five = p.channels.get(&5).unwrap();
    assert!(five.bypassed);
    assert_eq!(five.effects, vec![effect(30, "z")]);
}

fn output_channel_one_mix(sink: &str) -> ChannelRoute {
    let mut ch = route_channel(ChannelKind::Output);
    ch.mixes = vec![MixRoute {
        sinks: vec![sink.to_string()],
        capture_nodes: vec!["capture.voice-main-0".to_string()],
        playback_nodes: vec!["playback.voice-main-0".to_string()],
    }];
    ch
}

fn lsp_effect(id: u128, uri: &str) -> Effect {
    Effect {
        id,
        format: Format::Lv2,
        uri: uri.to_string(),
        display_name: "Effect".to_string(),
        bypassed: false,
        state_b64: None,
    }
}

fn one_effect_data() -> ChannelEffectsData {
    ChannelEffectsData { effects: vec![lsp_effect(0, "http://lsp-plug.in/plugins/lv2/gate_mono")], chain_bypassed: false }
}

fn three_effect_data() -> ChannelEffectsData {
    ChannelEffectsData {
        effects: vec![
            lsp_effect(1, "http://lsp-plug.in/plugins/lv2/gate_stereo"),
            lsp_effect(2, "http://lsp-plug.in/plugins/lv2/para_equalizer_x16_stereo"),
            lsp_effect(3, "http://lsp-plug.in/plugins/lv2/sc_compressor_stereo"),
        ],
        chain_bypassed: false,
    }
}

#[test]
fn empty_chain_yields_no_directives() {
    let ch = output_channel_one_mix("alsa_output.pci-0000_00_1f.3.analog-stereo");
    let dirs = build_all_directives(&vec![ContributedChannel { route: ch, data: ChannelEffectsData::default() }]);
    assert!(dirs.is_empty());
}

#[test]
fn chain_bypassed_yields_no_directives() {
    let mut data = one_effect_data();
    data.chain_bypassed = true;
    let ch = output_channel_one_mix("default");
    assert!(build_all_directives(&vec![ContributedChannel { route: ch, data }]).is_empty());
}

#[test]
fn three_effect_chain_emits_one_pre_and_one_post() {
    let ch = output_channel_one_mix("default_sink");
    let dirs = build_all_directives(&vec![ContributedChannel { route: ch, data: three_effect_data() }]);
    assert_eq!(dirs.len(), 3);
    assert!(matches!(dirs[0], Directive::DestroyModule { .. }));
}

#[test]
fn bypassed_effect_skipped_from_chain() {
    let mut data = three_effect_data();
    data.effects[1].bypassed = true;
    let ch = output_channel_one_mix("default_sink");
    let dirs = build_all_directives(&vec![ContributedChannel { route: ch, data }]);
    assert_eq!(dirs.len(), 3);
}

#[test]
fn channel_card_variant_reflects_chain_state() {
    assert_eq!(channel_card_variant(false), "ghost");
    assert_eq!(channel_card_variant(true), "primary");
}

#[test]
fn path_equality_follows_components() {
    assert!(paths_equal("/usr/lib/lv2", "/usr/lib/lv2/"));
    assert!(paths_equal("/usr//lib/./lv2", "/usr/lib/lv2"));
    assert!(paths_equal("a/b/.", "a/b"));
    assert!(!paths_equal("./a", "a"));
    assert!(!paths_equal("/a", "a"));
    assert!(!paths_equal("a/../b", "b"));
    assert!(paths_equal("", ""));
    for (a, b) in [("/usr/lib/lv2", "/usr/lib/lv2/"), ("./a", "a"), ("a//b", "a/b"), ("/", "//"), (".", "./"), ("x", "y")] {
        assert_eq!(paths_equal(a, b), std::path::Path::new(a) == std::path::Path::new(b), "{a:?} {b:?}");
    }
}

#[test]
fn default_search_paths() {
    let p = plugin_search_paths("/home/u", None, None, None);
    let expected: Vec<(Format, String)> = vec![
        (Format::Lv2, "/usr/lib/lv2".into()),
        (Format::Lv2, "/usr/local/lib/lv2".into()),
        (Format::Lv2, "/home/u/.lv2".into()),
        (Format::Vst3, "/usr/lib/vst3".into()),
        (Format::Vst3, "/usr/local/lib/vst3".into()),
        (Format::Vst3, "/home/u/.vst3".into()),
        (Format::Vst2, "/usr/lib/vst".into()),
        (Format::Vst2, "/usr/local/lib/vst".into()),
        (Format::Vst2, "/home/u/.vst".into()),
    ];
    assert_eq!(p, expected);
    assert_eq!(plugin_search_paths("/", None, None, None)[2], (Format::Lv2, "/.lv2".to_string()));
}

#[test]
fn env_search_paths_are_added_once() {
    let p = plugin_search_paths(
        "/home/u",
        Some(" /opt/lv2 : /usr/lib/lv2/ ::/opt/lv2"),
        Some("/usr/lib/lv2"),
        None,
    );
    assert_eq!(p.len(), 11);
    assert_eq!(p[9], (Format::Lv2, "/opt/lv2".to_string()));
    assert_eq!(p[10], (Format::Vst3, "/usr/lib/lv2".to_string()));
}

#[test]
fn hidden_entries_do_not_count() {
    let names: Vec<String> = vec![".cache".into(), "gate.lv2".into(), "".into(), "eq.lv2".into(), ".x".into()];
    assert_eq!(visible_entry_count(&names), 3);
    assert_eq!(visible_entry_count(&vec![]), 0);
}

#[test]
fn attached_snapshot_restores_chain() {
    let mut state = ChainState::new();
    let channel = 9u128;
    state.attach_effect(channel, effect(1, "a"));
    state.attach_effect(channel, effect(2, "b"));
    state.set_chain_bypass(channel, true);
    state.set_lowcut(channel, true);
    let snap = state.snapshot_channel(channel);
    let restored = persisted_from_attached(&vec![(channel, snap)]);
    let rec = restored.channels.get(&channel).unwrap();
    assert_eq!(rec.effects, vec![effect(1, "a"), effect(2, "b")]);
    assert!(rec.bypassed);
    assert!(!rec.lowcut);
    let empty = ChainState::new().snapshot_channel(channel);
    assert!(persisted_from_attached(&vec![(channel, empty)]).channels.get(&channel).is_none());
}

#[test]
fn home_folder_join_keeps_one_separator() {
    let p = plugin_search_paths("/home/u/", None, None, None);
    assert_eq!(p[2].1, "/home/u/.lv2");
    let q = plugin_search_paths("", None, None, None);
    assert_eq!(q[2].1, ".lv2");
}

#[test]
fn render_overlay_returns_ghost_for_empty_chain() {
    let state = ChainState::new();
    assert!(check_overlay_surface("channel_card").is_ok());
    assert_eq!(channel_card_variant(!state.chain_order(0).is_empty()), "ghost");
}

#[test]
fn render_overlay_returns_primary_when_chain_present() {
    let mut state = ChainState::new();
    state.attach_effect(5, Effect::new_lv2("uri".to_string()));
    assert_eq!(channel_card_variant(!state.chain_order(5).is_empty()), "primary");
}

#[test]
fn render_overlay_unknown_slot_is_invalid_params() {
    assert!(check_overlay_surface("nope").is_err());
}

#[test]
fn add_reorder_remove_cycle() {
    let mut state = ChainState::new();
    let channel = 42u128;
    let e1 = Effect::new_lv2("http://lsp-plug.in/plugins/lv2/gate_mono".to_string());
    let e2 = Effect::new_lv2("http://lsp-plug.in/plugins/lv2/gate_mono".to_string());
    assert_ne!(e1.id, e2.id);
    let (id1, id2) = (e1.id, e2.id);
    state.attach_effect(channel, e1);
    state.attach_effect(channel, e2);
    assert_eq!(state.chain_order(channel), vec![id1, id2]);
    state.set_chain_order(channel, vec![id2, id1]);
    assert_eq!(state.chain_order(channel), vec![id2, id1]);
    state.detach_effect(channel, id2);
    state.detach_effect(channel, id1);
    assert!(state.chain_order(channel).is_empty());
    assert!(state.channels_with_effects().is_empty());
}

#[test]
fn lsp_entries_are_recognized_per_folder() {
    assert!(is_lsp_entry(true, "LSP Compressor Stereo.vst3"));
    assert!(is_lsp_entry(true, "lsp-plugins.vst3"));
    assert!(!is_lsp_entry(true, "x42-eq.vst3"));
    assert!(!is_lsp_entry(true, "my-lsp-plugins.vst3"));
    assert!(is_lsp_entry(false, "lsp-plugins.lv2"));
    assert!(is_lsp_entry(false, "my-lsp-plugins.lv2"));
    assert!(!is_lsp_entry(false, "LSP.lv2"));
    assert!(!is_lsp_entry(false, "ls"));
}

#[test]
fn chain_toggle_is_on_unless_bypassed() {
    assert!(chain_power_on(false));
    assert!(!chain_power_on(true));
}

#[test]
fn new_effects_get_version_four_ids() {
    for _ in 0..8 {
        let e = Effect::new_lv2("uri".to_string());
        assert_eq!(e.id & 0xF000_C000_0000_0000_0000u128, 0x4000_8000_0000_0000_0000u128);
    }
}

#[test]
fn id_text_round_trips() {
    let id = 0x8fc82af3_1dfc_41ce_8eb0_528e68852657u128;
    assert_eq!(id_text(id), "8fc82af3-1dfc-41ce-8eb0-528e68852657");
    assert_eq!(id_from_text(&id_text(id)), Some(id));
    assert_eq!(id_from_text("nope"), None);
}

#[test]
fn first_version_files_hold_lv2_effects() {
    assert_eq!(saved_effect_format(false, None), Some(Format::Lv2));
    assert_eq!(saved_effect_format(false, Some(Format::Vst3)), Some(Format::Vst3));
    assert_eq!(saved_effect_format(true, Some(Format::Vst2)), Some(Format::Vst2));
    assert_eq!(saved_effect_format(true, None), None);
}

#[test]
fn unversioned_files_are_read_as_current() {
    assert_eq!(saved_file_version(false, None), Some(PERSIST_VERSION));
    assert_eq!(saved_file_version(true, Some(2)), Some(2));
    assert_eq!(saved_file_version(true, None), None);
}
