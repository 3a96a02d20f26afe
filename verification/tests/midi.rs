use shed_power::midi::{
    import_legacy_binding, learn_target, legacy_midi_target, parse_legacy_midi_key,
    parse_legacy_param_target, parse_looper_source_learn_target, resolve_midi_message,
    routing_change, BindingKind, MidiCommand, is_priority_port, midi_message_fields,
    port_connection_order, is_auto_connect_name, is_priority_name,
};
use shed_power::midi_map::{MidiMap, MidiTarget};
use shed_power::sources::LooperSource;

#[test]
fn factory_map_binds_the_looper_controllers() {
    let mut map = MidiMap::new();
    assert_eq!(map.active_context, "synth");
    assert_eq!(map.get_target(0xB0, 1), None);

    map.active_context = "looper".to_string();
    assert_eq!(map.get_target(0xB0, 1), Some(MidiTarget::LooperRecord(0)));
    assert_eq!(map.get_target(0xB0, 5), Some(MidiTarget::LooperRecord(4)));
    assert_eq!(map.get_target(0xB0, 6), Some(MidiTarget::LooperToggle(0)));
    assert_eq!(map.get_target(0xB0, 10), Some(MidiTarget::LooperToggle(4)));
    assert_eq!(map.get_target(0xB0, 11), Some(MidiTarget::LooperSelect(0)));
    assert_eq!(map.get_target(0xB0, 15), Some(MidiTarget::LooperSelect(4)));
    assert_eq!(map.get_target(0xB0, 16), None);
    assert_eq!(map.get_target(0x90, 1), None);
    assert_eq!(map.get_target(0xE0, 1), None);
}

#[test]
fn learning_binds_in_the_active_context() {
    let mut map = MidiMap::new();
    assert!(map.learn(0xB0, 20, MidiTarget::Param(3)));
    assert_eq!(map.get_target(0xB0, 20), Some(MidiTarget::Param(3)));
    assert!(map.learn(0x90, 60, MidiTarget::JamPlay));
    assert_eq!(map.get_target(0x90, 60), Some(MidiTarget::JamPlay));
    assert_eq!(map.get_target(0x80, 60), Some(MidiTarget::JamPlay));
    assert!(!map.learn(0xE0, 1, MidiTarget::MicGain));

    map.active_context = "mpc".to_string();
    assert_eq!(map.get_target(0xB0, 20), None);
    map.assign_cc(&"mpc".to_string(), 20, MidiTarget::MpcParam(0));
    assert_eq!(map.get_target(0xB0, 20), Some(MidiTarget::MpcParam(0)));
    map.assign_note(&"mpc".to_string(), 36, MidiTarget::Note(36));
    assert_eq!(map.get_target(0x90, 36), Some(MidiTarget::Note(36)));
}

#[test]
fn relearning_a_controller_replaces_its_target() {
    let mut map = MidiMap::new();
    map.active_context = "looper".to_string();
    assert!(map.learn(0xB0, 1, MidiTarget::LooperUndo(2)));
    assert_eq!(map.get_target(0xB0, 1), Some(MidiTarget::LooperUndo(2)));
    assert_eq!(map.get_target(0xB0, 2), Some(MidiTarget::LooperRecord(1)));
}

#[test]
fn messages_resolve_to_commands() {
    let mut map = MidiMap::new();
    assert_eq!(
        resolve_midi_message(&map, 0x90, 60, 100),
        Some(MidiCommand::NoteOn { note: 60, velocity: 100 })
    );
    assert_eq!(resolve_midi_message(&map, 0x90, 60, 0), Some(MidiCommand::NoteOff { note: 60 }));
    assert_eq!(resolve_midi_message(&map, 0x80, 60, 10), Some(MidiCommand::NoteOff { note: 60 }));
    assert_eq!(resolve_midi_message(&map, 0xB0, 1, 127), None);

    map.active_context = "looper".to_string();
    assert_eq!(resolve_midi_message(&map, 0x90, 60, 100), None);
    assert_eq!(
        resolve_midi_message(&map, 0xB0, 3, 127),
        Some(MidiCommand::Record { part_id: 2 })
    );
    assert_eq!(resolve_midi_message(&map, 0xB0, 3, 10), None);
    assert_eq!(
        resolve_midi_message(&map, 0xB0, 8, 64),
        Some(MidiCommand::ToggleLooper { part_id: 2 })
    );

    map.assign_cc(&"looper".to_string(), 30, MidiTarget::Param(2));
    assert_eq!(
        resolve_midi_message(&map, 0xB0, 30, 5),
        Some(MidiCommand::SetParam { id: 2, level: 5 })
    );
    map.assign_cc(&"looper".to_string(), 31, MidiTarget::MicGain);
    assert_eq!(
        resolve_midi_message(&map, 0xB0, 31, 90),
        Some(MidiCommand::SetMicGain { level: 90 })
    );
    map.assign_cc(&"looper".to_string(), 32, MidiTarget::Transport(1));
    assert_eq!(resolve_midi_message(&map, 0xB0, 32, 127), Some(MidiCommand::Stop));
    map.assign_cc(&"looper".to_string(), 33, MidiTarget::Transport(9));
    assert_eq!(resolve_midi_message(&map, 0xB0, 33, 127), None);
    map.assign_cc(
        &"looper".to_string(),
        34,
        MidiTarget::LooperSource { part_id: 1, source: LooperSource::Jam },
    );
    let cmd = resolve_midi_message(&map, 0xB0, 34, 127).unwrap();
    assert_eq!(cmd, MidiCommand::SetLooperPartSource { part_id: 1, source: LooperSource::Jam });
    assert_eq!(routing_change(&cmd), Some((1, LooperSource::Jam)));
    assert_eq!(
        routing_change(&MidiCommand::SetLooperPartInput { part_id: 2, channel: 0 }),
        Some((2, LooperSource::InputMix))
    );
    assert_eq!(routing_change(&MidiCommand::Stop), None);
}

#[test]
fn learn_targets_follow_the_ui_names() {
    assert_eq!(learn_target("param", 4), Some(MidiTarget::Param(4)));
    assert_eq!(learn_target("looper_rec", 2), Some(MidiTarget::LooperRecord(2)));
    assert_eq!(learn_target("looper_active_toggle", 1), Some(MidiTarget::LooperActiveToggle(1)));
    assert_eq!(learn_target("mic_gain", 9), Some(MidiTarget::MicGain));
    assert_eq!(learn_target("jam_prev", 0), Some(MidiTarget::JamPrev));
    assert_eq!(
        learn_target("looper_source_synth", 3),
        Some(MidiTarget::LooperSource { part_id: 3, source: LooperSource::Synth })
    );
    assert_eq!(learn_target("unknown", 1), None);
}

#[test]
fn looper_source_learn_targets_read_their_suffix() {
    assert_eq!(
        parse_looper_source_learn_target("looper_input_mix", 0),
        Some(MidiTarget::LooperSource { part_id: 0, source: LooperSource::InputMix })
    );
    assert_eq!(
        parse_looper_source_learn_target("looper_source_instrument", 4),
        Some(MidiTarget::LooperSource { part_id: 4, source: LooperSource::InstrumentMix })
    );
    assert_eq!(
        parse_looper_source_learn_target("looper_source_12", 2),
        Some(MidiTarget::LooperSource { part_id: 2, source: LooperSource::InputChannel(8) })
    );
    assert_eq!(
        parse_looper_source_learn_target("looper_input_3", 2),
        Some(MidiTarget::LooperSource { part_id: 2, source: LooperSource::InputChannel(3) })
    );
    assert_eq!(parse_looper_source_learn_target("looper_source_x", 2), None);
    assert_eq!(parse_looper_source_learn_target("synth", 2), None);
}

#[test]
fn legacy_keys_and_targets_are_read() {
    assert_eq!(
        parse_legacy_midi_key("looper_note_40"),
        Some(("looper".to_string(), BindingKind::Note, 40))
    );
    assert_eq!(
        parse_legacy_midi_key("mpc_cc_7"),
        Some(("mpc".to_string(), BindingKind::Cc, 7))
    );
    assert_eq!(parse_legacy_midi_key("note_12"), Some(("looper".to_string(), BindingKind::Note, 12)));
    assert_eq!(parse_legacy_midi_key("21"), Some(("looper".to_string(), BindingKind::Cc, 21)));
    assert_eq!(parse_legacy_midi_key("300"), None);
    assert_eq!(parse_legacy_midi_key("synth_cc_1"), None);

    assert_eq!(legacy_midi_target("part_c"), Some(MidiTarget::LooperSelect(2)));
    assert_eq!(legacy_midi_target("looper_stop"), Some(MidiTarget::Transport(1)));
    assert_eq!(legacy_midi_target("mpc_kit"), Some(MidiTarget::MpcParam(1)));
    assert_eq!(legacy_midi_target("p5"), Some(MidiTarget::Param(5)));
    assert_eq!(parse_legacy_param_target("param_7"), Some(MidiTarget::Param(7)));
    assert_eq!(parse_legacy_param_target("param_x"), None);
    assert_eq!(legacy_midi_target("nothing"), None);
}

#[test]
fn legacy_bindings_import_into_their_context() {
    let mut map = MidiMap::new();
    assert!(import_legacy_binding(&mut map, "mpc_note_36", "mpc_swing"));
    assert!(!import_legacy_binding(&mut map, "bad_key_x_y", "looper_rec"));
    assert!(!import_legacy_binding(&mut map, "cc_5", "nothing"));
    map.active_context = "mpc".to_string();
    assert_eq!(map.get_target(0x90, 36), Some(MidiTarget::MpcParam(0)));
}

#[test]
fn controller_ports_are_tried_first() {
    assert!(is_priority_port("Akai MPK Mini"));
    assert!(is_priority_port("USB Audio Device"));
    assert!(is_priority_port("KeyStep"));
    assert!(!is_priority_port("Through Port-0"));
    let names: Vec<String> = vec!["Through".into(), "MPK mini".into(), "Unknown".into(), "Midi Fighter".into()];
    assert_eq!(port_connection_order(&names), vec![1, 3, 0, 2]);
    assert!(port_connection_order(&[]).is_empty());
}

#[test]
fn raw_messages_split_into_status_and_data() {
    assert_eq!(midi_message_fields(&[0x93, 60, 100]), Some((0x90, 60, 100)));
    assert_eq!(midi_message_fields(&[0xB1, 7, 64, 0]), Some((0xB0, 7, 64)));
    assert_eq!(midi_message_fields(&[0x90, 60]), None);
}

#[test]
fn only_akai_style_devices_reconnect_at_once() {
    assert!(shed_power::midi::is_auto_connect_device("AKAI MPK249"));
    assert!(shed_power::midi::is_auto_connect_device("mpk mini"));
    assert!(!shed_power::midi::is_auto_connect_device("USB MIDI Keyboard"));
}

#[test]
fn lowercase_names_decide_priority_and_auto_connect() {
    assert!(is_priority_name("arturia keylab"));
    assert!(is_priority_name("midi through"));
    assert!(!is_priority_name("MPK"));
    assert!(!is_priority_name("loopback"));
    assert!(is_auto_connect_name("akai lpd8"));
    assert!(!is_auto_connect_name("AKAI"));
    assert!(!is_auto_connect_name("usb midi keyboard"));
}
