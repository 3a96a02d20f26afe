use shed_power::devices::{audio_devices, describe_devices, device_changes, DeviceInfo, DeviceType};

fn names(list: &[&str]) -> Vec<Option<String>> {
    list.iter().map(|n| if n.is_empty() { None } else { Some(n.to_string()) }).collect()
}

fn ids(devices: &[DeviceInfo]) -> Vec<String> {
    devices.iter().map(|d| d.id.clone()).collect()
}

#[test]
fn scans_list_midi_then_audio_devices_with_positional_ids() {
    let devices = describe_devices(&names(&["Keys", "", "Pads"]), &names(&["Mic"]), &names(&["", "Out"]));
    assert_eq!(ids(&devices), vec!["midi_in_0", "midi_in_2", "audio_in_0", "audio_out_1"]);
    assert_eq!(devices[1].name, "Pads");
    assert_eq!(devices[1].device_type, DeviceType::MidiInput);
    assert_eq!(devices[2].device_type, DeviceType::AudioInput);
    assert_eq!(devices[3].device_type, DeviceType::AudioOutput);
    assert!(describe_devices(&[], &[], &[]).is_empty());
}

#[test]
fn changes_report_added_and_removed_ids() {
    let mut known = describe_devices(&names(&["Keys"]), &names(&["Mic"]), &[]);
    let current = describe_devices(&names(&["Keys", "Pads"]), &[], &names(&["Out"]));
    let (added, removed) = device_changes(&mut known, current);
    assert_eq!(ids(&added), vec!["midi_in_1", "audio_out_0"]);
    assert_eq!(ids(&removed), vec!["audio_in_0"]);
    assert_eq!(ids(&known), vec!["midi_in_0", "midi_in_1", "audio_out_0"]);

    let again = describe_devices(&names(&["Keys", "Pads"]), &[], &names(&["Out"]));
    let (added, removed) = device_changes(&mut known, again);
    assert!(added.is_empty());
    assert!(removed.is_empty());
}

#[test]
fn audio_device_lists_skip_midi() {
    let devices = describe_devices(&names(&["Keys"]), &names(&["Mic", "Line"]), &names(&["Out"]));
    let audio = audio_devices(&devices);
    assert_eq!(ids(&audio), vec!["audio_in_0", "audio_in_1", "audio_out_0"]);
    assert_eq!(audio[1].name, "Line");
}
