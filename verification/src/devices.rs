//! Audio and MIDI devices as the hot-plug watcher sees them: the device list
//! built from what the hosts report, and what changed between two scans.
use vstd::prelude::*;
use crate::text::{decimal, owned, push_decimal};

verus! {

broadcast use vstd::string::group_string_axioms;

/// The kind of a device.
#[derive(Debug, Clone, Copy, PartialEq, Eq, Structural)]
pub enum DeviceType {
    MidiInput,
    AudioInput,
    AudioOutput,
}

/// One device: its name as the host reports it, and an id made of its kind
/// and its position in the host's enumeration.
#[derive(Debug)]
pub struct DeviceInfo {
    pub name: String,
    pub id: String,
    pub device_type: DeviceType,
}

impl View for DeviceInfo {
    type V = (Seq<char>, Seq<char>, DeviceType);

    open spec fn view(&self) -> (Seq<char>, Seq<char>, DeviceType) {
        (self.name@, self.id@, self.device_type)
    }
}

/// The devices of a list, by their views.
pub open spec fn devices_view(devices: Seq<DeviceInfo>) -> Seq<(Seq<char>, Seq<char>, DeviceType)> {
    devices.map_values(|d: DeviceInfo| d@)
}

/// The id prefix of a device kind.
pub open spec fn id_prefix(t: DeviceType) -> Seq<char> {
    match t {
        DeviceType::MidiInput => "midi_in_"@,
        DeviceType::AudioInput => "audio_in_"@,
        DeviceType::AudioOutput => "audio_out_"@,
    }
}

/// The id of the device of kind `t` at position `index` of its enumeration.
pub open spec fn device_id(t: DeviceType, index: nat) -> Seq<char> {
    id_prefix(t) + decimal(index)
}

/// The devices of kind `t`, from the names the host reported in enumeration
/// order (`None` where a name could not be read): each named device, with
/// its position in the enumeration in its id.
pub open spec fn named_devices(t: DeviceType, names: Seq<Option<String>>) -> Seq<
    (Seq<char>, Seq<char>, DeviceType),
>
    decreases names.len(),
{
    if names.len() == 0 {
        seq![]
    } else {
        let rest = named_devices(t, names.drop_last());
        match names.last() {
            Some(n) => rest.push((n@, device_id(t, (names.len() - 1) as nat), t)),
            None => rest,
        }
    }
}

/// Whether a device in the list has the id `id`.
pub open spec fn has_id(devices: Seq<DeviceInfo>, id: Seq<char>) -> bool {
    exists|i: int| 0 <= i < devices.len() && (#[trigger] devices[i]).id@ == id
}

/// The devices of `devices` whose id no device of `others` has, in order.
pub open spec fn missing_from(devices: Seq<DeviceInfo>, others: Seq<DeviceInfo>) -> Seq<
    (Seq<char>, Seq<char>, DeviceType),
> {
    devices_view(devices).filter(|d: (Seq<char>, Seq<char>, DeviceType)| !has_id(others, d.1))
}

proof fn lemma_all_known(devices: Seq<DeviceInfo>, others: Seq<DeviceInfo>)
    requires
        forall|i: int| 0 <= i < devices.len() ==> has_id(others, (#[trigger] devices[i]).id@),
    ensures
        missing_from(devices, others).len() == 0,
    decreases devices.len(),
{
    reveal(Seq::filter);
    if devices.len() > 0 {
        let rest = devices.drop_last();
        assert forall|i: int| 0 <= i < rest.len() implies has_id(others, (#[trigger] rest[i]).id@) by {
            assert(rest[i] == devices[i]);
        }
        lemma_all_known(rest, others);
        assert(devices_view(devices).drop_last() =~= devices_view(rest));
        assert(has_id(others, devices[devices.len() - 1].id@));
    }
}

/// Scanning the same devices again reports nothing added and nothing
/// removed.
pub proof fn lemma_rescan_unchanged(devices: Seq<DeviceInfo>)
    ensures
        missing_from(devices, devices).len() == 0,
{
    assert forall|i: int| 0 <= i < devices.len() implies has_id(devices, (#[trigger] devices[i]).id@) by {
        assert(devices[i].id@ == devices[i].id@);
    }
    lemma_all_known(devices, devices);
}

/// The id of the device of kind `t` at position `index`.
fn make_device_id(t: DeviceType, index: usize) -> (r: String)
    ensures
        r@ == device_id(t, index as nat),
{
    let mut id = match t {
        DeviceType::MidiInput => owned("midi_in_"),
        DeviceType::AudioInput => owned("audio_in_"),
        DeviceType::AudioOutput => owned("audio_out_"),
    };
    push_decimal(&mut id, index as u64);
    id
}

/// Appends the named devices of kind `t` to `devices`.
fn push_named_devices(devices: &mut Vec<DeviceInfo>, t: DeviceType, names: &[Option<String>])
    ensures
        devices_view(final(devices)@) == devices_view(old(devices)@) + named_devices(t, names@),
{
    let ghost start = devices_view(devices@);
    let mut i: usize = 0;
    assert(names@.take(0) =~= Seq::<Option<String>>::empty());
    assert(devices_view(devices@) =~= start + named_devices(t, names@.take(0)));
    while i < names.len()
        invariant
            i <= names@.len(),
            devices_view(devices@) == start + named_devices(t, names@.take(i as int)),
        decreases names@.len() - i,
    {
        assert(names@.take(i + 1).drop_last() =~= names@.take(i as int));
        match &names[i] {
            Some(name) => {
                let ghost before = devices@;
                let id = make_device_id(t, i);
                devices.push(DeviceInfo { name: name.clone(), id, device_type: t });
                assert(devices_view(devices@) =~= devices_view(before).push(devices@.last()@));
            },
            None => {},
        }
        i = i + 1;
    }
    assert(names@.take(names@.len() as int) =~= names@);
}

/// The device list of one scan: MIDI inputs, then audio inputs, then audio
/// outputs, each from the names its host reported in enumeration order
/// (`None` where a name could not be read). A device whose name could not be
/// read is left out, but still counts for the positions in the ids.
pub fn describe_devices(
    midi_inputs: &[Option<String>],
    audio_inputs: &[Option<String>],
    audio_outputs: &[Option<String>],
) -> (devices: Vec<DeviceInfo>)
    ensures
        devices_view(devices@) == named_devices(DeviceType::MidiInput, midi_inputs@) + named_devices(
            DeviceType::AudioInput,
            audio_inputs@,
        ) + named_devices(DeviceType::AudioOutput, audio_outputs@),
{
    let mut devices: Vec<DeviceInfo> = Vec::new();
    assert(devices_view(devices@) =~= Seq::<(Seq<char>, Seq<char>, DeviceType)>::empty());
    push_named_devices(&mut devices, DeviceType::MidiInput, midi_inputs);
    push_named_devices(&mut devices, DeviceType::AudioInput, audio_inputs);
    push_named_devices(&mut devices, DeviceType::AudioOutput, audio_outputs);
    devices
}

/// Whether a device in the list has the id `id`.
fn contains_id(devices: &[DeviceInfo], id: &String) -> (r: bool)
    ensures
        r == has_id(devices@, id@),
{
    let mut i: usize = 0;
    while i < devices.len()
        invariant
            i <= devices@.len(),
            forall|k: int| 0 <= k < i ==> (#[trigger] devices@[k]).id@ != id@,
        decreases devices@.len() - i,
    {
        if devices[i].id == *id {
            return true;
        }
        i = i + 1;
    }
    false
}

/// The devices of `devices` whose id no device of `others` has, in order.
fn devices_missing_from(devices: &[DeviceInfo], others: &[DeviceInfo]) -> (r: Vec<DeviceInfo>)
    ensures
        devices_view(r@) == missing_from(devices@, others@),
{
    let mut r: Vec<DeviceInfo> = Vec::new();
    let mut i: usize = 0;
    assert(devices_view(devices@.take(0)).filter(
        |d: (Seq<char>, Seq<char>, DeviceType)| !has_id(others@, d.1),
    ) =~= Seq::<(Seq<char>, Seq<char>, DeviceType)>::empty()) by {
        reveal(Seq::filter);
    }
    while i < devices.len()
        invariant
            i <= devices@.len(),
            devices_view(r@) == devices_view(devices@.take(i as int)).filter(
                |d: (Seq<char>, Seq<char>, DeviceType)| !has_id(others@, d.1),
            ),
        decreases devices@.len() - i,
    {
        proof {
            reveal(Seq::filter);
            assert(devices_view(devices@.take(i + 1)).drop_last() =~= devices_view(devices@.take(i as int)));
            assert(devices_view(devices@.take(i + 1)).last() == devices@[i as int]@);
        }
        let d = &devices[i];
        if !contains_id(others, &d.id) {
            let ghost before = r@;
            r.push(DeviceInfo { name: d.name.clone(), id: d.id.clone(), device_type: d.device_type });
            assert(devices_view(r@) =~= devices_view(before).push(d@));
        }
        i = i + 1;
    }
    assert(devices@.take(devices@.len() as int) =~= devices@);
    assert(devices_view(devices@) =~= devices_view(devices@.take(devices@.len() as int)));
    r
}

/// What changed between the devices known so far and a new scan: the
/// scanned devices whose id was not known (added), and the known devices
/// whose id the scan lacks (removed). The scan becomes the known list.
pub fn device_changes(known: &mut Vec<DeviceInfo>, current: Vec<DeviceInfo>) -> (r: (
    Vec<DeviceInfo>,
    Vec<DeviceInfo>,
))
    ensures
        devices_view(r.0@) == missing_from(current@, old(known)@),
        devices_view(r.1@) == missing_from(old(known)@, current@),
        final(known)@ == current@,
{
    let added = devices_missing_from(&current, known);
    let removed = devices_missing_from(known, &current);
    *known = current;
    (added, removed)
}

/// The audio devices of a list (inputs and outputs), in order.
pub fn audio_devices(devices: &[DeviceInfo]) -> (r: Vec<DeviceInfo>)
    ensures
        devices_view(r@) == devices_view(devices@).filter(
            |d: (Seq<char>, Seq<char>, DeviceType)| d.2 != DeviceType::MidiInput,
        ),
{
    let mut r: Vec<DeviceInfo> = Vec::new();
    let mut i: usize = 0;
    assert(devices_view(devices@.take(0)).filter(
        |d: (Seq<char>, Seq<char>, DeviceType)| d.2 != DeviceType::MidiInput,
    ) =~= Seq::<(Seq<char>, Seq<char>, DeviceType)>::empty()) by {
        reveal(Seq::filter);
    }
    while i < devices.len()
        invariant
            i <= devices@.len(),
            devices_view(r@) == devices_view(devices@.take(i as int)).filter(
                |d: (Seq<char>, Seq<char>, DeviceType)| d.2 != DeviceType::MidiInput,
            ),
        decreases devices@.len() - i,
    {
        proof {
            reveal(Seq::filter);
            assert(devices_view(devices@.take(i + 1)).drop_last() =~= devices_view(devices@.take(i as int)));
            assert(devices_view(devices@.take(i + 1)).last() == devices@[i as int]@);
        }
        let d = &devices[i];
        match d.device_type {
            DeviceType::MidiInput => {},
            _ => {
                let ghost before = r@;
                r.push(DeviceInfo { name: d.name.clone(), id: d.id.clone(), device_type: d.device_type });
                assert(devices_view(r@) =~= devices_view(before).push(d@));
            },
        }
        i = i + 1;
    }
    assert(devices@.take(devices@.len() as int) =~= devices@);
    assert(devices_view(devices@) =~= devices_view(devices@.take(devices@.len() as int)));
    r
}

} // verus!
