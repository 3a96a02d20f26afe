//! What incoming MIDI messages do: the command a message triggers, the
//! targets that MIDI learn can arm, and the reading of legacy mapping keys.
use vstd::prelude::*;
use crate::midi_map::{MidiMap, MidiTarget};
use crate::sources::{legacy_channel_source, legacy_channel_to_looper_source, LooperSource};
use crate::text::{
    contains_text, has_substring, parse_u8, split_chars, split_on, str_chars, strip_prefix, text_is,
    u8_text, u8_text_value,
    without_prefix,
};

verus! {

/// A command for the audio engine, as a MIDI message triggers it. Continuous
/// controls carry the raw 7-bit value; the engine scales it.
#[derive(Debug, Clone, Copy, PartialEq, Eq, Structural)]
pub enum MidiCommand {
    /// Synth parameter `id` at `level`/127.
    SetParam { id: u8, level: u8 },
    /// MPC parameter `id` at `level`/127.
    SetMpcParam { id: u8, level: u8 },
    /// Microphone gain at `level`/127 of the full range.
    SetMicGain { level: u8 },
    NoteOn { note: u8, velocity: u8 },
    NoteOff { note: u8 },
    TogglePlayback,
    Stop,
    Record { part_id: usize },
    Overdub { part_id: usize },
    ToggleLooper { part_id: usize },
    SelectPart { part_id: usize },
    ClearPart { part_id: usize },
    Undo { part_id: usize },
    ToggleLooperPartActive { part_id: usize },
    SetLooperPartInput { part_id: usize, channel: u8 },
    SetLooperPartSource { part_id: usize, source: LooperSource },
    /// 0 = play, 1 = stop, 2 = next, 3 = previous.
    JamControl { action: u8 },
}

/// Whether a message presses a button: a note-on with non-zero velocity, or a
/// CC at 64 or above.
pub open spec fn is_press(status: u8, data2: u8) -> bool {
    (status == 0x90 && data2 > 0) || (status == 0xB0 && data2 >= 64)
}

/// The command a message triggers through a mapped target. Buttons fire only
/// on a press; continuous controls and notes follow every message.
pub open spec fn mapped_command(target: MidiTarget, status: u8, data2: u8) -> Option<MidiCommand> {
    let press = is_press(status, data2);
    match target {
        MidiTarget::Param(id) => Some(MidiCommand::SetParam { id, level: data2 }),
        MidiTarget::Note(note) => if status == 0x80 || (status == 0x90 && data2 == 0) {
            Some(MidiCommand::NoteOff { note })
        } else if status == 0x90 && data2 > 0 {
            Some(MidiCommand::NoteOn { note, velocity: data2 })
        } else {
            None
        },
        MidiTarget::MpcParam(id) => Some(MidiCommand::SetMpcParam { id, level: data2 }),
        MidiTarget::Transport(id) => if press && id == 0 {
            Some(MidiCommand::TogglePlayback)
        } else if press && id == 1 {
            Some(MidiCommand::Stop)
        } else if press && id == 2 {
            Some(MidiCommand::Record { part_id: 0 })
        } else {
            None
        },
        MidiTarget::LooperRecord(p) => if press { Some(MidiCommand::Record { part_id: p }) } else { None },
        MidiTarget::LooperOverdub(p) => if press { Some(MidiCommand::Overdub { part_id: p }) } else { None },
        MidiTarget::LooperToggle(p) => if press { Some(MidiCommand::ToggleLooper { part_id: p }) } else { None },
        MidiTarget::LooperSelect(p) => if press { Some(MidiCommand::SelectPart { part_id: p }) } else { None },
        MidiTarget::LooperClear(p) => if press { Some(MidiCommand::ClearPart { part_id: p }) } else { None },
        MidiTarget::LooperUndo(p) => if press { Some(MidiCommand::Undo { part_id: p }) } else { None },
        MidiTarget::LooperActiveToggle(p) => if press {
            Some(MidiCommand::ToggleLooperPartActive { part_id: p })
        } else {
            None
        },
        MidiTarget::LooperSourceInput { part_id, channel } => if press {
            Some(MidiCommand::SetLooperPartInput { part_id, channel })
        } else {
            None
        },
        MidiTarget::LooperSource { part_id, source } => if press {
            Some(MidiCommand::SetLooperPartSource { part_id, source })
        } else {
            None
        },
        MidiTarget::MicGain => Some(MidiCommand::SetMicGain { level: data2 }),
        MidiTarget::JamPlay => if press { Some(MidiCommand::JamControl { action: 0 }) } else { None },
        MidiTarget::JamStop => if press { Some(MidiCommand::JamControl { action: 1 }) } else { None },
        MidiTarget::JamNext => if press { Some(MidiCommand::JamControl { action: 2 }) } else { None },
        MidiTarget::JamPrev => if press { Some(MidiCommand::JamControl { action: 3 }) } else { None },
    }
}

/// The command an unmapped message triggers in a context: in the synth and
/// MPC contexts notes play; everywhere else unmapped messages are ignored.
pub open spec fn unmapped_command(context: Seq<char>, status: u8, data1: u8, data2: u8) -> Option<
    MidiCommand,
> {
    if context == "synth"@ || context == "mpc"@ {
        if status == 0x90 {
            if data2 > 0 {
                Some(MidiCommand::NoteOn { note: data1, velocity: data2 })
            } else {
                Some(MidiCommand::NoteOff { note: data1 })
            }
        } else if status == 0x80 {
            Some(MidiCommand::NoteOff { note: data1 })
        } else {
            None
        }
    } else {
        None
    }
}

/// The command a message (status with the channel masked off, then its two
/// data bytes) triggers under a mapping.
pub open spec fn message_command(map: MidiMap, status: u8, data1: u8, data2: u8) -> Option<
    MidiCommand,
> {
    match map.target_for(status, data1) {
        Some(t) => mapped_command(t, status, data2),
        None => unmapped_command(map.active_context@, status, data1, data2),
    }
}

/// The command a mapped target triggers.
fn command_for_target(target: MidiTarget, status: u8, data2: u8) -> (r: Option<MidiCommand>)
    ensures
        r == mapped_command(target, status, data2),
{
    let press = (status == 0x90 && data2 > 0) || (status == 0xB0 && data2 >= 64);
    match target {
        MidiTarget::Param(id) => Some(MidiCommand::SetParam { id, level: data2 }),
        MidiTarget::Note(note) => {
            if status == 0x80 || (status == 0x90 && data2 == 0) {
                Some(MidiCommand::NoteOff { note })
            } else if status == 0x90 && data2 > 0 {
                Some(MidiCommand::NoteOn { note, velocity: data2 })
            } else {
                None
            }
        },
        MidiTarget::MpcParam(id) => Some(MidiCommand::SetMpcParam { id, level: data2 }),
        MidiTarget::Transport(id) => {
            if !press {
                None
            } else if id == 0 {
                Some(MidiCommand::TogglePlayback)
            } else if id == 1 {
                Some(MidiCommand::Stop)
            } else if id == 2 {
                Some(MidiCommand::Record { part_id: 0 })
            } else {
                None
            }
        },
        MidiTarget::LooperRecord(p) => if press { Some(MidiCommand::Record { part_id: p }) } else { None },
        MidiTarget::LooperOverdub(p) => if press { Some(MidiCommand::Overdub { part_id: p }) } else { None },
        MidiTarget::LooperToggle(p) => if press { Some(MidiCommand::ToggleLooper { part_id: p }) } else { None },
        MidiTarget::LooperSelect(p) => if press { Some(MidiCommand::SelectPart { part_id: p }) } else { None },
        MidiTarget::LooperClear(p) => if press { Some(MidiCommand::ClearPart { part_id: p }) } else { None },
        MidiTarget::LooperUndo(p) => if press { Some(MidiCommand::Undo { part_id: p }) } else { None },
        MidiTarget::LooperActiveToggle(p) => {
            if press {
                Some(MidiCommand::ToggleLooperPartActive { part_id: p })
            } else {
                None
            }
        },
        MidiTarget::LooperSourceInput { part_id, channel } => {
            if press {
                Some(MidiCommand::SetLooperPartInput { part_id, channel })
            } else {
                None
            }
        },
        MidiTarget::LooperSource { part_id, source } => {
            if press {
                Some(MidiCommand::SetLooperPartSource { part_id, source })
            } else {
                None
            }
        },
        MidiTarget::MicGain => Some(MidiCommand::SetMicGain { level: data2 }),
        MidiTarget::JamPlay => if press { Some(MidiCommand::JamControl { action: 0 }) } else { None },
        MidiTarget::JamStop => if press { Some(MidiCommand::JamControl { action: 1 }) } else { None },
        MidiTarget::JamNext => if press { Some(MidiCommand::JamControl { action: 2 }) } else { None },
        MidiTarget::JamPrev => if press { Some(MidiCommand::JamControl { action: 3 }) } else { None },
    }
}

/// The command an incoming message triggers under a mapping.
pub fn resolve_midi_message(map: &MidiMap, status: u8, data1: u8, data2: u8) -> (r: Option<
    MidiCommand,
>)
    ensures
        r == message_command(*map, status, data1, data2),
{
    match map.get_target(status, data1) {
        Some(target) => command_for_target(target, status, data2),
        None => {
            let ctx = str_chars(map.active_context.as_str());
            if text_is(&ctx, "synth") || text_is(&ctx, "mpc") {
                if status == 0x90 {
                    if data2 > 0 {
                        Some(MidiCommand::NoteOn { note: data1, velocity: data2 })
                    } else {
                        Some(MidiCommand::NoteOff { note: data1 })
                    }
                } else if status == 0x80 {
                    Some(MidiCommand::NoteOff { note: data1 })
                } else {
                    None
                }
            } else {
                None
            }
        },
    }
}

/// The routing change a command asks for, if any: a part's source, with
/// legacy channel numbers read as sources.
pub open spec fn routing_change_of(cmd: MidiCommand) -> Option<(usize, LooperSource)> {
    match cmd {
        MidiCommand::SetLooperPartSource { part_id, source } => Some((part_id, source)),
        MidiCommand::SetLooperPartInput { part_id, channel } => Some(
            (part_id, legacy_channel_source(channel)),
        ),
        _ => None,
    }
}

/// The routing change a command asks for, to be persisted.
pub fn routing_change(cmd: &MidiCommand) -> (r: Option<(usize, LooperSource)>)
    ensures
        r == routing_change_of(*cmd),
{
    match cmd {
        MidiCommand::SetLooperPartSource { part_id, source } => Some((*part_id, *source)),
        MidiCommand::SetLooperPartInput { part_id, channel } => Some(
            (*part_id, legacy_channel_to_looper_source(*channel)),
        ),
        _ => None,
    }
}

/// The source named by the suffix of a looper-source learn target, when it
/// names one: a bus name, or an input channel number (clamped to 8).
pub open spec fn learn_source_of(suffix: Seq<char>) -> Option<LooperSource> {
    if suffix == "mix"@ || suffix == "input_mix"@ {
        Some(LooperSource::InputMix)
    } else if suffix == "synth"@ {
        Some(LooperSource::Synth)
    } else if suffix == "mpc"@ {
        Some(LooperSource::Mpc)
    } else if suffix == "jam"@ {
        Some(LooperSource::Jam)
    } else if suffix == "instrument"@ || suffix == "instrument_mix"@ {
        Some(LooperSource::InstrumentMix)
    } else if suffix == "silent"@ {
        Some(LooperSource::Silent)
    } else if u8_text(suffix) {
        Some(
            LooperSource::InputChannel(
                if u8_text_value(suffix) > 8 {
                    8u8
                } else {
                    u8_text_value(suffix) as u8
                },
            ),
        )
    } else {
        None
    }
}

/// The looper-source learn target named by `target_type` (`looper_source_…`
/// or `looper_input_…`) for part `part_id`.
pub open spec fn looper_source_learn_target_of(target_type: Seq<char>, part_id: u8) -> Option<
    MidiTarget,
> {
    let suffix = if without_prefix(target_type, "looper_source_"@) is Some {
        without_prefix(target_type, "looper_source_"@)
    } else {
        without_prefix(target_type, "looper_input_"@)
    };
    match suffix {
        Some(sfx) => match learn_source_of(sfx) {
            Some(source) => Some(MidiTarget::LooperSource { part_id: part_id as usize, source }),
            None => None,
        },
        None => None,
    }
}

fn learn_source(suffix: &[char]) -> (r: Option<LooperSource>)
    ensures
        r == learn_source_of(suffix@),
{
    if text_is(suffix, "mix") || text_is(suffix, "input_mix") {
        Some(LooperSource::InputMix)
    } else if text_is(suffix, "synth") {
        Some(LooperSource::Synth)
    } else if text_is(suffix, "mpc") {
        Some(LooperSource::Mpc)
    } else if text_is(suffix, "jam") {
        Some(LooperSource::Jam)
    } else if text_is(suffix, "instrument") || text_is(suffix, "instrument_mix") {
        Some(LooperSource::InstrumentMix)
    } else if text_is(suffix, "silent") {
        Some(LooperSource::Silent)
    } else {
        match parse_u8(suffix) {
            Some(channel) => Some(LooperSource::InputChannel(if channel > 8 { 8 } else { channel })),
            None => None,
        }
    }
}

/// The looper-source learn target named by a UI target type, if it is one.
pub fn parse_looper_source_learn_target(target_type: &str, part_id: u8) -> (r: Option<MidiTarget>)
    ensures
        r == looper_source_learn_target_of(target_type@, part_id),
{
    let chars = str_chars(target_type);
    let suffix = match strip_prefix(&chars, "looper_source_") {
        Some(rest) => rest,
        None => match strip_prefix(&chars, "looper_input_") {
            Some(rest) => rest,
            None => {
                return None;
            },
        },
    };
    match learn_source(&suffix) {
        Some(source) => Some(MidiTarget::LooperSource { part_id: part_id as usize, source }),
        None => None,
    }
}

/// The target that MIDI learn arms for a UI target type and id.
pub open spec fn learn_target_of(target_type: Seq<char>, id: u8) -> Option<MidiTarget> {
    if target_type == "param"@ {
        Some(MidiTarget::Param(id))
    } else if target_type == "transport"@ {
        Some(MidiTarget::Transport(id))
    } else if target_type == "looper_rec"@ {
        Some(MidiTarget::LooperRecord(id as usize))
    } else if target_type == "looper_overdub"@ {
        Some(MidiTarget::LooperOverdub(id as usize))
    } else if target_type == "looper_toggle"@ {
        Some(MidiTarget::LooperToggle(id as usize))
    } else if target_type == "looper_select"@ {
        Some(MidiTarget::LooperSelect(id as usize))
    } else if target_type == "looper_undo"@ {
        Some(MidiTarget::LooperUndo(id as usize))
    } else if target_type == "looper_clear"@ {
        Some(MidiTarget::LooperClear(id as usize))
    } else if target_type == "looper_active"@ || target_type == "looper_active_toggle"@ {
        Some(MidiTarget::LooperActiveToggle(id as usize))
    } else if target_type == "mic_gain"@ {
        Some(MidiTarget::MicGain)
    } else if target_type == "note"@ {
        Some(MidiTarget::Note(id))
    } else if target_type == "mpc_param"@ {
        Some(MidiTarget::MpcParam(id))
    } else if target_type == "jam_play"@ {
        Some(MidiTarget::JamPlay)
    } else if target_type == "jam_stop"@ {
        Some(MidiTarget::JamStop)
    } else if target_type == "jam_next"@ {
        Some(MidiTarget::JamNext)
    } else if target_type == "jam_prev"@ {
        Some(MidiTarget::JamPrev)
    } else {
        looper_source_learn_target_of(target_type, id)
    }
}

/// The target that MIDI learn arms for a UI target type and id, if the type
/// is known.
pub fn learn_target(target_type: &str, id: u8) -> (r: Option<MidiTarget>)
    ensures
        r == learn_target_of(target_type@, id),
{
    let t = str_chars(target_type);
    if text_is(&t, "param") {
        Some(MidiTarget::Param(id))
    } else if text_is(&t, "transport") {
        Some(MidiTarget::Transport(id))
    } else if text_is(&t, "looper_rec") {
        Some(MidiTarget::LooperRecord(id as usize))
    } else if text_is(&t, "looper_overdub") {
        Some(MidiTarget::LooperOverdub(id as usize))
    } else if text_is(&t, "looper_toggle") {
        Some(MidiTarget::LooperToggle(id as usize))
    } else if text_is(&t, "looper_select") {
        Some(MidiTarget::LooperSelect(id as usize))
    } else if text_is(&t, "looper_undo") {
        Some(MidiTarget::LooperUndo(id as usize))
    } else if text_is(&t, "looper_clear") {
        Some(MidiTarget::LooperClear(id as usize))
    } else if text_is(&t, "looper_active") || text_is(&t, "looper_active_toggle") {
        Some(MidiTarget::LooperActiveToggle(id as usize))
    } else if text_is(&t, "mic_gain") {
        Some(MidiTarget::MicGain)
    } else if text_is(&t, "note") {
        Some(MidiTarget::Note(id))
    } else if text_is(&t, "mpc_param") {
        Some(MidiTarget::MpcParam(id))
    } else if text_is(&t, "jam_play") {
        Some(MidiTarget::JamPlay)
    } else if text_is(&t, "jam_stop") {
        Some(MidiTarget::JamStop)
    } else if text_is(&t, "jam_next") {
        Some(MidiTarget::JamNext)
    } else if text_is(&t, "jam_prev") {
        Some(MidiTarget::JamPrev)
    } else {
        parse_looper_source_learn_target(target_type, id)
    }
}

/// Whether a legacy mapping key binds a controller (CC) or a note.
#[derive(Debug, Clone, Copy, PartialEq, Eq, Structural)]
pub enum BindingKind {
    Cc,
    Note,
}

/// A legacy binding with its number read from `text`, when `text` is a `u8`.
pub open spec fn legacy_binding(ctx: Seq<char>, kind: BindingKind, text: Seq<char>) -> Option<
    (Seq<char>, BindingKind, u8),
> {
    if u8_text(text) {
        Some((ctx, kind, u8_text_value(text) as u8))
    } else {
        None
    }
}

/// The context, kind and number of a browser-era mapping key: the key is
/// split at `_` into `ctx_kind_number`, `kind_number` or `number`, where the
/// context is `looper` or `mpc` (default `looper`) and the kind `cc` or
/// `note` (default `cc`).
pub open spec fn legacy_key_of(key: Seq<char>) -> Option<(Seq<char>, BindingKind, u8)> {
    let p = split_on(key, '_');
    if p.len() == 3 && p[0] == "looper"@ && p[1] == "cc"@ {
        legacy_binding("looper"@, BindingKind::Cc, p[2])
    } else if p.len() == 3 && p[0] == "looper"@ && p[1] == "note"@ {
        legacy_binding("looper"@, BindingKind::Note, p[2])
    } else if p.len() == 3 && p[0] == "mpc"@ && p[1] == "cc"@ {
        legacy_binding("mpc"@, BindingKind::Cc, p[2])
    } else if p.len() == 3 && p[0] == "mpc"@ && p[1] == "note"@ {
        legacy_binding("mpc"@, BindingKind::Note, p[2])
    } else if p.len() == 2 && p[0] == "cc"@ {
        legacy_binding("looper"@, BindingKind::Cc, p[1])
    } else if p.len() == 2 && p[0] == "note"@ {
        legacy_binding("looper"@, BindingKind::Note, p[1])
    } else if p.len() == 1 {
        legacy_binding("looper"@, BindingKind::Cc, p[0])
    } else {
        None
    }
}

fn number_binding(ctx: &str, kind: BindingKind, text: &[char]) -> (r: Option<(String, BindingKind, u8)>)
    ensures
        match r {
            Some(v) => legacy_binding(ctx@, kind, text@) == Some((v.0@, v.1, v.2)),
            None => legacy_binding(ctx@, kind, text@) is None,
        },
{
    match parse_u8(text) {
        Some(n) => Some((ctx.to_owned(), kind, n)),
        None => None,
    }
}

/// Reads a browser-era mapping key.
pub fn parse_legacy_midi_key(key: &str) -> (r: Option<(String, BindingKind, u8)>)
    ensures
        match r {
            Some(v) => legacy_key_of(key@) == Some((v.0@, v.1, v.2)),
            None => legacy_key_of(key@) is None,
        },
{
    let chars = str_chars(key);
    let p = split_chars(&chars, '_');
    if p.len() == 3 && text_is(&p[0], "looper") && text_is(&p[1], "cc") {
        number_binding("looper", BindingKind::Cc, &p[2])
    } else if p.len() == 3 && text_is(&p[0], "looper") && text_is(&p[1], "note") {
        number_binding("looper", BindingKind::Note, &p[2])
    } else if p.len() == 3 && text_is(&p[0], "mpc") && text_is(&p[1], "cc") {
        number_binding("mpc", BindingKind::Cc, &p[2])
    } else if p.len() == 3 && text_is(&p[0], "mpc") && text_is(&p[1], "note") {
        number_binding("mpc", BindingKind::Note, &p[2])
    } else if p.len() == 2 && text_is(&p[0], "cc") {
        number_binding("looper", BindingKind::Cc, &p[1])
    } else if p.len() == 2 && text_is(&p[0], "note") {
        number_binding("looper", BindingKind::Note, &p[1])
    } else if p.len() == 1 {
        number_binding("looper", BindingKind::Cc, &p[0])
    } else {
        None
    }
}

/// The synth parameter named by a legacy target (`param_N` or `pN`).
pub open spec fn legacy_param_target_of(target: Seq<char>) -> Option<MidiTarget> {
    let rest = if without_prefix(target, "param_"@) is Some {
        without_prefix(target, "param_"@)
    } else {
        without_prefix(target, "p"@)
    };
    match rest {
        Some(r) => if u8_text(r) {
            Some(MidiTarget::Param(u8_text_value(r) as u8))
        } else {
            None
        },
        None => None,
    }
}

/// Reads a legacy synth-parameter target.
pub fn parse_legacy_param_target(target: &str) -> (r: Option<MidiTarget>)
    ensures
        r == legacy_param_target_of(target@),
{
    let chars = str_chars(target);
    let rest = match strip_prefix(&chars, "param_") {
        Some(r) => r,
        None => match strip_prefix(&chars, "p") {
            Some(r) => r,
            None => {
                return None;
            },
        },
    };
    match parse_u8(&rest) {
        Some(id) => Some(MidiTarget::Param(id)),
        None => None,
    }
}

/// The target named by a browser-era mapping value.
pub open spec fn legacy_target_of(target: Seq<char>) -> Option<MidiTarget> {
    if target == "looper_rec"@ {
        Some(MidiTarget::LooperRecord(0))
    } else if target == "looper_toggle"@ {
        Some(MidiTarget::LooperToggle(0))
    } else if target == "looper_undo"@ {
        Some(MidiTarget::LooperUndo(0))
    } else if target == "looper_clear"@ {
        Some(MidiTarget::LooperClear(0))
    } else if target == "looper_active"@ || target == "looper_active_toggle"@ {
        Some(MidiTarget::LooperActiveToggle(0))
    } else if target == "looper_stop"@ {
        Some(MidiTarget::Transport(1))
    } else if target == "play_sequence"@ {
        Some(MidiTarget::Transport(0))
    } else if target == "part_a"@ {
        Some(MidiTarget::LooperSelect(0))
    } else if target == "part_b"@ {
        Some(MidiTarget::LooperSelect(1))
    } else if target == "part_c"@ {
        Some(MidiTarget::LooperSelect(2))
    } else if target == "part_d"@ {
        Some(MidiTarget::LooperSelect(3))
    } else if target == "part_e"@ {
        Some(MidiTarget::LooperSelect(4))
    } else if target == "mic_gain"@ {
        Some(MidiTarget::MicGain)
    } else if target == "mpc_swing"@ {
        Some(MidiTarget::MpcParam(0))
    } else if target == "mpc_kit"@ {
        Some(MidiTarget::MpcParam(1))
    } else {
        legacy_param_target_of(target)
    }
}

/// Reads a browser-era mapping value.
pub fn legacy_midi_target(target: &str) -> (r: Option<MidiTarget>)
    ensures
        r == legacy_target_of(target@),
{
    let t = str_chars(target);
    if text_is(&t, "looper_rec") {
        Some(MidiTarget::LooperRecord(0))
    } else if text_is(&t, "looper_toggle") {
        Some(MidiTarget::LooperToggle(0))
    } else if text_is(&t, "looper_undo") {
        Some(MidiTarget::LooperUndo(0))
    } else if text_is(&t, "looper_clear") {
        Some(MidiTarget::LooperClear(0))
    } else if text_is(&t, "looper_active") || text_is(&t, "looper_active_toggle") {
        Some(MidiTarget::LooperActiveToggle(0))
    } else if text_is(&t, "looper_stop") {
        Some(MidiTarget::Transport(1))
    } else if text_is(&t, "play_sequence") {
        Some(MidiTarget::Transport(0))
    } else if text_is(&t, "part_a") {
        Some(MidiTarget::LooperSelect(0))
    } else if text_is(&t, "part_b") {
        Some(MidiTarget::LooperSelect(1))
    } else if text_is(&t, "part_c") {
        Some(MidiTarget::LooperSelect(2))
    } else if text_is(&t, "part_d") {
        Some(MidiTarget::LooperSelect(3))
    } else if text_is(&t, "part_e") {
        Some(MidiTarget::LooperSelect(4))
    } else if text_is(&t, "mic_gain") {
        Some(MidiTarget::MicGain)
    } else if text_is(&t, "mpc_swing") {
        Some(MidiTarget::MpcParam(0))
    } else if text_is(&t, "mpc_kit") {
        Some(MidiTarget::MpcParam(1))
    } else {
        parse_legacy_param_target(target)
    }
}

/// Imports one browser-era mapping entry into a mapping: the key names the
/// context, kind and number, the value the target. Returns whether a binding
/// was made; unreadable entries are skipped.
pub fn import_legacy_binding(map: &mut MidiMap, key: &str, value: &str) -> (imported: bool)
    requires
        old(map).wf(),
    ensures
        final(map).wf(),
        final(map).active_context == old(map).active_context,
        imported == (legacy_key_of(key@) is Some && legacy_target_of(value@) is Some),
        !imported ==> final(map).cc_view() == old(map).cc_view() && final(map).note_view() == old(
            map,
        ).note_view(),
        imported ==> ({
            let (ctx, kind, number) = legacy_key_of(key@)->0;
            let target = legacy_target_of(value@)->0;
            &&& final(map).cc_view() == if kind == BindingKind::Cc {
                crate::midi_map::view_with(old(map).cc_view(), ctx, number, target)
            } else {
                old(map).cc_view()
            }
            &&& final(map).note_view() == if kind == BindingKind::Note {
                crate::midi_map::view_with(old(map).note_view(), ctx, number, target)
            } else {
                old(map).note_view()
            }
        }),
{
    let parsed = parse_legacy_midi_key(key);
    let (ctx, kind, number) = match parsed {
        Some(v) => v,
        None => {
            return false;
        },
    };
    let target = match legacy_midi_target(value) {
        Some(t) => t,
        None => {
            return false;
        },
    };
    match kind {
        BindingKind::Cc => map.assign_cc(&ctx, number, target),
        BindingKind::Note => map.assign_note(&ctx, number, target),
    }
    true
}

/// What `str::to_lowercase` makes of a string: its Unicode lowercase.
pub uninterp spec fn lowercase(s: Seq<char>) -> Seq<char>;

/// The Unicode lowercase of a string.
///
/// Trusted: calls `str::to_lowercase`. The contract only says that the
/// result is the lowercase mapping of the input's characters, named by
/// `lowercase`; the Unicode case tables themselves are not restated.
#[verifier::external_body]
fn to_lowercase(s: &str) -> (r: String)
    ensures
        r@ == lowercase(s@),
{
    s.to_lowercase()
}

/// Whether a lowercase port name marks a controller to try first: it
/// mentions `mpk`, `akai`, `key`, `usb` or `midi`.
pub open spec fn priority_name(lower: Seq<char>) -> bool {
    ||| has_substring(lower, "mpk"@)
    ||| has_substring(lower, "akai"@)
    ||| has_substring(lower, "key"@)
    ||| has_substring(lower, "usb"@)
    ||| has_substring(lower, "midi"@)
}

/// Whether a lowercase port name marks a controller to try first (see
/// `priority_name`).
pub fn is_priority_name(lower: &str) -> (r: bool)
    ensures
        r == priority_name(lower@),
{
    let chars = str_chars(lower);
    contains_text(&chars, "mpk") || contains_text(&chars, "akai") || contains_text(&chars, "key")
        || contains_text(&chars, "usb") || contains_text(&chars, "midi")
}

/// Whether a MIDI port looks like a controller to try first: its lowercase
/// name is a priority name (see `priority_name`).
pub open spec fn priority_port(name: Seq<char>) -> bool {
    priority_name(lowercase(name))
}

/// Whether a MIDI port looks like a controller to try first (see
/// `priority_port`).
pub fn is_priority_port(name: &str) -> (r: bool)
    ensures
        r == priority_port(name@),
{
    let lower = to_lowercase(name);
    is_priority_name(lower.as_str())
}

/// Whether a lowercase device name is one to reconnect to at once: it
/// mentions `mpk` or `akai`.
pub open spec fn auto_connect_name(lower: Seq<char>) -> bool {
    has_substring(lower, "mpk"@) || has_substring(lower, "akai"@)
}

/// Whether a lowercase device name is one to reconnect to at once (see
/// `auto_connect_name`).
pub fn is_auto_connect_name(lower: &str) -> (r: bool)
    ensures
        r == auto_connect_name(lower@),
{
    let chars = str_chars(lower);
    contains_text(&chars, "mpk") || contains_text(&chars, "akai")
}

/// Whether a newly connected MIDI device is one to reconnect to at once:
/// its lowercase name is an auto-connect name (see `auto_connect_name`).
pub fn is_auto_connect_device(name: &str) -> (r: bool)
    ensures
        r == auto_connect_name(lowercase(name@)),
{
    let lower = to_lowercase(name);
    is_auto_connect_name(lower.as_str())
}

/// The positions of the ports whose priority is `want`, in order.
pub open spec fn ports_where(names: Seq<String>, want: bool) -> Seq<usize>
    decreases names.len(),
{
    if names.len() == 0 {
        seq![]
    } else {
        let rest = ports_where(names.drop_last(), want);
        if priority_port(names.last()@) == want { rest.push((names.len() - 1) as usize) } else { rest }
    }
}

/// The order in which to try connecting to MIDI ports, given their names
/// (an unreadable name counts as `Unknown`): the priority ports first, then
/// the others, each group in port order.
pub fn port_connection_order(names: &[String]) -> (r: Vec<usize>)
    ensures
        r@ == ports_where(names@, true) + ports_where(names@, false),
{
    let mut first: Vec<usize> = Vec::new();
    let mut rest: Vec<usize> = Vec::new();
    let mut i: usize = 0;
    assert(names@.take(0) =~= Seq::<String>::empty());
    while i < names.len()
        invariant
            i <= names@.len(),
            first@ == ports_where(names@.take(i as int), true),
            rest@ == ports_where(names@.take(i as int), false),
        decreases names@.len() - i,
    {
        assert(names@.take(i + 1).drop_last() =~= names@.take(i as int));
        assert(names@.take(i + 1).last() == names@[i as int]);
        if is_priority_port(names[i].as_str()) {
            first.push(i);
        } else {
            rest.push(i);
        }
        i = i + 1;
    }
    assert(names@.take(names@.len() as int) =~= names@);
    first.append(&mut rest);
    first
}

/// The status (channel stripped), first and second data bytes of a raw MIDI
/// message; messages shorter than three bytes are ignored.
pub fn midi_message_fields(message: &[u8]) -> (r: Option<(u8, u8, u8)>)
    ensures
        message@.len() < 3 ==> r is None,
        message@.len() >= 3 ==> r == Some((message@[0] & 0xF0u8, message@[1], message@[2])),
{
    if message.len() < 3 {
        return None;
    }
    Some((message[0] & 0xF0, message[1], message[2]))
}


/// Unmapped notes play in the synth and MPC contexts alike: with no binding
/// for the message in the active context, a note-on with a velocity plays
/// that note at that velocity, a note-off (or a note-on at velocity zero)
/// releases it, whether the context is `synth` or `mpc`; and a map that
/// differs only in which of the two is active resolves every unmapped
/// message the same.
pub proof fn lemma_unmapped_notes_play_in_synth_and_mpc(map: MidiMap, other: MidiMap, status: u8, data1: u8, data2: u8)
    requires
        map.active_context@ == "synth"@ || map.active_context@ == "mpc"@,
        other.active_context@ == "synth"@ || other.active_context@ == "mpc"@,
        map.target_for(status, data1) is None,
        other.target_for(status, data1) is None,
    ensures
        status == 0x90 && data2 > 0 ==> message_command(map, status, data1, data2) == Some(
            MidiCommand::NoteOn { note: data1, velocity: data2 },
        ),
        status == 0x80 || (status == 0x90 && data2 == 0) ==> message_command(map, status, data1, data2)
            == Some(MidiCommand::NoteOff { note: data1 }),
        message_command(map, status, data1, data2) == message_command(other, status, data1, data2),
{
}

} // verus!
