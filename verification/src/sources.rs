//! Where each looper part records from, and the rules that keep a routing valid.
use vstd::prelude::*;
use crate::text::{decimal, owned, push_decimal};

verus! {

/// Number of looper parts (A to E).
pub const LOOPER_PART_COUNT: usize = 5;

/// Highest interface input channel a part can record from.
pub const MAX_NATIVE_INPUT_CHANNELS: usize = 8;

/// The signal a looper part records.
#[derive(Debug, Clone, Copy, PartialEq, Eq, Hash, Structural)]
pub enum LooperSource {
    /// One interface input, counted from 1.
    InputChannel(u8),
    /// The average of all interface inputs.
    InputMix,
    Synth,
    Mpc,
    Jam,
    /// Synth, MPC and jam buses summed.
    InstrumentMix,
    Silent,
}

/// A source in canonical form: channel 0 means the input mix, and channels
/// above the highest interface input are clamped to it.
pub open spec fn normalized_source(source: LooperSource) -> LooperSource {
    match source {
        LooperSource::InputChannel(c) => {
            if c == 0 {
                LooperSource::InputMix
            } else if c > 8 {
                LooperSource::InputChannel(8)
            } else {
                LooperSource::InputChannel(c)
            }
        },
        other => other,
    }
}

/// Whether a source is already in canonical form.
pub open spec fn is_normalized(source: LooperSource) -> bool {
    source matches LooperSource::InputChannel(c) ==> 1 <= c <= 8
}

/// The source meant by a legacy channel number (0 = input mix, n = input n).
pub open spec fn legacy_channel_source(channel: u8) -> LooperSource {
    if channel == 0 {
        LooperSource::InputMix
    } else {
        LooperSource::InputChannel(if channel > 8 { 8u8 } else { channel })
    }
}

/// The factory routing: inputs 1 and 2 on parts A and B, the input mix on C,
/// and D and E silent.
pub open spec fn default_sources() -> Seq<LooperSource> {
    seq![
        LooperSource::InputChannel(1),
        LooperSource::InputChannel(2),
        LooperSource::InputMix,
        LooperSource::Silent,
        LooperSource::Silent,
    ]
}

/// Brings a source into canonical form.
pub fn normalize_looper_source(source: LooperSource) -> (r: LooperSource)
    ensures
        r == normalized_source(source),
        is_normalized(r),
{
    match source {
        LooperSource::InputChannel(0) => LooperSource::InputMix,
        LooperSource::InputChannel(channel) => {
            LooperSource::InputChannel(if channel > 8 { 8 } else { channel })
        },
        other => other,
    }
}

/// Maps a legacy channel number to a source.
pub fn legacy_channel_to_looper_source(channel: u8) -> (r: LooperSource)
    ensures
        r == legacy_channel_source(channel),
        is_normalized(r),
{
    if channel == 0 {
        LooperSource::InputMix
    } else {
        LooperSource::InputChannel(if channel > 8 { 8 } else { channel })
    }
}

/// The factory routing, one source per part.
pub fn default_looper_sources() -> (r: [LooperSource; LOOPER_PART_COUNT])
    ensures
        r@ == default_sources(),
{
    let r = [
        LooperSource::InputChannel(1),
        LooperSource::InputChannel(2),
        LooperSource::InputMix,
        LooperSource::Silent,
        LooperSource::Silent,
    ];
    assert(r@ == default_sources());
    r
}

/// The label shown for a source.
pub open spec fn source_label(source: LooperSource) -> Seq<char> {
    match source {
        LooperSource::InputChannel(c) => "Input "@ + decimal(c as nat),
        LooperSource::InputMix => "Input Mix"@,
        LooperSource::Synth => "Synth"@,
        LooperSource::Mpc => "MPC"@,
        LooperSource::Jam => "Jam"@,
        LooperSource::InstrumentMix => "Instrument Mix"@,
        LooperSource::Silent => "Silent"@,
    }
}

/// The label shown for a monitor input mode (0 = mix, n = input n).
pub open spec fn input_mode_text(mode: nat) -> Seq<char> {
    if mode == 0 {
        "Input Mix"@
    } else {
        "Input "@ + decimal(mode)
    }
}

/// The label shown for a source.
pub fn looper_source_label(source: LooperSource) -> (r: String)
    ensures
        r@ == source_label(source),
{
    match source {
        LooperSource::InputChannel(channel) => {
            let mut s = owned("Input ");
            push_decimal(&mut s, channel as u64);
            s
        },
        LooperSource::InputMix => owned("Input Mix"),
        LooperSource::Synth => owned("Synth"),
        LooperSource::Mpc => owned("MPC"),
        LooperSource::Jam => owned("Jam"),
        LooperSource::InstrumentMix => owned("Instrument Mix"),
        LooperSource::Silent => owned("Silent"),
    }
}

/// The label shown for a monitor input mode.
pub fn input_mode_label(mode: usize) -> (r: String)
    ensures
        r@ == input_mode_text(mode as nat),
{
    if mode == 0 {
        owned("Input Mix")
    } else {
        let mut s = owned("Input ");
        push_decimal(&mut s, mode as u64);
        s
    }
}

} // verus!
