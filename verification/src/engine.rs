//! The decisions of the audio engine that do not touch samples: which drum a
//! pad plays in each kit, the step sequencer's clock, the metronome's beat
//! count, which input format to open, what a looper pedal press does, and
//! which voices a jam chord starts.
use vstd::prelude::*;
use crate::chords::{
    chord_type_of, led_voicing, voicing_fits, voicing_in_range, voicing_notes, widen, BasslineEngine,
    ChordInfo, HarmonyEngine,
};

verus! {

/// What a drum pad sounds.
#[derive(Debug, Clone, Copy, PartialEq, Eq, Structural)]
pub enum PadSound {
    Kick,
    Snare,
    HiHat,
    /// A short tone at this note.
    Tone(u8),
    /// Nothing.
    Silent,
}

/// The sound of pad `pad` (0 to 15) in kit `kit`: 0 is a classic 808, 1 a
/// house 909, 2 an acoustic kit, any other value a lo-fi kit.
pub open spec fn pad_sound(pad: usize, kit: u8) -> PadSound {
    if kit == 0 {
        if pad <= 3 {
            PadSound::Kick
        } else if pad <= 7 {
            PadSound::Snare
        } else if pad <= 11 || pad == 13 {
            PadSound::HiHat
        } else if pad == 12 || pad == 14 || pad == 15 {
            PadSound::Tone((60 + pad) as u8)
        } else {
            PadSound::Silent
        }
    } else if kit == 1 {
        if pad <= 2 {
            PadSound::Kick
        } else if pad <= 7 {
            PadSound::Snare
        } else if pad <= 12 {
            PadSound::HiHat
        } else if pad <= 15 {
            PadSound::Tone((64 + pad) as u8)
        } else {
            PadSound::Silent
        }
    } else if kit == 2 {
        if pad <= 1 {
            PadSound::Kick
        } else if pad <= 7 {
            PadSound::Snare
        } else if pad <= 13 {
            PadSound::HiHat
        } else if pad <= 15 {
            PadSound::Tone((55 + pad) as u8)
        } else {
            PadSound::Silent
        }
    } else {
        if pad <= 1 || pad == 3 {
            PadSound::Kick
        } else if (4 <= pad <= 7) || pad == 12 || pad == 13 {
            PadSound::Snare
        } else if 8 <= pad <= 11 {
            PadSound::HiHat
        } else if pad == 2 || pad == 14 || pad == 15 {
            PadSound::Tone((48 + pad) as u8)
        } else {
            PadSound::Silent
        }
    }
}

/// Every one of the sixteen pads sounds in every kit.
pub proof fn lemma_every_pad_sounds(pad: usize, kit: u8)
    requires
        pad < 16,
    ensures
        pad_sound(pad, kit) != PadSound::Silent,
{
}

/// The sound a drum pad makes when no sample is loaded on it (see
/// `pad_sound`).
pub fn mpc_pad_sound(pad_id: usize, kit: u8) -> (r: PadSound)
    ensures
        r == pad_sound(pad_id, kit),
{
    if pad_id > 15 {
        return PadSound::Silent;
    }
    let pad = pad_id as u8;
    match kit {
        0 => if pad <= 3 {
            PadSound::Kick
        } else if pad <= 7 {
            PadSound::Snare
        } else if pad <= 11 || pad == 13 {
            PadSound::HiHat
        } else {
            PadSound::Tone(60 + pad)
        },
        1 => if pad <= 2 {
            PadSound::Kick
        } else if pad <= 7 {
            PadSound::Snare
        } else if pad <= 12 {
            PadSound::HiHat
        } else {
            PadSound::Tone(64 + pad)
        },
        2 => if pad <= 1 {
            PadSound::Kick
        } else if pad <= 7 {
            PadSound::Snare
        } else if pad <= 13 {
            PadSound::HiHat
        } else {
            PadSound::Tone(55 + pad)
        },
        _ => if pad <= 1 || pad == 3 {
            PadSound::Kick
        } else if (4 <= pad && pad <= 7) || pad == 12 || pad == 13 {
            PadSound::Snare
        } else if 8 <= pad && pad <= 11 {
            PadSound::HiHat
        } else {
            PadSound::Tone(48 + pad)
        },
    }
}

/// Drum pads answer notes 36 to 51; any other note plays the synth.
pub fn drum_pad_for_note(note: u8) -> (r: Option<usize>)
    ensures
        r == if 36 <= note <= 51 { Some((note - 36) as usize) } else { None::<usize> },
{
    if note >= 36 && note <= 51 {
        Some((note - 36) as usize)
    } else {
        None
    }
}

/// Number of pads, and of steps in the sequencer's bar.
pub const MPC_PADS: usize = 16;

/// The drum step sequencer's pattern and clock: which pads play on which of
/// the sixteen steps, and how many frames remain before the next step.
#[derive(Debug)]
pub struct MpcSequencer {
    /// `steps[pad][step]`.
    pub steps: Vec<Vec<bool>>,
    pub playing: bool,
    /// The step that plays next.
    pub current_step: usize,
    /// Frames left before the next step plays.
    pub samples_until_step: u64,
}

/// The pads that play on `step` of a pattern, in pad order.
pub open spec fn pads_on_step(steps: Seq<Vec<bool>>, step: int) -> Seq<usize>
    decreases steps.len(),
{
    if steps.len() == 0 {
        seq![]
    } else {
        let rest = pads_on_step(steps.drop_last(), step);
        if steps.last()@[step] { rest.push((steps.len() - 1) as usize) } else { rest }
    }
}

impl MpcSequencer {
    /// Sixteen pads of sixteen steps, and a step that exists.
    pub open spec fn wf(&self) -> bool {
        &&& self.steps@.len() == MPC_PADS
        &&& forall|p: int| 0 <= p < MPC_PADS ==> (#[trigger] self.steps@[p])@.len() == MPC_PADS
        &&& self.current_step < MPC_PADS
    }

    /// An empty pattern, stopped at the first step.
    pub fn new() -> (r: MpcSequencer)
        ensures
            r.wf(),
            !r.playing,
            r.current_step == 0,
            r.samples_until_step == 0,
            forall|p: int, s: int| 0 <= p < MPC_PADS && 0 <= s < MPC_PADS ==> !(#[trigger] r.steps@[p]@[s]),
    {
        let mut steps: Vec<Vec<bool>> = Vec::new();
        let mut p: usize = 0;
        while p < MPC_PADS
            invariant
                p <= MPC_PADS,
                steps@.len() == p,
                forall|q: int| 0 <= q < p ==> (#[trigger] steps@[q])@.len() == MPC_PADS,
                forall|q: int, s: int| 0 <= q < p && 0 <= s < MPC_PADS ==> !(#[trigger] steps@[q]@[s]),
            decreases MPC_PADS - p,
        {
            let mut row: Vec<bool> = Vec::new();
            let mut s: usize = 0;
            while s < MPC_PADS
                invariant
                    s <= MPC_PADS,
                    row@.len() == s,
                    forall|k: int| 0 <= k < s ==> !(#[trigger] row@[k]),
                decreases MPC_PADS - s,
            {
                row.push(false);
                s = s + 1;
            }
            steps.push(row);
            p = p + 1;
        }
        MpcSequencer { steps, playing: false, current_step: 0, samples_until_step: 0 }
    }

    /// Turns one step of one pad on or off; positions outside the pattern
    /// are ignored.
    pub fn set_step(&mut self, pad_id: usize, step: usize, active: bool)
        requires
            old(self).wf(),
        ensures
            final(self).wf(),
            final(self).playing == old(self).playing,
            final(self).current_step == old(self).current_step,
            final(self).samples_until_step == old(self).samples_until_step,
            forall|p: int, s: int| 0 <= p < MPC_PADS && 0 <= s < MPC_PADS ==> #[trigger] final(self).steps@[p]@[s]
                == if p == pad_id && s == step { active } else { old(self).steps@[p]@[s] },
    {
        if pad_id < MPC_PADS && step < MPC_PADS {
            let ghost pre = self.steps@;
            self.steps[pad_id].set(step, active);
            assert forall|p: int| 0 <= p < MPC_PADS implies (#[trigger] self.steps@[p])@.len() == MPC_PADS by {
                if p != pad_id {
                    assert(self.steps@[p] == pre[p]);
                }
            }
        }
    }

    /// Starts the sequencer from the first step, playing it at once.
    pub fn start(&mut self)
        requires
            old(self).wf(),
        ensures
            final(self).wf(),
            final(self).steps == old(self).steps,
            final(self).playing,
            final(self).current_step == 0,
            final(self).samples_until_step == 0,
    {
        self.current_step = 0;
        self.samples_until_step = 0;
        self.playing = true;
    }

    /// Stops the sequencer and rewinds it to the first step.
    pub fn stop(&mut self)
        requires
            old(self).wf(),
        ensures
            final(self).wf(),
            final(self).steps == old(self).steps,
            !final(self).playing,
            final(self).current_step == 0,
            final(self).samples_until_step == 0,
    {
        self.playing = false;
        self.current_step = 0;
        self.samples_until_step = 0;
    }

    /// The pads that play on a step of the pattern, in pad order.
    fn pads_for(&self, step: usize) -> (r: Vec<usize>)
        requires
            self.wf(),
            step < MPC_PADS,
        ensures
            r@ == pads_on_step(self.steps@, step as int),
    {
        let mut r: Vec<usize> = Vec::new();
        let mut p: usize = 0;
        assert(self.steps@.take(0) =~= Seq::<Vec<bool>>::empty());
        while p < MPC_PADS
            invariant
                self.wf(),
                step < MPC_PADS,
                p <= MPC_PADS,
                r@ == pads_on_step(self.steps@.take(p as int), step as int),
            decreases MPC_PADS - p,
        {
            assert(self.steps@.take(p + 1).drop_last() =~= self.steps@.take(p as int));
            assert(self.steps@.take(p + 1).last() == self.steps@[p as int]);
            if self.steps[p][step] {
                r.push(p);
            }
            p = p + 1;
        }
        assert(self.steps@.take(MPC_PADS as int) =~= self.steps@);
        r
    }

    /// Runs one frame. While playing, a step is due when no frames remain:
    /// it plays (its number and pads are returned), the wait before the
    /// next step becomes `interval` (the app computes it from tempo and
    /// swing for the step that plays), and the sequencer moves on a step,
    /// wrapping after the sixteenth. Each frame then counts down the wait,
    /// stopping at zero.
    pub fn tick(&mut self, interval: u64) -> (r: Option<(usize, Vec<usize>)>)
        requires
            old(self).wf(),
        ensures
            final(self).wf(),
            final(self).steps == old(self).steps,
            final(self).playing == old(self).playing,
            !old(self).playing ==> r is None && final(self).current_step == old(self).current_step
                && final(self).samples_until_step == old(self).samples_until_step,
            old(self).playing && old(self).samples_until_step > 0 ==> r is None && final(self).current_step
                == old(self).current_step && final(self).samples_until_step == old(self).samples_until_step - 1,
            old(self).playing && old(self).samples_until_step == 0 ==> {
                &&& r matches Some((step, pads)) && step == old(self).current_step && pads@ == pads_on_step(
                    old(self).steps@,
                    old(self).current_step as int,
                )
                &&& final(self).current_step == (old(self).current_step + 1) % (MPC_PADS as int)
                &&& final(self).samples_until_step == if interval > 0 { interval - 1 } else { 0 }
            },
    {
        if !self.playing {
            return None;
        }
        let mut fired: Option<(usize, Vec<usize>)> = None;
        if self.samples_until_step == 0 {
            let step = self.current_step;
            let pads = self.pads_for(step);
            fired = Some((step, pads));
            self.samples_until_step = interval;
            self.current_step = (step + 1) % MPC_PADS;
        }
        if self.samples_until_step > 0 {
            self.samples_until_step = self.samples_until_step - 1;
        }
        fired
    }
}

/// A metronome click: where in its beat the frame falls, whether the beat
/// is the first of the bar, and the frame count it was taken at.
#[derive(Debug, Clone, Copy, PartialEq, Eq, Structural)]
pub struct Click {
    pub beat_phase: u64,
    pub is_beat_one: bool,
    pub sample_counter: u64,
}

/// The metronome's clock: it counts frames while the looper runs and knows
/// which beat of the four-beat bar it is on.
#[derive(Debug, Clone, Copy, PartialEq, Eq, Structural)]
pub struct Metronome {
    pub enabled: bool,
    pub samples_per_beat: u64,
    pub sample_counter: u64,
    /// 0 to 3.
    pub current_beat: u32,
}

/// Beats in the metronome's bar.
pub const BEATS_PER_BAR: u32 = 4;

impl Metronome {
    /// Whether beats have a length and the beat is within the bar.
    pub open spec fn wf(&self) -> bool {
        self.samples_per_beat > 0 && self.current_beat < BEATS_PER_BAR
    }

    /// A metronome at the given beat length, switched on or off, at the top
    /// of the bar.
    pub fn new(enabled: bool, samples_per_beat: u64) -> (r: Metronome)
        requires
            samples_per_beat > 0,
        ensures
            r.wf(),
            r == (Metronome { enabled, samples_per_beat, sample_counter: 0, current_beat: 0 }),
    {
        Metronome { enabled, samples_per_beat, sample_counter: 0, current_beat: 0 }
    }

    /// Switches the metronome on or off at a beat length, back at the top of
    /// the bar.
    pub fn set(&mut self, enabled: bool, samples_per_beat: u64)
        requires
            samples_per_beat > 0,
        ensures
            final(self).wf(),
            *final(self) == (Metronome { enabled, samples_per_beat, sample_counter: 0, current_beat: 0 }),
    {
        self.enabled = enabled;
        self.samples_per_beat = samples_per_beat;
        self.sample_counter = 0;
        self.current_beat = 0;
    }

    /// Runs one frame. The metronome clicks only while it is on and the
    /// looper plays or records: the click is taken at the current count,
    /// then the count advances, and a count that completes a beat moves to
    /// the next beat of the bar.
    pub fn tick(&mut self, looper_active: bool) -> (r: Option<Click>)
        requires
            old(self).wf(),
            old(self).sample_counter < u64::MAX,
        ensures
            final(self).wf(),
            !(old(self).enabled && looper_active) ==> r is None && *final(self) == *old(self),
            old(self).enabled && looper_active ==> {
                let n = old(self).sample_counter + 1;
                &&& r == Some(
                    Click {
                        beat_phase: (old(self).sample_counter % old(self).samples_per_beat) as u64,
                        is_beat_one: old(self).current_beat == 0,
                        sample_counter: old(self).sample_counter,
                    },
                )
                &&& final(self).sample_counter == n
                &&& final(self).current_beat == if n % (old(self).samples_per_beat as int) == 0 {
                    (old(self).current_beat + 1) % (BEATS_PER_BAR as int)
                } else {
                    old(self).current_beat as int
                }
                &&& final(self).enabled == old(self).enabled
                &&& final(self).samples_per_beat == old(self).samples_per_beat
            },
    {
        if !(self.enabled && looper_active) {
            return None;
        }
        let click = Click {
            beat_phase: self.sample_counter % self.samples_per_beat,
            is_beat_one: self.current_beat == 0,
            sample_counter: self.sample_counter,
        };
        self.sample_counter = self.sample_counter + 1;
        if self.sample_counter % self.samples_per_beat == 0 {
            self.current_beat = (self.current_beat + 1) % BEATS_PER_BAR;
        }
        Some(click)
    }
}

/// A sample format an input device offers.
#[derive(Debug, Clone, Copy, PartialEq, Eq, Structural)]
pub enum InputFormat {
    F32,
    I16,
    U16,
    I8,
    U8,
    Other,
}

/// How much a sample format is preferred for input (lower is better).
pub open spec fn format_rank(f: InputFormat) -> u8 {
    match f {
        InputFormat::F32 => 0,
        InputFormat::I16 => 1,
        InputFormat::U16 => 2,
        InputFormat::I8 => 6,
        InputFormat::U8 => 7,
        InputFormat::Other => 20,
    }
}

/// How much a sample format is preferred for input (lower is better):
/// float first, then 16-bit, then 8-bit, then anything else.
pub fn input_format_rank(format: InputFormat) -> (r: u8)
    ensures
        r == format_rank(format),
{
    match format {
        InputFormat::F32 => 0,
        InputFormat::I16 => 1,
        InputFormat::U16 => 2,
        InputFormat::I8 => 6,
        InputFormat::U8 => 7,
        InputFormat::Other => 20,
    }
}

/// One input configuration range a device supports.
#[derive(Debug, Clone, Copy, PartialEq, Eq, Structural)]
pub struct InputConfigRange {
    pub min_rate: u32,
    pub max_rate: u32,
    pub format: InputFormat,
    pub channels: u16,
}

/// Whether a configuration can run at `rate`.
pub open spec fn supports_rate(c: InputConfigRange, rate: u32) -> bool {
    c.min_rate <= rate && c.max_rate >= rate
}

/// How a configuration is ranked: by format, then by whether it changes the
/// device's default channel count, then by whether it changes the default
/// format, then by channel count.
pub open spec fn config_key(c: InputConfigRange, default_channels: u16, default_format: InputFormat) -> (
    int,
    int,
    int,
    int,
) {
    (
        format_rank(c.format) as int,
        if c.channels != default_channels { 1int } else { 0int },
        if c.format != default_format { 1int } else { 0int },
        c.channels as int,
    )
}

/// Lexicographic order on ranking keys.
pub open spec fn key_less(a: (int, int, int, int), b: (int, int, int, int)) -> bool {
    ||| a.0 < b.0
    ||| a.0 == b.0 && a.1 < b.1
    ||| a.0 == b.0 && a.1 == b.1 && a.2 < b.2
    ||| a.0 == b.0 && a.1 == b.1 && a.2 == b.2 && a.3 < b.3
}

fn config_key_exec(c: &InputConfigRange, default_channels: u16, default_format: InputFormat) -> (r: (
    u8,
    u8,
    u8,
    u16,
))
    ensures
        (r.0 as int, r.1 as int, r.2 as int, r.3 as int) == config_key(*c, default_channels, default_format),
{
    (
        input_format_rank(c.format),
        if c.channels != default_channels { 1 } else { 0 },
        if c.format != default_format { 1 } else { 0 },
        c.channels,
    )
}

fn key_less_exec(a: (u8, u8, u8, u16), b: (u8, u8, u8, u16)) -> (r: bool)
    ensures
        r == key_less(
            (a.0 as int, a.1 as int, a.2 as int, a.3 as int),
            (b.0 as int, b.1 as int, b.2 as int, b.3 as int),
        ),
{
    a.0 < b.0 || (a.0 == b.0 && a.1 < b.1) || (a.0 == b.0 && a.1 == b.1 && a.2 < b.2) || (a.0 == b.0
        && a.1 == b.1 && a.2 == b.2 && a.3 < b.3)
}

/// Picks the input configuration to open at the output's rate: among the
/// ranges that support that rate, the first with the least key (see
/// `config_key`). `None` when no range supports the rate.
pub fn select_input_config(
    configs: &[InputConfigRange],
    rate: u32,
    default_channels: u16,
    default_format: InputFormat,
) -> (r: Option<usize>)
    ensures
        r is None <==> forall|j: int| 0 <= j < configs@.len() ==> !supports_rate(#[trigger] configs@[j], rate),
        r matches Some(i) ==> {
            &&& i < configs@.len()
            &&& supports_rate(configs@[i as int], rate)
            &&& forall|j: int|
                0 <= j < configs@.len() && supports_rate(#[trigger] configs@[j], rate) ==> !key_less(
                    config_key(configs@[j], default_channels, default_format),
                    config_key(configs@[i as int], default_channels, default_format),
                )
            &&& forall|j: int|
                0 <= j < i && supports_rate(#[trigger] configs@[j], rate) ==> key_less(
                    config_key(configs@[i as int], default_channels, default_format),
                    config_key(configs@[j], default_channels, default_format),
                )
        },
{
    let mut best: Option<usize> = None;
    let mut best_key: (u8, u8, u8, u16) = (0, 0, 0, 0);
    let mut i: usize = 0;
    while i < configs.len()
        invariant
            i <= configs@.len(),
            best is None <==> forall|j: int| 0 <= j < i ==> !supports_rate(#[trigger] configs@[j], rate),
            best matches Some(b) ==> {
                &&& b < i
                &&& supports_rate(configs@[b as int], rate)
                &&& (best_key.0 as int, best_key.1 as int, best_key.2 as int, best_key.3 as int)
                    == config_key(configs@[b as int], default_channels, default_format)
                &&& forall|j: int|
                    0 <= j < i && supports_rate(#[trigger] configs@[j], rate) ==> !key_less(
                        config_key(configs@[j], default_channels, default_format),
                        config_key(configs@[b as int], default_channels, default_format),
                    )
                &&& forall|j: int|
                    0 <= j < b && supports_rate(#[trigger] configs@[j], rate) ==> key_less(
                        config_key(configs@[b as int], default_channels, default_format),
                        config_key(configs@[j], default_channels, default_format),
                    )
            },
        decreases configs@.len() - i,
    {
        let c = &configs[i];
        if c.min_rate <= rate && c.max_rate >= rate {
            let key = config_key_exec(c, default_channels, default_format);
            match best {
                None => {
                    best = Some(i);
                    best_key = key;
                },
                Some(_) => {
                    if key_less_exec(key, best_key) {
                        best = Some(i);
                        best_key = key;
                    }
                },
            }
        }
        i = i + 1;
    }
    best
}

/// What a looper pedal press does to a part, as a loop station does it.
#[derive(Debug, Clone, Copy, PartialEq, Eq, Structural)]
pub enum LooperToggleAction {
    /// An empty part starts recording.
    Record,
    /// A recording part finishes its take.
    FinishRecording,
    /// A part with material overdubs, even from a stopped transport.
    Overdub,
}

/// What a looper pedal press does to a part with or without material that
/// is or is not recording.
pub fn looper_toggle_action(has_material: bool, is_recording: bool) -> (r: LooperToggleAction)
    ensures
        r == if !has_material && !is_recording {
            LooperToggleAction::Record
        } else if is_recording {
            LooperToggleAction::FinishRecording
        } else {
            LooperToggleAction::Overdub
        },
{
    if !has_material && !is_recording {
        LooperToggleAction::Record
    } else if is_recording {
        LooperToggleAction::FinishRecording
    } else {
        LooperToggleAction::Overdub
    }
}

/// What the jam voices do when a chord starts.
#[derive(Debug)]
pub struct JamChordPlan {
    /// The note the bass voice plays, at velocity 90, when the bassline
    /// engine is off.
    pub bass_note: Option<u8>,
    /// The jam voices that start: voice index, note and velocity.
    pub voice_notes: Vec<(usize, u8, u8)>,
}

/// The bass note under a chord rooted at `root` when the bassline engine is
/// off: two octaves down for roots above 36, else one, not below 0.
pub open spec fn plain_bass_note(root: u8) -> u8 {
    if root > 36 {
        (root - 24) as u8
    } else if root >= 12 {
        (root - 12) as u8
    } else {
        0
    }
}

/// The jam voices a chord starts: the chord notes on the first voices at
/// velocity 70, then the harmony notes on the voices after them at velocity
/// 40, as far as there are voices.
pub open spec fn jam_voice_notes(notes: Seq<u8>, harmony: Seq<int>, voice_count: nat) -> Seq<(usize, u8, u8)> {
    let chord_voices = if notes.len() < voice_count { notes.len() } else { voice_count };
    let harmony_voices = if notes.len() >= voice_count {
        0
    } else if notes.len() + harmony.len() <= voice_count {
        harmony.len()
    } else {
        (voice_count - notes.len()) as nat
    };
    Seq::new(chord_voices, |i: int| (i as usize, notes[i], 70u8)) + Seq::new(
        harmony_voices,
        |i: int| ((notes.len() + i) as usize, harmony[i] as u8, 40u8),
    )
}

/// Whether starting `notes` would voice a harmony that overflows the note
/// numbers.
pub open spec fn harmony_overflows(harmony: HarmonyEngine, notes: Seq<u8>, harmonics_enabled: bool) -> bool {
    &&& harmonics_enabled
    &&& harmony.enabled
    &&& notes.len() > 0
    &&& !voicing_fits(
        harmony.voicing_type,
        ChordInfo { root: notes[0], chord_type: chord_type_of(notes), start_time: 0 },
    )
}

/// Starts a jam chord on the engines and says what the voices play. An
/// empty chord stops the bassline and clears the harmony. Otherwise the
/// bassline follows the chord at the given beat length, the harmony follows
/// it, the bass voice plays the plain bass note when the bassline engine is
/// off, the chord notes go to the first voices and, with harmonics on, the
/// harmony's voicing to the voices after them. The app releases the voices
/// before it starts the plan. `None`, with nothing changed, when the
/// harmony's voicing would overflow the note numbers.
pub fn trigger_jam_chord(
    notes: &[u8],
    samples_per_beat: u64,
    voice_count: usize,
    bassline: &mut BasslineEngine,
    harmony: &mut HarmonyEngine,
    bassline_enabled: bool,
    harmonics_enabled: bool,
) -> (r: Option<JamChordPlan>)
    ensures
        harmony_overflows(*old(harmony), notes@, harmonics_enabled) ==> r is None && *final(bassline)
            == *old(bassline) && *final(harmony) == *old(harmony),
        !harmony_overflows(*old(harmony), notes@, harmonics_enabled) ==> (r matches Some(plan) && {
            let chord = ChordInfo { root: notes@[0], chord_type: chord_type_of(notes@), start_time: 0 };
            let harmony_notes = if harmonics_enabled && old(harmony).enabled && notes@.len() > 0 {
                led_voicing(old(harmony).previous_voicing@, voicing_notes(old(harmony).voicing_type, chord))
            } else {
                Seq::<int>::empty()
            };
            if notes@.len() == 0 {
                &&& plan.bass_note is None
                &&& plan.voice_notes@.len() == 0
                &&& *final(bassline) == (BasslineEngine {
                    current_chord: None,
                    next_chord_queue: None,
                    pattern_position: 0,
                    ..*old(bassline)
                })
                &&& final(harmony).current_chord is None
                &&& final(harmony).previous_voicing@.len() == 0
                &&& final(harmony).enabled == old(harmony).enabled
                &&& final(harmony).voicing_type == old(harmony).voicing_type
            } else {
                &&& plan.bass_note == if bassline_enabled { None } else { Some(plain_bass_note(notes@[0])) }
                &&& plan.voice_notes@ == jam_voice_notes(notes@, harmony_notes, voice_count as nat)
                &&& *final(bassline) == if old(bassline).current_chord is Some {
                    BasslineEngine {
                        tempo_samples_per_beat: samples_per_beat,
                        next_chord_queue: Some(
                            ChordInfo { start_time: old(bassline).current_sample, ..chord },
                        ),
                        pattern_position: 0,
                        ..*old(bassline)
                    }
                } else {
                    BasslineEngine {
                        tempo_samples_per_beat: samples_per_beat,
                        current_chord: Some(
                            ChordInfo { start_time: old(bassline).current_sample, ..chord },
                        ),
                        pattern_position: 0,
                        ..*old(bassline)
                    }
                }
                &&& final(harmony).current_chord == Some(chord)
                &&& final(harmony).enabled == old(harmony).enabled
                &&& final(harmony).voicing_type == old(harmony).voicing_type
                &&& if harmonics_enabled && old(harmony).enabled {
                    widen(final(harmony).previous_voicing@) == harmony_notes
                } else {
                    final(harmony).previous_voicing == old(harmony).previous_voicing
                }
            }
        }),
{
    if harmonics_enabled && harmony.enabled && notes.len() > 0 {
        let chord_type = ChordInfo::analyze_chord(notes);
        let chord = ChordInfo { root: notes[0], chord_type, start_time: 0 };
        if !voicing_in_range(harmony.voicing_type, &chord) {
            return None;
        }
    }
    if notes.len() == 0 {
        bassline.stop_chord();
        harmony.clear();
        return Some(JamChordPlan { bass_note: None, voice_notes: Vec::new() });
    }
    bassline.set_tempo(samples_per_beat);
    bassline.new_chord(notes);
    harmony.set_chord(notes);
    let root = notes[0];
    let bass_note = if bassline_enabled {
        None
    } else if root > 36 {
        Some(root - 24)
    } else if root >= 12 {
        Some(root - 12)
    } else {
        Some(0u8)
    };
    let mut voice_notes: Vec<(usize, u8, u8)> = Vec::new();
    let mut i: usize = 0;
    while i < notes.len() && i < voice_count
        invariant
            i <= notes@.len(),
            i <= voice_count,
            voice_notes@.len() == i,
            forall|k: int| 0 <= k < i ==> #[trigger] voice_notes@[k] == (k as usize, notes@[k], 70u8),
        decreases notes@.len() - i,
    {
        voice_notes.push((i, notes[i], 70));
        i = i + 1;
    }
    let ghost chord_part = voice_notes@;
    assert(chord_part.len() == if notes@.len() < voice_count { notes@.len() } else { voice_count as nat });
    let harmony_notes = if harmonics_enabled {
        harmony.get_professional_harmony(notes)
    } else {
        Vec::new()
    };
    let mut j: usize = 0;
    while j < harmony_notes.len()
        invariant
            voice_notes@.len() >= chord_part.len(),
            voice_notes@.subrange(0, chord_part.len() as int) == chord_part,
            j <= harmony_notes@.len(),
            notes@.len() <= usize::MAX,
            voice_notes@.len() == chord_part.len() + (if notes@.len() >= voice_count {
                0
            } else if notes@.len() + j <= voice_count {
                j as int
            } else {
                voice_count - notes@.len()
            }),
            forall|k: int|
                chord_part.len() <= k < voice_notes@.len() ==> #[trigger] voice_notes@[k] == (
                    (notes@.len() + k - chord_part.len()) as usize,
                    harmony_notes@[k - chord_part.len()].note,
                    40u8,
                ),
        decreases harmony_notes@.len() - j,
    {
        if notes.len() < voice_count && j < voice_count - notes.len() {
            voice_notes.push((notes.len() + j, harmony_notes[j].note, 40));
        }
        j = j + 1;
    }
    proof {
        let chord = ChordInfo { root: notes@[0], chord_type: chord_type_of(notes@), start_time: 0 };
        let hn = if harmonics_enabled && old(harmony).enabled && notes@.len() > 0 {
            led_voicing(old(harmony).previous_voicing@, voicing_notes(old(harmony).voicing_type, chord))
        } else {
            Seq::<int>::empty()
        };
        assert(harmony_notes@.len() == hn.len());
        assert forall|k: int| 0 <= k < hn.len() implies harmony_notes@[k].note == #[trigger] hn[k] by {}
        if harmonics_enabled && old(harmony).enabled {
            assert(widen(harmony.previous_voicing@) =~= hn);
        }
        let expected = jam_voice_notes(notes@, hn, voice_count as nat);
        let cv = if notes@.len() < voice_count { notes@.len() } else { voice_count as nat };
        assert(chord_part.len() == cv);
        assert(voice_notes@.len() == expected.len());
        assert forall|k: int| 0 <= k < expected.len() implies voice_notes@[k] == #[trigger] expected[k] by {
            if k < cv {
                assert(voice_notes@[k] == voice_notes@.subrange(0, chord_part.len() as int)[k]);
                assert(chord_part[k] == (k as usize, notes@[k], 70u8));
            } else {
                assert(voice_notes@[k] == (
                    (notes@.len() + k - chord_part.len()) as usize,
                    harmony_notes@[k - chord_part.len()].note,
                    40u8,
                ));
                assert(harmony_notes@[k - cv].note == hn[k - cv]);
            }
        }
        assert(voice_notes@ =~= expected);
    }
    Some(JamChordPlan { bass_note, voice_notes })
}

} // verus!
