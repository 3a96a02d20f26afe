use shed_power::chords::{BasslineEngine, HarmonyEngine};
use shed_power::engine::{
    drum_pad_for_note, input_format_rank, looper_toggle_action, mpc_pad_sound,
    select_input_config, trigger_jam_chord, Click, InputConfigRange, InputFormat,
    LooperToggleAction, Metronome, MpcSequencer, PadSound,
};

fn range(min_rate: u32, max_rate: u32, format: InputFormat, channels: u16) -> InputConfigRange {
    InputConfigRange { min_rate, max_rate, format, channels }
}

#[test]
fn each_kit_maps_pads_to_drums() {
    assert_eq!(mpc_pad_sound(0, 0), PadSound::Kick);
    assert_eq!(mpc_pad_sound(5, 0), PadSound::Snare);
    assert_eq!(mpc_pad_sound(13, 0), PadSound::HiHat);
    assert_eq!(mpc_pad_sound(12, 0), PadSound::Tone(72));
    assert_eq!(mpc_pad_sound(3, 1), PadSound::Snare);
    assert_eq!(mpc_pad_sound(12, 1), PadSound::HiHat);
    assert_eq!(mpc_pad_sound(13, 1), PadSound::Tone(77));
    assert_eq!(mpc_pad_sound(2, 2), PadSound::Snare);
    assert_eq!(mpc_pad_sound(14, 2), PadSound::Tone(69));
    assert_eq!(mpc_pad_sound(2, 7), PadSound::Tone(50));
    assert_eq!(mpc_pad_sound(3, 3), PadSound::Kick);
    assert_eq!(mpc_pad_sound(12, 3), PadSound::Snare);
    assert_eq!(mpc_pad_sound(16, 0), PadSound::Silent);
    for kit in 0..5u8 {
        for pad in 0..16 {
            assert_ne!(mpc_pad_sound(pad, kit), PadSound::Silent);
        }
    }
}

#[test]
fn drum_notes_start_at_36() {
    assert_eq!(drum_pad_for_note(35), None);
    assert_eq!(drum_pad_for_note(36), Some(0));
    assert_eq!(drum_pad_for_note(51), Some(15));
    assert_eq!(drum_pad_for_note(52), None);
}

#[test]
fn the_step_sequencer_plays_due_steps_and_wraps() {
    let mut seq = MpcSequencer::new();
    seq.set_step(0, 0, true);
    seq.set_step(3, 0, true);
    seq.set_step(2, 1, true);
    seq.set_step(16, 0, true);
    assert!(seq.tick(3).is_none());

    seq.start();
    let first = seq.tick(3).unwrap();
    assert_eq!(first.0, 0);
    assert_eq!(first.1, vec![0, 3]);
    assert_eq!(seq.samples_until_step, 2);
    assert!(seq.tick(3).is_none());
    assert!(seq.tick(3).is_none());
    let second = seq.tick(3).unwrap();
    assert_eq!(second, (1, vec![2]));

    for _ in 0..14 {
        seq.samples_until_step = 0;
        seq.tick(1);
    }
    assert_eq!(seq.current_step, 0);

    seq.set_step(3, 0, false);
    seq.samples_until_step = 0;
    assert_eq!(seq.tick(0).unwrap(), (0, vec![0]));
    assert_eq!(seq.samples_until_step, 0);

    seq.stop();
    assert!(!seq.playing);
    assert_eq!(seq.current_step, 0);
    assert!(seq.tick(5).is_none());
}

#[test]
fn the_metronome_counts_four_beats_to_the_bar() {
    let mut metronome = Metronome::new(true, 3);
    assert!(metronome.tick(false).is_none());
    let first = metronome.tick(true).unwrap();
    assert_eq!(first, Click { beat_phase: 0, is_beat_one: true, sample_counter: 0 });
    metronome.tick(true);
    metronome.tick(true);
    assert_eq!(metronome.current_beat, 1);
    let next = metronome.tick(true).unwrap();
    assert_eq!(next.beat_phase, 0);
    assert!(!next.is_beat_one);
    for _ in 0..8 {
        metronome.tick(true);
    }
    assert_eq!(metronome.current_beat, 0);
    assert!(metronome.tick(true).unwrap().is_beat_one);

    metronome.set(false, 5);
    assert_eq!(metronome.sample_counter, 0);
    assert!(metronome.tick(true).is_none());
}

#[test]
fn input_formats_are_ranked() {
    assert_eq!(input_format_rank(InputFormat::F32), 0);
    assert_eq!(input_format_rank(InputFormat::I16), 1);
    assert_eq!(input_format_rank(InputFormat::U16), 2);
    assert_eq!(input_format_rank(InputFormat::I8), 6);
    assert_eq!(input_format_rank(InputFormat::U8), 7);
    assert_eq!(input_format_rank(InputFormat::Other), 20);
}

#[test]
fn input_configs_are_chosen_by_format_then_channels() {
    let configs = [
        range(8000, 44100, InputFormat::F32, 2),
        range(8000, 96000, InputFormat::I16, 2),
        range(8000, 96000, InputFormat::F32, 4),
        range(8000, 96000, InputFormat::F32, 2),
        range(8000, 96000, InputFormat::F32, 2),
    ];
    assert_eq!(select_input_config(&configs, 48000, 2, InputFormat::I16), Some(3));
    assert_eq!(select_input_config(&configs, 48000, 4, InputFormat::F32), Some(2));
    assert_eq!(select_input_config(&configs, 44100, 2, InputFormat::F32), Some(0));
    assert_eq!(select_input_config(&configs, 192000, 2, InputFormat::F32), None);
    assert_eq!(select_input_config(&[], 48000, 2, InputFormat::F32), None);
    let ties = [range(0, 100, InputFormat::I16, 1), range(0, 100, InputFormat::I16, 1)];
    assert_eq!(select_input_config(&ties, 50, 1, InputFormat::I16), Some(0));
}

#[test]
fn looper_pedal_records_finishes_then_overdubs() {
    assert_eq!(looper_toggle_action(false, false), LooperToggleAction::Record);
    assert_eq!(looper_toggle_action(false, true), LooperToggleAction::FinishRecording);
    assert_eq!(looper_toggle_action(true, true), LooperToggleAction::FinishRecording);
    assert_eq!(looper_toggle_action(true, false), LooperToggleAction::Overdub);
}

#[test]
fn empty_jam_chord_releases_bassline_and_harmony_state() {
    // 120 BPM at 100 frames per second: 50 frames per beat.
    let mut bassline_engine = BasslineEngine::new(50);
    let mut harmony_engine = HarmonyEngine::new();
    harmony_engine.enabled = true;

    let plan = trigger_jam_chord(&[60, 64, 67], 50, 8, &mut bassline_engine, &mut harmony_engine, false, true)
        .unwrap();

    assert!(!plan.voice_notes.is_empty());
    assert!(plan.bass_note.is_some());
    assert!(bassline_engine.current_chord.is_some());
    assert!(harmony_engine.current_chord.is_some());
    assert!(!harmony_engine.previous_voicing.is_empty());

    let plan = trigger_jam_chord(&[], 50, 8, &mut bassline_engine, &mut harmony_engine, false, true).unwrap();

    assert!(bassline_engine.current_chord.is_none());
    assert!(harmony_engine.current_chord.is_none());
    assert!(harmony_engine.previous_voicing.is_empty());
    assert!(plan.bass_note.is_none());
    assert!(plan.voice_notes.is_empty());
}

#[test]
fn silence_jam_output_clears_engines_and_forces_voices_idle() {
    let mut bassline_engine = BasslineEngine::new(50);
    let mut harmony_engine = HarmonyEngine::new();
    harmony_engine.enabled = true;

    trigger_jam_chord(&[60, 64, 67], 50, 8, &mut bassline_engine, &mut harmony_engine, true, true).unwrap();

    bassline_engine.stop_chord();
    harmony_engine.clear();

    assert!(bassline_engine.current_chord.is_none());
    assert!(harmony_engine.current_chord.is_none());
    assert!(harmony_engine.previous_voicing.is_empty());
}

#[test]
fn jam_chords_fill_voices_then_harmony() {
    let mut bassline = BasslineEngine::new(50);
    let mut harmony = HarmonyEngine::new();
    harmony.enabled = true;

    let plan = trigger_jam_chord(&[60, 64, 67], 40, 5, &mut bassline, &mut harmony, false, true).unwrap();
    assert_eq!(plan.bass_note, Some(36));
    assert_eq!(plan.voice_notes, vec![(0, 60, 70), (1, 64, 70), (2, 67, 70), (3, 72, 40), (4, 76, 40)]);
    assert_eq!(bassline.tempo_samples_per_beat, 40);

    let plan = trigger_jam_chord(&[30, 34, 37], 40, 2, &mut bassline, &mut harmony, true, false).unwrap();
    assert_eq!(plan.bass_note, None);
    assert_eq!(plan.voice_notes, vec![(0, 30, 70), (1, 34, 70)]);

    let low = trigger_jam_chord(&[5], 40, 8, &mut bassline, &mut harmony, false, false).unwrap();
    assert_eq!(low.bass_note, Some(0));
    let mid = trigger_jam_chord(&[30], 40, 8, &mut bassline, &mut harmony, false, false).unwrap();
    assert_eq!(mid.bass_note, Some(18));

    harmony.voicing_type = 3;
    assert!(trigger_jam_chord(&[240, 244], 40, 8, &mut bassline, &mut harmony, false, true).is_none());
}

#[test]
fn jam_chords_keep_the_voice_leading_history() {
    let mut bassline = BasslineEngine::new(50);
    let mut harmony = HarmonyEngine::new();
    harmony.enabled = true;

    trigger_jam_chord(&[60, 64, 67], 40, 8, &mut bassline, &mut harmony, true, true).unwrap();
    assert_eq!(harmony.previous_voicing, vec![72, 76, 79]);
    let plan = trigger_jam_chord(&[65, 69, 72], 40, 8, &mut bassline, &mut harmony, true, true).unwrap();
    assert_eq!(harmony.previous_voicing, vec![77, 81, 84]);
    assert_eq!(plan.voice_notes[3..].iter().map(|v| v.1).collect::<Vec<u8>>(), vec![77, 81, 84]);
    assert_eq!(bassline.last_bass_note, None);
    assert_eq!(bassline.pattern_position, 0);

    trigger_jam_chord(&[62, 65, 69], 40, 8, &mut bassline, &mut harmony, true, false).unwrap();
    assert_eq!(harmony.previous_voicing, vec![77, 81, 84]);

    trigger_jam_chord(&[], 40, 8, &mut bassline, &mut harmony, true, true).unwrap();
    assert!(harmony.previous_voicing.is_empty());
    assert_eq!(bassline.tempo_samples_per_beat, 40);
}

#[test]
fn a_silent_bassline_runs_without_a_beat_length() {
    let mut bassline = BasslineEngine::new(0);
    assert!(bassline.ready());
    assert_eq!(bassline.process_sample(), shed_power::chords::BassAction::Hold);
    bassline.new_chord(&[60, 64, 67]);
    assert!(!bassline.ready());
}
