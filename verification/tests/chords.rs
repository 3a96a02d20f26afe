use shed_power::chords::{
    bassline_pattern_for_style, voicing_in_range, BassAction, BasslineEngine, BasslinePattern,
    ChordInfo, ChordType, HarmonyEngine, VoicingNote,
};

fn info(root: u8, chord_type: ChordType) -> ChordInfo {
    ChordInfo { root, chord_type, start_time: 0 }
}

#[test]
fn chord_qualities_are_read_from_intervals_above_the_first_note() {
    assert_eq!(ChordInfo::analyze_chord(&[60, 64, 67]), ChordType::Major);
    assert_eq!(ChordInfo::analyze_chord(&[60, 63, 67]), ChordType::Minor);
    assert_eq!(ChordInfo::analyze_chord(&[60, 64, 67, 70]), ChordType::Dominant7);
    assert_eq!(ChordInfo::analyze_chord(&[60, 63, 67, 70]), ChordType::Minor7);
    assert_eq!(ChordInfo::analyze_chord(&[60, 64, 67, 71]), ChordType::Major7);
    assert_eq!(ChordInfo::analyze_chord(&[60, 63, 66]), ChordType::Diminished);
    assert_eq!(ChordInfo::analyze_chord(&[60, 62, 67]), ChordType::Sus2);
    assert_eq!(ChordInfo::analyze_chord(&[60, 65, 67]), ChordType::Sus4);
    assert_eq!(ChordInfo::analyze_chord(&[62, 57, 65]), ChordType::Minor);
    assert_eq!(ChordInfo::analyze_chord(&[60]), ChordType::Major);
    assert_eq!(ChordInfo::analyze_chord(&[]), ChordType::Major);
    assert_eq!(ChordInfo::analyze_chord(&[60, 61]), ChordType::Major);
}

#[test]
fn chord_tones_stay_in_the_roots_octave() {
    assert_eq!(ChordInfo::get_chord_tones(&info(60, ChordType::Major)), vec![60, 64, 67]);
    assert_eq!(
        ChordInfo::get_chord_tones(&info(67, ChordType::Dominant7)),
        vec![67, 71, 62, 65]
    );
    assert_eq!(ChordInfo::get_chord_tones(&info(57, ChordType::Minor7)), vec![57, 48, 52, 55]);
    assert_eq!(ChordInfo::get_chord_tones(&info(62, ChordType::Sus4)), vec![62, 67, 69]);
}

#[test]
fn walking_bass_plays_every_beat() {
    let mut engine = BasslineEngine::new(4);
    engine.set_pattern(BasslinePattern::Walking);
    engine.new_chord(&[60, 64, 67]);
    let mut played = Vec::new();
    for _ in 0..16 {
        match engine.process_sample() {
            BassAction::Play(n) => played.push(n),
            BassAction::Hold => {}
            BassAction::Release => panic!("walking lines do not rest"),
        }
    }
    assert_eq!(played, vec![36, 40, 43, 34]);
    assert_eq!(engine.last_bass_note, Some(34));
    assert_eq!(engine.current_sample, 16);
}

#[test]
fn rhythmic_bass_plays_on_and_a_sixteenth_after_the_strong_beats() {
    let mut engine = BasslineEngine::new(4);
    engine.set_pattern(BasslinePattern::Rhythmic);
    engine.new_chord(&[60, 64, 67]);
    let actions: Vec<BassAction> = (0..16).map(|_| engine.process_sample()).collect();
    for (i, action) in actions.iter().enumerate() {
        let expected = match i {
            0 | 1 => BassAction::Play(36),
            8 | 9 => BassAction::Play(43),
            _ => BassAction::Hold,
        };
        assert_eq!(*action, expected, "sample {}", i);
    }
}

#[test]
fn root_bass_plays_the_root_once_on_the_chords_downbeat() {
    let mut engine = BasslineEngine::new(100);
    engine.new_chord(&[60, 64, 67]);
    let actions: Vec<BassAction> = (0..100).map(|_| engine.process_sample()).collect();
    assert_eq!(actions[0], BassAction::Play(36));
    assert_eq!(actions.iter().filter(|a| **a != BassAction::Hold).count(), 1);
    assert_eq!(engine.last_bass_note, Some(36));
}

#[test]
fn octave_bass_jumps_up_on_beat_three() {
    let mut engine = BasslineEngine::new(2);
    engine.set_pattern(BasslinePattern::Octave);
    engine.new_chord(&[48, 52, 55]);
    let actions: Vec<BassAction> = (0..8).map(|_| engine.process_sample()).collect();
    assert_eq!(actions[0], BassAction::Play(36));
    assert_eq!(actions[2], BassAction::Hold);
    assert_eq!(actions[4], BassAction::Play(48));
    assert_eq!(actions[6], BassAction::Hold);
}

#[test]
fn a_new_chord_takes_over_at_the_next_sample() {
    let mut engine = BasslineEngine::new(4);
    engine.new_chord(&[60, 64, 67]);
    engine.process_sample();
    engine.new_chord(&[65, 69, 72]);
    assert_eq!(engine.current_chord.map(|c| c.root), Some(60));
    assert_eq!(engine.next_chord_queue.map(|c| c.root), Some(65));
    engine.process_sample();
    assert_eq!(engine.current_chord.map(|c| c.root), Some(65));
    assert!(engine.next_chord_queue.is_none());
    engine.stop_chord();
    assert!(engine.current_chord.is_none());
    assert_eq!(engine.process_sample(), BassAction::Hold);
    engine.set_tempo(9);
    assert_eq!(engine.tempo_samples_per_beat, 9);
}

#[test]
fn harmony_is_voiced_and_led_to_the_nearest_octave() {
    let mut harmony = HarmonyEngine::new();
    assert!(harmony.get_professional_harmony(&[60, 64, 67]).is_empty());
    harmony.enabled = true;
    harmony.set_chord(&[60, 64, 67]);
    let first = harmony.get_professional_harmony(&[60, 64, 67]);
    assert_eq!(
        first,
        vec![VoicingNote { note: 72 }, VoicingNote { note: 76 }, VoicingNote { note: 79 }]
    );
    harmony.set_chord(&[65, 69, 72]);
    let second = harmony.get_professional_harmony(&[65, 69, 72]);
    assert_eq!(
        second,
        vec![VoicingNote { note: 77 }, VoicingNote { note: 81 }, VoicingNote { note: 84 }]
    );
    assert_eq!(harmony.previous_voicing, vec![77, 81, 84]);
    harmony.clear();
    assert!(harmony.current_chord.is_none());
    assert!(harmony.previous_voicing.is_empty());
}

#[test]
fn each_voicing_style_stacks_its_notes() {
    let mut harmony = HarmonyEngine::new();
    harmony.enabled = true;
    harmony.set_chord(&[60, 64, 67, 70]);
    harmony.voicing_type = 1;
    let open: Vec<u8> = harmony.get_professional_harmony(&[60]).iter().map(|v| v.note).collect();
    assert_eq!(open, vec![72, 79, 88, 94]);

    let mut drop2 = HarmonyEngine::new();
    drop2.enabled = true;
    drop2.voicing_type = 2;
    drop2.set_chord(&[60, 64, 67, 70]);
    let notes: Vec<u8> = drop2.get_professional_harmony(&[60]).iter().map(|v| v.note).collect();
    assert_eq!(notes, vec![67, 72, 76, 82]);

    let mut quartal = HarmonyEngine::new();
    quartal.enabled = true;
    quartal.voicing_type = 3;
    quartal.set_chord(&[50]);
    let notes: Vec<u8> = quartal.get_professional_harmony(&[50]).iter().map(|v| v.note).collect();
    assert_eq!(notes, vec![62, 67, 72, 77]);

    let mut extended = HarmonyEngine::new();
    extended.enabled = true;
    extended.voicing_type = 4;
    extended.set_chord(&[60, 64, 67, 70]);
    let notes: Vec<u8> = extended.get_professional_harmony(&[60]).iter().map(|v| v.note).collect();
    assert_eq!(notes, vec![72, 76, 79, 74, 78, 92]);

    let mut major = HarmonyEngine::new();
    major.enabled = true;
    major.voicing_type = 4;
    major.set_chord(&[60, 64, 67]);
    let notes: Vec<u8> = major.get_professional_harmony(&[60, 64, 67]).iter().map(|v| v.note).collect();
    assert_eq!(notes, vec![72, 76, 79, 74, 93]);

    let mut minor = HarmonyEngine::new();
    minor.enabled = true;
    minor.voicing_type = 4;
    minor.set_chord(&[57, 60, 64]);
    let notes: Vec<u8> = minor.get_professional_harmony(&[57]).iter().map(|v| v.note).collect();
    assert_eq!(notes, vec![69, 60, 64, 71, 74]);

    let mut triad = HarmonyEngine::new();
    triad.enabled = true;
    triad.voicing_type = 2;
    triad.set_chord(&[60, 64, 67]);
    let notes: Vec<u8> = triad.get_professional_harmony(&[60]).iter().map(|v| v.note).collect();
    assert_eq!(notes, vec![64, 72, 79]);
}

#[test]
fn voicings_near_the_top_of_the_range_do_not_fit() {
    assert!(voicing_in_range(0, &info(60, ChordType::Major)));
    assert!(voicing_in_range(3, &info(228, ChordType::Major)));
    assert!(!voicing_in_range(3, &info(240, ChordType::Major)));
    assert!(!voicing_in_range(0, &info(250, ChordType::Major)));
    assert!(!voicing_in_range(4, &info(230, ChordType::Major)));
}

#[test]
fn bassline_styles_select_patterns() {
    assert_eq!(bassline_pattern_for_style(0), BasslinePattern::Root);
    assert_eq!(bassline_pattern_for_style(1), BasslinePattern::Octave);
    assert_eq!(bassline_pattern_for_style(2), BasslinePattern::Walking);
    assert_eq!(bassline_pattern_for_style(3), BasslinePattern::Rhythmic);
    assert_eq!(bassline_pattern_for_style(9), BasslinePattern::Root);
}

#[test]
fn chord_quality_ignores_transposition_octaves_and_order() {
    assert_eq!(ChordInfo::analyze_chord(&[60, 64, 67, 70]), ChordType::Dominant7);
    assert_eq!(ChordInfo::analyze_chord(&[62, 66, 69, 72]), ChordType::Dominant7);
    assert_eq!(ChordInfo::analyze_chord(&[62, 81, 54, 72, 66]), ChordType::Dominant7);
    assert_eq!(ChordInfo::analyze_chord(&[57, 76, 48, 60]), ChordType::Minor);
}

#[test]
fn chord_tones_are_recognized_as_their_chord() {
    for chord_type in [
        ChordType::Major,
        ChordType::Minor,
        ChordType::Dominant7,
        ChordType::Minor7,
        ChordType::Major7,
        ChordType::Diminished,
        ChordType::Sus2,
        ChordType::Sus4,
    ] {
        for root in [0u8, 47, 60, 71, 251] {
            let tones = ChordInfo::get_chord_tones(&info(root, chord_type));
            assert_eq!(ChordInfo::analyze_chord(&tones), chord_type);
        }
    }
}
