use shed_power::jam::{note_index, parse_custom_chord, JamChordCommand, JamSong, JamSongChord};

fn chord(label: &str, beats: u64) -> JamSongChord {
    JamSongChord {
        notes: vec![60, 64, 67],
        beats,
        label: label.to_string(),
    }
}

#[test]
fn jam_song_advances_and_wraps_by_beat_lengths() {
    // 60 BPM at 10 frames per second: 10 frames per beat.
    let mut song = JamSong::new(vec![chord("C", 2), chord("F", 1)], 10).unwrap();

    assert_eq!(song.current_step().0, 0);
    for _ in 0..19 {
        assert!(song.advance_frame().is_none());
    }

    let next = song.advance_frame().unwrap();
    assert_eq!(next.0, 1);
    assert_eq!(next.2, "F");

    for _ in 0..9 {
        assert!(song.advance_frame().is_none());
    }

    let wrapped = song.advance_frame().unwrap();
    assert_eq!(wrapped.0, 0);
    assert_eq!(wrapped.2, "C");
}

#[test]
fn play_jam_track_chords_filter_empty_notes_and_clamp_tempo() {
    // 12 BPM is raised to 40 BPM; at 100 frames per second a beat is 150 frames.
    let mut song = JamSong::from_chords(
        vec![
            JamChordCommand {
                notes: Vec::new(),
                beats: 4,
                name: Some("Muted".to_string()),
            },
            JamChordCommand {
                notes: vec![60, 64, 67],
                beats: 0,
                name: Some("C".to_string()),
            },
        ],
        150,
    )
    .unwrap();

    assert_eq!(song.samples_per_beat, 150);
    assert_eq!(song.chords.len(), 1);
    assert_eq!(song.chords[0].beats, 1);
    assert_eq!(song.current_step(), (0, vec![60, 64, 67], "C".to_string()));

    for _ in 0..149 {
        assert!(song.advance_frame().is_none());
    }

    assert_eq!(
        song.advance_frame().unwrap(),
        (0, vec![60, 64, 67], "C".to_string())
    );
}

#[test]
fn play_jam_track_with_no_playable_chords_is_ignored() {
    // 120 BPM at 100 frames per second: 50 frames per beat.
    let song = JamSong::from_chords(
        vec![JamChordCommand {
            notes: Vec::new(),
            beats: 4,
            name: Some("Muted".to_string()),
        }],
        50,
    );

    assert!(song.is_none());
}

#[test]
fn custom_song_parts_parse_to_jam_song_steps() {
    // 300 BPM is lowered to 240 BPM; at 100 frames per second a beat is 25 frames.
    let song = JamSong::from_parts(
        &vec!["Bb7 | F#m7b5".to_string(), "Cmaj7".to_string()],
        25,
    )
    .unwrap();

    assert_eq!(song.samples_per_beat, 25);
    assert_eq!(song.chords.len(), 3);
    assert_eq!(song.chords[0].label, "Bb7");
    assert_eq!(song.chords[1].label, "F#m7b5");
    assert_eq!(song.chords[2].label, "Cmaj7");
}

#[test]
fn unnamed_track_chords_are_labelled_chord() {
    let song = JamSong::from_chords(
        vec![JamChordCommand { notes: vec![50], beats: 3, name: None }],
        4,
    )
    .unwrap();
    assert_eq!(song.current_step(), (0, vec![50], "Chord".to_string()));
    assert_eq!(song.chords[0].beats, 3);
}

#[test]
fn empty_songs_are_refused() {
    assert!(JamSong::new(Vec::new(), 10).is_none());
    assert!(JamSong::from_parts(&vec!["  | , ".to_string(), "xyz".to_string()], 10).is_none());
}

#[test]
fn note_names_map_to_pitch_classes() {
    assert_eq!(note_index("C"), Some(0));
    assert_eq!(note_index("b#"), Some(0));
    assert_eq!(note_index("Db"), Some(1));
    assert_eq!(note_index("f#"), Some(6));
    assert_eq!(note_index("Bb"), Some(10));
    assert_eq!(note_index("Cb"), Some(11));
    assert_eq!(note_index("H"), None);
    assert_eq!(note_index(""), None);
}

#[test]
fn chord_symbols_voice_in_the_bass_octaves() {
    let c = parse_custom_chord("C").unwrap();
    assert_eq!(c.notes, vec![48, 52, 55]);
    assert_eq!(c.beats, 4);
    assert_eq!(c.label, "C");

    let bb7 = parse_custom_chord("Bb7").unwrap();
    assert_eq!(bb7.notes, vec![46, 50, 53, 56]);

    let half = parse_custom_chord("F#m7b5").unwrap();
    assert_eq!(half.notes, vec![42, 45, 48, 52]);

    let cmaj7 = parse_custom_chord("Cmaj7").unwrap();
    assert_eq!(cmaj7.notes, vec![48, 52, 55, 59]);

    let dm9 = parse_custom_chord("Dm9").unwrap();
    assert_eq!(dm9.notes, vec![50, 53, 57, 60, 64]);

    let gsus = parse_custom_chord("[Gsus]").unwrap();
    assert_eq!(gsus.notes, vec![43, 48, 50]);
    assert_eq!(gsus.label, "Gsus");

    let adim = parse_custom_chord(" (Adim) ").unwrap();
    assert_eq!(adim.notes, vec![45, 48, 51]);
    assert_eq!(adim.label, "Adim");

    let esus2 = parse_custom_chord("Esus2").unwrap();
    assert_eq!(esus2.notes, vec![52, 54, 59]);

    assert!(parse_custom_chord("()").is_none());
    assert!(parse_custom_chord("X7").is_none());
}
