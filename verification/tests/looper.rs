use shed_power::looper::{LoopPart, Looper, PlaybackRead, RecordStep};
use shed_power::sources::LOOPER_PART_COUNT;

fn played(looper: &mut Looper, part: usize) -> Option<PlaybackRead> {
    looper.process()[part].play
}

#[test]
fn initializes_five_parts() {
    let looper = Looper::new();

    assert_eq!(LOOPER_PART_COUNT, 5);
    assert_eq!(looper.parts.len(), LOOPER_PART_COUNT);
    assert_eq!(looper.master_duration, 0);
}

#[test]
fn load_layers_rebuilds_mixed_buffer_for_playback_and_waveform() {
    let mut looper = Looper::new();

    looper.load_part_layers(0, &[8, 8]);

    assert_eq!(looper.master_duration, 8);
    assert_eq!(looper.parts[0].layer_count(), 2);
    assert_eq!(looper.parts[0].buffer_len, 8);
}

#[test]
fn undo_removes_committed_layers_one_at_a_time() {
    let mut looper = Looper::new();
    looper.load_part_layers(0, &[8, 8, 8]);

    assert!(looper.undo_part(0));
    assert_eq!(looper.master_duration, 8);
    assert_eq!(looper.parts[0].layer_count(), 2);
    assert_eq!(looper.parts[0].buffer_len, 8);

    assert!(looper.undo_part(0));
    assert_eq!(looper.parts[0].layer_count(), 1);
    assert_eq!(looper.parts[0].buffer_len, 8);

    assert!(looper.undo_part(0));
    assert_eq!(looper.master_duration, 0);
    assert!(!looper.parts[0].has_material());
    assert!(!looper.undo_part(0));
}

#[test]
fn undo_cancels_active_recording_layer_before_committed_layers() {
    let mut looper = Looper::new();
    looper.load_part_layers(0, &[8]);
    looper.start_overdub(0);
    looper.process();

    assert!(looper.parts[0].is_recording);
    assert!(looper.undo_part(0));

    assert!(!looper.parts[0].is_recording);
    assert_eq!(looper.parts[0].layer_count(), 1);
    assert_eq!(looper.parts[0].buffer_len, 8);
}

#[test]
fn empty_part_records_to_existing_master_duration() {
    let mut looper = Looper::new();
    looper.start_recording(0);
    for _ in 0..8 {
        looper.process();
    }
    assert!(looper.stop_recording(0, true));
    assert_eq!(looper.master_duration, 8);

    looper.start_recording(1);
    let short_take_samples = 3;
    for _ in 0..short_take_samples {
        looper.process();
    }
    assert!(looper.stop_recording(1, true));

    assert_eq!(looper.master_duration, 8);
    assert_eq!(looper.parts[1].layer_count(), 1);
    assert_eq!(looper.parts[1].buffer_len, 8);
}

#[test]
fn recording_uses_per_part_input_sample() {
    let mut looper = Looper::new();

    looper.start_recording(0);
    for _ in 0..2000 {
        let frames = looper.process();
        assert_eq!(frames[0].record, RecordStep::Append);
        assert_eq!(frames[1].record, RecordStep::Skip);
    }
    assert!(looper.stop_recording(0, true));

    looper.start_recording(1);
    for i in 0..2000 {
        let frames = looper.process();
        assert_eq!(frames[1].record, RecordStep::AddAt(i));
        assert_eq!(frames[0].record, RecordStep::Skip);
    }
    assert!(looper.stop_recording(1, true));

    looper.start_recording(4);
    for _ in 0..2000 {
        let frames = looper.process();
        assert_eq!(frames[2].record, RecordStep::Skip);
    }
    assert!(looper.stop_recording(4, true));

    assert_eq!(looper.parts[0].buffer_len, 2000);
    assert_eq!(looper.parts[1].buffer_len, 2000);
    assert_eq!(looper.parts[4].buffer_len, 2000);
}

#[test]
fn record_finish_commits_layer_starts_playback_and_sets_duration() {
    let mut looper = Looper::new();

    looper.start_recording(0);
    for _ in 0..2000 {
        looper.process();
    }

    assert!(looper.stop_recording(0, true));
    assert_eq!(looper.master_duration, 2000);
    assert_eq!(looper.parts[0].layer_count(), 1);
    assert_eq!(looper.part_state(0), "playing");
    assert!(looper.parts[0].is_playing);
    assert_eq!(looper.parts[0].play_ptr, 0);
}

#[test]
fn silent_recording_is_rejected_as_empty_material() {
    let mut looper = Looper::new();

    looper.start_recording(0);
    for _ in 0..16 {
        looper.process();
    }

    assert!(!looper.stop_recording(0, false));
    assert_eq!(looper.master_duration, 0);
    assert_eq!(looper.parts[0].layer_count(), 0);
    assert_eq!(looper.part_state(0), "empty");
    assert_eq!(looper.parts[0].buffer_len, 0);
}

#[test]
fn play_part_switches_to_only_the_active_part() {
    let mut looper = Looper::new();
    looper.load_part_layers(0, &[8]);
    looper.load_part_layers(1, &[8]);

    assert!(looper.play_part(0));
    assert!(looper.parts[0].is_playing);
    assert!(!looper.parts[1].is_playing);

    assert!(looper.play_part(1));
    assert!(!looper.parts[0].is_playing);
    assert!(looper.parts[1].is_playing);
    assert_eq!(looper.parts[1].play_ptr, 0);
}

#[test]
fn play_all_recorded_starts_every_recorded_part() {
    let mut looper = Looper::new();
    looper.load_part_layers(0, &[8]);
    looper.load_part_layers(1, &[8]);

    assert!(looper.play_all_recorded());
    assert!(looper.parts[0].is_playing);
    assert!(looper.parts[1].is_playing);
    assert!(!looper.parts[2].is_playing);
    assert!(!looper.parts[3].is_playing);
    assert!(!looper.parts[4].is_playing);

    let frames = looper.process();
    assert_eq!(frames[0].play, Some(PlaybackRead { index: 0, muted: false }));
    assert_eq!(frames[1].play, Some(PlaybackRead { index: 0, muted: false }));
    assert_eq!(frames[2].play, None);
    assert_eq!(frames[3].play, None);
    assert_eq!(frames[4].play, None);
}

#[test]
fn play_all_recorded_unmutes_previously_paused_parts() {
    let mut looper = Looper::new();
    looper.load_part_layers(0, &[8]);

    assert!(looper.play_all_recorded());
    assert_eq!(looper.toggle_part_active(0), Some(false));
    assert!(looper.parts[0].is_muted);
    looper.stop();

    assert!(looper.play_all_recorded());
    assert!(!looper.parts[0].is_muted);
    assert_eq!(looper.part_state(0), "playing");
    assert_eq!(played(&mut looper, 0), Some(PlaybackRead { index: 0, muted: false }));
}

#[test]
fn playback_wraps_to_the_start_of_the_loop() {
    let mut looper = Looper::new();
    looper.load_part_layers(0, &[3]);

    assert!(looper.play_all_recorded());

    let outputs = [
        played(&mut looper, 0).unwrap().index,
        played(&mut looper, 0).unwrap().index,
        played(&mut looper, 0).unwrap().index,
        played(&mut looper, 0).unwrap().index,
    ];
    assert_eq!(outputs, [0, 1, 2, 0]);
}

#[test]
fn muted_part_keeps_clocking_and_returns_in_time() {
    let mut looper = Looper::new();
    looper.load_part_layers(0, &[8]);
    looper.load_part_layers(1, &[8]);

    assert!(looper.play_all_recorded());
    looper.process();
    looper.process();

    assert_eq!(looper.toggle_part_active(1), Some(false));
    let muted_ptr = looper.parts[1].play_ptr;
    let muted_output = looper.process();
    assert_eq!(muted_output[0].play, Some(PlaybackRead { index: 2, muted: false }));
    assert_eq!(muted_output[1].play, Some(PlaybackRead { index: muted_ptr, muted: true }));
    assert_eq!(looper.parts[1].play_ptr, (muted_ptr + 1) % 8);

    looper.process();
    assert_eq!(looper.toggle_part_active(1), Some(true));
    assert_eq!(looper.part_state(1), "playing");
    assert_eq!(looper.parts[1].play_ptr, looper.parts[0].play_ptr);
    let resumed_output = looper.process();
    assert_eq!(resumed_output[1].play.map(|r| r.muted), Some(false));
}

#[test]
fn overdub_writes_from_current_playhead_position() {
    let mut looper = Looper::new();
    looper.load_part_layers(0, &[8]);
    assert!(looper.play_part(0));
    looper.process();
    looper.process();

    looper.start_overdub(0);
    let frames = looper.process();
    assert_eq!(frames[0].record, RecordStep::AddAt(2));
    assert!(looper.stop_recording(0, true));

    assert_eq!(looper.parts[0].layer_count(), 2);
    assert_eq!(looper.parts[0].layer_lens, vec![8, 8]);
}

#[test]
fn silent_overdub_keeps_existing_loop_and_layer_count() {
    let mut looper = Looper::new();
    looper.load_part_layers(0, &[8]);
    assert!(looper.play_all_recorded());

    looper.start_overdub(0);
    for _ in 0..8 {
        looper.process();
    }

    assert!(!looper.stop_recording(0, false));
    assert_eq!(looper.parts[0].layer_count(), 1);
    assert_eq!(looper.part_state(0), "playing");
    assert!(played(&mut looper, 0).is_some());
}

#[test]
fn clear_part_preserves_remaining_part_duration() {
    let mut looper = Looper::new();
    looper.load_part_layers(0, &[8]);
    looper.load_part_layers(1, &[6]);

    looper.clear_part(0);

    assert_eq!(looper.master_duration, 6);
    assert!(!looper.parts[0].has_material());
    assert!(looper.parts[1].has_material());
    assert_eq!(looper.parts[1].buffer_len, 6);
}

#[test]
fn clear_last_part_resets_master_duration() {
    let mut looper = Looper::new();
    looper.load_part_layers(0, &[8]);

    looper.clear_part(0);

    assert_eq!(looper.master_duration, 0);
    assert!(!looper.parts[0].has_material());
}

#[test]
fn undo_and_clear_cancel_active_sequence() {
    let mut looper = Looper::new();
    looper.load_part_layers(0, &[8, 8]);
    looper.load_part_layers(1, &[8]);

    assert!(looper.start_sequence(vec![0, 1]));
    assert!(looper.sequence_active);
    assert!(looper.undo_part(0));
    assert!(!looper.sequence_active);

    assert!(looper.start_sequence(vec![0, 1]));
    assert!(looper.sequence_active);
    looper.clear_part(1);
    assert!(!looper.sequence_active);
}

#[test]
fn sequence_filters_empty_parts_and_wraps() {
    let mut looper = Looper::new();
    looper.load_part_layers(0, &[4]);
    looper.load_part_layers(2, &[4]);
    looper.load_part_layers(4, &[4]);

    assert!(looper.start_sequence(vec![0, 1, 2, 3, 4]));
    assert_eq!(looper.sequence, vec![0, 2, 4]);
    assert_eq!(looper.current_sequence_part(), Some(0));
    assert!(looper.parts[0].is_playing);

    for _ in 0..4 {
        looper.process();
    }
    assert_eq!(looper.current_sequence_part(), Some(2));
    assert!(looper.parts[2].is_playing);

    for _ in 0..4 {
        looper.process();
    }
    assert_eq!(looper.current_sequence_part(), Some(4));
    assert!(looper.parts[4].is_playing);

    for _ in 0..4 {
        looper.process();
    }
    assert_eq!(looper.current_sequence_part(), Some(0));
    assert!(looper.parts[0].is_playing);
}

#[test]
fn sequence_refuses_without_loop_or_material() {
    let mut looper = Looper::new();
    assert!(!looper.start_sequence(vec![0, 1]));
    looper.load_part_layers(0, &[4]);
    assert!(!looper.start_sequence(vec![]));
    assert!(!looper.start_sequence(vec![1, 7]));
    assert!(!looper.sequence_active);
    assert_eq!(looper.current_sequence_part(), None);
}

#[test]
fn stop_sequence_rewinds_every_part() {
    let mut looper = Looper::new();
    looper.load_part_layers(0, &[4]);
    looper.load_part_layers(1, &[4]);
    assert!(looper.start_sequence(vec![0, 1]));
    looper.process();
    looper.stop_sequence();
    assert!(!looper.sequence_active);
    assert_eq!(looper.sequence_step, 0);
    assert!(looper.parts.iter().all(|p| !p.is_playing && p.play_ptr == 0));
}

#[test]
fn following_the_song_switches_parts_once_per_step() {
    let mut looper = Looper::new();
    looper.load_part_layers(0, &[4]);
    looper.load_part_layers(1, &[4]);
    assert!(looper.start_sequence(vec![0, 1]));

    let (seen, report) = looper.follow_sequence_step(usize::MAX);
    assert_eq!(seen, 0);
    assert_eq!(report, Some((0, 0)));
    assert_eq!(looper.follow_sequence_step(seen), (0, None));

    for _ in 0..4 {
        looper.process();
    }
    let (seen, report) = looper.follow_sequence_step(seen);
    assert_eq!(seen, 1);
    assert_eq!(report, Some((1, 1)));
    assert!(looper.parts[1].is_playing);
    assert!(!looper.parts[0].is_playing);

    looper.stop_sequence();
    assert_eq!(looper.follow_sequence_step(seen), (usize::MAX, None));
}

#[test]
fn transport_queries_follow_the_parts() {
    let mut looper = Looper::new();
    assert!(!looper.is_any_playing());
    assert!(!looper.is_any_recording());
    assert_eq!(looper.part_state(9), "empty");
    looper.start_recording(2);
    assert!(looper.is_any_recording());
    assert_eq!(looper.part_state(2), "recording");
    looper.load_part_layers(3, &[5]);
    looper.start_overdub(3);
    assert_eq!(looper.part_state(3), "overdubbing");
    looper.stop();
    assert!(!looper.is_any_recording());
    assert_eq!(looper.part_state(3), "recorded");
    assert_eq!(looper.toggle_part_active(4), None);
    assert_eq!(looper.toggle_part_active(3), Some(true));
    assert!(looper.is_any_playing());
}

#[test]
fn loading_parts_keeps_only_non_empty_layers() {
    let mut part = LoopPart::new();
    part.load_layers(&[0, 6, 0, 9]);
    assert_eq!(part.layer_lens, vec![6, 9]);
    assert_eq!(part.buffer_len, 9);
    assert_eq!(part.duration_samples, 9);

    part.load_mixed_buffer(0);
    assert!(!part.has_material());
    part.load_mixed_buffer(12);
    assert_eq!(part.layer_lens, vec![12]);

    let mut looper = Looper::new();
    looper.load_part_buffer(2, 7);
    assert_eq!(looper.master_duration, 7);
    looper.load_part_buffer(9, 7);
    assert_eq!(looper.master_duration, 7);
}

#[test]
fn undo_after_a_commit_restores_the_previous_layers() {
    let mut part = LoopPart::new();
    part.load_layers(&[6]);
    part.start_recording(0);
    for _ in 0..6 {
        part.record_step();
    }
    assert!(part.stop_recording(true));
    assert_eq!(part.layer_lens, vec![6, 6]);
    assert!(part.undo());
    assert_eq!(part.layer_lens, vec![6]);
    assert_eq!(part.buffer_len, 6);
    assert_eq!(part.duration_samples, 6);
}

#[test]
fn a_free_take_grows_until_it_stops() {
    let mut part = LoopPart::new();
    part.start_recording(0);
    assert_eq!(part.record_step(), RecordStep::Append);
    assert_eq!(part.record_step(), RecordStep::Append);
    assert_eq!(part.recording_len, Some(2));
    assert!(part.stop_recording(true));
    assert_eq!(part.duration_samples, 2);
    assert!(part.is_playing);
    assert!(!part.stop_recording(true));
}

#[test]
fn playback_cycles_back_after_a_whole_loop() {
    let mut part = LoopPart::new();
    part.load_layers(&[5]);
    part.is_playing = true;
    part.play_ptr = 3;
    for _ in 0..5 {
        part.next_playback_sample();
    }
    assert_eq!(part.play_ptr, 3);
}
