use shed_power::persistence::{
    app_data_dir, app_state_path, default_looper_sources, delete_lesson, finish_practice_session,
    normalize_looper_sources, record_recent_project, remove_lessons_with_id, save_lesson,
    settings_looper_sources, start_practice_session, validate_app_state, with_looper_source,
    with_looper_sources, contains_id, import_legacy_lessons, plan_legacy_import, AppStateError,
    LegacyLesson, PracticeState, ProjectRecord, SavedLesson,
    APP_SCHEMA_VERSION, RECENT_PROJECT_LIMIT,
};
use shed_power::sources::{LooperSource, LOOPER_PART_COUNT};

fn lesson(id: &str, title: &str) -> SavedLesson {
    SavedLesson {
        id: id.to_string(),
        title: title.to_string(),
        mode: "drill".to_string(),
        volume_id: "v1".to_string(),
        musician_id: "m1".to_string(),
        musician_name: "Player".to_string(),
        duration: 10,
        theory: "theory".to_string(),
        drill: "drill".to_string(),
    }
}

fn project(path: &str, schema_version: u32) -> ProjectRecord {
    ProjectRecord {
        path: path.to_string(),
        action: "save".to_string(),
        recorded_at: "100".to_string(),
        schema_version,
    }
}

#[test]
fn default_settings_include_five_looper_sources() {
    let sources = default_looper_sources();

    assert_eq!(sources.len(), LOOPER_PART_COUNT);
    assert_eq!(sources[0], LooperSource::InputChannel(1));
    assert_eq!(sources[1], LooperSource::InputChannel(2));
    assert_eq!(sources[2], LooperSource::InputMix);
    assert_eq!(sources[3], LooperSource::Silent);
    assert_eq!(sources[4], LooperSource::Silent);
}

#[test]
fn looper_source_normalization_migrates_missing_and_zero_channel_values() {
    let sources =
        normalize_looper_sources(&[LooperSource::InputChannel(0), LooperSource::Synth]);

    assert_eq!(sources.len(), LOOPER_PART_COUNT);
    assert_eq!(sources[0], LooperSource::InputMix);
    assert_eq!(sources[1], LooperSource::Synth);
    assert_eq!(sources[2], LooperSource::InputMix);
    assert_eq!(sources[3], LooperSource::Silent);
    assert_eq!(sources[4], LooperSource::Silent);
}

#[test]
fn app_settings_update_preserves_looper_sources_when_omitted() {
    let preserved_sources = vec![
        LooperSource::Synth,
        LooperSource::Mpc,
        LooperSource::Jam,
        LooperSource::InstrumentMix,
        LooperSource::InputChannel(8),
    ];

    let sources = settings_looper_sources(&preserved_sources, &None);

    assert_eq!(sources, preserved_sources);
}

#[test]
fn app_settings_update_replaces_looper_sources_when_supplied() {
    let current = vec![LooperSource::Silent; LOOPER_PART_COUNT];

    let sources = settings_looper_sources(
        &current,
        &Some(vec![LooperSource::InputChannel(0), LooperSource::Mpc]),
    );

    assert_eq!(sources.len(), LOOPER_PART_COUNT);
    assert_eq!(sources[0], LooperSource::InputMix);
    assert_eq!(sources[1], LooperSource::Mpc);
    assert_eq!(sources[2], LooperSource::InputMix);
    assert_eq!(sources[3], LooperSource::Silent);
    assert_eq!(sources[4], LooperSource::Silent);
}

#[test]
fn normalizing_twice_changes_nothing_more() {
    let once = normalize_looper_sources(&[LooperSource::InputChannel(40)]);
    let twice = normalize_looper_sources(&once);
    assert_eq!(once, twice);
    assert_eq!(once[0], LooperSource::InputChannel(8));
    let extra = normalize_looper_sources(&[LooperSource::Jam; 7]);
    assert_eq!(extra, vec![LooperSource::Jam; LOOPER_PART_COUNT]);
}

#[test]
fn assigning_one_source_normalizes_the_rest() {
    let sources = with_looper_source(&[LooperSource::InputChannel(0)], 3, LooperSource::Synth);
    assert_eq!(
        sources,
        vec![
            LooperSource::InputMix,
            LooperSource::InputChannel(2),
            LooperSource::InputMix,
            LooperSource::Synth,
            LooperSource::Silent,
        ]
    );
    let unchanged = with_looper_source(&[], 9, LooperSource::Synth);
    assert_eq!(unchanged, default_looper_sources());
}

#[test]
fn assigning_several_sources_keeps_unset_parts() {
    let sources = with_looper_sources(
        &[],
        &[None, Some(LooperSource::Jam), None, None, Some(LooperSource::Mpc), Some(LooperSource::Synth)],
    );
    assert_eq!(
        sources,
        vec![
            LooperSource::InputChannel(1),
            LooperSource::Jam,
            LooperSource::InputMix,
            LooperSource::Silent,
            LooperSource::Mpc,
        ]
    );
}

#[test]
fn saving_a_lesson_replaces_one_with_the_same_id() {
    let mut lessons = vec![lesson("a", "First"), lesson("b", "Second")];
    save_lesson(&mut lessons, lesson("a", "Again"));
    assert_eq!(lessons.len(), 2);
    assert_eq!(lessons[0].id, "a");
    assert_eq!(lessons[0].title, "Again");
    assert_eq!(lessons[1].id, "b");
}

#[test]
fn removing_lessons_keeps_the_others_in_order() {
    let mut lessons = vec![lesson("a", "1"), lesson("b", "2"), lesson("a", "3"), lesson("c", "4")];
    remove_lessons_with_id(&mut lessons, &"a".to_string());
    assert_eq!(lessons.len(), 2);
    assert_eq!(lessons[0].id, "b");
    assert_eq!(lessons[1].id, "c");
}

#[test]
fn practice_sessions_start_finish_and_follow_deleted_lessons() {
    let mut lessons = vec![lesson("b", "Chords")];
    let mut practice = PracticeState::new();
    start_practice_session(&mut lessons, &mut practice, lesson("a", "Scales"), "100".to_string());
    assert_eq!(lessons.len(), 2);
    assert_eq!(lessons[0].id, "a");
    let active = practice.active_session.as_ref().unwrap();
    assert_eq!(active.lesson_id, "a");
    assert_eq!(active.started_at, "100");
    assert_eq!(active.duration, 10);
    finish_practice_session(&mut practice, &"other".to_string(), "150".to_string());
    assert!(practice.active_session.is_some());
    finish_practice_session(&mut practice, &"a".to_string(), "200".to_string());
    assert!(practice.active_session.is_none());
    assert_eq!(practice.sessions.len(), 1);
    assert_eq!(practice.sessions[0].completed_at, Some("200".to_string()));

    start_practice_session(&mut lessons, &mut practice, lesson("a", "Scales"), "300".to_string());
    delete_lesson(&mut lessons, &mut practice, &"a".to_string());
    assert_eq!(lessons.len(), 1);
    assert_eq!(lessons[0].id, "b");
    assert!(practice.active_session.is_none());
    assert_eq!(practice.sessions.len(), 1);
}

#[test]
fn recent_projects_move_to_the_front_and_are_capped() {
    let mut projects = Vec::new();
    for i in 0..12 {
        record_recent_project(&mut projects, project(&format!("/p{}", i), 2));
    }
    assert_eq!(projects.len(), RECENT_PROJECT_LIMIT);
    assert_eq!(projects[0].path, "/p11");
    record_recent_project(&mut projects, project("/p5", 2));
    assert_eq!(projects.len(), RECENT_PROJECT_LIMIT);
    assert_eq!(projects[0].path, "/p5");
    assert_eq!(projects.iter().filter(|p| p.path == "/p5").count(), 1);
}

#[test]
fn app_state_validation_reports_each_error() {
    assert!(validate_app_state(APP_SCHEMA_VERSION, &[project("/a", 1), project("/b", 2)], 5).is_ok());

    let err = validate_app_state(3, &[], 5).unwrap_err();
    assert!(matches!(err, AppStateError::UnsupportedSchema { found: 3 }));
    assert_eq!(err.message(), "Unsupported app state schema 3. Expected 1.");

    let err = validate_app_state(APP_SCHEMA_VERSION, &[project("/a", 1), project("/x", 7)], 5).unwrap_err();
    assert_eq!(err.message(), "Unsupported recent project schema 7 for /x.");

    let err = validate_app_state(APP_SCHEMA_VERSION, &[], 4).unwrap_err();
    assert!(matches!(err, AppStateError::WrongSourceCount { count: 4 }));
    assert_eq!(err.message(), "Expected 5 looper source settings, got 4.");
}

#[test]
fn app_state_lives_in_the_first_configured_directory() {
    let s = |v: &str| Some(v.to_string());
    assert_eq!(app_data_dir(s("C:/AppData"), s("/xdg"), s("/home/u"), s("/cwd")), vec!["C:/AppData", "shed-power"]);
    assert_eq!(app_data_dir(None, s("/xdg"), s("/home/u"), s("/cwd")), vec!["/xdg", "shed-power"]);
    assert_eq!(app_data_dir(None, None, s("/home/u"), s("/cwd")), vec!["/home/u", ".shed-power"]);
    assert_eq!(app_data_dir(None, None, None, s("/cwd")), vec!["/cwd", "shed-power"]);
    assert_eq!(app_data_dir(None, None, None, None), vec![".", "shed-power"]);
    assert_eq!(
        app_state_path(None, None, s("/home/u"), None),
        vec!["/home/u", ".shed-power", "app_state.json"]
    );
}

fn bare_legacy(id: Option<&str>) -> LegacyLesson {
    LegacyLesson {
        id: id.map(str::to_string),
        title: None,
        mode: None,
        volume_id: None,
        artist_id: None,
        artist_name: None,
        duration: None,
        theory: None,
        drill: None,
    }
}

#[test]
fn legacy_import_plan_numbers_missing_ids_by_count_and_skips_known_ids() {
    let existing = vec!["a".to_string()];
    let given = vec![None, Some("a".to_string()), None, Some("b".to_string()), Some("b".to_string())];
    let plan = plan_legacy_import(&existing, &given, "legacy-spark");
    assert_eq!(
        plan,
        vec![
            (0, "legacy-spark-1".to_string()),
            (2, "legacy-spark-2".to_string()),
            (3, "b".to_string()),
        ]
    );
}

#[test]
fn legacy_import_plan_skips_a_generated_id_already_there() {
    let existing = vec!["x-1".to_string()];
    let plan = plan_legacy_import(&existing, &vec![None, None], "x");
    assert!(plan.is_empty());
    assert!(contains_id(&existing, &"x-1".to_string()));
    assert!(!contains_id(&existing, &"x-2".to_string()));
}

#[test]
fn legacy_lessons_get_defaults_and_keep_saved_ones() {
    let mut lessons = vec![lesson("legacy-lesson-1", "Mine")];
    let mut full = bare_legacy(Some("imported"));
    full.title = Some("Blues".to_string());
    full.mode = Some("solo".to_string());
    full.volume_id = Some("vol".to_string());
    full.artist_id = Some("bb".to_string());
    full.artist_name = Some("B.B.".to_string());
    full.duration = Some((1u64 << 32) + 5);
    full.theory = Some("t".to_string());
    full.drill = Some("d".to_string());
    let legacy = vec![bare_legacy(None), full, bare_legacy(Some("legacy-lesson-1"))];

    import_legacy_lessons(&mut lessons, &legacy);

    assert_eq!(lessons.len(), 2);
    assert_eq!(lessons[0].title, "Mine");
    let added = &lessons[1];
    assert_eq!(added.id, "imported");
    assert_eq!(added.title, "Blues");
    assert_eq!(added.mode, "solo");
    assert_eq!(added.volume_id, "vol");
    assert_eq!(added.musician_id, "bb");
    assert_eq!(added.musician_name, "B.B.");
    assert_eq!(added.duration, 5);
    assert_eq!(added.theory, "t");
    assert_eq!(added.drill, "d");
}

#[test]
fn legacy_lesson_without_fields_takes_the_defaults() {
    let mut lessons = Vec::new();
    import_legacy_lessons(&mut lessons, &vec![bare_legacy(None), bare_legacy(None)]);
    assert_eq!(lessons.len(), 2);
    assert_eq!(lessons[0].id, "legacy-lesson-0");
    assert_eq!(lessons[1].id, "legacy-lesson-1");
    assert_eq!(lessons[0].title, "Legacy Lesson");
    assert_eq!(lessons[0].mode, "legacy");
    assert_eq!(lessons[0].volume_id, "legacy");
    assert_eq!(lessons[0].musician_id, "legacy");
    assert_eq!(lessons[0].musician_name, "Legacy");
    assert_eq!(lessons[0].duration, 10);
    assert_eq!(lessons[0].theory, "");
    assert_eq!(lessons[0].drill, "");
}

#[test]
fn saving_a_lesson_twice_is_saving_it_once() {
    let mut once = vec![lesson("a", "A"), lesson("b", "B")];
    save_lesson(&mut once, lesson("b", "B2"));
    let mut twice = vec![lesson("a", "A"), lesson("b", "B")];
    save_lesson(&mut twice, lesson("b", "B2"));
    save_lesson(&mut twice, lesson("b", "B2"));
    let ids = |v: &Vec<SavedLesson>| v.iter().map(|l| (l.id.clone(), l.title.clone())).collect::<Vec<_>>();
    assert_eq!(ids(&once), ids(&twice));
    assert_eq!(ids(&once), vec![("b".to_string(), "B2".to_string()), ("a".to_string(), "A".to_string())]);

    remove_lessons_with_id(&mut twice, &"b".to_string());
    assert_eq!(ids(&twice), vec![("a".to_string(), "A".to_string())]);
}

#[test]
fn recording_a_project_twice_is_recording_it_once() {
    let mut once: Vec<ProjectRecord> = (0..12).map(|i| project(&format!("p{}", i), 2)).collect();
    let mut twice: Vec<ProjectRecord> = (0..12).map(|i| project(&format!("p{}", i), 2)).collect();
    record_recent_project(&mut once, project("p11", 2));
    record_recent_project(&mut twice, project("p11", 2));
    record_recent_project(&mut twice, project("p11", 2));
    let paths = |v: &Vec<ProjectRecord>| v.iter().map(|p| p.path.clone()).collect::<Vec<_>>();
    assert_eq!(paths(&once), paths(&twice));
    assert_eq!(once.len(), RECENT_PROJECT_LIMIT);
    assert_eq!(once[0].path, "p11");
    assert_eq!(once[1].path, "p0");
}
