use shed_power::project::{
    infer_project_part_count, is_part_layer_file, parse_looper_source_metadata,
    parse_project_part_sources, part_layer_file_name, part_mixed_file_name, project_part_entries,
    saved_layer_files, validate_project_manifest, ManifestError, ProjectManifest, SourceMetadata,
    PROJECT_SCHEMA_VERSION,
};
use shed_power::sources::{LooperSource, LOOPER_PART_COUNT};

fn header(schema_version: Option<u64>, app: &str, kind: &str) -> ProjectManifest {
    ProjectManifest {
        schema_version,
        app: Some(app.to_string()),
        kind: Some(kind.to_string()),
        part_count: None,
        parts: None,
    }
}

fn kind_only(kind: &str, channel: Option<u64>) -> SourceMetadata {
    SourceMetadata { parsed: None, kind: Some(kind.to_string()), channel }
}

#[test]
fn project_manifest_v2_lists_all_five_parts() {
    let buffer_lens = [8, 0, 0, 4, 0];
    let layer_lens = vec![vec![8], vec![], vec![], vec![4, 4], vec![]];

    let parts = project_part_entries(&buffer_lens, &layer_lens);

    assert_eq!(PROJECT_SCHEMA_VERSION, 2);
    assert_eq!(parts.len(), LOOPER_PART_COUNT);
    assert_eq!(parts[0].id, "A");
    assert_eq!(parts[4].mixed_file, "part_E.wav");
    assert_eq!(parts[3].layer_count, 2);
    assert_eq!(parts[0].samples, 8);
    assert_eq!(parts[3].layer_files, vec!["part_D_layer_0.wav", "part_D_layer_1.wav"]);
}

#[test]
fn legacy_project_manifest_defaults_to_three_parts() {
    let parts = Some(vec![None, None, None]);

    assert_eq!(infer_project_part_count(None, Some(3)), 3);
    assert_eq!(parse_project_part_sources(&parts), vec![None; LOOPER_PART_COUNT]);
}

#[test]
fn missing_part_count_without_parts_is_legacy_three_part_project() {
    assert_eq!(infer_project_part_count(None, None), 3);
}

#[test]
fn part_counts_are_clamped_to_the_looper() {
    assert_eq!(infer_project_part_count(Some(0), Some(2)), 1);
    assert_eq!(infer_project_part_count(Some(9), None), 5);
    assert_eq!(infer_project_part_count(Some(4), Some(2)), 4);
    assert_eq!(infer_project_part_count(None, Some(0)), 1);
    assert_eq!(infer_project_part_count(None, Some(7)), 5);
}

#[test]
fn source_metadata_is_read_from_either_form() {
    let direct = SourceMetadata {
        parsed: Some(LooperSource::InputChannel(20)),
        kind: Some("silent".to_string()),
        channel: None,
    };
    assert_eq!(parse_looper_source_metadata(&direct), Some(LooperSource::InputChannel(20)));
    assert_eq!(
        parse_looper_source_metadata(&kind_only("input_channel", None)),
        Some(LooperSource::InputChannel(1))
    );
    assert_eq!(
        parse_looper_source_metadata(&kind_only("input_channel", Some(30))),
        Some(LooperSource::InputChannel(8))
    );
    assert_eq!(parse_looper_source_metadata(&kind_only("input_mix", None)), Some(LooperSource::InputMix));
    assert_eq!(parse_looper_source_metadata(&kind_only("synth", None)), Some(LooperSource::Synth));
    assert_eq!(parse_looper_source_metadata(&kind_only("mpc", None)), Some(LooperSource::Mpc));
    assert_eq!(parse_looper_source_metadata(&kind_only("jam", None)), Some(LooperSource::Jam));
    assert_eq!(
        parse_looper_source_metadata(&kind_only("instrument_mix", None)),
        Some(LooperSource::InstrumentMix)
    );
    assert_eq!(parse_looper_source_metadata(&kind_only("silent", None)), Some(LooperSource::Silent));
    assert_eq!(parse_looper_source_metadata(&kind_only("drums", None)), None);
    assert_eq!(
        parse_looper_source_metadata(&SourceMetadata { parsed: None, kind: None, channel: Some(2) }),
        None
    );
}

#[test]
fn part_sources_cover_every_part() {
    let parts = Some(vec![
        Some(kind_only("synth", None)),
        None,
        Some(kind_only("bogus", None)),
        Some(kind_only("jam", None)),
        Some(kind_only("mpc", None)),
        Some(kind_only("silent", None)),
    ]);
    assert_eq!(
        parse_project_part_sources(&parts),
        vec![Some(LooperSource::Synth), None, None, Some(LooperSource::Jam), Some(LooperSource::Mpc)]
    );
    assert_eq!(parse_project_part_sources(&None), vec![None; LOOPER_PART_COUNT]);
}

#[test]
fn manifests_are_checked_in_order() {
    let ok = validate_project_manifest(&header(Some(2), "shed-power", "looper_project")).unwrap();
    assert_eq!(ok.schema_version, 2);
    assert_eq!(ok.part_count, 3);
    assert_eq!(ok.sources, vec![None; LOOPER_PART_COUNT]);

    let mut full = header(Some(1), "shed-power", "looper_project");
    full.part_count = Some(5);
    full.parts = Some(vec![Some(kind_only("jam", None))]);
    let info = validate_project_manifest(&full).unwrap();
    assert_eq!(info.schema_version, 1);
    assert_eq!(info.part_count, 5);
    assert_eq!(info.sources[0], Some(LooperSource::Jam));

    let err = validate_project_manifest(&header(None, "shed-power", "looper_project")).unwrap_err();
    assert_eq!(err, ManifestError::MissingSchemaVersion);
    assert_eq!(err.message("\"/p/shed_project.json\""), "Project manifest \"/p/shed_project.json\" is missing schema_version.");

    let err = validate_project_manifest(&header(Some(3), "other", "other")).unwrap_err();
    assert_eq!(err, ManifestError::UnsupportedSchema { found: 3 });
    assert_eq!(err.message("M"), "Unsupported project schema 3 in M. Expected 1 or 2.");

    let err = validate_project_manifest(&header(Some(2), "other", "looper_project")).unwrap_err();
    assert_eq!(err, ManifestError::NotShedPower);
    assert_eq!(err.message("M"), "Project manifest M is not a SHED POWER project.");

    let err = validate_project_manifest(&header(Some(2), "shed-power", "song")).unwrap_err();
    assert_eq!(err, ManifestError::NotLooperProject);
    assert_eq!(err.message("M"), "Project manifest M is not a looper project.");

    let wrapped = validate_project_manifest(&header(Some((1u64 << 32) + 2), "shed-power", "looper_project")).unwrap();
    assert_eq!(wrapped.schema_version, 2);
}

#[test]
fn part_files_are_named_by_part_and_layer() {
    assert_eq!(part_mixed_file_name("B"), "part_B.wav");
    assert_eq!(part_layer_file_name("C", 12), "part_C_layer_12.wav");
    assert_eq!(saved_layer_files("A", &[3, 0, 5]), vec!["part_A_layer_0.wav", "part_A_layer_2.wav"]);
    assert!(saved_layer_files("A", &[]).is_empty());
    assert!(is_part_layer_file("part_A_layer_3.wav", "A"));
    assert!(!is_part_layer_file("part_A.wav", "A"));
    assert!(!is_part_layer_file("part_B_layer_3.wav", "A"));
    assert!(!is_part_layer_file("part_A_layer_3.mp3", "A"));
    assert!(is_part_layer_file("part_A_layer_.wav", "A"));
}

#[test]
fn a_saved_project_loads_back_with_its_sources() {
    let sources = [
        LooperSource::InputChannel(2),
        LooperSource::Synth,
        LooperSource::Mpc,
        LooperSource::Jam,
        LooperSource::Silent,
    ];
    let manifest = ProjectManifest {
        schema_version: Some(PROJECT_SCHEMA_VERSION as u64),
        app: Some("shed-power".to_string()),
        kind: Some("looper_project".to_string()),
        part_count: Some(LOOPER_PART_COUNT as u64),
        parts: Some(
            sources
                .iter()
                .map(|s| Some(SourceMetadata { parsed: Some(*s), kind: None, channel: None }))
                .collect(),
        ),
    };
    let info = validate_project_manifest(&manifest).expect("a saved manifest is accepted");
    assert_eq!(info.schema_version, PROJECT_SCHEMA_VERSION);
    assert_eq!(info.part_count, LOOPER_PART_COUNT);
    let loaded: Vec<Option<LooperSource>> = sources.iter().map(|s| Some(*s)).collect();
    assert_eq!(info.sources, loaded);
}
