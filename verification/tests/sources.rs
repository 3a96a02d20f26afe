use shed_power::sources::{
    default_looper_sources, input_mode_label, legacy_channel_to_looper_source, looper_source_label,
    normalize_looper_source, LooperSource, LOOPER_PART_COUNT, MAX_NATIVE_INPUT_CHANNELS,
};

#[test]
fn default_looper_sources_match_v2_safe_defaults() {
    assert_eq!(
        default_looper_sources(),
        [
            LooperSource::InputChannel(1),
            LooperSource::InputChannel(2),
            LooperSource::InputMix,
            LooperSource::Silent,
            LooperSource::Silent,
        ]
    );
}

#[test]
fn looper_source_normalization_keeps_legacy_channel_semantics() {
    assert_eq!(legacy_channel_to_looper_source(0), LooperSource::InputMix);
    assert_eq!(
        legacy_channel_to_looper_source(99),
        LooperSource::InputChannel(MAX_NATIVE_INPUT_CHANNELS as u8)
    );
    assert_eq!(
        normalize_looper_source(LooperSource::InputChannel(0)),
        LooperSource::InputMix
    );
}

#[test]
fn legacy_channels_within_range_are_kept() {
    assert_eq!(legacy_channel_to_looper_source(3), LooperSource::InputChannel(3));
    assert_eq!(legacy_channel_to_looper_source(8), LooperSource::InputChannel(8));
    assert_eq!(legacy_channel_to_looper_source(9), LooperSource::InputChannel(8));
}

#[test]
fn normalization_clamps_high_channels_and_keeps_other_sources() {
    assert_eq!(
        normalize_looper_source(LooperSource::InputChannel(200)),
        LooperSource::InputChannel(8)
    );
    assert_eq!(
        normalize_looper_source(LooperSource::InputChannel(5)),
        LooperSource::InputChannel(5)
    );
    assert_eq!(normalize_looper_source(LooperSource::Jam), LooperSource::Jam);
    assert_eq!(
        normalize_looper_source(normalize_looper_source(LooperSource::InputChannel(0))),
        normalize_looper_source(LooperSource::InputChannel(0))
    );
}

#[test]
fn looper_part_count_is_five() {
    assert_eq!(LOOPER_PART_COUNT, 5);
    assert_eq!(default_looper_sources().len(), LOOPER_PART_COUNT);
}

#[test]
fn source_labels_read_as_the_ui_shows_them() {
    assert_eq!(looper_source_label(LooperSource::InputChannel(3)), "Input 3");
    assert_eq!(looper_source_label(LooperSource::InputChannel(12)), "Input 12");
    assert_eq!(looper_source_label(LooperSource::InputMix), "Input Mix");
    assert_eq!(looper_source_label(LooperSource::Synth), "Synth");
    assert_eq!(looper_source_label(LooperSource::Mpc), "MPC");
    assert_eq!(looper_source_label(LooperSource::Jam), "Jam");
    assert_eq!(looper_source_label(LooperSource::InstrumentMix), "Instrument Mix");
    assert_eq!(looper_source_label(LooperSource::Silent), "Silent");
}

#[test]
fn input_mode_labels_name_the_mix_or_the_channel() {
    assert_eq!(input_mode_label(0), "Input Mix");
    assert_eq!(input_mode_label(1), "Input 1");
    assert_eq!(input_mode_label(8), "Input 8");
}
