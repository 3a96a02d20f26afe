pub mod chords;
pub mod devices;
pub mod engine;
pub mod jam;
pub mod looper;
pub mod midi;
pub mod midi_map;
pub mod persistence;
pub mod project;
pub mod sources;
pub mod synth;
pub mod text;
