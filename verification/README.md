# shed_power

The engine of SHED POWER, a desktop practice workstation: a five-part
looper, a synthesizer, an MPC-style pad sequencer, a jam station with an
automatic bassline and harmony, MIDI control with learnable mappings, and
the saved state around them (lessons, practice sessions, recent projects,
looper routing).

## Layout

- `src/` is the library, written in Verus. Every function there carries a
  contract that Verus proves; the laws the library keeps (a loop plays back
  in cycles, undo restores the layers before a take, a learned MIDI binding
  resolves, saving twice is saving once, a saved project loads back, ...) are
  stated and proved as proof functions next to the code they are about.
  - `looper.rs`: the looper transport (recording, overdubs, undo, playback
    clocks, song sequences), on lengths and positions.
  - `chords.rs`, `jam.rs`: chord analysis, the bassline and harmony engines,
    jam songs and the custom chord parser.
  - `engine.rs`: the pad sequencer, metronome, input format choice and the
    decisions of the audio callback.
  - `midi.rs`, `midi_map.rs`: MIDI message routing, learning and the
    per-context binding tables.
  - `persistence.rs`, `project.rs`, `sources.rs`: saved state, project
    manifests and looper routing.
  - `devices.rs`, `synth.rs`, `text.rs`: device lists, envelope stages and
    the text helpers the parsers share.
  - The MIDI binding tables are vectors of (number, target) pairs per
    context, with no number or context listed twice, not hash maps: the
    contexts are keyed by strings, whose hash-map contents vstd's map
    specification does not let a contract state, and the per-context tables
    keep the same form so that lookup, learning and the learn-then-resolve
    law are proved over one sequence model.
- `tests/` runs the library on concrete values.
- `app/` is the desktop shell around the library: audio and MIDI I/O, the
  sample-level DSP (oscillators, filters, effects, drums, sampler), files,
  JSON and the command layer. It calls the library for every decision it
  makes.
