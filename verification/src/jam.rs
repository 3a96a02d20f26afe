//! Jam tracks: chord symbols parsed into voiced chords, and the song clock
//! that steps through them beat by beat.
use vstd::prelude::*;
use crate::text::{
    ascii_lower, ascii_upper, chars_to_string, contains_text, has_substring, lower_ascii_from,
    owned, split_at_separators, split_chord_symbols, starts_with_text, str_chars, text_is, trim,
    trimmed, upper_ascii, without_prefix, TrimSet,
};

verus! {

broadcast use vstd::string::group_string_axioms;

/// A chord of a jam track as the UI sends it.
#[derive(Debug)]
pub struct JamChordCommand {
    pub notes: Vec<u8>,
    pub beats: u64,
    pub name: Option<String>,
}

/// One step of a jam song: the notes to play, for how many beats, and the
/// label shown.
#[derive(Debug)]
pub struct JamSongChord {
    pub notes: Vec<u8>,
    pub beats: u64,
    pub label: String,
}

impl View for JamSongChord {
    type V = (Seq<u8>, u64, Seq<char>);

    open spec fn view(&self) -> (Seq<u8>, u64, Seq<char>) {
        (self.notes@, self.beats, self.label@)
    }
}

/// The pitch class (0 = C) that a note name spells, case-insensitively:
/// a letter with an optional sharp `#` or flat `b`.
pub open spec fn note_value(note: Seq<char>) -> Option<u8> {
    let n = note.map_values(|c: char| ascii_upper(c));
    if n == "C"@ || n == "B#"@ {
        Some(0)
    } else if n == "C#"@ || n == "DB"@ {
        Some(1)
    } else if n == "D"@ {
        Some(2)
    } else if n == "D#"@ || n == "EB"@ {
        Some(3)
    } else if n == "E"@ || n == "FB"@ {
        Some(4)
    } else if n == "F"@ || n == "E#"@ {
        Some(5)
    } else if n == "F#"@ || n == "GB"@ {
        Some(6)
    } else if n == "G"@ {
        Some(7)
    } else if n == "G#"@ || n == "AB"@ {
        Some(8)
    } else if n == "A"@ {
        Some(9)
    } else if n == "A#"@ || n == "BB"@ {
        Some(10)
    } else if n == "B"@ || n == "CB"@ {
        Some(11)
    } else {
        None
    }
}

fn note_index_chars(note: &[char]) -> (r: Option<u8>)
    ensures
        r == note_value(note@),
{
    let n = upper_ascii(note);
    if text_is(&n, "C") || text_is(&n, "B#") {
        Some(0)
    } else if text_is(&n, "C#") || text_is(&n, "DB") {
        Some(1)
    } else if text_is(&n, "D") {
        Some(2)
    } else if text_is(&n, "D#") || text_is(&n, "EB") {
        Some(3)
    } else if text_is(&n, "E") || text_is(&n, "FB") {
        Some(4)
    } else if text_is(&n, "F") || text_is(&n, "E#") {
        Some(5)
    } else if text_is(&n, "F#") || text_is(&n, "GB") {
        Some(6)
    } else if text_is(&n, "G") {
        Some(7)
    } else if text_is(&n, "G#") || text_is(&n, "AB") {
        Some(8)
    } else if text_is(&n, "A") {
        Some(9)
    } else if text_is(&n, "A#") || text_is(&n, "BB") {
        Some(10)
    } else if text_is(&n, "B") || text_is(&n, "CB") {
        Some(11)
    } else {
        None
    }
}

/// The pitch class a note name spells.
pub fn note_index(note: &str) -> (r: Option<u8>)
    ensures
        r == note_value(note@),
{
    let chars = str_chars(note);
    note_index_chars(&chars)
}

/// The semitone steps of the chord a symbol's suffix (lower-cased) names:
/// half-diminished, diminished, sus2, sus4, minor (with 7th and 9th when
/// the suffix has a 7 or 9) or major (with major or minor 7th, and 9th).
pub open spec fn suffix_intervals(suffix: Seq<char>) -> Seq<int> {
    let has7 = has_substring(suffix, "7"@);
    let has9 = has_substring(suffix, "9"@);
    if has_substring(suffix, "m7b5"@) || has_substring(suffix, "half"@) {
        seq![0, 3, 6, 10]
    } else if has_substring(suffix, "dim"@) {
        seq![0, 3, 6]
    } else if has_substring(suffix, "sus2"@) {
        seq![0, 2, 7]
    } else if has_substring(suffix, "sus4"@) || has_substring(suffix, "sus"@) {
        seq![0, 5, 7]
    } else if without_prefix(suffix, "m"@) is Some && without_prefix(suffix, "maj"@) is None {
        seq![0, 3, 7] + (if has7 || has9 { seq![10] } else { seq![] }) + (if has9 {
            seq![14]
        } else {
            seq![]
        })
    } else {
        seq![0, 4, 7] + (if has_substring(suffix, "maj7"@) {
            seq![11]
        } else if has7 {
            seq![10]
        } else {
            seq![]
        }) + (if has9 { seq![14] } else { seq![] })
    }
}

/// The notes `lowest + step` for each step.
pub open spec fn chord_notes(lowest: int, steps: Seq<int>) -> Seq<u8> {
    steps.map_values(|iv: int| (lowest + iv) as u8)
}

/// A chord symbol with surrounding whitespace, then surrounding brackets,
/// removed.
pub open spec fn chord_symbol(token: Seq<char>) -> Seq<char> {
    trimmed(trimmed(token, TrimSet::Whitespace), TrimSet::Brackets)
}

/// How many characters of a chord symbol spell its root: two when the second
/// is a sharp or flat sign.
pub open spec fn root_len(symbol: Seq<char>) -> int {
    if symbol.len() >= 2 && (symbol[1] == '#' || symbol[1] == 'b') { 2 } else { 1 }
}

/// The chord step a chord symbol names, lasting four beats and labelled with
/// the symbol. Roots from F up sit in the octave of C2 (36), lower roots in
/// that of C3 (48). An empty symbol, a symbol that starts with a non-ASCII
/// character, or an unknown root names nothing.
pub open spec fn parsed_chord(token: Seq<char>) -> Option<(Seq<u8>, u64, Seq<char>)> {
    let symbol = chord_symbol(token);
    if symbol.len() == 0 || symbol[0] as u32 >= 128 {
        None
    } else {
        match note_value(symbol.take(root_len(symbol))) {
            None => None,
            Some(ri) => {
                let suffix = symbol.skip(root_len(symbol)).map_values(|c: char| ascii_lower(c));
                let base: int = if ri >= 5 { 36 } else { 48 };
                Some(
                    (
                        chord_notes(base + ri, suffix_intervals(suffix)),
                        4u64,
                        symbol,
                    ),
                )
            },
        }
    }
}

fn chord_intervals_for(suffix: &[char]) -> (r: Vec<i16>)
    ensures
        r@.len() == suffix_intervals(suffix@).len(),
        forall|i: int| 0 <= i < r@.len() ==> r@[i] == #[trigger] suffix_intervals(suffix@)[i],
{
    let has7 = contains_text(suffix, "7");
    let has9 = contains_text(suffix, "9");
    let r: Vec<i16> = if contains_text(suffix, "m7b5") || contains_text(suffix, "half") {
        vec![0, 3, 6, 10]
    } else if contains_text(suffix, "dim") {
        vec![0, 3, 6]
    } else if contains_text(suffix, "sus2") {
        vec![0, 2, 7]
    } else if contains_text(suffix, "sus4") || contains_text(suffix, "sus") {
        vec![0, 5, 7]
    } else if starts_with_text(suffix, "m") && !starts_with_text(suffix, "maj") {
        let mut notes: Vec<i16> = vec![0, 3, 7];
        if has7 || has9 {
            notes.push(10);
        }
        if has9 {
            notes.push(14);
        }
        notes
    } else {
        let mut notes: Vec<i16> = vec![0, 4, 7];
        if contains_text(suffix, "maj7") {
            notes.push(11);
        } else if has7 {
            notes.push(10);
        }
        if has9 {
            notes.push(14);
        }
        notes
    };
    assert(r@.map_values(|v: i16| v as int) =~= suffix_intervals(suffix@));
    assert forall|i: int| 0 <= i < r@.len() implies r@[i] == #[trigger] suffix_intervals(suffix@)[i] by {
        assert(r@.map_values(|v: i16| v as int)[i] == r@[i] as int);
    }
    r
}

/// Parses one chord symbol of a custom song.
pub fn parse_custom_chord(token: &str) -> (r: Option<JamSongChord>)
    ensures
        match r {
            Some(c) => parsed_chord(token@) == Some(c@),
            None => parsed_chord(token@) is None,
        },
{
    let chars = str_chars(token);
    let trimmed_ws = trim(&chars, TrimSet::Whitespace);
    let symbol = trim(&trimmed_ws, TrimSet::Brackets);
    if symbol.len() == 0 {
        return None;
    }
    if symbol[0] as u32 >= 128 {
        return None;
    }
    let root_end: usize = if symbol.len() >= 2 && (symbol[1] == '#' || symbol[1] == 'b') { 2 } else { 1 };
    let mut root: Vec<char> = Vec::new();
    root.push(symbol[0]);
    if root_end == 2 {
        root.push(symbol[1]);
    }
    assert(root@ == symbol@.take(root_end as int));
    let root_index = match note_index_chars(&root) {
        Some(v) => v,
        None => {
            return None;
        },
    };
    let suffix = lower_ascii_from(&symbol, root_end);
    let intervals = chord_intervals_for(&suffix);
    let base: i16 = if root_index >= 5 { 36 } else { 48 };
    let mut notes: Vec<u8> = Vec::new();
    let mut i: usize = 0;
    let ghost ivs = suffix_intervals(suffix@);
    while i < intervals.len()
        invariant
            intervals@.len() == ivs.len(),
            forall|k: int| 0 <= k < intervals@.len() ==> intervals@[k] == #[trigger] ivs[k],
            forall|k: int| 0 <= k < ivs.len() ==> 0 <= #[trigger] ivs[k] <= 14,
            root_index <= 11,
            base == (if root_index >= 5 { 36i16 } else { 48i16 }),
            i <= intervals@.len(),
            notes@.len() == i,
            forall|k: int| 0 <= k < i ==> notes@[k] == #[trigger] chord_notes(base + root_index, ivs)[k],
        decreases intervals@.len() - i,
    {
        assert(0 <= ivs[i as int] <= 14);
        let v = base + root_index as i16 + intervals[i];
        notes.push(v as u8);
        i = i + 1;
    }
    assert(notes@ =~= chord_notes(base + root_index, ivs));
    let label = chars_to_string(&symbol);
    Some(JamSongChord { notes, beats: 4, label })
}

/// The chord steps of a list of chord symbols: each symbol that names a
/// chord, in order.
pub open spec fn parsed_chords(tokens: Seq<Seq<char>>) -> Seq<(Seq<u8>, u64, Seq<char>)>
    decreases tokens.len(),
{
    if tokens.len() == 0 {
        seq![]
    } else {
        let front = parsed_chords(tokens.drop_last());
        match parsed_chord(tokens.last()) {
            Some(c) => front.push(c),
            None => front,
        }
    }
}

/// The chord steps of a custom song: every part split at chord separators,
/// and every piece that names a chord, in order.
pub open spec fn song_chords(parts: Seq<Seq<char>>) -> Seq<(Seq<u8>, u64, Seq<char>)>
    decreases parts.len(),
{
    if parts.len() == 0 {
        seq![]
    } else {
        song_chords(parts.drop_last()) + parsed_chords(split_chord_symbols(parts.last()))
    }
}

/// The chord step a jam-track chord becomes: chords without notes are
/// dropped, a chord lasts at least one beat, and an unnamed chord is
/// labelled "Chord".
pub open spec fn track_chords(cmds: Seq<(Seq<u8>, u64, Option<Seq<char>>)>) -> Seq<(Seq<u8>, u64, Seq<char>)>
    decreases cmds.len(),
{
    if cmds.len() == 0 {
        seq![]
    } else {
        let front = track_chords(cmds.drop_last());
        let (notes, beats, name) = cmds.last();
        if notes.len() == 0 {
            front
        } else {
            front.push(
                (
                    notes,
                    if beats == 0 { 1u64 } else { beats },
                    match name {
                        Some(n) => n,
                        None => "Chord"@,
                    },
                ),
            )
        }
    }
}

/// A jam-track chord as plain values.
pub open spec fn command_view(c: JamChordCommand) -> (Seq<u8>, u64, Option<Seq<char>>) {
    (
        c.notes@,
        c.beats,
        match c.name {
            Some(n) => Some(n@),
            None => None,
        },
    )
}

/// The chord steps of a list of chords.
pub open spec fn steps_view(chords: Seq<JamSongChord>) -> Seq<(Seq<u8>, u64, Seq<char>)> {
    chords.map_values(|c: JamSongChord| c@)
}

/// A song of chord steps that loops forever, advanced one audio frame at a
/// time.
#[derive(Debug)]
pub struct JamSong {
    pub chords: Vec<JamSongChord>,
    /// Length of a beat in audio frames.
    pub samples_per_beat: u64,
    /// The step playing.
    pub chord_index: usize,
    /// Frames already played of the current step.
    pub frames_in_chord: u64,
}

/// How many frames a step of `beats` beats lasts.
pub open spec fn step_frames(beats: u64, samples_per_beat: u64) -> int {
    beats * samples_per_beat
}

/// A song's clock after one frame, from step `index` with `frames` frames
/// of it played: the next step (wrapping) at zero frames once the step's
/// length is reached, else one frame more of the same step.
pub open spec fn frame_clock(chords: Seq<JamSongChord>, samples_per_beat: u64, index: int, frames: int) -> (
    int,
    int,
) {
    if frames + 1 >= step_frames(chords[index].beats, samples_per_beat) {
        ((index + 1) % (chords.len() as int), 0)
    } else {
        (index, frames + 1)
    }
}

/// A song's clock after `n` frames (see `frame_clock`).
pub open spec fn clock_after(
    chords: Seq<JamSongChord>,
    samples_per_beat: u64,
    index: int,
    frames: int,
    n: nat,
) -> (int, int)
    decreases n,
{
    if n == 0 {
        (index, frames)
    } else {
        let before = clock_after(chords, samples_per_beat, index, frames, (n - 1) as nat);
        frame_clock(chords, samples_per_beat, before.0, before.1)
    }
}

/// A step lasts its length: from the start of step `index`, whose length
/// is `len` frames (at least one), every frame before the last stays on the
/// step with one frame more played (so `advance_frame` reports no new step),
/// and the last frame moves to the next step, wrapping after the last,
/// at zero frames (so `advance_frame` reports that step).
pub proof fn lemma_step_lasts_its_length(chords: Seq<JamSongChord>, samples_per_beat: u64, index: int, n: nat)
    requires
        chords.len() > 0,
        0 <= index < chords.len(),
        step_frames(chords[index].beats, samples_per_beat) >= 1,
        n <= step_frames(chords[index].beats, samples_per_beat),
    ensures
        n < step_frames(chords[index].beats, samples_per_beat) ==> clock_after(
            chords,
            samples_per_beat,
            index,
            0,
            n,
        ) == (index, n as int),
        n == step_frames(chords[index].beats, samples_per_beat) ==> clock_after(
            chords,
            samples_per_beat,
            index,
            0,
            n,
        ) == ((index + 1) % (chords.len() as int), 0int),
    decreases n,
{
    if n > 0 {
        lemma_step_lasts_its_length(chords, samples_per_beat, index, (n - 1) as nat);
    }
}

impl JamSong {
    /// The chord steps, as plain values.
    pub open spec fn steps(&self) -> Seq<(Seq<u8>, u64, Seq<char>)> {
        steps_view(self.chords@)
    }

    /// Whether the song can run: it has steps, the step playing exists, every
    /// step's length in frames fits in 64 bits, and the current step has not
    /// run past its length.
    pub open spec fn wf(&self) -> bool {
        &&& self.chords@.len() > 0
        &&& self.chord_index < self.chords@.len()
        &&& forall|i: int| 0 <= i < self.chords@.len() ==> step_frames(
            #[trigger] self.chords@[i].beats,
            self.samples_per_beat,
        ) <= u64::MAX
        &&& self.frames_in_chord == 0 || self.frames_in_chord < step_frames(
            self.chords@[self.chord_index as int].beats,
            self.samples_per_beat,
        )
    }

    /// Whether the song can run (see `wf`): every step's length in frames
    /// fits in 64 bits, and the clock is inside the current step.
    pub fn can_run(&self) -> (r: bool)
        ensures
            r == self.wf(),
    {
        if self.chords.len() == 0 || self.chord_index >= self.chords.len() {
            return false;
        }
        let mut i: usize = 0;
        while i < self.chords.len()
            invariant
                i <= self.chords@.len(),
                forall|k: int| 0 <= k < i ==> step_frames(#[trigger] self.chords@[k].beats, self.samples_per_beat)
                    <= u64::MAX,
            decreases self.chords@.len() - i,
        {
            if self.chords[i].beats.checked_mul(self.samples_per_beat).is_none() {
                return false;
            }
            i = i + 1;
        }
        match self.chords[self.chord_index].beats.checked_mul(self.samples_per_beat) {
            Some(len) => self.frames_in_chord == 0 || self.frames_in_chord < len,
            None => false,
        }
    }

    /// A song over `chords` with beats of the given length, at its first
    /// step; `None` when there are no chords.
    pub fn new(chords: Vec<JamSongChord>, samples_per_beat: u64) -> (r: Option<JamSong>)
        ensures
            match r {
                Some(song) => {
                    &&& chords@.len() > 0
                    &&& song.steps() == steps_view(chords@)
                    &&& song.samples_per_beat == samples_per_beat
                    &&& song.chord_index == 0
                    &&& song.frames_in_chord == 0
                },
                None => chords@.len() == 0,
            },
    {
        if chords.len() == 0 {
            return None;
        }
        Some(JamSong { chords, samples_per_beat, chord_index: 0, frames_in_chord: 0 })
    }

    /// A song over the chords of a jam track.
    pub fn from_chords(chords: Vec<JamChordCommand>, samples_per_beat: u64) -> (r: Option<JamSong>)
        ensures
            match r {
                Some(song) => {
                    &&& song.steps() == track_chords(chords@.map_values(|c: JamChordCommand| command_view(c)))
                    &&& song.steps().len() > 0
                    &&& song.samples_per_beat == samples_per_beat
                    &&& song.chord_index == 0
                    &&& song.frames_in_chord == 0
                },
                None => track_chords(chords@.map_values(|c: JamChordCommand| command_view(c))).len() == 0,
            },
    {
        let ghost cmds = chords@.map_values(|c: JamChordCommand| command_view(c));
        let mut rest = chords;
        let mut steps: Vec<JamSongChord> = Vec::new();
        let count = rest.len();
        let mut done: usize = 0;
        while done < count
            invariant
                count == cmds.len(),
                done <= count,
                rest@.len() == count - done,
                forall|k: int| 0 <= k < rest@.len() ==> command_view(#[trigger] rest@[k]) == cmds[done + k],
                steps_view(steps@) == track_chords(cmds.take(done as int)),
            decreases count - done,
        {
            let cmd = rest.remove(0);
            assert(command_view(cmd) == cmds[done as int]);
            assert(cmds.take(done + 1).drop_last() == cmds.take(done as int));
            assert(cmds.take(done + 1).last() == cmds[done as int]);
            if cmd.notes.len() > 0 {
                let beats = if cmd.beats == 0 { 1 } else { cmd.beats };
                let label = match cmd.name {
                    Some(n) => n,
                    None => owned("Chord"),
                };
                let ghost before = steps@;
                steps.push(JamSongChord { notes: cmd.notes, beats, label });
                assert(steps_view(steps@) =~= steps_view(before).push(steps@.last()@));
            }
            done = done + 1;
            assert forall|k: int| 0 <= k < rest@.len() implies command_view(#[trigger] rest@[k]) == cmds[done + k] by {
            }
        }
        assert(cmds.take(count as int) == cmds);
        JamSong::new(steps, samples_per_beat)
    }

    /// A song over the chord symbols of a custom song's parts.
    pub fn from_parts(parts: &Vec<String>, samples_per_beat: u64) -> (r: Option<JamSong>)
        ensures
            match r {
                Some(song) => {
                    &&& song.steps() == song_chords(parts@.map_values(|p: String| p@))
                    &&& song.steps().len() > 0
                    &&& song.samples_per_beat == samples_per_beat
                    &&& song.chord_index == 0
                    &&& song.frames_in_chord == 0
                },
                None => song_chords(parts@.map_values(|p: String| p@)).len() == 0,
            },
    {
        let ghost texts = parts@.map_values(|p: String| p@);
        let mut steps: Vec<JamSongChord> = Vec::new();
        let mut p: usize = 0;
        while p < parts.len()
            invariant
                texts == parts@.map_values(|p: String| p@),
                p <= parts@.len(),
                steps_view(steps@) == song_chords(texts.take(p as int)),
            decreases parts@.len() - p,
        {
            let chars = str_chars(parts[p].as_str());
            let tokens = split_at_separators(&chars);
            let ghost token_texts = split_chord_symbols(chars@);
            let ghost base = steps_view(steps@);
            let mut t: usize = 0;
            while t < tokens.len()
                invariant
                    tokens@.len() == token_texts.len(),
                    forall|k: int| 0 <= k < tokens@.len() ==> #[trigger] tokens@[k]@ == token_texts[k],
                    t <= tokens@.len(),
                    steps_view(steps@) == base + parsed_chords(token_texts.take(t as int)),
                decreases tokens@.len() - t,
            {
                let token = chars_to_string(&tokens[t]);
                assert(token_texts.take(t + 1).drop_last() == token_texts.take(t as int));
                assert(token_texts.take(t + 1).last() == token@);
                let ghost before = steps@;
                match parse_custom_chord(token.as_str()) {
                    Some(c) => {
                        steps.push(c);
                        assert(steps_view(steps@) =~= steps_view(before).push(steps@.last()@));
                    },
                    None => {},
                }
                t = t + 1;
            }
            assert(token_texts.take(tokens@.len() as int) == token_texts);
            assert(texts.take(p + 1).drop_last() == texts.take(p as int));
            assert(texts.take(p + 1).last() == chars@);
            p = p + 1;
        }
        assert(texts.take(parts@.len() as int) == texts);
        JamSong::new(steps, samples_per_beat)
    }

    /// The step playing: its index, notes and label.
    pub fn current_step(&self) -> (r: (usize, Vec<u8>, String))
        requires
            self.wf(),
        ensures
            r.0 == self.chord_index,
            r.1@ == self.steps()[self.chord_index as int].0,
            r.2@ == self.steps()[self.chord_index as int].2,
    {
        let chord = &self.chords[self.chord_index];
        (self.chord_index, chord.notes.clone(), chord.label.clone())
    }

    /// Advances one audio frame. When the current step has played for its
    /// length, the song moves to the next step (wrapping to the first after
    /// the last) and returns it.
    pub fn advance_frame(&mut self) -> (r: Option<(usize, Vec<u8>, String)>)
        requires
            old(self).wf(),
        ensures
            final(self).wf(),
            final(self).chords == old(self).chords,
            final(self).samples_per_beat == old(self).samples_per_beat,
            (final(self).chord_index as int, final(self).frames_in_chord as int) == frame_clock(
                old(self).chords@,
                old(self).samples_per_beat,
                old(self).chord_index as int,
                old(self).frames_in_chord as int,
            ),
            r is Some <==> final(self).frames_in_chord == 0,
            ({
                let len = step_frames(
                    old(self).chords@[old(self).chord_index as int].beats,
                    old(self).samples_per_beat,
                );
                if old(self).frames_in_chord + 1 >= len {
                    &&& final(self).frames_in_chord == 0
                    &&& final(self).chord_index == (old(self).chord_index + 1) % (old(
                        self,
                    ).chords@.len() as int)
                    &&& r matches Some(step) && step.0 == final(self).chord_index && step.1@
                        == final(self).steps()[final(self).chord_index as int].0 && step.2@
                        == final(self).steps()[final(self).chord_index as int].2
                } else {
                    &&& final(self).frames_in_chord == old(self).frames_in_chord + 1
                    &&& final(self).chord_index == old(self).chord_index
                    &&& r is None
                }
            }),
    {
        let beats = self.chords[self.chord_index].beats;
        assert(step_frames(beats, self.samples_per_beat) <= u64::MAX);
        let chord_frames = beats * self.samples_per_beat;
        self.frames_in_chord = self.frames_in_chord + 1;
        if self.frames_in_chord >= chord_frames {
            self.frames_in_chord = 0;
            let n = self.chords.len();
            self.chord_index = (self.chord_index + 1) % n;
            return Some(self.current_step());
        }
        None
    }
}


/// A minor chord symbol with a 7 in its suffix has its minor seventh: for a
/// suffix that starts with `m` but not `maj`, names no diminished or
/// suspended chord and contains `7`, the chord has a minor third and a minor
/// seventh and no major third.
pub proof fn lemma_minor_seventh_symbols_keep_the_seventh(suffix: Seq<char>)
    requires
        without_prefix(suffix, "m"@) is Some,
        without_prefix(suffix, "maj"@) is None,
        has_substring(suffix, "7"@),
        !has_substring(suffix, "dim"@),
        !has_substring(suffix, "sus"@),
        !has_substring(suffix, "sus2"@),
        !has_substring(suffix, "sus4"@),
    ensures
        suffix_intervals(suffix).contains(3),
        suffix_intervals(suffix).contains(10),
        !suffix_intervals(suffix).contains(4),
{
    let iv = suffix_intervals(suffix);
    assert(iv[1] == 3);
    assert(iv[3] == 10);
    assert forall|i: int| 0 <= i < iv.len() implies iv[i] != 4 by {}
}

/// A chord symbol with a 7 in its suffix, not diminished or suspended, has
/// a seventh: a minor seventh, or a major seventh for `maj7`.
pub proof fn lemma_seventh_symbols_have_a_seventh(suffix: Seq<char>)
    requires
        has_substring(suffix, "7"@),
        !has_substring(suffix, "dim"@),
        !has_substring(suffix, "sus"@),
        !has_substring(suffix, "sus2"@),
        !has_substring(suffix, "sus4"@),
    ensures
        suffix_intervals(suffix).contains(10) || suffix_intervals(suffix).contains(11),
{
    let iv = suffix_intervals(suffix);
    assert(iv.len() >= 4);
    assert(iv[3] == 10 || iv[3] == 11);
}

} // verus!
