//! Chord recognition, bass lines and harmony voicings for the jam station.
use vstd::prelude::*;

verus! {

/// The chord qualities the jam station recognizes.
#[derive(Debug, Clone, Copy, PartialEq, Eq, Structural)]
pub enum ChordType {
    Major,
    Minor,
    Dominant7,
    Minor7,
    Major7,
    Diminished,
    Sus2,
    Sus4,
}

/// A chord: its root note, its quality and the sample it started at.
#[derive(Debug, Clone, Copy, PartialEq, Eq, Structural)]
pub struct ChordInfo {
    pub root: u8,
    pub chord_type: ChordType,
    pub start_time: u64,
}

/// The interval, in semitones above the first note's pitch class, of note `i`.
pub open spec fn interval_at(notes: Seq<u8>, i: int) -> int {
    (notes[i] % 12 + 12 - notes[0] % 12) % 12
}

/// Whether some note lies `k` semitones above the first note's pitch class.
pub open spec fn has_interval(notes: Seq<u8>, k: int) -> bool {
    exists|i: int| 0 <= i < notes.len() && #[trigger] interval_at(notes, i) == k
}

/// The quality of the chord that `notes` spell, read from the intervals above
/// the first note: minor third and fifth make a minor chord (a minor seventh
/// adds 7), major third and fifth a major chord (dominant with a minor
/// seventh, major 7 with a major seventh), second and fifth sus2, fourth and
/// fifth sus4, minor third and tritone diminished; anything else, and any
/// single note, counts as major.
pub open spec fn chord_type_of(notes: Seq<u8>) -> ChordType {
    if notes.len() < 2 {
        ChordType::Major
    } else if has_interval(notes, 3) && has_interval(notes, 7) {
        if has_interval(notes, 10) { ChordType::Minor7 } else { ChordType::Minor }
    } else if has_interval(notes, 4) && has_interval(notes, 7) {
        if has_interval(notes, 10) {
            ChordType::Dominant7
        } else if has_interval(notes, 11) {
            ChordType::Major7
        } else {
            ChordType::Major
        }
    } else if has_interval(notes, 2) && has_interval(notes, 7) {
        ChordType::Sus2
    } else if has_interval(notes, 5) && has_interval(notes, 7) {
        ChordType::Sus4
    } else if has_interval(notes, 3) && has_interval(notes, 6) {
        ChordType::Diminished
    } else {
        ChordType::Major
    }
}

fn contains_interval(intervals: &Vec<u8>, notes: &[u8], k: u8) -> (r: bool)
    requires
        notes@.len() >= 1,
        intervals@.len() == notes@.len(),
        forall|i: int| 0 <= i < notes@.len() ==> #[trigger] intervals@[i] == interval_at(notes@, i),
    ensures
        r == has_interval(notes@, k as int),
{
    let mut i: usize = 0;
    while i < intervals.len()
        invariant
            i <= intervals@.len(),
            intervals@.len() == notes@.len(),
            forall|j: int| 0 <= j < notes@.len() ==> #[trigger] intervals@[j] == interval_at(notes@, j),
            forall|j: int| 0 <= j < i ==> intervals@[j] != k,
        decreases intervals@.len() - i,
    {
        if intervals[i] == k {
            assert(interval_at(notes@, i as int) == k);
            return true;
        }
        i = i + 1;
    }
    assert forall|j: int| 0 <= j < notes@.len() implies #[trigger] interval_at(notes@, j) != k by {
        assert(intervals@[j] != k);
    }
    false
}

impl ChordInfo {
    /// Recognizes the quality of the chord that `notes` spell.
    pub fn analyze_chord(notes: &[u8]) -> (r: ChordType)
        ensures
            r == chord_type_of(notes@),
    {
        if notes.len() < 2 {
            return ChordType::Major;
        }
        let root = notes[0] % 12;
        let mut intervals: Vec<u8> = Vec::new();
        let mut i: usize = 0;
        while i < notes.len()
            invariant
                notes@.len() >= 2,
                root == notes@[0] % 12,
                i <= notes@.len(),
                intervals@.len() == i,
                forall|j: int| 0 <= j < i ==> #[trigger] intervals@[j] == interval_at(notes@, j),
            decreases notes@.len() - i,
        {
            intervals.push((notes[i] % 12 + 12 - root) % 12);
            i = i + 1;
        }
        let third_minor = contains_interval(&intervals, notes, 3);
        let fifth = contains_interval(&intervals, notes, 7);
        let third_major = contains_interval(&intervals, notes, 4);
        let seventh_minor = contains_interval(&intervals, notes, 10);
        let seventh_major = contains_interval(&intervals, notes, 11);
        let second = contains_interval(&intervals, notes, 2);
        let fourth = contains_interval(&intervals, notes, 5);
        let tritone = contains_interval(&intervals, notes, 6);
        if third_minor && fifth {
            if seventh_minor { ChordType::Minor7 } else { ChordType::Minor }
        } else if third_major && fifth {
            if seventh_minor {
                ChordType::Dominant7
            } else if seventh_major {
                ChordType::Major7
            } else {
                ChordType::Major
            }
        } else if second && fifth {
            ChordType::Sus2
        } else if fourth && fifth {
            ChordType::Sus4
        } else if third_minor && tritone {
            ChordType::Diminished
        } else {
            ChordType::Major
        }
    }

    /// The notes of the chord in the root's octave: each chord tone's pitch
    /// class placed in the octave that holds the root.
    pub fn get_chord_tones(chord: &ChordInfo) -> (r: Vec<u8>)
        requires
            tones_fit(*chord),
        ensures
            r@.len() == chord_tones(*chord).len(),
            forall|i: int| 0 <= i < r@.len() ==> r@[i] == #[trigger] chord_tones(*chord)[i],
    {
        let root = chord.root % 12;
        let raw: Vec<u8> = match chord.chord_type {
            ChordType::Major => vec![root, root + 4, root + 7],
            ChordType::Minor => vec![root, root + 3, root + 7],
            ChordType::Dominant7 => vec![root, root + 4, root + 7, root + 10],
            ChordType::Minor7 => vec![root, root + 3, root + 7, root + 10],
            ChordType::Major7 => vec![root, root + 4, root + 7, root + 11],
            ChordType::Diminished => vec![root, root + 3, root + 6],
            ChordType::Sus2 => vec![root, root + 2, root + 7],
            ChordType::Sus4 => vec![root, root + 5, root + 7],
        };
        let base: u8 = (chord.root / 12) * 12;
        let mut r: Vec<u8> = Vec::new();
        let mut i: usize = 0;
        while i < raw.len()
            invariant
                tones_fit(*chord),
                base == (chord.root / 12) * 12,
                raw@.len() == chord_intervals(chord.chord_type).len(),
                forall|j: int| 0 <= j < raw@.len() ==> #[trigger] raw@[j] == chord.root % 12
                    + chord_intervals(chord.chord_type)[j],
                i <= raw@.len(),
                r@.len() == i,
                forall|j: int| 0 <= j < i ==> r@[j] == #[trigger] chord_tones(*chord)[j],
            decreases raw@.len() - i,
        {
            assert(chord_tones(*chord)[i as int] <= 255);
            r.push((raw[i] % 12) + base);
            i = i + 1;
        }
        r
    }
}

/// The semitone steps above the root that make up each chord quality.
pub open spec fn chord_intervals(t: ChordType) -> Seq<int> {
    match t {
        ChordType::Major => seq![0, 4, 7],
        ChordType::Minor => seq![0, 3, 7],
        ChordType::Dominant7 => seq![0, 4, 7, 10],
        ChordType::Minor7 => seq![0, 3, 7, 10],
        ChordType::Major7 => seq![0, 4, 7, 11],
        ChordType::Diminished => seq![0, 3, 6],
        ChordType::Sus2 => seq![0, 2, 7],
        ChordType::Sus4 => seq![0, 5, 7],
    }
}

/// The chord tones in the root's octave.
pub open spec fn chord_tones(chord: ChordInfo) -> Seq<int> {
    chord_intervals(chord.chord_type).map_values(
        |iv: int| (chord.root % 12 + iv) % 12 + (chord.root / 12) * 12,
    )
}

/// Whether every chord tone is a valid note number (this fails only for
/// roots in the top few notes of the byte range).
pub open spec fn tones_fit(chord: ChordInfo) -> bool {
    forall|i: int| 0 <= i < chord_tones(chord).len() ==> #[trigger] chord_tones(chord)[i] <= 255
}

proof fn lemma_interval_shift(x: int, y: int, u: int, w: int, shift: int)
    requires
        (u - x - shift) % 12 == 0,
        (w - y - shift) % 12 == 0,
    ensures
        (u % 12 + 12 - w % 12) % 12 == (x % 12 + 12 - y % 12) % 12,
{
    let p = (u - x - shift) / 12;
    let q = (w - y - shift) / 12;
    assert(u - x - shift == 12 * p) by {
        vstd::arithmetic::div_mod::lemma_fundamental_div_mod(u - x - shift, 12);
    }
    assert(w - y - shift == 12 * q) by {
        vstd::arithmetic::div_mod::lemma_fundamental_div_mod(w - y - shift, 12);
    }
    let d = (u % 12 + 12 - w % 12) - (x % 12 + 12 - y % 12);
    assert(u % 12 == u - 12 * (u / 12)) by {
        vstd::arithmetic::div_mod::lemma_fundamental_div_mod(u, 12);
    }
    assert(w % 12 == w - 12 * (w / 12)) by {
        vstd::arithmetic::div_mod::lemma_fundamental_div_mod(w, 12);
    }
    assert(x % 12 == x - 12 * (x / 12)) by {
        vstd::arithmetic::div_mod::lemma_fundamental_div_mod(x, 12);
    }
    assert(y % 12 == y - 12 * (y / 12)) by {
        vstd::arithmetic::div_mod::lemma_fundamental_div_mod(y, 12);
    }
    let k = p - q - u / 12 + w / 12 + x / 12 - y / 12;
    assert(d == 12 * k);
    vstd::arithmetic::div_mod::lemma_mod_multiples_vanish(k, x % 12 + 12 - y % 12, 12);
    assert((12 * k + (x % 12 + 12 - y % 12)) % 12 == (x % 12 + 12 - y % 12) % 12);
}

/// Whether every note of `a` has a note in `b` whose pitch class lies
/// `shift` semitones above its own.
pub open spec fn notes_shifted_into(a: Seq<u8>, b: Seq<u8>, shift: int) -> bool {
    forall|i: int|
        0 <= i < a.len() ==> exists|j: int| 0 <= j < b.len() && (#[trigger] b[j] - #[trigger] a[i] - shift) % 12 == 0
}

/// A chord's quality depends only on its pitch classes relative to its first
/// note: transposing every note, moving notes by whole octaves, and
/// reordering or repeating the notes after the first all leave it as it is.
/// Stated generally: when `b`'s first note lies `shift` semitones (up to
/// octaves) above `a`'s, and each chord's notes appear in the other so
/// shifted, both chords have the same quality.
pub proof fn lemma_quality_ignores_transposition(a: Seq<u8>, b: Seq<u8>, shift: int)
    requires
        a.len() >= 2,
        b.len() >= 2,
        (b[0] - a[0] - shift) % 12 == 0,
        notes_shifted_into(a, b, shift),
        notes_shifted_into(b, a, -shift),
    ensures
        chord_type_of(a) == chord_type_of(b),
{
    assert forall|k: int| has_interval(a, k) implies has_interval(b, k) by {
        let i = choose|i: int| 0 <= i < a.len() && #[trigger] interval_at(a, i) == k;
        let j = choose|j: int| 0 <= j < b.len() && (#[trigger] b[j] - #[trigger] a[i] - shift) % 12 == 0;
        lemma_interval_shift(a[i] as int, a[0] as int, b[j] as int, b[0] as int, shift);
        assert(interval_at(b, j) == k);
    }
    assert forall|k: int| has_interval(b, k) implies has_interval(a, k) by {
        let j = choose|j: int| 0 <= j < b.len() && #[trigger] interval_at(b, j) == k;
        let i = choose|i: int| 0 <= i < a.len() && (#[trigger] a[i] - #[trigger] b[j] - (-shift)) % 12 == 0;
        assert((a[0] - b[0] - (-shift)) % 12 == 0) by {
            vstd::arithmetic::div_mod::lemma_fundamental_div_mod(b[0] - a[0] - shift, 12);
            let p = (b[0] - a[0] - shift) / 12;
            vstd::arithmetic::div_mod::lemma_mod_multiples_basic(-p, 12);
            assert(a[0] - b[0] - (-shift) == (-p) * 12);
        }
        lemma_interval_shift(b[j] as int, b[0] as int, a[i] as int, a[0] as int, -shift);
        assert(interval_at(a, i) == k);
    }
}

/// The chord tones of a chord are recognized as that chord: reading the
/// quality of the notes that `get_chord_tones` builds gives back the chord's
/// own quality.
pub proof fn lemma_chord_tones_recognized(chord: ChordInfo, tones: Seq<u8>)
    requires
        tones.len() == chord_tones(chord).len(),
        forall|i: int| 0 <= i < tones.len() ==> tones[i] == #[trigger] chord_tones(chord)[i],
    ensures
        chord_type_of(tones) == chord.chord_type,
{
    let ivs = chord_intervals(chord.chord_type);
    let m: int = (chord.root % 12) as int;
    let q: int = (chord.root / 12) as int;
    let base: int = q * 12;
    assert forall|i: int| 0 <= i < tones.len() implies #[trigger] interval_at(tones, i) == ivs[i] by {
        let iv = ivs[i];
        assert(0 <= iv < 12);
        assert(chord_tones(chord)[i] == (m + iv) % 12 + base);
        assert(tones[i] == (m + iv) % 12 + base);
        assert(ivs[0] == 0);
        assert(chord_tones(chord)[0] == (m + 0) % 12 + base);
        assert(tones[0] == m % 12 + base);
        assert(base % 12 == 0) by {
            vstd::arithmetic::div_mod::lemma_mod_multiples_basic(q, 12);
        }
        vstd::arithmetic::div_mod::lemma_mod_multiples_vanish(q, (m + iv) % 12, 12);
        vstd::arithmetic::div_mod::lemma_mod_multiples_vanish(q, m % 12, 12);
        assert(12 * q == base);
        assert(tones[i] % 12 == (m + iv) % 12);
        assert(tones[0] % 12 == m);
    }
    assert forall|k: int| has_interval(tones, k) <==> ivs.contains(k) by {
        if has_interval(tones, k) {
            let i = choose|i: int| 0 <= i < tones.len() && #[trigger] interval_at(tones, i) == k;
            assert(ivs[i] == k);
        }
        if ivs.contains(k) {
            let i = choose|i: int| 0 <= i < ivs.len() && ivs[i] == k;
            assert(interval_at(tones, i) == k);
        }
    }
    assert(has_interval(tones, 0) == ivs.contains(0));
    assert(has_interval(tones, 2) == ivs.contains(2));
    assert(has_interval(tones, 3) == ivs.contains(3));
    assert(has_interval(tones, 4) == ivs.contains(4));
    assert(has_interval(tones, 5) == ivs.contains(5));
    assert(has_interval(tones, 6) == ivs.contains(6));
    assert(has_interval(tones, 7) == ivs.contains(7));
    assert(has_interval(tones, 10) == ivs.contains(10));
    assert(has_interval(tones, 11) == ivs.contains(11));
    match chord.chord_type {
        ChordType::Major => {
            assert(ivs[1] == 4 && ivs[2] == 7);
            assert(!ivs.contains(3) && !ivs.contains(10) && !ivs.contains(11));
        },
        ChordType::Minor => {
            assert(ivs[1] == 3 && ivs[2] == 7);
            assert(!ivs.contains(10));
        },
        ChordType::Dominant7 => {
            assert(ivs[1] == 4 && ivs[2] == 7 && ivs[3] == 10);
            assert(!ivs.contains(3));
        },
        ChordType::Minor7 => {
            assert(ivs[1] == 3 && ivs[2] == 7 && ivs[3] == 10);
        },
        ChordType::Major7 => {
            assert(ivs[1] == 4 && ivs[2] == 7 && ivs[3] == 11);
            assert(!ivs.contains(3) && !ivs.contains(10));
        },
        ChordType::Diminished => {
            assert(ivs[1] == 3 && ivs[2] == 6);
            assert(!ivs.contains(7) && !ivs.contains(4));
        },
        ChordType::Sus2 => {
            assert(ivs[1] == 2 && ivs[2] == 7);
            assert(!ivs.contains(3) && !ivs.contains(4));
        },
        ChordType::Sus4 => {
            assert(ivs[1] == 5 && ivs[2] == 7);
            assert(!ivs.contains(3) && !ivs.contains(4) && !ivs.contains(2));
        },
    }
}

/// Whether some note of `notes` lies `k` semitones (up to octaves) above the
/// first note.
pub open spec fn note_above_first(notes: Seq<u8>, k: int) -> bool {
    exists|i: int| 0 <= i < notes.len() && (#[trigger] notes[i] - notes[0] - k) % 12 == 0
}

proof fn lemma_note_above_first(notes: Seq<u8>, k: int)
    requires
        notes.len() >= 1,
        0 <= k < 12,
    ensures
        note_above_first(notes, k) == has_interval(notes, k),
{
    assert forall|i: int| 0 <= i < notes.len() implies ((#[trigger] notes[i] - notes[0] - k) % 12 == 0
        <==> interval_at(notes, i) == k) by {
        let x = notes[i] as int;
        let y = notes[0] as int;
        vstd::arithmetic::div_mod::lemma_fundamental_div_mod(x, 12);
        vstd::arithmetic::div_mod::lemma_fundamental_div_mod(y, 12);
        vstd::arithmetic::div_mod::lemma_fundamental_div_mod(x - y - k, 12);
        vstd::arithmetic::div_mod::lemma_fundamental_div_mod(x % 12 + 12 - y % 12, 12);
        let d = x % 12 + 12 - y % 12;
        assert(0 < d < 24);
        assert(x - y - k == d - 12 - k + 12 * (x / 12) - 12 * (y / 12));
        vstd::arithmetic::div_mod::lemma_mod_multiples_vanish(x / 12 - y / 12, d - 12 - k, 12);
        assert((x - y - k) % 12 == (d - 12 - k) % 12);
        vstd::arithmetic::div_mod::lemma_mod_multiples_vanish(1, d - 12 - k, 12);
        assert((d - 12 - k) % 12 == (d - k) % 12);
        vstd::arithmetic::div_mod::lemma_mod_multiples_vanish(-1, d - k, 12);
        if d < 12 {
            vstd::arithmetic::div_mod::lemma_small_mod(d as nat, 12);
        } else {
            vstd::arithmetic::div_mod::lemma_mod_multiples_vanish(1, d - 12, 12);
            vstd::arithmetic::div_mod::lemma_small_mod((d - 12) as nat, 12);
        }
        // d % 12 is the interval; d - k is a multiple of 12 exactly when it is
        if 0 <= d - k < 12 {
            vstd::arithmetic::div_mod::lemma_small_mod((d - k) as nat, 12);
        } else if 12 <= d - k < 24 {
            vstd::arithmetic::div_mod::lemma_small_mod((d - k - 12) as nat, 12);
            vstd::arithmetic::div_mod::lemma_mod_multiples_vanish(1, d - k - 12, 12);
        } else {
            vstd::arithmetic::div_mod::lemma_small_mod((d - k + 12) as nat, 12);
            vstd::arithmetic::div_mod::lemma_mod_multiples_vanish(-1, d - k + 12, 12);
        }
    }
    if note_above_first(notes, k) {
        let i = choose|i: int| 0 <= i < notes.len() && (#[trigger] notes[i] - notes[0] - k) % 12 == 0;
        assert(interval_at(notes, i) == k);
    }
    if has_interval(notes, k) {
        let i = choose|i: int| 0 <= i < notes.len() && #[trigger] interval_at(notes, i) == k;
        assert((notes[i] - notes[0] - k) % 12 == 0);
    }
}

/// Each quality is read only from the intervals that define it, and a chord
/// with none of the defining pairs reads as major: a minor or minor-seventh
/// reading needs a minor third and a fifth above the first note (a seventh
/// chord also its seventh), a major-third reading a major third and a fifth,
/// sus2 a second and a fifth, sus4 a fourth and a fifth, diminished a minor
/// third and a tritone. A minor third with a fifth always reads as minor or
/// minor seventh.
pub proof fn lemma_quality_needs_its_intervals(notes: Seq<u8>)
    requires
        notes.len() >= 2,
    ensures
        (chord_type_of(notes) == ChordType::Minor || chord_type_of(notes) == ChordType::Minor7)
            <==> note_above_first(notes, 3) && note_above_first(notes, 7),
        chord_type_of(notes) == ChordType::Minor7 ==> note_above_first(notes, 10),
        chord_type_of(notes) == ChordType::Dominant7 ==> note_above_first(notes, 4) && note_above_first(
            notes,
            7,
        ) && note_above_first(notes, 10),
        chord_type_of(notes) == ChordType::Major7 ==> note_above_first(notes, 4) && note_above_first(notes, 7)
            && note_above_first(notes, 11),
        chord_type_of(notes) == ChordType::Sus2 ==> note_above_first(notes, 2) && note_above_first(notes, 7),
        chord_type_of(notes) == ChordType::Sus4 ==> note_above_first(notes, 5) && note_above_first(notes, 7),
        chord_type_of(notes) == ChordType::Diminished ==> note_above_first(notes, 3) && note_above_first(
            notes,
            6,
        ),
        !(note_above_first(notes, 3) && note_above_first(notes, 7)) && !(note_above_first(notes, 4)
            && note_above_first(notes, 7)) && !(note_above_first(notes, 2) && note_above_first(notes, 7))
            && !(note_above_first(notes, 5) && note_above_first(notes, 7)) && !(note_above_first(notes, 3)
            && note_above_first(notes, 6)) ==> chord_type_of(notes) == ChordType::Major,
{
    lemma_note_above_first(notes, 2);
    lemma_note_above_first(notes, 3);
    lemma_note_above_first(notes, 4);
    lemma_note_above_first(notes, 5);
    lemma_note_above_first(notes, 6);
    lemma_note_above_first(notes, 7);
    lemma_note_above_first(notes, 10);
    lemma_note_above_first(notes, 11);
}

/// Every bass pattern but the root pattern repeats every bar of four beats:
/// the same beat of the next bar plays the same note and strikes at the
/// same points of the beat.
pub proof fn lemma_bass_patterns_repeat_each_bar(
    pattern: BasslinePattern,
    chord: ChordInfo,
    beat: int,
    within: int,
    samples_per_beat: int,
)
    requires
        pattern != BasslinePattern::Root,
        beat >= 0,
    ensures
        pattern_note(pattern, chord, beat + 4) == pattern_note(pattern, chord, beat),
        pattern_triggers(pattern, beat + 4, within, samples_per_beat) == pattern_triggers(
            pattern,
            beat,
            within,
            samples_per_beat,
        ),
{
    vstd::arithmetic::div_mod::lemma_mod_multiples_vanish(1, beat, 4);
    vstd::arithmetic::div_mod::lemma_mod_add_multiples_vanish(beat, 4);
    assert((beat + 4) % 4 == beat % 4);
    assert((beat + 4) % 2 == beat % 2) by {
        vstd::arithmetic::div_mod::lemma_mod_multiples_vanish(2, beat, 2);
    }
}

/// The octave pattern plays the bass root on beat 1 and the octave above it
/// on beat 3 of every bar: on every beat `b` with `b % 4 == 2` its note is
/// twelve semitones above the note of the bar's first beat.
pub proof fn lemma_octave_pattern_jumps_each_bar(chord: ChordInfo, beat: int)
    requires
        beat >= 0,
        beat % 4 == 2,
    ensures
        pattern_note(BasslinePattern::Octave, chord, beat) matches Some(high) && pattern_note(
            BasslinePattern::Octave,
            chord,
            beat - 2,
        ) matches Some(low) && high == low + 12,
        pattern_triggers(BasslinePattern::Octave, beat, 0, 1),
        pattern_note(BasslinePattern::Octave, chord, 0) == Some(bass_note(chord.root)),
{
    assert((beat - 2) % 4 == 0) by {
        vstd::arithmetic::div_mod::lemma_fundamental_div_mod(beat, 4);
        vstd::arithmetic::div_mod::lemma_mod_multiples_vanish(beat / 4, 0, 4);
    }
}

/// The rhythm a bass line follows.
#[derive(Debug, Clone, Copy, PartialEq, Eq, Structural)]
pub enum BasslinePattern {
    /// The root on the first beat only.
    Root,
    /// Root on beat 1, octave on beat 3 of every bar.
    Octave,
    /// A note on every beat, walking through the chord.
    Walking,
    /// Root on beat 1 and fifth on beat 3, each struck again a sixteenth
    /// note later.
    Rhythmic,
}

/// The rhythm a bassline style number selects: 0 root, 1 octave, 2
/// walking, 3 rhythmic; any other number the root pattern.
pub fn bassline_pattern_for_style(style: u8) -> (r: BasslinePattern)
    ensures
        r == if style == 1 {
            BasslinePattern::Octave
        } else if style == 2 {
            BasslinePattern::Walking
        } else if style == 3 {
            BasslinePattern::Rhythmic
        } else {
            BasslinePattern::Root
        },
{
    match style {
        1 => BasslinePattern::Octave,
        2 => BasslinePattern::Walking,
        3 => BasslinePattern::Rhythmic,
        _ => BasslinePattern::Root,
    }
}

/// What the bass voice does at one sample.
#[derive(Debug, Clone, Copy, PartialEq, Eq, Structural)]
pub enum BassAction {
    /// Keep sounding (or staying silent).
    Hold,
    /// Release the sounding note: the pattern has a rest here.
    Release,
    /// Release the sounding note and play this one.
    Play(u8),
}

/// A note moved into the bass register: notes above C3 (48) drop two
/// octaves, notes above C2 (36) one octave.
pub open spec fn bass_note(note: u8) -> int {
    if note > 48 {
        note - 24
    } else if note > 36 {
        note - 12
    } else {
        note as int
    }
}

fn get_bass_note(note: u8) -> (r: u8)
    ensures
        r == bass_note(note),
{
    if note > 48 {
        note - 24
    } else if note > 36 {
        note - 12
    } else {
        note
    }
}

/// Whether a pattern sounds a note at this beat and sample within the beat,
/// both counted from the chord's first sample: the root pattern on the
/// chord's downbeat, the octave pattern on beats 1 and 3 of each bar, the
/// walking line on every beat, the rhythmic pattern on beats 1 and 3 and a
/// sixteenth note after each.
pub open spec fn pattern_triggers(pattern: BasslinePattern, beat: int, within: int, samples_per_beat: int) -> bool {
    match pattern {
        BasslinePattern::Root => beat == 0 && within == 0,
        BasslinePattern::Octave => (beat % 4 == 0 || beat % 4 == 2) && within == 0,
        BasslinePattern::Walking => within == 0,
        BasslinePattern::Rhythmic => (within == 0 || within == samples_per_beat / 4) && beat % 2 == 0,
    }
}

/// The bass note a pattern plays over a chord at a beat (`None` is a rest).
/// A walking line plays root, third, fifth, then a whole step below the root
/// as its approach note.
pub open spec fn pattern_note(pattern: BasslinePattern, chord: ChordInfo, beat: int) -> Option<int> {
    let root = bass_note(chord.root);
    match pattern {
        BasslinePattern::Root => Some(root),
        BasslinePattern::Octave => if beat % 4 == 2 { Some(root + 12) } else { Some(root) },
        BasslinePattern::Walking => if beat % 4 == 0 {
            Some(root)
        } else if beat % 4 == 1 {
            Some(bass_note(chord_tones(chord)[1] as u8))
        } else if beat % 4 == 2 {
            Some(bass_note(chord_tones(chord)[2] as u8))
        } else {
            Some(root - 2)
        },
        BasslinePattern::Rhythmic => if beat % 4 == 0 {
            Some(root)
        } else if beat % 4 == 2 {
            Some(bass_note(chord_tones(chord)[2] as u8))
        } else {
            None
        },
    }
}

/// Whether a pattern can play over a chord: walking and rhythmic lines read
/// the chord tones, which must be valid notes, and the walking approach note
/// lies two semitones below the bass root.
pub open spec fn playable(pattern: BasslinePattern, chord: ChordInfo) -> bool {
    match pattern {
        BasslinePattern::Root | BasslinePattern::Octave => true,
        BasslinePattern::Walking => tones_fit(chord) && bass_note(chord.root) >= 2,
        BasslinePattern::Rhythmic => tones_fit(chord),
    }
}

/// Whether a pattern can play over a chord (see `playable`).
fn pattern_playable(pattern: BasslinePattern, chord: &ChordInfo) -> (r: bool)
    ensures
        r == playable(pattern, *chord),
{
    let tones = wide_tones(chord);
    let fits = all_notes(&tones);
    proof {
        if fits {
            assert forall|i: int| 0 <= i < chord_tones(*chord).len() implies #[trigger] chord_tones(*chord)[i]
                <= 255 by {
                assert(tones@[i] <= 255);
            }
        } else {
            let k = choose|k: int| 0 <= k < tones@.len() && !(tones@[k] <= 255);
            assert(!(chord_tones(*chord)[k] <= 255));
        }
        assert(fits == tones_fit(*chord));
    }
    match pattern {
        BasslinePattern::Root | BasslinePattern::Octave => true,
        BasslinePattern::Walking => fits && get_bass_note(chord.root) >= 2,
        BasslinePattern::Rhythmic => fits,
    }
}

/// Follows the chords of a jam and decides, sample by sample, when the bass
/// voice plays which note.
#[derive(Debug)]
pub struct BasslineEngine {
    pub current_chord: Option<ChordInfo>,
    pub pattern: BasslinePattern,
    /// Length of a beat in samples.
    pub tempo_samples_per_beat: u64,
    /// Samples processed so far.
    pub current_sample: u64,
    pub pattern_position: u32,
    pub last_bass_note: Option<u8>,
    /// A chord that takes over at the next sample.
    pub next_chord_queue: Option<ChordInfo>,
}

impl BasslineEngine {
    /// Whether the engine can run: while it holds or queues a chord, beats
    /// have a length; no chord starts after the current sample.
    pub open spec fn wf(&self) -> bool {
        &&& (self.current_chord is Some || self.next_chord_queue is Some) ==> self.tempo_samples_per_beat > 0
        &&& (self.current_chord matches Some(c) ==> c.start_time <= self.current_sample)
        &&& (self.next_chord_queue matches Some(c) ==> c.start_time <= self.current_sample)
    }

    /// Whether every chord the engine holds can be played in its pattern.
    pub open spec fn chords_playable(&self) -> bool {
        &&& (self.current_chord matches Some(c) ==> playable(self.pattern, c))
        &&& (self.next_chord_queue matches Some(c) ==> playable(self.pattern, c))
    }

    /// A silent engine with the root pattern and beats of the given length.
    pub fn new(samples_per_beat: u64) -> (r: BasslineEngine)
        ensures
            r.current_chord is None,
            r.next_chord_queue is None,
            r.pattern == BasslinePattern::Root,
            r.tempo_samples_per_beat == samples_per_beat,
            r.current_sample == 0,
            r.pattern_position == 0,
            r.last_bass_note is None,
    {
        BasslineEngine {
            current_chord: None,
            pattern: BasslinePattern::Root,
            tempo_samples_per_beat: samples_per_beat,
            current_sample: 0,
            pattern_position: 0,
            last_bass_note: None,
            next_chord_queue: None,
        }
    }

    /// Sets the length of a beat in samples.
    pub fn set_tempo(&mut self, samples_per_beat: u64)
        ensures
            *final(self) == (BasslineEngine { tempo_samples_per_beat: samples_per_beat, ..*old(self) }),
    {
        self.tempo_samples_per_beat = samples_per_beat;
    }

    /// Switches the rhythm and restarts the pattern.
    pub fn set_pattern(&mut self, pattern: BasslinePattern)
        ensures
            *final(self) == (BasslineEngine { pattern, pattern_position: 0, ..*old(self) }),
    {
        self.pattern = pattern;
        self.pattern_position = 0;
    }

    /// Whether the engine can take its next sample (see `process_sample`):
    /// it is well formed, its chords are playable in its pattern, and its
    /// sample clock can still advance.
    pub fn ready(&self) -> (r: bool)
        ensures
            r == (self.wf() && self.chords_playable() && self.current_sample < u64::MAX),
    {
        if self.current_sample == u64::MAX {
            return false;
        }
        if self.tempo_samples_per_beat == 0 && (self.current_chord.is_some() || self.next_chord_queue.is_some()) {
            return false;
        }
        let current_ok = match self.current_chord {
            Some(c) => c.start_time <= self.current_sample && pattern_playable(self.pattern, &c),
            None => true,
        };
        let next_ok = match self.next_chord_queue {
            Some(c) => c.start_time <= self.current_sample && pattern_playable(self.pattern, &c),
            None => true,
        };
        current_ok && next_ok
    }

    /// Follows a new chord, rooted at its first note and starting now. While
    /// a chord is sounding the new one is queued and takes over at the next
    /// sample. An empty chord is ignored.
    pub fn new_chord(&mut self, notes: &[u8])
        ensures
            notes@.len() == 0 ==> *final(self) == *old(self),
            notes@.len() > 0 ==> ({
                let chord = ChordInfo {
                    root: notes@[0],
                    chord_type: chord_type_of(notes@),
                    start_time: old(self).current_sample,
                };
                *final(self) == if old(self).current_chord is Some {
                    BasslineEngine { next_chord_queue: Some(chord), pattern_position: 0, ..*old(self) }
                } else {
                    BasslineEngine { current_chord: Some(chord), pattern_position: 0, ..*old(self) }
                }
            }),
    {
        if notes.len() == 0 {
            return;
        }
        let chord = ChordInfo {
            root: notes[0],
            chord_type: ChordInfo::analyze_chord(notes),
            start_time: self.current_sample,
        };
        if self.current_chord.is_some() {
            self.next_chord_queue = Some(chord);
        } else {
            self.current_chord = Some(chord);
        }
        self.pattern_position = 0;
    }

    /// Stops following chords.
    pub fn stop_chord(&mut self)
        ensures
            *final(self) == (BasslineEngine {
                current_chord: None,
                next_chord_queue: None,
                pattern_position: 0,
                ..*old(self)
            }),
    {
        self.current_chord = None;
        self.next_chord_queue = None;
        self.pattern_position = 0;
    }

    /// The bass note the current pattern plays over `chord` at `beat`.
    fn note_for_pattern(&self, chord: &ChordInfo, beat: u64) -> (r: Option<u8>)
        requires
            playable(self.pattern, *chord),
        ensures
            match r {
                Some(n) => pattern_note(self.pattern, *chord, beat as int) == Some(n as int),
                None => pattern_note(self.pattern, *chord, beat as int) is None,
            },
    {
        let root = get_bass_note(chord.root);
        match self.pattern {
            BasslinePattern::Root => Some(root),
            BasslinePattern::Octave => if beat % 4 == 2 { Some(root + 12) } else { Some(root) },
            BasslinePattern::Walking => {
                let m = beat % 4;
                if m == 0 {
                    Some(root)
                } else if m == 1 {
                    let tones = ChordInfo::get_chord_tones(chord);
                    Some(get_bass_note(tones[1]))
                } else if m == 2 {
                    let tones = ChordInfo::get_chord_tones(chord);
                    Some(get_bass_note(tones[2]))
                } else {
                    Some(root - 2)
                }
            },
            BasslinePattern::Rhythmic => {
                let m = beat % 4;
                if m == 0 {
                    Some(root)
                } else if m == 2 {
                    let tones = ChordInfo::get_chord_tones(chord);
                    Some(get_bass_note(tones[2]))
                } else {
                    None
                }
            },
        }
    }

    /// Plays one sample and advances the clock. A queued chord takes over
    /// first; then, when the pattern has a note at this sample of the current
    /// chord (counted from the chord's start, so that a chord's first sample
    /// is its downbeat), the action says whether the bass voice rests or
    /// plays which note.
    pub fn process_sample(&mut self) -> (action: BassAction)
        requires
            old(self).wf(),
            old(self).chords_playable(),
            old(self).current_sample < u64::MAX,
        ensures
            final(self).wf(),
            final(self).chords_playable(),
            final(self).current_sample == old(self).current_sample + 1,
            final(self).pattern == old(self).pattern,
            final(self).tempo_samples_per_beat == old(self).tempo_samples_per_beat,
            final(self).next_chord_queue is None,
            final(self).current_chord == (if old(self).next_chord_queue is Some {
                old(self).next_chord_queue
            } else {
                old(self).current_chord
            }),
            final(self).pattern_position == (if old(self).next_chord_queue is Some {
                0
            } else {
                old(self).pattern_position
            }),
            ({
                let spb = old(self).tempo_samples_per_beat as int;
                match final(self).current_chord {
                    None => action == BassAction::Hold && final(self).last_bass_note == old(self).last_bass_note,
                    Some(c) => {
                        let since = old(self).current_sample - c.start_time;
                        let beat = since / spb;
                        let within = since % spb;
                        if !pattern_triggers(old(self).pattern, beat, within, spb) {
                            action == BassAction::Hold && final(self).last_bass_note == old(self).last_bass_note
                        } else {
                            match pattern_note(old(self).pattern, c, beat) {
                                Some(n) => action == BassAction::Play(n as u8) && final(self).last_bass_note == Some(n as u8),
                                None => action == BassAction::Release && final(self).last_bass_note
                                    == old(self).last_bass_note,
                            }
                        }
                    },
                }
            }),
    {
        let now = self.current_sample;
        self.current_sample = now + 1;
        let queued = self.next_chord_queue.take();
        if let Some(next) = queued {
            self.current_chord = Some(next);
            self.pattern_position = 0;
        }
        let chord = match self.current_chord {
            Some(c) => c,
            None => {
                return BassAction::Hold;
            },
        };
        let spb = self.tempo_samples_per_beat;
        let since = now - chord.start_time;
        let beat = since / spb;
        let within = since % spb;
        let triggers = match self.pattern {
            BasslinePattern::Root => beat == 0 && within == 0,
            BasslinePattern::Octave => (beat % 4 == 0 || beat % 4 == 2) && within == 0,
            BasslinePattern::Walking => within == 0,
            BasslinePattern::Rhythmic => (within == 0 || within == spb / 4) && beat % 2 == 0,
        };
        if !triggers {
            return BassAction::Hold;
        }
        match self.note_for_pattern(&chord, beat) {
            Some(note) => {
                self.last_bass_note = Some(note);
                BassAction::Play(note)
            },
            None => BassAction::Release,
        }
    }
}

/// One note of a harmony voicing.
#[derive(Debug, Clone, Copy, PartialEq, Eq, Structural)]
pub struct VoicingNote {
    pub note: u8,
}

/// Voices harmony notes above the chords of a jam, leading each voice to the
/// nearest note of the next chord.
#[derive(Debug)]
pub struct HarmonyEngine {
    pub enabled: bool,
    /// 0 = close, 1 = open, 2 = drop-2, 3 = quartal, 4 = extended; other
    /// values voice close.
    pub voicing_type: u8,
    pub current_chord: Option<ChordInfo>,
    /// The last voicing played, for voice leading.
    pub previous_voicing: Vec<u8>,
}

/// The extra notes the extended voicing stacks on each chord quality, in
/// semitones above the root: a major chord takes the ninth and the thirteenth
/// (a major sixth two octaves up), a minor chord the ninth and the eleventh
/// (a fourth an octave up), a dominant seventh the ninth, the sharp eleventh
/// (a tritone an octave up) and the flat thirteenth (a minor sixth two
/// octaves up); the others the ninth alone.
pub open spec fn extension_steps(t: ChordType) -> Seq<int> {
    match t {
        ChordType::Major | ChordType::Major7 => seq![14, 33],
        ChordType::Minor | ChordType::Minor7 => seq![14, 17],
        ChordType::Dominant7 => seq![14, 18, 32],
        _ => seq![14],
    }
}

/// The seventh of the chord raised by `up`, for chords that have one.
pub open spec fn seventh_raised(tones: Seq<int>, up: int) -> Seq<int> {
    if tones.len() > 3 { seq![tones[3] + up] } else { seq![] }
}

/// The harmony notes of a voicing style over a chord, before voice leading:
/// close voicing stacks the chord tones an octave up; open voicing puts root
/// and fifth an octave up and third and seventh two octaves up; drop-2
/// takes the close voicing and drops its second voice from the top (the
/// fifth of a seventh chord, the third of a triad) an octave, to the bottom;
/// quartal stacks fourths from the root an octave up; extended voicing adds
/// ninths, elevenths and thirteenths to the triad.
pub open spec fn voicing_notes(voicing_type: u8, chord: ChordInfo) -> Seq<int> {
    let t = chord_tones(chord);
    let root = chord.root as int;
    if voicing_type == 1 {
        seq![t[0] + 12, t[2] + 12, t[1] + 24] + seventh_raised(t, 24)
    } else if voicing_type == 2 {
        if t.len() > 3 {
            seq![t[2], t[0] + 12, t[1] + 12, t[3] + 12]
        } else {
            seq![t[1], t[0] + 12, t[2] + 12]
        }
    } else if voicing_type == 3 {
        seq![root + 12, root + 17, root + 22, root + 27]
    } else if voicing_type == 4 {
        seq![t[0] + 12, t[1] + 12, t[2] + 12] + extension_steps(chord.chord_type).map_values(
            |st: int| root + st,
        )
    } else {
        seq![t[0] + 12, t[1] + 12, t[2] + 12] + seventh_raised(t, 12)
    }
}

/// Whether every note of the voicing is a valid note number.
pub open spec fn voicing_fits(voicing_type: u8, chord: ChordInfo) -> bool {
    &&& voicing_type != 3 ==> tones_fit(chord)
    &&& forall|i: int|
        0 <= i < voicing_notes(voicing_type, chord).len() ==> #[trigger] voicing_notes(
            voicing_type,
            chord,
        )[i] <= 255
}

/// The chord tones, computed wide.
fn wide_tones(chord: &ChordInfo) -> (r: Vec<u32>)
    ensures
        r@.len() == chord_tones(*chord).len(),
        forall|i: int| 0 <= i < r@.len() ==> r@[i] == #[trigger] chord_tones(*chord)[i],
{
    let ivs: Vec<u32> = match chord.chord_type {
        ChordType::Major => vec![0, 4, 7],
        ChordType::Minor => vec![0, 3, 7],
        ChordType::Dominant7 => vec![0, 4, 7, 10],
        ChordType::Minor7 => vec![0, 3, 7, 10],
        ChordType::Major7 => vec![0, 4, 7, 11],
        ChordType::Diminished => vec![0, 3, 6],
        ChordType::Sus2 => vec![0, 2, 7],
        ChordType::Sus4 => vec![0, 5, 7],
    };
    let root = chord.root as u32;
    let mut r: Vec<u32> = Vec::new();
    let mut i: usize = 0;
    while i < ivs.len()
        invariant
            root == chord.root,
            ivs@.len() == chord_intervals(chord.chord_type).len(),
            forall|j: int| 0 <= j < ivs@.len() ==> #[trigger] ivs@[j] == chord_intervals(chord.chord_type)[j],
            i <= ivs@.len(),
            r@.len() == i,
            forall|j: int| 0 <= j < i ==> r@[j] == #[trigger] chord_tones(*chord)[j],
        decreases ivs@.len() - i,
    {
        r.push((root % 12 + ivs[i]) % 12 + (root / 12) * 12);
        i = i + 1;
    }
    r
}

/// Whether every value is a valid note number.
fn all_notes(v: &Vec<u32>) -> (r: bool)
    ensures
        r == forall|i: int| 0 <= i < v@.len() ==> #[trigger] v@[i] <= 255,
{
    let mut i: usize = 0;
    while i < v.len()
        invariant
            i <= v@.len(),
            forall|k: int| 0 <= k < i ==> #[trigger] v@[k] <= 255,
        decreases v@.len() - i,
    {
        if v[i] > 255 {
            return false;
        }
        i = i + 1;
    }
    true
}

/// Whether a voicing style over a chord stays within the note numbers (see
/// `voicing_fits`); the harmony of a chord that does not would overflow.
pub fn voicing_in_range(voicing_type: u8, chord: &ChordInfo) -> (r: bool)
    ensures
        r == voicing_fits(voicing_type, *chord),
{
    let t = wide_tones(chord);
    let root = chord.root as u32;
    let ghost target = voicing_notes(voicing_type, *chord);
    let ghost tones = chord_tones(*chord);
    let mut v: Vec<u32> = Vec::new();
    if voicing_type == 3 {
        v.push(root + 12);
        v.push(root + 17);
        v.push(root + 22);
        v.push(root + 27);
    } else if voicing_type == 1 {
        v.push(t[0] + 12);
        v.push(t[2] + 12);
        v.push(t[1] + 24);
        if t.len() > 3 {
            v.push(t[3] + 24);
        }
    } else if voicing_type == 2 {
        if t.len() > 3 {
            v.push(t[2]);
            v.push(t[0] + 12);
            v.push(t[1] + 12);
            v.push(t[3] + 12);
        } else {
            v.push(t[1]);
            v.push(t[0] + 12);
            v.push(t[2] + 12);
        }
    } else if voicing_type == 4 {
        v.push(t[0] + 12);
        v.push(t[1] + 12);
        v.push(t[2] + 12);
        match chord.chord_type {
            ChordType::Major | ChordType::Major7 => {
                v.push(root + 14);
                v.push(root + 33);
            },
            ChordType::Minor | ChordType::Minor7 => {
                v.push(root + 14);
                v.push(root + 17);
            },
            ChordType::Dominant7 => {
                v.push(root + 14);
                v.push(root + 18);
                v.push(root + 32);
            },
            _ => {
                v.push(root + 14);
            },
        }
    } else {
        v.push(t[0] + 12);
        v.push(t[1] + 12);
        v.push(t[2] + 12);
        if t.len() > 3 {
            v.push(t[3] + 12);
        }
    }
    assert(v@.len() == target.len());
    assert(forall|i: int| 0 <= i < v@.len() ==> v@[i] == target[i]);
    let voiced = all_notes(&v);
    proof {
        if voiced {
            assert forall|i: int| 0 <= i < target.len() implies #[trigger] target[i] <= 255 by {
                assert(v@[i] <= 255);
            }
        } else {
            let k = choose|k: int| 0 <= k < v@.len() && !(v@[k] <= 255);
            assert(!(target[k] <= 255));
        }
        assert(voiced == (forall|i: int| 0 <= i < target.len() ==> #[trigger] target[i] <= 255));
    }
    if voicing_type == 3 {
        voiced
    } else {
        let in_octave = all_notes(&t);
        proof {
            assert(in_octave == tones_fit(*chord));
        }
        voiced && in_octave
    }
}

/// Note numbers as integers.
pub open spec fn widen(notes: Seq<u8>) -> Seq<int> {
    notes.map_values(|n: u8| n as int)
}

/// Distance between two notes.
pub open spec fn distance(a: int, b: int) -> int {
    if a >= b { a - b } else { b - a }
}

/// The candidate `note + offset` replaces `best` when it lies strictly
/// between 24 and 96 and is strictly closer to `previous`.
pub open spec fn closer(best: int, note: int, offset: int, previous: int) -> int {
    let c = note + offset;
    if 24 < c < 96 && distance(c, previous) < distance(best, previous) { c } else { best }
}

/// The octave of `note` (one below, itself, one above, tried in that order)
/// nearest to `previous`, staying inside the playable range.
pub open spec fn nearest_octave(note: int, previous: int) -> int {
    closer(closer(closer(note, note, -12, previous), note, 0, previous), note, 12, previous)
}

/// The voicing after voice leading from `previous`: each voice that has a
/// predecessor moves to its nearest octave, the others stay.
pub open spec fn led_voicing(previous: Seq<u8>, voicing: Seq<int>) -> Seq<int> {
    if previous.len() == 0 {
        voicing
    } else {
        Seq::new(
            voicing.len(),
            |i: int|
                if i < previous.len() {
                    nearest_octave(voicing[i], previous[i] as int)
                } else {
                    voicing[i]
                },
        )
    }
}

impl HarmonyEngine {
    /// A disabled engine with close voicing, no chord and no voicing history.
    pub fn new() -> (r: HarmonyEngine)
        ensures
            !r.enabled,
            r.voicing_type == 0,
            r.current_chord is None,
            r.previous_voicing@.len() == 0,
    {
        HarmonyEngine { enabled: false, voicing_type: 0, current_chord: None, previous_voicing: Vec::new() }
    }

    /// Follows the chord that `notes` spell, rooted at its first note. An empty
    /// chord is ignored.
    pub fn set_chord(&mut self, notes: &[u8])
        ensures
            final(self).enabled == old(self).enabled,
            final(self).voicing_type == old(self).voicing_type,
            final(self).previous_voicing == old(self).previous_voicing,
            final(self).current_chord == if notes@.len() == 0 {
                old(self).current_chord
            } else {
                Some(ChordInfo { root: notes@[0], chord_type: chord_type_of(notes@), start_time: 0 })
            },
    {
        if notes.len() > 0 {
            let chord_type = ChordInfo::analyze_chord(notes);
            self.current_chord = Some(ChordInfo { root: notes[0], chord_type, start_time: 0 });
        }
    }

    /// Forgets the chord and the voicing history.
    pub fn clear(&mut self)
        ensures
            final(self).enabled == old(self).enabled,
            final(self).voicing_type == old(self).voicing_type,
            final(self).current_chord is None,
            final(self).previous_voicing@.len() == 0,
    {
        self.current_chord = None;
        self.previous_voicing = Vec::new();
    }

    fn voicing(&self, chord: &ChordInfo) -> (r: Vec<u8>)
        requires
            voicing_fits(self.voicing_type, *chord),
        ensures
            r@.len() == voicing_notes(self.voicing_type, *chord).len(),
            forall|i: int| 0 <= i < r@.len() ==> r@[i] == #[trigger] voicing_notes(self.voicing_type, *chord)[i],
    {
        let vt = self.voicing_type;
        let ghost target = voicing_notes(vt, *chord);
        let mut v: Vec<u8> = Vec::new();
        if vt == 3 {
            let root = chord.root;
            assert(target[0] <= 255 && target[1] <= 255 && target[2] <= 255 && target[3] <= 255);
            v.push(root + 12);
            v.push(root + 17);
            v.push(root + 22);
            v.push(root + 27);
            return v;
        }
        let tones = ChordInfo::get_chord_tones(chord);
        let has_seventh = tones.len() > 3;
        proof {
            assert(forall|i: int| 0 <= i < target.len() ==> target[i] <= 255);
        }
        if vt == 1 {
            assert(target[0] <= 255 && target[1] <= 255 && target[2] <= 255);
            v.push(tones[0] + 12);
            v.push(tones[2] + 12);
            v.push(tones[1] + 24);
            if has_seventh {
                assert(target[3] <= 255);
                v.push(tones[3] + 24);
            }
        } else if vt == 2 {
            if has_seventh {
                assert(target[1] <= 255 && target[2] <= 255 && target[3] <= 255);
                v.push(tones[2]);
                v.push(tones[0] + 12);
                v.push(tones[1] + 12);
                v.push(tones[3] + 12);
            } else {
                assert(target[1] <= 255 && target[2] <= 255);
                v.push(tones[1]);
                v.push(tones[0] + 12);
                v.push(tones[2] + 12);
            }
        } else if vt == 4 {
            assert(target[0] <= 255 && target[1] <= 255 && target[2] <= 255);
            v.push(tones[0] + 12);
            v.push(tones[1] + 12);
            v.push(tones[2] + 12);
            let root = chord.root;
            match chord.chord_type {
                ChordType::Major | ChordType::Major7 => {
                    assert(target[3] <= 255 && target[4] <= 255);
                    v.push(root + 14);
                    v.push(root + 33);
                },
                ChordType::Minor | ChordType::Minor7 => {
                    assert(target[3] <= 255 && target[4] <= 255);
                    v.push(root + 14);
                    v.push(root + 17);
                },
                ChordType::Dominant7 => {
                    assert(target[3] <= 255 && target[4] <= 255 && target[5] <= 255);
                    v.push(root + 14);
                    v.push(root + 18);
                    v.push(root + 32);
                },
                _ => {
                    assert(target[3] <= 255);
                    v.push(root + 14);
                },
            }
        } else {
            assert(target[0] <= 255 && target[1] <= 255 && target[2] <= 255);
            v.push(tones[0] + 12);
            v.push(tones[1] + 12);
            v.push(tones[2] + 12);
            if has_seventh {
                assert(target[3] <= 255);
                v.push(tones[3] + 12);
            }
        }
        assert(v@.len() == target.len());
        v
    }

    /// Moves each voice of `voicing` to its octave nearest the voice's
    /// previous note, and remembers the result for the next chord. With no
    /// history the voicing is kept as it is.
    fn apply_voice_leading(&mut self, voicing: Vec<u8>) -> (r: Vec<u8>)
        ensures
            r@.len() == voicing@.len(),
            forall|i: int| 0 <= i < r@.len() ==> r@[i] == #[trigger] led_voicing(
                old(self).previous_voicing@,
                widen(voicing@),
            )[i],
            final(self).previous_voicing@ == r@,
            final(self).enabled == old(self).enabled,
            final(self).voicing_type == old(self).voicing_type,
            final(self).current_chord == old(self).current_chord,
    {
        let ghost target = led_voicing(self.previous_voicing@, widen(voicing@));
        if self.previous_voicing.len() == 0 {
            let copy = voicing.clone();
            proof {
                assert(copy@ =~= voicing@);
            }
            self.previous_voicing = copy;
            return voicing;
        }
        let mut led: Vec<u8> = Vec::new();
        let mut i: usize = 0;
        while i < voicing.len()
            invariant
                self.previous_voicing@.len() > 0,
                target == led_voicing(self.previous_voicing@, widen(voicing@)),
                i <= voicing@.len(),
                led@.len() == i,
                forall|k: int| 0 <= k < i ==> led@[k] == #[trigger] target[k],
            decreases voicing@.len() - i,
        {
            let note = voicing[i];
            if i < self.previous_voicing.len() {
                let prev = self.previous_voicing[i] as i32;
                let mut closest: i32 = note as i32;
                let mut best: i32 = if closest >= prev { closest - prev } else { prev - closest };
                let offsets: [i32; 3] = [-12, 0, 12];
                let mut k: usize = 0;
                let ghost n = note as int;
                let ghost p = prev as int;
                while k < 3
                    invariant
                        k <= 3,
                        offsets@ == seq![-12i32, 0, 12],
                        prev as int == p,
                        0 <= p <= 255,
                        n == note as int,
                        best == distance(closest as int, p),
                        0 <= closest <= 255,
                        closest as int == (if k == 0 {
                            n
                        } else if k == 1 {
                            closer(n, n, -12, p)
                        } else if k == 2 {
                            closer(closer(n, n, -12, p), n, 0, p)
                        } else {
                            nearest_octave(n, p)
                        }),
                    decreases 3 - k,
                {
                    let candidate = note as i32 + offsets[k];
                    if candidate > 24 && candidate < 96 {
                        let d = if candidate >= prev { candidate - prev } else { prev - candidate };
                        if d < best {
                            best = d;
                            closest = candidate;
                        }
                    }
                    k = k + 1;
                }
                led.push(closest as u8);
            } else {
                led.push(note);
            }
            i = i + 1;
        }
        let copy = led.clone();
        proof {
            assert(copy@ =~= led@);
        }
        self.previous_voicing = copy;
        led
    }

    /// The harmony for a chord being played: the voicing of the followed chord
    /// in the engine's style, voice-led from the previous one. Nothing is
    /// voiced while the engine is off, the chord is empty, or no chord is
    /// followed.
    pub fn get_professional_harmony(&mut self, primary_notes: &[u8]) -> (r: Vec<VoicingNote>)
        requires
            old(self).enabled && primary_notes@.len() > 0 && old(self).current_chord is Some
                ==> voicing_fits(old(self).voicing_type, old(self).current_chord->0),
        ensures
            final(self).enabled == old(self).enabled,
            final(self).voicing_type == old(self).voicing_type,
            final(self).current_chord == old(self).current_chord,
            if old(self).enabled && primary_notes@.len() > 0 && old(self).current_chord is Some {
                let led = led_voicing(
                    old(self).previous_voicing@,
                    voicing_notes(old(self).voicing_type, old(self).current_chord->0),
                );
                &&& r@.len() == led.len()
                &&& forall|i: int| 0 <= i < r@.len() ==> r@[i].note == #[trigger] led[i]
                &&& final(self).previous_voicing@.len() == led.len()
                &&& forall|i: int| 0 <= i < led.len() ==> final(self).previous_voicing@[i]
                    == #[trigger] led[i]
            } else {
                &&& r@.len() == 0
                &&& final(self).previous_voicing == old(self).previous_voicing
            },
    {
        if !self.enabled || primary_notes.len() == 0 {
            return Vec::new();
        }
        let chord = match self.current_chord {
            Some(c) => c,
            None => {
                return Vec::new();
            },
        };
        let voicing = self.voicing(&chord);
        let ghost vn = voicing_notes(self.voicing_type, chord);
        proof {
            assert(widen(voicing@) =~= vn);
        }
        let led = self.apply_voice_leading(voicing);
        let mut out: Vec<VoicingNote> = Vec::new();
        let mut i: usize = 0;
        while i < led.len()
            invariant
                i <= led@.len(),
                out@.len() == i,
                forall|k: int| 0 <= k < i ==> out@[k].note == #[trigger] led@[k],
            decreases led@.len() - i,
        {
            out.push(VoicingNote { note: led[i] });
            i = i + 1;
        }
        out
    }
}

} // verus!
