//! The looper's transport: which parts record and play, their lengths and
//! play heads, the master loop length, and the song sequence. Sample values
//! are not kept here; the audio side holds the buffers and asks the
//! transport where to write and what to read.
use vstd::prelude::*;
use crate::sources::LOOPER_PART_COUNT;

verus! {

/// The longest of some lengths (0 for none).
pub open spec fn max_len(lens: Seq<usize>) -> nat
    decreases lens.len(),
{
    if lens.len() == 0 {
        0
    } else {
        let m = max_len(lens.drop_last());
        if lens.last() as nat > m { lens.last() as nat } else { m }
    }
}

proof fn lemma_max_len_bound(lens: Seq<usize>)
    ensures
        max_len(lens) <= usize::MAX,
        lens.len() > 0 ==> exists|i: int| 0 <= i < lens.len() && lens[i] as nat == max_len(lens),
        forall|i: int| 0 <= i < lens.len() ==> #[trigger] lens[i] <= max_len(lens),
    decreases lens.len(),
{
    if lens.len() > 0 {
        lemma_max_len_bound(lens.drop_last());
        assert forall|i: int| 0 <= i < lens.len() implies #[trigger] lens[i] <= max_len(lens) by {
            if i < lens.len() - 1 {
                assert(lens.drop_last()[i] == lens[i]);
            }
        }
        if lens.last() as nat <= max_len(lens.drop_last()) && lens.len() > 1 {
            let i = choose|i: int| 0 <= i < lens.drop_last().len() && lens.drop_last()[i] as nat
                == max_len(lens.drop_last());
            assert(lens[i] == lens.drop_last()[i]);
        }
    }
}

fn longest(lens: &Vec<usize>) -> (r: usize)
    ensures
        r == max_len(lens@),
{
    let mut m: usize = 0;
    let mut i: usize = 0;
    assert(lens@.take(0) == Seq::<usize>::empty());
    while i < lens.len()
        invariant
            i <= lens@.len(),
            m == max_len(lens@.take(i as int)),
        decreases lens@.len() - i,
    {
        assert(lens@.take(i + 1).drop_last() == lens@.take(i as int));
        if lens[i] > m {
            m = lens[i];
        }
        i = i + 1;
    }
    assert(lens@.take(lens@.len() as int) == lens@);
    m
}

/// What recording does with the input sample of one frame.
#[derive(Debug, Clone, Copy, PartialEq, Eq, Structural)]
pub enum RecordStep {
    /// Not recording this frame.
    Skip,
    /// Append the sample to the recording layer (the first take sets the
    /// loop length).
    Append,
    /// Add the sample into the recording layer at this index (overdub).
    AddAt(usize),
}

/// What playback reads for one frame.
#[derive(Debug, Clone, Copy, PartialEq, Eq, Structural)]
pub struct PlaybackRead {
    /// Index into the mixed buffer (past its end the part plays silence).
    pub index: usize,
    /// Whether the part is muted: it keeps time but sounds silent.
    pub muted: bool,
}

/// The transport state of one looper part.
#[derive(Debug)]
pub struct LoopPart {
    /// Lengths of the committed layers, oldest first.
    pub layer_lens: Vec<usize>,
    /// Length of the mix of all committed layers.
    pub buffer_len: usize,
    /// Length of the layer being recorded, while one is.
    pub recording_len: Option<usize>,
    pub duration_samples: usize,
    pub play_ptr: usize,
    pub record_ptr: usize,
    pub is_recording: bool,
    pub is_playing: bool,
    pub is_muted: bool,
}

/// `q` is an empty, stopped part.
pub open spec fn is_cleared(q: LoopPart) -> bool {
    &&& q.layer_lens@.len() == 0
    &&& q.buffer_len == 0
    &&& q.recording_len is None
    &&& q.duration_samples == 0
    &&& q.play_ptr == 0
    &&& q.record_ptr == 0
    &&& !q.is_recording && !q.is_playing && !q.is_muted
}

/// `q` is `p` remixed over `p`'s layers: mix and loop as long as the longest
/// layer, a play head past the end back at the start.
pub open spec fn remixed(p: LoopPart, q: LoopPart) -> bool {
    let len = max_len(p.layer_lens@);
    &&& q.layer_lens@ == p.layer_lens@
    &&& q.buffer_len == len
    &&& q.duration_samples == len
    &&& q.play_ptr == (if p.play_ptr >= len { 0 } else { p.play_ptr })
    &&& q.recording_len == p.recording_len
    &&& q.record_ptr == p.record_ptr
    &&& q.is_recording == p.is_recording
    &&& q.is_playing == p.is_playing
    &&& q.is_muted == p.is_muted
}

/// `q` holds exactly layers of lengths `lens`, stopped and rewound.
pub open spec fn loaded(q: LoopPart, lens: Seq<usize>) -> bool {
    &&& q.layer_lens@ == lens
    &&& q.buffer_len == max_len(lens)
    &&& q.duration_samples == max_len(lens)
    &&& q.recording_len is None
    &&& q.play_ptr == 0
    &&& q.record_ptr == 0
    &&& !q.is_recording && !q.is_playing && !q.is_muted
}

/// `q` is `p` after an undo: a take in progress is dropped first; otherwise
/// the newest layer goes and the part is remixed, or cleared when no layer
/// is left; with neither, nothing changes.
pub open spec fn undone(p: LoopPart, q: LoopPart) -> bool {
    if p.recording_len is Some {
        q == LoopPart { recording_len: None, is_recording: false, record_ptr: 0, ..p }
    } else if p.layer_lens@.len() > 0 {
        let rest = p.layer_lens@.drop_last();
        if rest.len() == 0 {
            is_cleared(q)
        } else {
            &&& q.layer_lens@ == rest
            &&& q.buffer_len == max_len(rest)
            &&& q.duration_samples == max_len(rest)
            &&& q.play_ptr == (if p.play_ptr >= max_len(rest) { 0 } else { p.play_ptr })
            &&& q.recording_len is None
            &&& q.record_ptr == p.record_ptr
            &&& q.is_recording == p.is_recording
            &&& q.is_playing == p.is_playing
            &&& q.is_muted == p.is_muted
        }
    } else {
        q == p
    }
}

/// `q` is `p` with recording armed against a master loop of `master`
/// samples: the take lasts the part's loop, or the master loop for a part
/// without one (a take of length 0 grows freely); an overdub starts at the
/// play head; a part with material plays while recording. A part already
/// recording is unchanged.
pub open spec fn recording_started(p: LoopPart, q: LoopPart, master: usize) -> bool {
    if p.is_recording {
        q == p
    } else {
        let loop_len = if p.duration_samples > 0 { p.duration_samples } else { master };
        q == LoopPart {
            is_recording: true,
            recording_len: Some(loop_len),
            duration_samples: loop_len,
            record_ptr: if loop_len > 0 && p.material() { (p.play_ptr % loop_len) as usize } else { 0 },
            is_playing: p.is_playing || p.material(),
            ..p
        }
    }
}

/// One frame of recording on `p`: where the sample goes, and the part after.
/// A free take grows by one; a take of fixed length is written round-robin
/// from the record head; without a take nothing happens.
pub open spec fn record_next(p: LoopPart) -> (RecordStep, LoopPart) {
    match p.recording_len {
        None => (RecordStep::Skip, p),
        Some(l) => if p.duration_samples == 0 {
            (RecordStep::Append, LoopPart { recording_len: Some((l + 1) as usize), record_ptr: (l + 1) as usize, ..p })
        } else if l > 0 {
            (RecordStep::AddAt((p.record_ptr % l) as usize),
             LoopPart { record_ptr: ((p.record_ptr % l + 1) % (l as int)) as usize, ..p })
        } else {
            (RecordStep::Skip, p)
        },
    }
}

/// `q` is `p` after recording stops, given whether the take is audible
/// (`captured`); `committed` says whether the take became a layer. An
/// audible, non-empty take is committed, sets the loop if the part had none,
/// and playback restarts from the top; otherwise the take is dropped, and a
/// part without material loses its loop. A part not recording is unchanged.
pub open spec fn recording_stopped(p: LoopPart, q: LoopPart, captured: bool, committed: bool) -> bool {
    if !p.is_recording {
        q == p && !committed
    } else {
        &&& !q.is_recording
        &&& q.record_ptr == 0
        &&& q.recording_len is None
        &&& q.is_muted == p.is_muted
        &&& committed == (p.recording_len matches Some(l) && l > 0 && captured)
        &&& if committed {
            let layers = p.layer_lens@.push(p.recording_len->0);
            &&& q.layer_lens@ == layers
            &&& q.buffer_len == max_len(layers)
            &&& q.duration_samples == max_len(layers)
            &&& q.is_playing
            &&& q.play_ptr == 0
        } else {
            &&& q.layer_lens == p.layer_lens
            &&& q.buffer_len == p.buffer_len
            &&& q.is_playing == p.material()
            &&& if p.recording_len matches Some(l) && l > 0 && !p.material() {
                q.duration_samples == 0 && q.play_ptr == 0
            } else {
                q.duration_samples == p.duration_samples && q.play_ptr == p.play_ptr
            }
        }
    }
}

/// One frame of playback on `p`: what is read, and the part after. Nothing
/// is read when the part is stopped or empty; otherwise the play head's index,
/// the head then advancing over the loop (or the mix when the loop has no
/// length) and wrapping to the start.
pub open spec fn play_next(p: LoopPart) -> (Option<PlaybackRead>, LoopPart) {
    let loop_len = if p.duration_samples > 0 { p.duration_samples } else { p.buffer_len };
    if !p.is_playing || !p.material() {
        (None, p)
    } else if loop_len == 0 {
        (None, LoopPart { play_ptr: 0, ..p })
    } else {
        (Some(PlaybackRead { index: p.play_ptr, muted: p.is_muted }),
         LoopPart { play_ptr: if p.play_ptr + 1 >= loop_len { 0 } else { (p.play_ptr + 1) as usize }, ..p })
    }
}

/// `p` stopped and rewound; with `cut`, its recording switched off too.
pub open spec fn halted(p: LoopPart, cut: bool) -> LoopPart {
    LoopPart { is_playing: false, is_recording: if cut { false } else { p.is_recording }, play_ptr: 0, ..p }
}

/// `p` playing from the top, not recording.
pub open spec fn cued(p: LoopPart) -> LoopPart {
    LoopPart { is_playing: true, is_recording: false, play_ptr: 0, ..p }
}

impl LoopPart {
    /// Committed layers are never empty, the mix is as long as the longest
    /// layer, and the play head can still advance.
    pub open spec fn wf(&self) -> bool {
        &&& forall|i: int| 0 <= i < self.layer_lens@.len() ==> #[trigger] self.layer_lens@[i] > 0
        &&& self.buffer_len == max_len(self.layer_lens@)
        &&& self.play_ptr < usize::MAX
    }

    /// Whether the part holds recorded material.
    pub open spec fn material(&self) -> bool {
        self.layer_lens@.len() > 0 && self.buffer_len > 0
    }

    /// An empty, stopped part.
    pub fn new() -> (r: LoopPart)
        ensures
            r.wf(),
            r.layer_lens@.len() == 0,
            r.buffer_len == 0,
            r.recording_len is None,
            r.duration_samples == 0,
            r.play_ptr == 0,
            r.record_ptr == 0,
            !r.is_recording && !r.is_playing && !r.is_muted,
    {
        LoopPart {
            layer_lens: Vec::new(),
            buffer_len: 0,
            recording_len: None,
            duration_samples: 0,
            play_ptr: 0,
            record_ptr: 0,
            is_recording: false,
            is_playing: false,
            is_muted: false,
        }
    }

    /// Whether the part holds recorded material.
    pub fn has_material(&self) -> (r: bool)
        ensures
            r == self.material(),
    {
        self.layer_lens.len() > 0 && self.buffer_len > 0
    }

    /// Number of committed layers.
    pub fn layer_count(&self) -> (r: usize)
        ensures
            r == self.layer_lens@.len(),
    {
        self.layer_lens.len()
    }

    /// Empties the part and stops it.
    pub fn clear(&mut self)
        ensures
            final(self).wf(),
            is_cleared(*final(self)),
    {
        self.layer_lens = Vec::new();
        self.buffer_len = 0;
        self.recording_len = None;
        self.duration_samples = 0;
        self.play_ptr = 0;
        self.record_ptr = 0;
        self.is_recording = false;
        self.is_playing = false;
        self.is_muted = false;
    }

    /// Remixes after the layers changed: the mix and the loop take the length
    /// of the longest layer, and a play head past the end returns to the
    /// start. Without layers the part has no length.
    pub fn rebuild_mix(&mut self)
        requires
            forall|i: int| 0 <= i < old(self).layer_lens@.len() ==> #[trigger] old(self).layer_lens@[i] > 0,
            old(self).play_ptr < usize::MAX,
        ensures
            final(self).wf(),
            remixed(*old(self), *final(self)),
    {
        let len = longest(&self.layer_lens);
        self.buffer_len = len;
        self.duration_samples = len;
        if self.play_ptr >= len {
            self.play_ptr = 0;
        }
    }

    /// Replaces the part's material with layers of the given lengths (empty
    /// layers are dropped), stopped and rewound.
    pub fn load_layers(&mut self, lens: &[usize])
        ensures
            final(self).wf(),
            loaded(*final(self), lens@.filter(|l: usize| l > 0)),
    {
        self.clear();
        let mut kept: Vec<usize> = Vec::new();
        let mut i: usize = 0;
        assert(lens@.take(0).filter(|l: usize| l > 0) =~= Seq::<usize>::empty()) by {
            reveal(Seq::filter);
        }
        while i < lens.len()
            invariant
                i <= lens@.len(),
                kept@ == lens@.take(i as int).filter(|l: usize| l > 0),
                forall|k: int| 0 <= k < kept@.len() ==> #[trigger] kept@[k] > 0,
            decreases lens@.len() - i,
        {
            proof {
                reveal(Seq::filter);
                assert(lens@.take(i + 1).drop_last() == lens@.take(i as int));
            }
            if lens[i] > 0 {
                kept.push(lens[i]);
            }
            i = i + 1;
        }
        assert(lens@.take(lens@.len() as int) == lens@);
        self.layer_lens = kept;
        self.rebuild_mix();
    }

    /// Replaces the part's material with one mixed buffer of the given length;
    /// an empty buffer clears the part.
    pub fn load_mixed_buffer(&mut self, len: usize)
        ensures
            final(self).wf(),
            loaded(*final(self), if len > 0 { seq![len] } else { seq![] }),
    {
        self.clear();
        if len > 0 {
            let mut lens: Vec<usize> = Vec::new();
            lens.push(len);
            self.layer_lens = lens;
            self.buffer_len = len;
            self.duration_samples = len;
            proof {
                assert(self.layer_lens@ =~= seq![len]);
                assert(seq![len].drop_last() =~= Seq::<usize>::empty());
                reveal_with_fuel(max_len, 2);
                assert(max_len(seq![len]) == len);
            }
        } else {
            assert(self.layer_lens@ =~= Seq::<usize>::empty());
        }
    }

    /// Undoes the most recent recording work: a layer being recorded is
    /// dropped first; otherwise the newest committed layer is removed and the
    /// part remixed, and a part left without layers is cleared. Returns
    /// whether anything was undone.
    pub fn undo(&mut self) -> (changed: bool)
        requires
            old(self).wf(),
        ensures
            final(self).wf(),
            changed == (old(self).recording_len is Some || old(self).layer_lens@.len() > 0),
            undone(*old(self), *final(self)),
    {
        if self.recording_len.is_some() {
            self.recording_len = None;
            self.is_recording = false;
            self.record_ptr = 0;
            return true;
        }
        if self.layer_lens.len() > 0 {
            let _ = self.layer_lens.pop();
            self.rebuild_mix();
            if self.layer_lens.len() == 0 {
                self.clear();
            }
            true
        } else {
            false
        }
    }

    /// Arms recording. The take is as long as the part's loop, or, for a part
    /// without a loop length, as the master loop; with no length at all the
    /// take grows until recording stops. Overdubs start at the play head. A
    /// part with material plays while it records. Nothing changes while the
    /// part is already recording.
    pub fn start_recording(&mut self, master_duration: usize)
        requires
            old(self).wf(),
        ensures
            final(self).wf(),
            recording_started(*old(self), *final(self), master_duration),
    {
        if self.is_recording {
            return;
        }
        let loop_len = if self.duration_samples > 0 { self.duration_samples } else { master_duration };
        let material = self.has_material();
        if loop_len > 0 {
            self.recording_len = Some(loop_len);
            self.duration_samples = loop_len;
            self.record_ptr = if material { self.play_ptr % loop_len } else { 0 };
        } else {
            self.recording_len = Some(0);
            self.record_ptr = 0;
        }
        self.is_recording = true;
        if material {
            self.is_playing = true;
        }
    }

    /// Where this frame's input sample goes. A take without a loop length
    /// grows by one sample; a take with a length is written round-robin from
    /// the record head.
    pub fn record_step(&mut self) -> (step: RecordStep)
        requires
            old(self).wf(),
            old(self).recording_len matches Some(l) ==> l < usize::MAX,
        ensures
            final(self).wf(),
            (step, *final(self)) == record_next(*old(self)),
    {
        match self.recording_len {
            None => RecordStep::Skip,
            Some(l) => {
                if self.duration_samples == 0 {
                    self.recording_len = Some(l + 1);
                    self.record_ptr = l + 1;
                    RecordStep::Append
                } else if l > 0 {
                    let idx = self.record_ptr % l;
                    self.record_ptr = (idx + 1) % l;
                    RecordStep::AddAt(idx)
                } else {
                    RecordStep::Skip
                }
            },
        }
    }

    /// Finishes recording. `captured` tells whether the finished take holds
    /// audible material (the audio side judges the samples). An audible take
    /// is committed as a new layer, sets the loop length if the part had none,
    /// and starts playback from the top. A silent or empty take is dropped;
    /// a part left without material loses its loop length. Returns whether a
    /// layer was committed; a part that is not recording is left alone.
    pub fn stop_recording(&mut self, captured: bool) -> (committed: bool)
        requires
            old(self).wf(),
        ensures
            final(self).wf(),
            recording_stopped(*old(self), *final(self), captured, committed),
    {
        if !self.is_recording {
            return false;
        }
        self.is_recording = false;
        self.record_ptr = 0;
        let take = self.recording_len;
        self.recording_len = None;
        let material = self.has_material();
        let l = match take {
            Some(l) => l,
            None => {
                self.is_playing = material;
                return false;
            },
        };
        if l == 0 {
            self.is_playing = material;
            return false;
        }
        if !captured {
            if !material {
                self.duration_samples = 0;
                self.play_ptr = 0;
            }
            self.is_playing = material;
            return false;
        }
        if self.duration_samples == 0 {
            self.duration_samples = l;
        }
        self.layer_lens.push(l);
        self.rebuild_mix();
        self.is_playing = true;
        self.play_ptr = 0;
        true
    }

    /// Advances playback one frame and says what to read. A stopped part or
    /// one without material reads nothing. The play head runs over the loop
    /// length (or the mix length when the loop has none) and wraps to the
    /// start; a muted part keeps its place but sounds silent.
    pub fn next_playback_sample(&mut self) -> (r: Option<PlaybackRead>)
        requires
            old(self).wf(),
        ensures
            final(self).wf(),
            (r, *final(self)) == play_next(*old(self)),
    {
        if !self.is_playing || !self.has_material() {
            return None;
        }
        let loop_len = if self.duration_samples > 0 { self.duration_samples } else { self.buffer_len };
        if loop_len == 0 {
            self.play_ptr = 0;
            return None;
        }
        let index = self.play_ptr;
        self.play_ptr = self.play_ptr + 1;
        if self.play_ptr >= loop_len {
            self.play_ptr = 0;
        }
        Some(PlaybackRead { index, muted: self.is_muted })
    }

    /// Stops and rewinds the part; with `cut`, recording is switched off too.
    fn halt(&mut self, cut: bool)
        requires
            old(self).wf(),
        ensures
            final(self).wf(),
            *final(self) == halted(*old(self), cut),
    {
        self.is_playing = false;
        if cut {
            self.is_recording = false;
        }
        self.play_ptr = 0;
    }

    /// Plays the part from the top, recording switched off.
    fn cue(&mut self)
        requires
            old(self).wf(),
        ensures
            final(self).wf(),
            *final(self) == cued(*old(self)),
    {
        self.is_playing = true;
        self.is_recording = false;
        self.play_ptr = 0;
    }
}

/// The length the play head runs over: the loop, or the mix when the loop
/// has no length.
pub open spec fn loop_length(p: LoopPart) -> int {
    if p.duration_samples > 0 { p.duration_samples as int } else { p.buffer_len as int }
}

/// `p` with its play head at `ptr`.
pub open spec fn at_head(p: LoopPart, ptr: int) -> LoopPart {
    LoopPart { play_ptr: ptr as usize, ..p }
}

/// `p` muted.
pub open spec fn muted(p: LoopPart) -> LoopPart {
    LoopPart { is_muted: true, ..p }
}

/// `p` after `n` frames of playback.
pub open spec fn played_frames(p: LoopPart, n: nat) -> LoopPart
    decreases n,
{
    if n == 0 { p } else { play_next(played_frames(p, (n - 1) as nat)).1 }
}

/// Playback runs round the loop: after `n` frames the play head of a
/// sounding part stands `n` places further on, modulo the loop length, and
/// nothing else about the part changes.
pub proof fn lemma_playback_advances(p: LoopPart, n: nat)
    requires
        p.is_playing,
        p.material(),
        loop_length(p) > 0,
        p.play_ptr < loop_length(p),
    ensures
        played_frames(p, n) == at_head(p, (p.play_ptr + n) % loop_length(p)),
    decreases n,
{
    let len = loop_length(p);
    if n == 0 {
        vstd::arithmetic::div_mod::lemma_small_mod(p.play_ptr as nat, len as nat);
    } else {
        lemma_playback_advances(p, (n - 1) as nat);
        let x = p.play_ptr + n - 1;
        let r = x % len;
        let q = played_frames(p, (n - 1) as nat);
        assert(q == at_head(p, r));
        assert(0 <= r < len);
        assert(q.play_ptr == r);
        assert(loop_length(q) == len);
        vstd::arithmetic::div_mod::lemma_add_mod_noop_right(1, x, len);
        if r + 1 < len {
            vstd::arithmetic::div_mod::lemma_small_mod((r + 1) as nat, len as nat);
        } else {
            vstd::arithmetic::div_mod::lemma_mod_self_0(len);
        }
        assert(played_frames(p, n) == play_next(q).1);
    }
}

/// A part after `n` frames of recording.
pub open spec fn recorded_frames(p: LoopPart, n: nat) -> LoopPart
    decreases n,
{
    if n == 0 { p } else { record_next(recorded_frames(p, (n - 1) as nat)).1 }
}

/// Where frame `k` of a recording run, counted from zero, puts its sample.
pub open spec fn recorded_step(p: LoopPart, k: nat) -> RecordStep {
    record_next(recorded_frames(p, k)).0
}

/// Whether one of the first `n` frames of a recording run adds its sample
/// at index `idx`.
pub open spec fn written_within(p: LoopPart, idx: usize, n: nat) -> bool {
    exists|k: nat| k < n && #[trigger] recorded_step(p, k) == RecordStep::AddAt(idx)
}

/// An overdub over a take of fixed length `l` writes round-robin: frame `k`
/// adds its sample at the record head moved `k` places on, modulo `l`, and
/// after `n` frames the head stands `n` places on, modulo `l`, with nothing
/// else about the part changed.
pub proof fn lemma_overdub_round_robin(p: LoopPart, n: nat)
    requires
        p.recording_len matches Some(l) && l > 0,
        p.duration_samples > 0,
        p.record_ptr < p.recording_len->0,
    ensures
        recorded_frames(p, n) == (LoopPart {
            record_ptr: ((p.record_ptr + n) % (p.recording_len->0 as int)) as usize,
            ..p
        }),
        recorded_step(p, n) == RecordStep::AddAt(
            ((p.record_ptr + n) % (p.recording_len->0 as int)) as usize,
        ),
    decreases n,
{
    let l = p.recording_len->0 as int;
    if n == 0 {
        vstd::arithmetic::div_mod::lemma_small_mod(p.record_ptr as nat, l as nat);
        assert(recorded_frames(p, 0) == p);
    } else {
        lemma_overdub_round_robin(p, (n - 1) as nat);
        let x = p.record_ptr + n - 1;
        let r = x % l;
        let q = recorded_frames(p, (n - 1) as nat);
        assert(0 <= r < l);
        assert(q.record_ptr == r);
        vstd::arithmetic::div_mod::lemma_small_mod(r as nat, l as nat);
        vstd::arithmetic::div_mod::lemma_add_mod_noop_right(1, x, l);
        assert((x + 1) % l == (x % l + 1) % l) by {
            vstd::arithmetic::div_mod::lemma_add_mod_noop(x, 1, l);
            vstd::arithmetic::div_mod::lemma_mod_twice(x, l);
            if l == 1 {
                assert((x % l + 1) % l == 0);
            } else {
                vstd::arithmetic::div_mod::lemma_small_mod(1, l as nat);
            }
        }
        assert(recorded_frames(p, n) == record_next(q).1);
    }
    let m = recorded_frames(p, n);
    let h = (p.record_ptr + n) % l;
    assert(0 <= h < l);
    vstd::arithmetic::div_mod::lemma_small_mod(h as nat, l as nat);
    assert(m.record_ptr % (l as usize) == h);
}

/// An overdub of a take of length `l` visits every index of the take once
/// in `l` frames and then stands where it started: every index is written
/// by exactly one of the `l` frames, and the part is back as it was.
pub proof fn lemma_overdub_visits_every_index(p: LoopPart)
    requires
        p.recording_len matches Some(l) && l > 0,
        p.duration_samples > 0,
        p.record_ptr < p.recording_len->0,
    ensures
        recorded_frames(p, p.recording_len->0 as nat) == p,
        forall|idx: usize| idx < p.recording_len->0 ==> #[trigger] written_within(p, idx, p.recording_len->0 as nat),
        forall|j: nat, k: nat|
            j < k < p.recording_len->0 ==> #[trigger] recorded_step(p, j) != #[trigger] recorded_step(p, k),
{
    let l = p.recording_len->0 as int;
    let r = p.record_ptr as int;
    lemma_overdub_round_robin(p, l as nat);
    vstd::arithmetic::div_mod::lemma_add_mod_noop_right(r, l, l);
    vstd::arithmetic::div_mod::lemma_mod_self_0(l);
    vstd::arithmetic::div_mod::lemma_small_mod(r as nat, l as nat);
    assert(recorded_frames(p, l as nat) == p);
    assert forall|idx: usize| idx < l implies #[trigger] written_within(p, idx, l as nat) by {
        let k: nat = if idx >= r { (idx - r) as nat } else { (idx + l - r) as nat };
        lemma_overdub_round_robin(p, k);
        if idx >= r {
            vstd::arithmetic::div_mod::lemma_small_mod(idx as nat, l as nat);
        } else {
            vstd::arithmetic::div_mod::lemma_mod_add_multiples_vanish(idx as int, l);
            vstd::arithmetic::div_mod::lemma_small_mod(idx as nat, l as nat);
        }
        assert(recorded_step(p, k) == RecordStep::AddAt(idx));
    }
    assert forall|j: nat, k: nat| j < k < l implies #[trigger] recorded_step(p, j) != #[trigger] recorded_step(
        p,
        k,
    ) by {
        lemma_overdub_round_robin(p, j);
        lemma_overdub_round_robin(p, k);
        let a = (r + j) % l;
        let b = (r + k) % l;
        vstd::arithmetic::div_mod::lemma_fundamental_div_mod(r + j, l);
        vstd::arithmetic::div_mod::lemma_fundamental_div_mod(r + k, l);
        assert(0 <= a < l && 0 <= b < l);
        assert(r + j < 2 * l && r + k < 2 * l);
        if a == b {
            let q1 = (r + j) / l;
            let q2 = (r + k) / l;
            assert(l * (q2 - q1) == k - j) by (nonlinear_arith)
                requires
                    r + j == l * q1 + a,
                    r + k == l * q2 + b,
                    a == b,
            ;
            assert(false) by (nonlinear_arith)
                requires
                    l * (q2 - q1) == k - j,
                    0 < k - j < l,
                    l > 0,
            ;
        }
    }
}

/// After a whole loop of frames, a sounding part's play head is back where
/// it started.
pub proof fn lemma_playback_cycles(p: LoopPart)
    requires
        p.is_playing,
        p.material(),
        loop_length(p) > 0,
        p.play_ptr < loop_length(p),
    ensures
        played_frames(p, loop_length(p) as nat) == p,
{
    let len = loop_length(p);
    lemma_playback_advances(p, len as nat);
    vstd::arithmetic::div_mod::lemma_add_mod_noop_right(p.play_ptr as int, len, len);
    vstd::arithmetic::div_mod::lemma_mod_self_0(len);
    vstd::arithmetic::div_mod::lemma_small_mod(p.play_ptr as nat, len as nat);
}

/// Muting does not touch a part's clock: a muted part reads the same index
/// and moves its play head exactly as it would unmuted, only flagged silent.
pub proof fn lemma_mute_keeps_time(p: LoopPart)
    ensures
        play_next(muted(p)).1 == muted(play_next(p).1),
        play_next(p).0 matches Some(read) ==> play_next(muted(p)).0 == Some(
            PlaybackRead { index: read.index, muted: true },
        ),
        play_next(p).0 is None <==> (play_next(muted(p)).0 is None),
{
}

/// Undoing a take that was just committed gives back the layers and the mix
/// the part had before the take, with the loop as long as that mix.
pub proof fn lemma_undo_after_commit(p: LoopPart, q: LoopPart, r: LoopPart, captured: bool)
    requires
        p.wf(),
        recording_stopped(p, q, captured, true),
        undone(q, r),
    ensures
        r.layer_lens@ == p.layer_lens@,
        r.buffer_len == p.buffer_len,
        r.duration_samples == p.buffer_len,
        r.recording_len is None,
        !r.is_recording,
{
    assert(q.layer_lens@.drop_last() =~= p.layer_lens@);
    if p.layer_lens@.len() == 0 {
        assert(r.layer_lens@ =~= p.layer_lens@);
    }
}

/// What a looper part is doing, as the UI shows it.
pub open spec fn part_state_text(p: LoopPart) -> Seq<char> {
    if p.is_recording {
        if p.material() { "overdubbing"@ } else { "recording"@ }
    } else if !p.material() {
        "empty"@
    } else if p.is_playing && p.is_muted {
        "paused"@
    } else if p.is_playing {
        "playing"@
    } else {
        "recorded"@
    }
}

/// What one part does in one frame.
#[derive(Debug, Clone, Copy, PartialEq, Eq, Structural)]
pub struct PartFrame {
    pub record: RecordStep,
    pub play: Option<PlaybackRead>,
}

/// The transport of the five-part looper.
#[derive(Debug)]
pub struct Looper {
    pub parts: Vec<LoopPart>,
    /// The loop length all parts align to (0 before the first loop).
    pub master_duration: usize,
    /// Part ids in song order.
    pub sequence: Vec<usize>,
    pub sequence_active: bool,
    /// The song step playing.
    pub sequence_step: usize,
    /// Frames played of the current song step.
    pub sequence_sample_counter: usize,
}

/// The longest loop among the parts that hold material (0 for none).
pub open spec fn longest_material(parts: Seq<LoopPart>) -> nat
    decreases parts.len(),
{
    if parts.len() == 0 {
        0
    } else {
        let m = longest_material(parts.drop_last());
        let p = parts.last();
        if p.material() && p.duration_samples as nat > m { p.duration_samples as nat } else { m }
    }
}

proof fn lemma_longest_material_bound(parts: Seq<LoopPart>)
    ensures
        longest_material(parts) <= usize::MAX,
    decreases parts.len(),
{
    if parts.len() > 0 {
        lemma_longest_material_bound(parts.drop_last());
    }
}

/// The song-independent fields of two loopers agree.
pub open spec fn same_clock(a: Looper, b: Looper) -> bool {
    &&& a.master_duration == b.master_duration
    &&& a.sequence == b.sequence
    &&& a.sequence_active == b.sequence_active
    &&& a.sequence_step == b.sequence_step
    &&& a.sequence_sample_counter == b.sequence_sample_counter
}

/// Every part stopped and rewound; with `cut`, not recording either.
pub open spec fn all_halted(parts: Seq<LoopPart>, cut: bool) -> Seq<LoopPart> {
    Seq::new(parts.len(), |i: int| halted(parts[i], cut))
}

/// The parts as a song step on part `id` leaves them: that part, if it holds
/// material, plays from the top; every other part is stopped, rewound and
/// not recording.
pub open spec fn step_parts(parts: Seq<LoopPart>, id: int) -> Seq<LoopPart> {
    Seq::new(
        parts.len(),
        |i: int| if i == id && parts[i].material() { cued(parts[i]) } else { halted(parts[i], true) },
    )
}

/// The song ids that name a part holding material, in order.
pub open spec fn playable_steps(parts: Seq<LoopPart>, ids: Seq<usize>) -> Seq<usize> {
    ids.filter(|id: usize| (id as int) < parts.len() && parts[id as int].material())
}

/// Only part `id` plays, unmuted and from the top, if it holds material;
/// every part is otherwise stopped, rewound and not recording.
pub open spec fn soloed(parts: Seq<LoopPart>, id: int) -> Seq<LoopPart> {
    Seq::new(
        parts.len(),
        |i: int|
            if i == id && parts[i].material() {
                LoopPart { is_muted: false, ..cued(parts[i]) }
            } else {
                halted(parts[i], true)
            },
    )
}

/// Every part with material plays unmuted from the top, the others stop;
/// nothing records.
pub open spec fn all_started(parts: Seq<LoopPart>) -> Seq<LoopPart> {
    Seq::new(
        parts.len(),
        |i: int|
            LoopPart {
                is_recording: false,
                is_muted: false,
                is_playing: parts[i].material(),
                play_ptr: 0,
                ..parts[i]
            },
    )
}

/// The first part from `from` on, other than `id`, that plays material.
pub open spec fn first_running(parts: Seq<LoopPart>, id: int, from: int) -> Option<int>
    decreases parts.len() - from,
{
    if from < 0 || from >= parts.len() {
        None
    } else if from != id && parts[from].is_playing && parts[from].material() {
        Some(from)
    } else {
        first_running(parts, id, from + 1)
    }
}

/// Where part `id` should start so that it plays in time: the head of the
/// first other part playing material, else its own head, taken modulo its
/// length (the longer of loop and mix); 0 for a part without length.
pub open spec fn aligned_ptr(parts: Seq<LoopPart>, id: int) -> int {
    let t = parts[id];
    let len = if t.duration_samples >= t.buffer_len { t.duration_samples } else { t.buffer_len };
    if len == 0 {
        0
    } else {
        match first_running(parts, id, 0) {
            Some(k) => (parts[k].play_ptr as int) % (len as int),
            None => (t.play_ptr as int) % (len as int),
        }
    }
}

/// One frame of part `p`: a recording part takes its input sample, then the
/// part plays.
pub open spec fn part_frame(p: LoopPart) -> (PartFrame, LoopPart) {
    let rec = if p.is_recording { record_next(p) } else { (RecordStep::Skip, p) };
    let play = play_next(rec.1);
    (PartFrame { record: rec.0, play: play.0 }, play.1)
}

/// The parts after one frame each.
pub open spec fn framed_parts(parts: Seq<LoopPart>) -> Seq<LoopPart> {
    Seq::new(parts.len(), |i: int| part_frame(parts[i]).1)
}

/// What each part does in one frame.
pub open spec fn frames_of(parts: Seq<LoopPart>) -> Seq<PartFrame> {
    Seq::new(parts.len(), |i: int| part_frame(parts[i]).0)
}

/// `b` is `a` after recording is armed on part `id`: the song stops, the part
/// is unmuted and arms against the master loop, the other parts are as they
/// were; an unknown part changes nothing but the song.
pub open spec fn recording_armed(a: Looper, b: Looper, id: usize) -> bool {
    &&& !b.sequence_active
    &&& b.master_duration == a.master_duration
    &&& b.sequence == a.sequence
    &&& b.sequence_step == a.sequence_step
    &&& b.sequence_sample_counter == a.sequence_sample_counter
    &&& b.parts@.len() == a.parts@.len()
    &&& forall|k: int| 0 <= k < a.parts@.len() && k != id ==> b.parts@[k] == a.parts@[k]
    &&& id < a.parts@.len() ==> recording_started(
        LoopPart { is_muted: false, ..a.parts@[id as int] },
        b.parts@[id as int],
        a.master_duration,
    )
}

/// `b` keeps `a`'s song, which has ended: its clock resets when it was
/// playing and is left alone otherwise.
pub open spec fn song_ended(a: Looper, b: Looper) -> bool {
    &&& b.sequence == a.sequence
    &&& !b.sequence_active
    &&& if a.sequence_active {
        b.sequence_step == 0 && b.sequence_sample_counter == 0
    } else {
        b.sequence_step == a.sequence_step && b.sequence_sample_counter == a.sequence_sample_counter
    }
}

/// `b` keeps `a`'s song and song clock.
pub open spec fn same_song(a: Looper, b: Looper) -> bool {
    &&& b.sequence == a.sequence
    &&& b.sequence_active == a.sequence_active
    &&& b.sequence_step == a.sequence_step
    &&& b.sequence_sample_counter == a.sequence_sample_counter
}

/// The song step after `l`'s current one, wrapping to the first.
pub open spec fn next_step(l: Looper) -> usize {
    if l.sequence_step + 1 >= l.sequence@.len() { 0 } else { (l.sequence_step + 1) as usize }
}

/// `b` is `a` after one frame: every part takes its frame, then a playing
/// song counts the frame and, once it has counted a master loop, moves on to
/// its next step, wrapping to the first.
pub open spec fn frame_advanced(a: Looper, b: Looper) -> bool {
    let mid = framed_parts(a.parts@);
    &&& b.master_duration == a.master_duration
    &&& b.sequence == a.sequence
    &&& b.sequence_active == a.sequence_active
    &&& if a.sequence_active && a.master_duration > 0 {
        if a.sequence_sample_counter + 1 >= a.master_duration {
            &&& b.sequence_sample_counter == 0
            &&& b.sequence_step == next_step(a)
            &&& b.parts@ == step_parts(mid, a.sequence@[next_step(a) as int] as int)
        } else {
            &&& b.sequence_sample_counter == a.sequence_sample_counter + 1
            &&& b.sequence_step == a.sequence_step
            &&& b.parts@ == mid
        }
    } else {
        &&& b.sequence_sample_counter == a.sequence_sample_counter
        &&& b.sequence_step == a.sequence_step
        &&& b.parts@ == mid
    }
}

/// The parts when the song is seen on step `step`: unless no step was seen
/// before (`first`), every part stops and rewinds; then the step's part, if
/// it holds material, plays from the top.
pub open spec fn followed_parts(parts: Seq<LoopPart>, id: int, first: bool) -> Seq<LoopPart> {
    let base = if first { parts } else { all_halted(parts, false) };
    Seq::new(
        parts.len(),
        |i: int|
            if i == id && base[i].material() {
                LoopPart { is_playing: true, play_ptr: 0, ..base[i] }
            } else {
                base[i]
            },
    )
}

impl Looper {
    /// Five well-formed parts; while a song plays it has steps and its step
    /// exists; the song clock can still advance.
    pub open spec fn wf(&self) -> bool {
        &&& self.parts@.len() == LOOPER_PART_COUNT
        &&& forall|i: int| 0 <= i < self.parts@.len() ==> (#[trigger] self.parts@[i]).wf()
        &&& self.sequence_active ==> self.sequence_step < self.sequence@.len()
        &&& self.sequence_sample_counter < usize::MAX
    }

    /// Five empty parts, no loop length and no song.
    pub fn new() -> (r: Looper)
        ensures
            r.wf(),
            r.master_duration == 0,
            r.sequence@.len() == 0,
            !r.sequence_active,
            r.sequence_step == 0,
            r.sequence_sample_counter == 0,
            forall|i: int| 0 <= i < LOOPER_PART_COUNT ==> {
                let p = #[trigger] r.parts@[i];
                &&& p.layer_lens@.len() == 0
                &&& p.buffer_len == 0
                &&& p.recording_len is None
                &&& p.duration_samples == 0
                &&& p.play_ptr == 0
                &&& p.record_ptr == 0
                &&& !p.is_recording && !p.is_playing && !p.is_muted
            },
    {
        let mut parts: Vec<LoopPart> = Vec::new();
        let mut i: usize = 0;
        while i < LOOPER_PART_COUNT
            invariant
                i <= LOOPER_PART_COUNT,
                parts@.len() == i,
                forall|k: int| 0 <= k < i ==> {
                    let p = #[trigger] parts@[k];
                    &&& p.wf()
                    &&& p.layer_lens@.len() == 0
                    &&& p.buffer_len == 0
                    &&& p.recording_len is None
                    &&& p.duration_samples == 0
                    &&& p.play_ptr == 0
                    &&& p.record_ptr == 0
                    &&& !p.is_recording && !p.is_playing && !p.is_muted
                },
            decreases LOOPER_PART_COUNT - i,
        {
            parts.push(LoopPart::new());
            i = i + 1;
        }
        Looper {
            parts,
            master_duration: 0,
            sequence: Vec::new(),
            sequence_active: false,
            sequence_step: 0,
            sequence_sample_counter: 0,
        }
    }

    /// Whether any part is playing.
    pub fn is_any_playing(&self) -> (r: bool)
        ensures
            r == exists|i: int| 0 <= i < self.parts@.len() && (#[trigger] self.parts@[i]).is_playing,
    {
        let mut i: usize = 0;
        while i < self.parts.len()
            invariant
                i <= self.parts@.len(),
                forall|k: int| 0 <= k < i ==> !(#[trigger] self.parts@[k]).is_playing,
            decreases self.parts@.len() - i,
        {
            if self.parts[i].is_playing {
                return true;
            }
            i = i + 1;
        }
        false
    }

    /// Whether any part is recording.
    pub fn is_any_recording(&self) -> (r: bool)
        ensures
            r == exists|i: int| 0 <= i < self.parts@.len() && (#[trigger] self.parts@[i]).is_recording,
    {
        let mut i: usize = 0;
        while i < self.parts.len()
            invariant
                i <= self.parts@.len(),
                forall|k: int| 0 <= k < i ==> !(#[trigger] self.parts@[k]).is_recording,
            decreases self.parts@.len() - i,
        {
            if self.parts[i].is_recording {
                return true;
            }
            i = i + 1;
        }
        false
    }

    /// What a part is doing, as the UI shows it; an unknown part is empty.
    pub fn part_state(&self, part_id: usize) -> (r: &'static str)
        ensures
            r@ == if part_id < self.parts@.len() {
                part_state_text(self.parts@[part_id as int])
            } else {
                "empty"@
            },
    {
        if part_id >= self.parts.len() {
            return "empty";
        }
        let part = &self.parts[part_id];
        if part.is_recording {
            if part.has_material() { "overdubbing" } else { "recording" }
        } else if !part.has_material() {
            "empty"
        } else if part.is_playing && part.is_muted {
            "paused"
        } else if part.is_playing {
            "playing"
        } else {
            "recorded"
        }
    }

    /// Sets the master loop length to the longest loop among the parts that
    /// hold material.
    pub fn recalculate_master_duration(&mut self)
        requires
            old(self).wf(),
        ensures
            final(self).wf(),
            final(self).master_duration == longest_material(old(self).parts@),
            final(self).parts == old(self).parts,
            final(self).sequence == old(self).sequence,
            final(self).sequence_active == old(self).sequence_active,
            final(self).sequence_step == old(self).sequence_step,
            final(self).sequence_sample_counter == old(self).sequence_sample_counter,
    {
        let mut m: usize = 0;
        let mut i: usize = 0;
        assert(self.parts@.take(0) == Seq::<LoopPart>::empty());
        while i < self.parts.len()
            invariant
                i <= self.parts@.len(),
                m == longest_material(self.parts@.take(i as int)),
            decreases self.parts@.len() - i,
        {
            assert(self.parts@.take(i + 1).drop_last() == self.parts@.take(i as int));
            if self.parts[i].has_material() && self.parts[i].duration_samples > m {
                m = self.parts[i].duration_samples;
            }
            i = i + 1;
        }
        assert(self.parts@.take(self.parts@.len() as int) == self.parts@);
        self.master_duration = m;
    }

    /// Stops and rewinds every part; with `cut`, recording stops too.
    fn halt_all(&mut self, cut: bool)
        requires
            old(self).wf(),
        ensures
            final(self).wf(),
            final(self).parts@ == all_halted(old(self).parts@, cut),
            same_clock(*final(self), *old(self)),
    {
        let mut i: usize = 0;
        while i < self.parts.len()
            invariant
                self.wf(),
                same_clock(*self, *old(self)),
                self.parts@.len() == old(self).parts@.len(),
                0 <= i <= self.parts@.len(),
                forall|k: int| 0 <= k < i ==> self.parts@[k] == halted(old(self).parts@[k], cut),
                forall|k: int| i <= k < self.parts@.len() ==> self.parts@[k] == old(self).parts@[k],
            decreases self.parts@.len() - i,
        {
            self.parts[i].halt(cut);
            i = i + 1;
        }
        assert(self.parts@ =~= all_halted(old(self).parts@, cut));
    }

    /// Puts the song's current step on: its part plays from the top if it
    /// holds material, every other part stops.
    fn activate_sequence_step(&mut self)
        requires
            old(self).wf(),
        ensures
            final(self).wf(),
            same_clock(*final(self), *old(self)),
            final(self).parts@ == step_parts(
                old(self).parts@,
                if old(self).sequence_step < old(self).sequence@.len() {
                    old(self).sequence@[old(self).sequence_step as int] as int
                } else {
                    -1
                },
            ),
    {
        let ghost start = self.parts@;
        self.halt_all(true);
        let ghost id: int = -1;
        if self.sequence_step < self.sequence.len() {
            let part_id = self.sequence[self.sequence_step];
            proof {
                id = part_id as int;
            }
            if part_id < self.parts.len() && self.parts[part_id].has_material() {
                self.parts[part_id].cue();
            }
        }
        assert(self.parts@ =~= step_parts(start, id));
    }

    /// Starts the song over the given part ids, keeping those that name a
    /// part with material. Nothing happens, and `false` comes back, when no
    /// id is given, no loop length is set yet, or no id names a part with
    /// material. Otherwise every part stops and the first step plays.
    pub fn start_sequence(&mut self, parts: Vec<usize>) -> (started: bool)
        requires
            old(self).wf(),
        ensures
            final(self).wf(),
            started == (parts@.len() > 0 && old(self).master_duration > 0
                && playable_steps(old(self).parts@, parts@).len() > 0),
            !started ==> *final(self) == *old(self),
            started ==> {
                let steps = playable_steps(old(self).parts@, parts@);
                &&& final(self).sequence@ == steps
                &&& final(self).sequence_active
                &&& final(self).sequence_step == 0
                &&& final(self).sequence_sample_counter == 0
                &&& final(self).master_duration == old(self).master_duration
                &&& final(self).parts@ == step_parts(old(self).parts@, steps[0] as int)
            },
    {
        if parts.len() == 0 || self.master_duration == 0 {
            return false;
        }
        let ghost pre = self.parts@;
        let mut kept: Vec<usize> = Vec::new();
        let mut i: usize = 0;
        assert(parts@.take(0).filter(|id: usize| (id as int) < pre.len() && pre[id as int].material())
            =~= Seq::<usize>::empty()) by {
            reveal(Seq::filter);
        }
        while i < parts.len()
            invariant
                self.wf(),
                self.parts@ == pre,
                i <= parts@.len(),
                kept@ == parts@.take(i as int).filter(
                    |id: usize| (id as int) < pre.len() && pre[id as int].material(),
                ),
            decreases parts@.len() - i,
        {
            proof {
                reveal(Seq::filter);
                assert(parts@.take(i + 1).drop_last() == parts@.take(i as int));
            }
            let id = parts[i];
            if id < self.parts.len() && self.parts[id].has_material() {
                kept.push(id);
            }
            i = i + 1;
        }
        assert(parts@.take(parts@.len() as int) == parts@);
        if kept.len() == 0 {
            return false;
        }
        self.halt_all(true);
        let ghost halted_parts = self.parts@;
        self.sequence = kept;
        self.sequence_active = true;
        self.sequence_step = 0;
        self.sequence_sample_counter = 0;
        self.activate_sequence_step();
        assert(step_parts(halted_parts, self.sequence@[0] as int) =~= step_parts(
            pre,
            self.sequence@[0] as int,
        ));
        true
    }

    /// Ends the song: every part stops and rewinds (recording is left as it
    /// is), and the song clock resets.
    pub fn stop_sequence(&mut self)
        requires
            old(self).wf(),
        ensures
            final(self).wf(),
            !final(self).sequence_active,
            final(self).sequence_step == 0,
            final(self).sequence_sample_counter == 0,
            final(self).sequence == old(self).sequence,
            final(self).master_duration == old(self).master_duration,
            final(self).parts@ == all_halted(old(self).parts@, false),
    {
        self.sequence_active = false;
        self.sequence_step = 0;
        self.sequence_sample_counter = 0;
        self.halt_all(false);
    }

    /// The part the song is on, while a song plays.
    pub fn current_sequence_part(&self) -> (r: Option<usize>)
        requires
            self.wf(),
        ensures
            r == if self.sequence_active && self.sequence@.len() > 0 {
                Some(self.sequence@[self.sequence_step as int])
            } else {
                None
            },
    {
        if self.sequence_active && self.sequence.len() > 0 {
            Some(self.sequence[self.sequence_step])
        } else {
            None
        }
    }

    /// Arms recording on a part: the song stops, the part is unmuted and
    /// records against the master loop length. An unknown part id only stops
    /// the song.
    pub fn start_recording(&mut self, part_id: usize)
        requires
            old(self).wf(),
        ensures
            final(self).wf(),
            recording_armed(*old(self), *final(self), part_id),
    {
        self.sequence_active = false;
        if part_id < self.parts.len() {
            let master = self.master_duration;
            self.parts[part_id].is_muted = false;
            self.parts[part_id].start_recording(master);
        }
    }

    /// Overdubs a part: the same as arming it for recording.
    pub fn start_overdub(&mut self, part_id: usize)
        requires
            old(self).wf(),
        ensures
            final(self).wf(),
            recording_armed(*old(self), *final(self), part_id),
    {
        self.start_recording(part_id);
    }

    /// Plays only the given part, unmuted from the top, if it holds material;
    /// every other part stops and the song ends. Returns whether the part
    /// plays.
    pub fn play_part(&mut self, part_id: usize) -> (playing: bool)
        requires
            old(self).wf(),
        ensures
            final(self).wf(),
            playing == (part_id < old(self).parts@.len() && old(self).parts@[part_id as int].material()),
            final(self).parts@ == soloed(old(self).parts@, part_id as int),
            !final(self).sequence_active,
            final(self).master_duration == old(self).master_duration,
            final(self).sequence == old(self).sequence,
            final(self).sequence_step == old(self).sequence_step,
            final(self).sequence_sample_counter == old(self).sequence_sample_counter,
    {
        let ghost pre = self.parts@;
        self.sequence_active = false;
        self.halt_all(true);
        let mut playing = false;
        if part_id < self.parts.len() && self.parts[part_id].has_material() {
            self.parts[part_id].is_muted = false;
            self.parts[part_id].cue();
            playing = true;
        }
        assert(self.parts@ =~= soloed(pre, part_id as int));
        playing
    }

    /// Where a part should start so that it plays in time with the others:
    /// the play head of the first other part playing material, else its own,
    /// modulo the part's length; 0 for an unknown part or one without length.
    fn aligned_play_ptr_for_part(&self, part_id: usize) -> (r: usize)
        requires
            self.wf(),
        ensures
            part_id < self.parts@.len() ==> r == aligned_ptr(self.parts@, part_id as int),
            part_id >= self.parts@.len() ==> r == 0,
    {
        if part_id >= self.parts.len() {
            return 0;
        }
        let target = &self.parts[part_id];
        let len = if target.duration_samples >= target.buffer_len {
            target.duration_samples
        } else {
            target.buffer_len
        };
        if len == 0 {
            return 0;
        }
        let mut i: usize = 0;
        while i < self.parts.len()
            invariant
                self.wf(),
                part_id < self.parts@.len(),
                i <= self.parts@.len(),
                len > 0,
                len == (if self.parts@[part_id as int].duration_samples >= self.parts@[part_id as int].buffer_len {
                    self.parts@[part_id as int].duration_samples
                } else {
                    self.parts@[part_id as int].buffer_len
                }),
                first_running(self.parts@, part_id as int, 0) == first_running(
                    self.parts@,
                    part_id as int,
                    i as int,
                ),
            decreases self.parts@.len() - i,
        {
            if i != part_id && self.parts[i].is_playing && self.parts[i].has_material() {
                return self.parts[i].play_ptr % len;
            }
            i = i + 1;
        }
        target.play_ptr % len
    }

    /// Switches a part with material between sounding and paused. A paused or
    /// stopped part plays again, unmuted and aligned with the parts already
    /// playing; a sounding part is muted and keeps its clock. The song ends.
    /// Returns whether the part now sounds; an unknown part or one without
    /// material is left alone and gives `None`.
    pub fn toggle_part_active(&mut self, part_id: usize) -> (r: Option<bool>)
        requires
            old(self).wf(),
        ensures
            final(self).wf(),
            part_id >= old(self).parts@.len() || !old(self).parts@[part_id as int].material() ==> {
                &&& r is None
                &&& *final(self) == *old(self)
            },
            part_id < old(self).parts@.len() && old(self).parts@[part_id as int].material() ==> {
                let p = old(self).parts@[part_id as int];
                let activate = p.is_muted || !p.is_playing;
                &&& r == Some(activate)
                &&& !final(self).sequence_active
                &&& final(self).master_duration == old(self).master_duration
                &&& final(self).sequence == old(self).sequence
                &&& final(self).sequence_step == old(self).sequence_step
                &&& final(self).sequence_sample_counter == old(self).sequence_sample_counter
                &&& final(self).parts@ == old(self).parts@.update(
                    part_id as int,
                    if activate {
                        LoopPart {
                            is_muted: false,
                            is_playing: true,
                            play_ptr: aligned_ptr(old(self).parts@, part_id as int) as usize,
                            ..p
                        }
                    } else {
                        LoopPart { is_muted: true, is_playing: true, ..p }
                    },
                )
            },
    {
        if part_id >= self.parts.len() || !self.parts[part_id].has_material() {
            return None;
        }
        self.sequence_active = false;
        let activate = self.parts[part_id].is_muted || !self.parts[part_id].is_playing;
        let aligned = self.aligned_play_ptr_for_part(part_id);
        let ghost pre = self.parts@;
        if activate {
            self.parts[part_id].is_muted = false;
            self.parts[part_id].is_playing = true;
            self.parts[part_id].play_ptr = aligned;
        } else {
            self.parts[part_id].is_muted = true;
            self.parts[part_id].is_playing = true;
        }
        assert(self.parts@ =~= pre.update(part_id as int, self.parts@[part_id as int]));
        Some(activate)
    }

    /// Plays every part that holds material, unmuted from the top, and stops
    /// the others; nothing records and the song ends. Returns whether any
    /// part plays.
    pub fn play_all_recorded(&mut self) -> (any_playing: bool)
        requires
            old(self).wf(),
        ensures
            final(self).wf(),
            any_playing == exists|i: int|
                0 <= i < old(self).parts@.len() && (#[trigger] old(self).parts@[i]).material(),
            final(self).parts@ == all_started(old(self).parts@),
            !final(self).sequence_active,
            final(self).master_duration == old(self).master_duration,
            final(self).sequence == old(self).sequence,
            final(self).sequence_step == old(self).sequence_step,
            final(self).sequence_sample_counter == old(self).sequence_sample_counter,
    {
        self.sequence_active = false;
        let ghost pre = self.parts@;
        let mut any_playing = false;
        let mut i: usize = 0;
        while i < self.parts.len()
            invariant
                self.wf(),
                !self.sequence_active,
                self.master_duration == old(self).master_duration,
                self.sequence == old(self).sequence,
                self.sequence_step == old(self).sequence_step,
                self.sequence_sample_counter == old(self).sequence_sample_counter,
                pre == old(self).parts@,
                self.parts@.len() == pre.len(),
                0 <= i <= self.parts@.len(),
                forall|k: int| 0 <= k < i ==> self.parts@[k] == all_started(pre)[k],
                forall|k: int| i <= k < self.parts@.len() ==> self.parts@[k] == pre[k],
                any_playing == exists|k: int| 0 <= k < i && (#[trigger] pre[k]).material(),
            decreases self.parts@.len() - i,
        {
            let material = self.parts[i].has_material();
            assert(material == pre[i as int].material());
            self.parts[i].is_recording = false;
            self.parts[i].is_muted = false;
            self.parts[i].is_playing = material;
            self.parts[i].play_ptr = 0;
            if material {
                any_playing = true;
                assert(pre[i as int].material());
            }
            i = i + 1;
        }
        assert(self.parts@ =~= all_started(pre));
        any_playing
    }

    /// Stops everything: every part stops, rewinds and stops recording, and
    /// the song ends.
    pub fn stop(&mut self)
        requires
            old(self).wf(),
        ensures
            final(self).wf(),
            final(self).parts@ == all_halted(old(self).parts@, true),
            !final(self).sequence_active,
            final(self).master_duration == old(self).master_duration,
            final(self).sequence == old(self).sequence,
            final(self).sequence_step == old(self).sequence_step,
            final(self).sequence_sample_counter == old(self).sequence_sample_counter,
    {
        self.sequence_active = false;
        self.halt_all(true);
    }

    /// Finishes recording on a part; `captured` tells whether the take holds
    /// audible material. A committed take sets the master loop length when
    /// none is set yet, and otherwise the master length is recomputed.
    /// Returns whether a layer was committed; an unknown part or one that is
    /// not recording is left alone.
    pub fn stop_recording(&mut self, part_id: usize, captured: bool) -> (committed: bool)
        requires
            old(self).wf(),
        ensures
            final(self).wf(),
            part_id >= old(self).parts@.len() || !old(self).parts@[part_id as int].is_recording ==> {
                &&& !committed
                &&& *final(self) == *old(self)
            },
            part_id < old(self).parts@.len() && old(self).parts@[part_id as int].is_recording ==> {
                &&& recording_stopped(
                    old(self).parts@[part_id as int],
                    final(self).parts@[part_id as int],
                    captured,
                    committed,
                )
                &&& final(self).parts@ == old(self).parts@.update(
                    part_id as int,
                    final(self).parts@[part_id as int],
                )
                &&& same_song(*old(self), *final(self))
                &&& final(self).master_duration == if !committed {
                    old(self).master_duration as nat
                } else if old(self).master_duration == 0 {
                    final(self).parts@[part_id as int].duration_samples as nat
                } else {
                    longest_material(final(self).parts@)
                }
            },
    {
        if part_id >= self.parts.len() || !self.parts[part_id].is_recording {
            return false;
        }
        let ghost pre = self.parts@;
        let committed = self.parts[part_id].stop_recording(captured);
        assert(self.parts@ =~= pre.update(part_id as int, self.parts@[part_id as int]));
        if committed {
            if self.master_duration == 0 {
                self.master_duration = self.parts[part_id].duration_samples;
            } else {
                self.recalculate_master_duration();
            }
        }
        committed
    }

    /// Undoes the latest recording work on a part (see `LoopPart::undo`).
    /// When something was undone, a playing song ends and the master loop
    /// length is recomputed. Returns whether anything was undone.
    pub fn undo_part(&mut self, part_id: usize) -> (changed: bool)
        requires
            old(self).wf(),
        ensures
            final(self).wf(),
            changed == (part_id < old(self).parts@.len() && (
                old(self).parts@[part_id as int].recording_len is Some
                || old(self).parts@[part_id as int].layer_lens@.len() > 0)),
            !changed ==> *final(self) == *old(self),
            changed ==> {
                &&& exists|q: LoopPart| #[trigger] undone(old(self).parts@[part_id as int], q) && {
                    let after = old(self).parts@.update(part_id as int, q);
                    final(self).parts@ == if old(self).sequence_active { all_halted(after, false) } else { after }
                }
                &&& final(self).master_duration == longest_material(final(self).parts@)
                &&& song_ended(*old(self), *final(self))
            },
    {
        if part_id >= self.parts.len() {
            return false;
        }
        if self.parts[part_id].recording_len.is_none() && self.parts[part_id].layer_lens.len() == 0 {
            return false;
        }
        let changed = self.parts[part_id].undo();
        let ghost after = self.parts@;
        assert(after =~= old(self).parts@.update(part_id as int, after[part_id as int]));
        if changed {
            if self.sequence_active {
                self.stop_sequence();
            }
            self.recalculate_master_duration();
            assert(undone(old(self).parts@[part_id as int], after[part_id as int]));
        }
        changed
    }

    /// Empties a part. A playing song ends and the master loop length is
    /// recomputed; an unknown part changes nothing.
    pub fn clear_part(&mut self, part_id: usize)
        requires
            old(self).wf(),
        ensures
            final(self).wf(),
            part_id >= old(self).parts@.len() ==> *final(self) == *old(self),
            part_id < old(self).parts@.len() ==> {
                &&& is_cleared(final(self).parts@[part_id as int])
                &&& final(self).parts@.len() == old(self).parts@.len()
                &&& forall|k: int| 0 <= k < old(self).parts@.len() && k != part_id ==> #[trigger] final(self).parts@[k]
                    == if old(self).sequence_active { halted(old(self).parts@[k], false) } else { old(self).parts@[k] }
                &&& final(self).master_duration == longest_material(final(self).parts@)
                &&& song_ended(*old(self), *final(self))
            },
    {
        if part_id < self.parts.len() {
            self.parts[part_id].clear();
            if self.sequence_active {
                self.stop_sequence();
            }
            self.recalculate_master_duration();
        }
    }

    /// Loads layers of the given lengths into a part (see
    /// `LoopPart::load_layers`) and recomputes the master loop length; an
    /// unknown part changes nothing.
    pub fn load_part_layers(&mut self, part_id: usize, layer_lens: &[usize])
        requires
            old(self).wf(),
        ensures
            final(self).wf(),
            part_id >= old(self).parts@.len() ==> *final(self) == *old(self),
            part_id < old(self).parts@.len() ==> {
                &&& loaded(final(self).parts@[part_id as int], layer_lens@.filter(|l: usize| l > 0))
                &&& final(self).parts@ == old(self).parts@.update(part_id as int, final(self).parts@[part_id as int])
                &&& final(self).master_duration == longest_material(final(self).parts@)
                &&& same_song(*old(self), *final(self))
            },
    {
        if part_id < self.parts.len() {
            let ghost pre = self.parts@;
            self.parts[part_id].load_layers(layer_lens);
            assert(self.parts@ =~= pre.update(part_id as int, self.parts@[part_id as int]));
            self.recalculate_master_duration();
        }
    }

    /// Loads one mixed buffer of the given length into a part (see
    /// `LoopPart::load_mixed_buffer`) and recomputes the master loop length;
    /// an unknown part changes nothing.
    pub fn load_part_buffer(&mut self, part_id: usize, len: usize)
        requires
            old(self).wf(),
        ensures
            final(self).wf(),
            part_id >= old(self).parts@.len() ==> *final(self) == *old(self),
            part_id < old(self).parts@.len() ==> {
                &&& loaded(final(self).parts@[part_id as int], if len > 0 { seq![len] } else { seq![] })
                &&& final(self).parts@ == old(self).parts@.update(part_id as int, final(self).parts@[part_id as int])
                &&& final(self).master_duration == longest_material(final(self).parts@)
                &&& same_song(*old(self), *final(self))
            },
    {
        if part_id < self.parts.len() {
            let ghost pre = self.parts@;
            self.parts[part_id].load_mixed_buffer(len);
            assert(self.parts@ =~= pre.update(part_id as int, self.parts@[part_id as int]));
            self.recalculate_master_duration();
        }
    }

    /// Runs one audio frame: each recording part says where its input sample
    /// goes, each part says what it plays, and a playing song counts the
    /// frame, moving to its next step (wrapping to the first) each time a
    /// master loop has passed. Returns what every part does, in part order.
    pub fn process(&mut self) -> (frames: Vec<PartFrame>)
        requires
            old(self).wf(),
            forall|i: int|
                0 <= i < old(self).parts@.len() && (#[trigger] old(self).parts@[i]).is_recording
                    ==> (old(self).parts@[i].recording_len matches Some(l) ==> l < usize::MAX),
        ensures
            final(self).wf(),
            frames@ == frames_of(old(self).parts@),
            frame_advanced(*old(self), *final(self)),
    {
        let ghost pre = self.parts@;
        let mut frames: Vec<PartFrame> = Vec::new();
        let mut i: usize = 0;
        while i < self.parts.len()
            invariant
                self.wf(),
                same_clock(*self, *old(self)),
                pre == old(self).parts@,
                forall|k: int|
                    0 <= k < pre.len() && (#[trigger] pre[k]).is_recording
                        ==> (pre[k].recording_len matches Some(l) ==> l < usize::MAX),
                self.parts@.len() == pre.len(),
                i <= self.parts@.len(),
                frames@.len() == i,
                forall|k: int| 0 <= k < i ==> #[trigger] self.parts@[k] == part_frame(pre[k]).1,
                forall|k: int| 0 <= k < i ==> #[trigger] frames@[k] == part_frame(pre[k]).0,
                forall|k: int| i <= k < self.parts@.len() ==> #[trigger] self.parts@[k] == pre[k],
            decreases self.parts@.len() - i,
        {
            let record = if self.parts[i].is_recording {
                self.parts[i].record_step()
            } else {
                RecordStep::Skip
            };
            let play = self.parts[i].next_playback_sample();
            frames.push(PartFrame { record, play });
            i = i + 1;
        }
        assert(self.parts@ =~= framed_parts(pre));
        assert(frames@ =~= frames_of(pre));
        if self.sequence_active && self.master_duration > 0 {
            let steps = self.sequence.len();
            assert(self.sequence_step < steps);
            self.sequence_sample_counter = self.sequence_sample_counter + 1;
            if self.sequence_sample_counter >= self.master_duration {
                self.sequence_sample_counter = 0;
                self.sequence_step = self.sequence_step + 1;
                if self.sequence_step >= self.sequence.len() {
                    self.sequence_step = 0;
                }
                self.activate_sequence_step();
            }
        }
        frames
    }

    /// Follows the song between audio blocks. `previous_step` is the step
    /// reported last (`usize::MAX` for none). While the song plays and has
    /// moved to another step, every part stops and rewinds (unless no step
    /// was reported yet), and the new step's part plays from the top if it
    /// holds material; the step and its part id are returned to be reported.
    /// Returns the step to remember: the current one while the song plays,
    /// `usize::MAX` when it does not.
    pub fn follow_sequence_step(&mut self, previous_step: usize) -> (r: (usize, Option<(usize, usize)>))
        requires
            old(self).wf(),
        ensures
            final(self).wf(),
            same_clock(*final(self), *old(self)),
            !old(self).sequence_active ==> r == (usize::MAX, None::<(usize, usize)>) && final(self).parts == old(self).parts,
            old(self).sequence_active && old(self).sequence_step == previous_step ==> r == (
                previous_step,
                None::<(usize, usize)>,
            ) && final(self).parts == old(self).parts,
            old(self).sequence_active && old(self).sequence_step != previous_step ==> {
                let step = old(self).sequence_step;
                let id = old(self).sequence@[step as int];
                &&& r == (step, Some((step, id)))
                &&& final(self).parts@ == followed_parts(old(self).parts@, id as int, previous_step == usize::MAX)
            },
    {
        if !self.sequence_active {
            return (usize::MAX, None);
        }
        let current = self.sequence_step;
        if current == previous_step {
            return (previous_step, None);
        }
        let ghost pre = self.parts@;
        if previous_step != usize::MAX {
            self.halt_all(false);
        }
        let ghost base = self.parts@;
        let part_id = self.sequence[current];
        if part_id < self.parts.len() && self.parts[part_id].has_material() {
            self.parts[part_id].is_playing = true;
            self.parts[part_id].play_ptr = 0;
        }
        assert(self.parts@ =~= followed_parts(pre, part_id as int, previous_step == usize::MAX));
        (current, Some((current, part_id)))
    }
}

} // verus!
