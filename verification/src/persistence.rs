//! The app's saved state: looper routing, lessons, practice sessions and
//! recent projects, with the rules that every update keeps.
use vstd::prelude::*;
use crate::sources::{
    default_sources, is_normalized, normalize_looper_source, normalized_source, LooperSource,
    LOOPER_PART_COUNT,
};
use crate::text::{decimal, owned, push_char, push_decimal};

verus! {

/// Version of the app state file this build reads and writes.
pub const APP_SCHEMA_VERSION: u32 = 1;

/// Most recent projects remembered.
pub const RECENT_PROJECT_LIMIT: usize = 10;

/// A lesson the user saved from the magazine.
#[derive(Debug)]
pub struct SavedLesson {
    pub id: String,
    pub title: String,
    pub mode: String,
    pub volume_id: String,
    pub musician_id: String,
    pub musician_name: String,
    pub duration: u32,
    pub theory: String,
    pub drill: String,
}

/// One practice run of a lesson.
#[derive(Debug)]
pub struct PracticeSession {
    pub lesson_id: String,
    pub title: String,
    pub started_at: String,
    pub completed_at: Option<String>,
    pub duration: u32,
}

/// The session in progress, and the finished ones, newest first.
#[derive(Debug)]
pub struct PracticeState {
    pub active_session: Option<PracticeSession>,
    pub sessions: Vec<PracticeSession>,
}

/// A project that was loaded or saved.
#[derive(Debug)]
pub struct ProjectRecord {
    pub path: String,
    pub action: String,
    pub recorded_at: String,
    pub schema_version: u32,
}

impl PracticeState {
    /// No session in progress and none finished.
    pub fn new() -> (r: PracticeState)
        ensures
            r.active_session is None,
            r.sessions@.len() == 0,
    {
        PracticeState { active_session: None, sessions: Vec::new() }
    }
}

/// The routing after normalization: one canonical source per part, taken from
/// `sources` where it has an entry for the part and from the factory routing
/// where it is too short.
pub open spec fn normalized_sources(sources: Seq<LooperSource>) -> Seq<LooperSource> {
    Seq::new(
        LOOPER_PART_COUNT as nat,
        |i: int|
            normalized_source(if i < sources.len() { sources[i] } else { default_sources()[i] }),
    )
}

/// Whether a routing has one canonical source for every part.
pub open spec fn valid_sources(sources: Seq<LooperSource>) -> bool {
    sources.len() == LOOPER_PART_COUNT && forall|i: int|
        0 <= i < sources.len() ==> is_normalized(#[trigger] sources[i])
}

/// The factory routing, one source per part.
pub fn default_looper_sources() -> (r: Vec<LooperSource>)
    ensures
        r@ == default_sources(),
{
    let r = vec![
        LooperSource::InputChannel(1),
        LooperSource::InputChannel(2),
        LooperSource::InputMix,
        LooperSource::Silent,
        LooperSource::Silent,
    ];
    assert(r@ == default_sources());
    r
}

/// Completes a routing to one source per part and brings each source into
/// canonical form. Entries past the last part are ignored.
pub fn normalize_looper_sources(sources: &[LooperSource]) -> (r: Vec<LooperSource>)
    ensures
        r@ == normalized_sources(sources@),
        valid_sources(r@),
{
    let defaults = default_looper_sources();
    let mut r: Vec<LooperSource> = Vec::new();
    let mut i: usize = 0;
    while i < LOOPER_PART_COUNT
        invariant
            i <= LOOPER_PART_COUNT,
            defaults@ == default_sources(),
            r@ == normalized_sources(sources@).take(i as int),
        decreases LOOPER_PART_COUNT - i,
    {
        let source = if i < sources.len() { sources[i] } else { defaults[i] };
        r.push(normalize_looper_source(source));
        i = i + 1;
        assert(r@ == normalized_sources(sources@).take(i as int));
    }
    assert(normalized_sources(sources@).take(LOOPER_PART_COUNT as int) == normalized_sources(sources@));
    r
}

/// The routing after one part is assigned a source: the stored routing is
/// normalized first, then the part's entry replaced when the part exists.
pub open spec fn routing_with_source(
    sources: Seq<LooperSource>,
    part_id: int,
    source: LooperSource,
) -> Seq<LooperSource> {
    let base = normalized_sources(sources);
    if 0 <= part_id < base.len() { base.update(part_id, source) } else { base }
}

/// Assigns `source` to one part of a stored routing.
pub fn with_looper_source(sources: &[LooperSource], part_id: usize, source: LooperSource) -> (r:
    Vec<LooperSource>)
    ensures
        r@ == routing_with_source(sources@, part_id as int, source),
{
    let mut r = normalize_looper_sources(sources);
    if part_id < r.len() {
        r.set(part_id, source);
    }
    r
}

/// The routing after several parts are assigned sources at once: entry `i` of
/// `overrides` replaces part `i` when it holds a source.
pub open spec fn routing_with_overrides(
    sources: Seq<LooperSource>,
    overrides: Seq<Option<LooperSource>>,
) -> Seq<LooperSource> {
    let base = normalized_sources(sources);
    Seq::new(
        base.len(),
        |i: int|
            if i < overrides.len() && overrides[i] is Some {
                overrides[i]->0
            } else {
                base[i]
            },
    )
}

/// Assigns sources to several parts of a stored routing.
pub fn with_looper_sources(sources: &[LooperSource], overrides: &[Option<LooperSource>]) -> (r:
    Vec<LooperSource>)
    ensures
        r@ == routing_with_overrides(sources@, overrides@),
{
    let mut r = normalize_looper_sources(sources);
    let ghost base = r@;
    let mut i: usize = 0;
    while i < r.len()
        invariant
            base == normalized_sources(sources@),
            r@.len() == base.len(),
            i <= r@.len(),
            forall|k: int|
                0 <= k < r@.len() ==> #[trigger] r@[k] == (if k < i && k < overrides@.len()
                    && overrides@[k] is Some {
                    overrides@[k]->0
                } else {
                    base[k]
                }),
        decreases r@.len() - i,
    {
        if i < overrides.len() {
            if let Some(source) = overrides[i] {
                r.set(i, source);
            }
        }
        i = i + 1;
    }
    assert(r@ == routing_with_overrides(sources@, overrides@));
    r
}

/// The routing a settings update leaves: the supplied routing when the
/// update carries one, else the stored routing, normalized either way.
pub fn settings_looper_sources(current: &[LooperSource], supplied: &Option<Vec<LooperSource>>) -> (r:
    Vec<LooperSource>)
    ensures
        r@ == normalized_sources(
            match supplied {
                Some(v) => v@,
                None => current@,
            },
        ),
{
    match supplied {
        Some(v) => normalize_looper_sources(v.as_slice()),
        None => normalize_looper_sources(current),
    }
}

/// Normalizing a routing twice gives what normalizing it once gives.
pub proof fn lemma_normalize_idempotent(sources: Seq<LooperSource>)
    ensures
        normalized_sources(normalized_sources(sources)) == normalized_sources(sources),
{
    let once = normalized_sources(sources);
    assert forall|i: int| 0 <= i < LOOPER_PART_COUNT implies #[trigger] normalized_sources(once)[i]
        == once[i] by {
        let s = if i < sources.len() { sources[i] } else { default_sources()[i] };
        assert(normalized_source(normalized_source(s)) == normalized_source(s));
    }
    assert(normalized_sources(once) =~= once);
}

/// A routing that already has one canonical source per part is left as it is.
pub proof fn lemma_normalize_keeps_valid(sources: Seq<LooperSource>)
    requires
        valid_sources(sources),
    ensures
        normalized_sources(sources) == sources,
{
    assert forall|i: int| 0 <= i < LOOPER_PART_COUNT implies #[trigger] normalized_sources(
        sources,
    )[i] == sources[i] by {
        assert(is_normalized(sources[i]));
    }
    assert(normalized_sources(sources) =~= sources);
}

// ---------------------------------------------------------------------------
// Lessons and practice sessions
// ---------------------------------------------------------------------------

/// The lessons whose id differs from `id`, in their order.
pub open spec fn lessons_without(lessons: Seq<SavedLesson>, id: Seq<char>) -> Seq<SavedLesson>
    decreases lessons.len(),
{
    if lessons.len() == 0 {
        lessons
    } else {
        let rest = lessons_without(lessons.drop_last(), id);
        if lessons.last().id@ == id {
            rest
        } else {
            rest.push(lessons.last())
        }
    }
}

/// Removes every lesson whose id is `id`, keeping the others in order.
pub fn remove_lessons_with_id(lessons: &mut Vec<SavedLesson>, id: &String)
    ensures
        final(lessons)@ == lessons_without(old(lessons)@, id@),
{
    let ghost orig = lessons@;
    let mut kept: Vec<SavedLesson> = Vec::new();
    let mut count: usize = lessons.len();
    let mut done: usize = 0;
    while done < count
        invariant
            count == orig.len(),
            done <= count,
            lessons@ == orig.skip(done as int),
            kept@ == lessons_without(orig.take(done as int), id@),
        decreases count - done,
    {
        let lesson = lessons.remove(0);
        assert(orig.take(done + 1).drop_last() == orig.take(done as int));
        assert(orig.take(done + 1).last() == lesson);
        if !(lesson.id == *id) {
            kept.push(lesson);
        }
        done = done + 1;
        assert(lessons@ == orig.skip(done as int));
    }
    assert(orig.take(count as int) == orig);
    *lessons = kept;
}

/// Saves a lesson at the front of the list, replacing any saved lesson with
/// the same id.
pub fn save_lesson(lessons: &mut Vec<SavedLesson>, lesson: SavedLesson)
    ensures
        final(lessons)@ == seq![lesson] + lessons_without(old(lessons)@, lesson.id@),
{
    remove_lessons_with_id(lessons, &lesson.id);
    let ghost saved = lesson;
    lessons.insert(0, lesson);
    assert(lessons@ =~= seq![saved] + lessons_without(old(lessons)@, saved.id@));
}

/// Deletes every lesson with the given id, and drops the session in progress
/// when it belongs to that lesson.
pub fn delete_lesson(lessons: &mut Vec<SavedLesson>, practice: &mut PracticeState, id: &String)
    ensures
        final(lessons)@ == lessons_without(old(lessons)@, id@),
        final(practice).sessions@ == old(practice).sessions@,
        final(practice).active_session == (match old(practice).active_session {
            Some(s) => if s.lesson_id@ == id@ {
                None
            } else {
                Some(s)
            },
            None => None,
        }),
{
    remove_lessons_with_id(lessons, id);
    let matches = match &practice.active_session {
        Some(session) => session.lesson_id == *id,
        None => false,
    };
    if matches {
        practice.active_session = None;
    }
}

/// Starts practising a lesson: the lesson is saved at the front of the list
/// and a new session for it, with no completion time, becomes the session in
/// progress.
pub fn start_practice_session(
    lessons: &mut Vec<SavedLesson>,
    practice: &mut PracticeState,
    lesson: SavedLesson,
    started_at: String,
)
    ensures
        final(lessons)@ == seq![lesson] + lessons_without(old(lessons)@, lesson.id@),
        final(practice).sessions@ == old(practice).sessions@,
        final(practice).active_session == Some(
            PracticeSession {
                lesson_id: lesson.id,
                title: lesson.title,
                started_at: started_at,
                completed_at: None,
                duration: lesson.duration,
            },
        ),
{
    let session = PracticeSession {
        lesson_id: lesson.id.clone(),
        title: lesson.title.clone(),
        started_at,
        completed_at: None,
        duration: lesson.duration,
    };
    save_lesson(lessons, lesson);
    practice.active_session = Some(session);
}

/// Finishes the session in progress when it belongs to `lesson_id`: it gets
/// its completion time and moves to the front of the finished sessions.
/// Otherwise nothing changes.
pub fn finish_practice_session(practice: &mut PracticeState, lesson_id: &String, completed_at: String)
    ensures
        match old(practice).active_session {
            Some(s) => if s.lesson_id@ == lesson_id@ {
                &&& final(practice).active_session is None
                &&& final(practice).sessions@ == seq![
                    PracticeSession { completed_at: Some(completed_at), ..s },
                ] + old(practice).sessions@
            } else {
                &&& final(practice).active_session == Some(s)
                &&& final(practice).sessions@ == old(practice).sessions@
            },
            None => {
                &&& final(practice).active_session is None
                &&& final(practice).sessions@ == old(practice).sessions@
            },
        },
{
    let active = practice.active_session.take();
    match active {
        Some(mut session) => {
            if session.lesson_id == *lesson_id {
                session.completed_at = Some(completed_at);
                practice.sessions.insert(0, session);
            } else {
                practice.active_session = Some(session);
            }
        },
        None => {},
    }
}

proof fn lemma_lessons_without_prepend(lesson: SavedLesson, lessons: Seq<SavedLesson>, id: Seq<char>)
    ensures
        lessons_without(seq![lesson] + lessons, id) == if lesson.id@ == id {
            lessons_without(lessons, id)
        } else {
            seq![lesson] + lessons_without(lessons, id)
        },
    decreases lessons.len(),
{
    let full = seq![lesson] + lessons;
    if lessons.len() > 0 {
        lemma_lessons_without_prepend(lesson, lessons.drop_last(), id);
        assert(full.drop_last() =~= seq![lesson] + lessons.drop_last());
        assert(full.last() == lessons.last());
        let w = lessons_without(lessons.drop_last(), id);
        assert((seq![lesson] + w).push(lessons.last()) =~= seq![lesson] + w.push(lessons.last()));
    } else {
        assert(full =~= seq![lesson]);
        assert(full.drop_last() =~= Seq::<SavedLesson>::empty());
        assert(lessons_without(full.drop_last(), id) =~= Seq::<SavedLesson>::empty());
        assert(Seq::<SavedLesson>::empty().push(lesson) =~= seq![lesson] + lessons);
        assert(lessons_without(lessons, id) =~= Seq::<SavedLesson>::empty());
    }
}

proof fn lemma_lessons_without_twice(lessons: Seq<SavedLesson>, id: Seq<char>)
    ensures
        lessons_without(lessons_without(lessons, id), id) == lessons_without(lessons, id),
    decreases lessons.len(),
{
    if lessons.len() > 0 {
        lemma_lessons_without_twice(lessons.drop_last(), id);
        let rest = lessons_without(lessons.drop_last(), id);
        if lessons.last().id@ != id {
            assert(rest.push(lessons.last()).drop_last() == rest);
        }
    }
}

/// Saving a lesson twice leaves the list as saving it once does, and
/// deleting a lesson right after saving it leaves exactly the lessons of
/// other ids that were there before.
pub proof fn lemma_save_lesson_idempotent(lessons: Seq<SavedLesson>, lesson: SavedLesson)
    ensures
        seq![lesson] + lessons_without(seq![lesson] + lessons_without(lessons, lesson.id@), lesson.id@)
            == seq![lesson] + lessons_without(lessons, lesson.id@),
        lessons_without(seq![lesson] + lessons_without(lessons, lesson.id@), lesson.id@)
            == lessons_without(lessons, lesson.id@),
{
    lemma_lessons_without_prepend(lesson, lessons_without(lessons, lesson.id@), lesson.id@);
    lemma_lessons_without_twice(lessons, lesson.id@);
}

// ---------------------------------------------------------------------------
// Records from the browser build
// ---------------------------------------------------------------------------

/// The views of a list of strings.
pub open spec fn string_views(v: Seq<String>) -> Seq<Seq<char>> {
    v.map_values(|s: String| s@)
}

/// The id a record imported from the browser build gets: its own id when it
/// has one, else the prefix, a hyphen and `count`, the number of records
/// already there.
pub open spec fn legacy_record_id(given: Option<String>, prefix: Seq<char>, count: nat) -> Seq<
    char,
> {
    match given {
        Some(id) => id@,
        None => prefix + seq!['-'] + decimal(count),
    }
}

/// The ids in an import plan, in its order.
pub open spec fn plan_ids(plan: Seq<(int, Seq<char>)>) -> Seq<Seq<char>> {
    plan.map_values(|p: (int, Seq<char>)| p.1)
}

/// Which of the imported records are added, and under which id, when they
/// are added one by one after records whose ids are `existing`: each gets
/// its id from the number of records there before it (see
/// `legacy_record_id`), and is skipped when a record with that id is
/// already there. Each entry is a record's position in `given` and its id.
pub open spec fn legacy_import_plan(
    existing: Seq<Seq<char>>,
    given: Seq<Option<String>>,
    prefix: Seq<char>,
) -> Seq<(int, Seq<char>)>
    decreases given.len(),
{
    if given.len() == 0 {
        Seq::empty()
    } else {
        let plan = legacy_import_plan(existing, given.drop_last(), prefix);
        let ids = existing + plan_ids(plan);
        let id = legacy_record_id(given.last(), prefix, ids.len());
        if ids.contains(id) {
            plan
        } else {
            plan.push((given.len() - 1, id))
        }
    }
}

/// The plan entries of an executable plan, as positions and id views.
pub open spec fn plan_view(plan: Seq<(usize, String)>) -> Seq<(int, Seq<char>)> {
    plan.map_values(|p: (usize, String)| (p.0 as int, p.1@))
}

/// Whether one of `ids` equals `id`.
pub fn contains_id(ids: &Vec<String>, id: &String) -> (r: bool)
    ensures
        r == string_views(ids@).contains(id@),
{
    let mut i: usize = 0;
    while i < ids.len()
        invariant
            i <= ids@.len(),
            forall|j: int| 0 <= j < i ==> ids@[j]@ != id@,
        decreases ids@.len() - i,
    {
        if ids[i] == *id {
            assert(string_views(ids@)[i as int] == id@);
            return true;
        }
        i = i + 1;
    }
    proof {
        if string_views(ids@).contains(id@) {
            let j = choose|j: int| 0 <= j < string_views(ids@).len() && string_views(ids@)[j] == id@;
            assert(ids@[j]@ == id@);
        }
    }
    false
}

/// Plans the import of records from the browser build (see
/// `legacy_import_plan`): the records given with the ids they carry, added
/// after records whose ids are `existing`.
pub fn plan_legacy_import(existing: &Vec<String>, given: &Vec<Option<String>>, prefix: &str) -> (r:
    Vec<(usize, String)>)
    ensures
        plan_view(r@) == legacy_import_plan(string_views(existing@), given@, prefix@),
{
    let mut ids: Vec<String> = Vec::new();
    let mut i: usize = 0;
    while i < existing.len()
        invariant
            i <= existing@.len(),
            string_views(ids@) == string_views(existing@.take(i as int)),
        decreases existing@.len() - i,
    {
        ids.push(existing[i].clone());
        i = i + 1;
        assert(string_views(existing@.take(i as int)) =~= string_views(existing@.take(i - 1)).push(
            existing@[i - 1]@,
        ));
        assert(string_views(ids@) =~= string_views(existing@.take(i - 1)).push(existing@[i - 1]@));
    }
    assert(existing@.take(existing@.len() as int) == existing@);
    let mut plan: Vec<(usize, String)> = Vec::new();
    let mut k: usize = 0;
    while k < given.len()
        invariant
            k <= given@.len(),
            string_views(ids@) == string_views(existing@) + plan_ids(plan_view(plan@)),
            plan_view(plan@) == legacy_import_plan(
                string_views(existing@),
                given@.take(k as int),
                prefix@,
            ),
        decreases given@.len() - k,
    {
        let id = match &given[k] {
            Some(own) => own.clone(),
            None => {
                let mut made = owned(prefix);
                push_char(&mut made, '-');
                push_decimal(&mut made, ids.len() as u64);
                made
            },
        };
        proof {
            let g = given@.take(k + 1);
            assert(g.drop_last() == given@.take(k as int));
            assert(g.last() == given@[k as int]);
            assert(string_views(ids@).len() == ids@.len());
            assert(id@ == legacy_record_id(g.last(), prefix@, string_views(ids@).len()));
        }
        let fresh = !contains_id(&ids, &id);
        if fresh {
            let ghost before = plan@;
            let ghost before_ids = ids@;
            ids.push(id.clone());
            assert(string_views(ids@) =~= string_views(before_ids).push(id@));
            plan.push((k, id));
            proof {
                assert(plan_view(plan@) =~= plan_view(before).push((k as int, plan@.last().1@)));
                assert(plan_ids(plan_view(plan@)) =~= plan_ids(plan_view(before)).push(
                    plan@.last().1@,
                ));
            }
            assert(string_views(ids@) =~= string_views(existing@) + plan_ids(plan_view(plan@)));
        }
        k = k + 1;
    }
    assert(given@.take(given@.len() as int) == given@);
    plan
}

/// A lesson as the browser build stored it: any field may be missing.
#[derive(Debug)]
pub struct LegacyLesson {
    pub id: Option<String>,
    pub title: Option<String>,
    pub mode: Option<String>,
    pub volume_id: Option<String>,
    pub artist_id: Option<String>,
    pub artist_name: Option<String>,
    pub duration: Option<u64>,
    pub theory: Option<String>,
    pub drill: Option<String>,
}

/// A field's text, or the fallback when it is missing.
pub open spec fn text_or(field: Option<String>, fallback: Seq<char>) -> Seq<char> {
    match field {
        Some(s) => s@,
        None => fallback,
    }
}

/// The ids the browser-build lessons carry.
pub open spec fn legacy_lesson_ids(legacy: Seq<LegacyLesson>) -> Seq<Option<String>> {
    legacy.map_values(|l: LegacyLesson| l.id)
}

/// The ids of saved lessons.
pub open spec fn lesson_ids(lessons: Seq<SavedLesson>) -> Seq<Seq<char>> {
    lessons.map_values(|l: SavedLesson| l.id@)
}

/// Whether `lesson` is the browser-build lesson `legacy` saved under `id`:
/// missing texts take their defaults, a missing duration is ten minutes and
/// a duration is kept to its low 32 bits.
pub open spec fn lesson_from_legacy(lesson: SavedLesson, legacy: LegacyLesson, id: Seq<char>) -> bool {
    &&& lesson.id@ == id
    &&& lesson.title@ == text_or(legacy.title, "Legacy Lesson"@)
    &&& lesson.mode@ == text_or(legacy.mode, "legacy"@)
    &&& lesson.volume_id@ == text_or(legacy.volume_id, "legacy"@)
    &&& lesson.musician_id@ == text_or(legacy.artist_id, "legacy"@)
    &&& lesson.musician_name@ == text_or(legacy.artist_name, "Legacy"@)
    &&& lesson.duration == match legacy.duration {
        Some(d) => d as u32,
        None => 10u32,
    }
    &&& lesson.theory@ == text_or(legacy.theory, ""@)
    &&& lesson.drill@ == text_or(legacy.drill, ""@)
}

fn field_or(field: &Option<String>, fallback: &str) -> (r: String)
    ensures
        r@ == text_or(*field, fallback@),
{
    match field {
        Some(s) => s.clone(),
        None => owned(fallback),
    }
}

/// Adds the lessons of the browser build after the saved ones, each under
/// the id `legacy_import_plan` gives it with the prefix `legacy-lesson`,
/// skipping those whose id is already saved. The saved lessons stay as they
/// are.
pub fn import_legacy_lessons(lessons: &mut Vec<SavedLesson>, legacy: &Vec<LegacyLesson>)
    ensures
        ({
            let plan = legacy_import_plan(
                lesson_ids(old(lessons)@),
                legacy_lesson_ids(legacy@),
                "legacy-lesson"@,
            );
            &&& final(lessons)@.len() == old(lessons)@.len() + plan.len()
            &&& forall|i: int| 0 <= i < old(lessons)@.len() ==> final(lessons)@[i] == old(lessons)@[i]
            &&& forall|j: int|
                0 <= j < plan.len() ==> 0 <= plan[j].0 < legacy@.len() && lesson_from_legacy(
                    #[trigger] final(lessons)@[old(lessons)@.len() + j],
                    legacy@[plan[j].0],
                    plan[j].1,
                )
        }),
{
    let mut existing: Vec<String> = Vec::new();
    let mut i: usize = 0;
    while i < lessons.len()
        invariant
            i <= lessons@.len(),
            lessons@ == old(lessons)@,
            string_views(existing@) == lesson_ids(lessons@.take(i as int)),
        decreases lessons@.len() - i,
    {
        existing.push(lessons[i].id.clone());
        i = i + 1;
        assert(lesson_ids(lessons@.take(i as int)) =~= lesson_ids(lessons@.take(i - 1)).push(
            lessons@[i - 1].id@,
        ));
        assert(string_views(existing@) =~= lesson_ids(lessons@.take(i - 1)).push(
            lessons@[i - 1].id@,
        ));
    }
    assert(lessons@.take(lessons@.len() as int) == lessons@);
    let mut given: Vec<Option<String>> = Vec::new();
    let mut g: usize = 0;
    while g < legacy.len()
        invariant
            g <= legacy@.len(),
            given@ == legacy_lesson_ids(legacy@.take(g as int)),
        decreases legacy@.len() - g,
    {
        let id = match &legacy[g].id {
            Some(s) => Some(s.clone()),
            None => None,
        };
        given.push(id);
        g = g + 1;
        assert(legacy_lesson_ids(legacy@.take(g as int)) =~= legacy_lesson_ids(
            legacy@.take(g - 1),
        ).push(legacy@[g - 1].id));
    }
    assert(legacy@.take(legacy@.len() as int) == legacy@);
    let plan = plan_legacy_import(&existing, &given, "legacy-lesson");
    let ghost spec_plan = plan_view(plan@);
    proof {
        lemma_plan_positions(string_views(existing@), given@, "legacy-lesson"@);
    }
    let ghost start = lessons@;
    let mut j: usize = 0;
    while j < plan.len()
        invariant
            j <= plan@.len(),
            spec_plan == plan_view(plan@),
            forall|q: int| 0 <= q < spec_plan.len() ==> 0 <= #[trigger] spec_plan[q].0 < given@.len(),
            given@.len() == legacy@.len(),
            start == old(lessons)@,
            lessons@.len() == start.len() + j,
            forall|i: int| 0 <= i < start.len() ==> lessons@[i] == start[i],
            forall|q: int|
                0 <= q < j ==> lesson_from_legacy(
                    #[trigger] lessons@[start.len() + q],
                    legacy@[spec_plan[q].0],
                    spec_plan[q].1,
                ),
        decreases plan@.len() - j,
    {
        let (pos, ref id) = plan[j];
        assert(spec_plan[j as int].0 == pos as int);
        let entry = &legacy[pos];
        let lesson = SavedLesson {
            id: id.clone(),
            title: field_or(&entry.title, "Legacy Lesson"),
            mode: field_or(&entry.mode, "legacy"),
            volume_id: field_or(&entry.volume_id, "legacy"),
            musician_id: field_or(&entry.artist_id, "legacy"),
            musician_name: field_or(&entry.artist_name, "Legacy"),
            duration: match entry.duration {
                Some(d) => d as u32,
                None => 10,
            },
            theory: field_or(&entry.theory, ""),
            drill: field_or(&entry.drill, ""),
        };
        lessons.push(lesson);
        j = j + 1;
    }
}

/// Every entry of an import plan names a position in the list it came from.
proof fn lemma_plan_positions(existing: Seq<Seq<char>>, given: Seq<Option<String>>, prefix: Seq<char>)
    ensures
        forall|q: int|
            0 <= q < legacy_import_plan(existing, given, prefix).len() ==> 0
                <= #[trigger] legacy_import_plan(existing, given, prefix)[q].0 < given.len(),
    decreases given.len(),
{
    if given.len() > 0 {
        lemma_plan_positions(existing, given.drop_last(), prefix);
        let prev = legacy_import_plan(existing, given.drop_last(), prefix);
        let ids = existing + plan_ids(prev);
        let id = legacy_record_id(given.last(), prefix, ids.len());
        if !ids.contains(id) {
            assert(legacy_import_plan(existing, given, prefix) == prev.push((given.len() - 1, id)));
        }
    }
}

// ---------------------------------------------------------------------------
// Recent projects
// ---------------------------------------------------------------------------

/// The records whose path differs from `path`, in their order.
pub open spec fn projects_without(projects: Seq<ProjectRecord>, path: Seq<char>) -> Seq<
    ProjectRecord,
>
    decreases projects.len(),
{
    if projects.len() == 0 {
        projects
    } else {
        let rest = projects_without(projects.drop_last(), path);
        if projects.last().path@ == path {
            rest
        } else {
            rest.push(projects.last())
        }
    }
}

/// The recent-project list after `record`: it comes first, any older record
/// of the same path is dropped, and at most ten records are kept.
pub open spec fn recent_after(projects: Seq<ProjectRecord>, record: ProjectRecord) -> Seq<
    ProjectRecord,
> {
    let all = seq![record] + projects_without(projects, record.path@);
    if all.len() > RECENT_PROJECT_LIMIT { all.take(RECENT_PROJECT_LIMIT as int) } else { all }
}

/// Records a loaded or saved project at the front of the recent list.
pub fn record_recent_project(projects: &mut Vec<ProjectRecord>, record: ProjectRecord)
    ensures
        final(projects)@ == recent_after(old(projects)@, record),
{
    let ghost orig = projects@;
    let mut kept: Vec<ProjectRecord> = Vec::new();
    let count: usize = projects.len();
    let mut done: usize = 0;
    while done < count
        invariant
            count == orig.len(),
            done <= count,
            projects@ == orig.skip(done as int),
            kept@ == projects_without(orig.take(done as int), record.path@),
        decreases count - done,
    {
        let p = projects.remove(0);
        assert(orig.take(done + 1).drop_last() == orig.take(done as int));
        assert(orig.take(done + 1).last() == p);
        if !(p.path == record.path) {
            kept.push(p);
        }
        done = done + 1;
        assert(projects@ == orig.skip(done as int));
    }
    assert(orig.take(count as int) == orig);
    let ghost r = record;
    kept.insert(0, record);
    assert(kept@ =~= seq![r] + projects_without(orig, r.path@));
    if kept.len() > RECENT_PROJECT_LIMIT {
        kept.truncate(RECENT_PROJECT_LIMIT);
    }
    *projects = kept;
}

proof fn lemma_projects_without_prepend(record: ProjectRecord, projects: Seq<ProjectRecord>, path: Seq<char>)
    ensures
        projects_without(seq![record] + projects, path) == if record.path@ == path {
            projects_without(projects, path)
        } else {
            seq![record] + projects_without(projects, path)
        },
    decreases projects.len(),
{
    let full = seq![record] + projects;
    if projects.len() > 0 {
        lemma_projects_without_prepend(record, projects.drop_last(), path);
        assert(full.drop_last() =~= seq![record] + projects.drop_last());
        assert(full.last() == projects.last());
        let w = projects_without(projects.drop_last(), path);
        assert((seq![record] + w).push(projects.last()) =~= seq![record] + w.push(projects.last()));
    } else {
        assert(full =~= seq![record]);
        assert(full.drop_last() =~= Seq::<ProjectRecord>::empty());
        assert(projects_without(full.drop_last(), path) =~= Seq::<ProjectRecord>::empty());
        assert(Seq::<ProjectRecord>::empty().push(record) =~= seq![record] + projects);
        assert(projects_without(projects, path) =~= Seq::<ProjectRecord>::empty());
    }
}

proof fn lemma_projects_without_leaves_none(projects: Seq<ProjectRecord>, path: Seq<char>)
    ensures
        forall|i: int|
            0 <= i < projects_without(projects, path).len() ==> (#[trigger] projects_without(
                projects,
                path,
            )[i]).path@ != path,
    decreases projects.len(),
{
    if projects.len() > 0 {
        lemma_projects_without_leaves_none(projects.drop_last(), path);
        let rest = projects_without(projects.drop_last(), path);
        if projects.last().path@ != path {
            assert forall|i: int| 0 <= i < rest.push(projects.last()).len() implies (
            #[trigger] rest.push(projects.last())[i]).path@ != path by {
                if i < rest.len() {
                    assert(rest.push(projects.last())[i] == rest[i]);
                }
            }
        }
    }
}

proof fn lemma_projects_without_absent(projects: Seq<ProjectRecord>, path: Seq<char>)
    requires
        forall|i: int| 0 <= i < projects.len() ==> (#[trigger] projects[i]).path@ != path,
    ensures
        projects_without(projects, path) == projects,
    decreases projects.len(),
{
    if projects.len() > 0 {
        assert forall|i: int| 0 <= i < projects.drop_last().len() implies (
        #[trigger] projects.drop_last()[i]).path@ != path by {
            assert(projects.drop_last()[i] == projects[i]);
        }
        lemma_projects_without_absent(projects.drop_last(), path);
        assert(projects.last() == projects[projects.len() - 1]);
        assert(projects.drop_last().push(projects.last()) =~= projects);
    }
}

/// Recording the same project twice leaves the recent list as recording it
/// once does.
pub proof fn lemma_record_recent_idempotent(projects: Seq<ProjectRecord>, record: ProjectRecord)
    ensures
        recent_after(recent_after(projects, record), record) == recent_after(projects, record),
{
    let path = record.path@;
    let w = projects_without(projects, path);
    let once = recent_after(projects, record);
    lemma_projects_without_leaves_none(projects, path);
    let kept = if w.len() + 1 > RECENT_PROJECT_LIMIT {
        w.take(RECENT_PROJECT_LIMIT - 1)
    } else {
        w
    };
    assert(once =~= seq![record] + kept);
    assert forall|i: int| 0 <= i < kept.len() implies (#[trigger] kept[i]).path@ != path by {
        assert(kept[i] == w[i]);
    }
    lemma_projects_without_absent(kept, path);
    lemma_projects_without_prepend(record, kept, path);
    assert(seq![record] + projects_without(once, path) =~= once);
}

// ---------------------------------------------------------------------------
// Where the state lives
// ---------------------------------------------------------------------------

/// The directory the app keeps its state in, as path components: the first
/// of the user's app-data directory, the XDG config directory and the home
/// directory that is set (in the home directory the folder is hidden), else
/// the current directory, or `.` when even that is unknown.
pub open spec fn data_dir_parts(
    appdata: Option<String>,
    xdg_config_home: Option<String>,
    home: Option<String>,
    current_dir: Option<String>,
) -> Seq<Seq<char>> {
    match appdata {
        Some(a) => seq![a@, "shed-power"@],
        None => match xdg_config_home {
            Some(x) => seq![x@, "shed-power"@],
            None => match home {
                Some(h) => seq![h@, ".shed-power"@],
                None => seq![
                    match current_dir {
                        Some(c) => c@,
                        None => "."@,
                    },
                    "shed-power"@,
                ],
            },
        },
    }
}

/// The directory the app keeps its state in, as path components (see
/// `data_dir_parts`), from the environment's `APPDATA`, `XDG_CONFIG_HOME`
/// and `HOME` and the current directory, each `None` when unset.
pub fn app_data_dir(
    appdata: Option<String>,
    xdg_config_home: Option<String>,
    home: Option<String>,
    current_dir: Option<String>,
) -> (r: Vec<String>)
    ensures
        r@.map_values(|s: String| s@) == data_dir_parts(appdata, xdg_config_home, home, current_dir),
{
    let ghost expected = data_dir_parts(appdata, xdg_config_home, home, current_dir);
    let (base, folder) = match appdata {
        Some(a) => (a, owned("shed-power")),
        None => match xdg_config_home {
            Some(x) => (x, owned("shed-power")),
            None => match home {
                Some(h) => (h, owned(".shed-power")),
                None => match current_dir {
                    Some(c) => (c, owned("shed-power")),
                    None => (owned("."), owned("shed-power")),
                },
            },
        },
    };
    let mut r: Vec<String> = Vec::new();
    r.push(base);
    r.push(folder);
    assert(r@.map_values(|s: String| s@) =~= expected);
    r
}

/// The app state file, as path components: the state directory and
/// `app_state.json`.
pub fn app_state_path(
    appdata: Option<String>,
    xdg_config_home: Option<String>,
    home: Option<String>,
    current_dir: Option<String>,
) -> (r: Vec<String>)
    ensures
        r@.map_values(|s: String| s@) == data_dir_parts(appdata, xdg_config_home, home, current_dir).push(
            "app_state.json"@,
        ),
{
    let ghost dir = data_dir_parts(appdata, xdg_config_home, home, current_dir);
    let mut r = app_data_dir(appdata, xdg_config_home, home, current_dir);
    let ghost before = r@;
    let file = owned("app_state.json");
    r.push(file);
    assert(r@.map_values(|s: String| s@) =~= before.map_values(|s: String| s@).push(file@));
    r
}

// ---------------------------------------------------------------------------
// Validation
// ---------------------------------------------------------------------------

/// Why a saved app state was refused.
#[derive(Debug)]
pub enum AppStateError {
    /// The state file has another schema version.
    UnsupportedSchema { found: u32 },
    /// A recent project has a schema version other than 1 or 2.
    UnsupportedProjectSchema { schema_version: u32, path: String },
    /// The routing does not have one entry per part.
    WrongSourceCount { count: usize },
}

/// The first recent project, in list order, whose schema is neither 1 nor 2.
pub open spec fn first_bad_project(projects: Seq<ProjectRecord>) -> Option<int>
    decreases projects.len(),
{
    if projects.len() == 0 {
        None
    } else if projects[0].schema_version != 1 && projects[0].schema_version != 2 {
        Some(0)
    } else {
        match first_bad_project(projects.drop_first()) {
            Some(i) => Some(i + 1),
            None => None,
        }
    }
}

proof fn lemma_first_bad_project(projects: Seq<ProjectRecord>, k: int)
    requires
        0 <= k <= projects.len(),
        forall|i: int| 0 <= i < k ==> #[trigger] projects[i].schema_version == 1
            || projects[i].schema_version == 2,
    ensures
        first_bad_project(projects) == (match first_bad_project(projects.skip(k)) {
            Some(i) => Some(i + k),
            None => None,
        }),
    decreases k,
{
    if k > 0 {
        assert(projects[0].schema_version == 1 || projects[0].schema_version == 2);
        let rest = projects.drop_first();
        assert forall|i: int| 0 <= i < k - 1 implies #[trigger] rest[i].schema_version == 1
            || rest[i].schema_version == 2 by {
            assert(rest[i] == projects[i + 1]);
        }
        lemma_first_bad_project(rest, k - 1);
        assert(rest.skip(k - 1) == projects.skip(k));
    } else {
        assert(projects.skip(0) == projects);
    }
}

/// The verdict on a saved app state with this schema version, these recent
/// projects and this many routing entries: the schema is checked first, then
/// the projects in order, then the routing length.
pub open spec fn app_state_verdict(
    schema_version: u32,
    projects: Seq<ProjectRecord>,
    source_count: nat,
) -> Result<(), AppStateError> {
    if schema_version != APP_SCHEMA_VERSION {
        Err(AppStateError::UnsupportedSchema { found: schema_version })
    } else if first_bad_project(projects) is Some {
        let p = projects[first_bad_project(projects)->0];
        Err(
            AppStateError::UnsupportedProjectSchema {
                schema_version: p.schema_version,
                path: p.path,
            },
        )
    } else if source_count != LOOPER_PART_COUNT {
        Err(AppStateError::WrongSourceCount { count: source_count as usize })
    } else {
        Ok(())
    }
}

/// Checks a saved app state before it is written.
pub fn validate_app_state(
    schema_version: u32,
    projects: &[ProjectRecord],
    looper_source_count: usize,
) -> (r: Result<(), AppStateError>)
    ensures
        r == app_state_verdict(schema_version, projects@, looper_source_count as nat),
{
    if schema_version != APP_SCHEMA_VERSION {
        return Err(AppStateError::UnsupportedSchema { found: schema_version });
    }
    let mut i: usize = 0;
    while i < projects.len()
        invariant
            schema_version == APP_SCHEMA_VERSION,
            i <= projects@.len(),
            forall|k: int| 0 <= k < i ==> #[trigger] projects@[k].schema_version == 1
                || projects@[k].schema_version == 2,
        decreases projects@.len() - i,
    {
        let v = projects[i].schema_version;
        if v != 1 && v != 2 {
            proof {
                lemma_first_bad_project(projects@, i as int);
                assert(projects@.skip(i as int)[0] == projects@[i as int]);
                assert(first_bad_project(projects@.skip(i as int)) == Some(0int));
                assert(first_bad_project(projects@) == Some(i as int));
            }
            let path = projects[i].path.clone();
            return Err(AppStateError::UnsupportedProjectSchema { schema_version: v, path: path });
        }
        i = i + 1;
    }
    proof {
        lemma_first_bad_project(projects@, i as int);
        assert(projects@.skip(i as int).len() == 0);
    }
    if looper_source_count != LOOPER_PART_COUNT {
        return Err(AppStateError::WrongSourceCount { count: looper_source_count });
    }
    Ok(())
}

/// The text of an app state error, as the user sees it.
pub open spec fn app_state_error_text(e: AppStateError) -> Seq<char> {
    match e {
        AppStateError::UnsupportedSchema { found } => "Unsupported app state schema "@ + decimal(
            found as nat,
        ) + ". Expected "@ + decimal(APP_SCHEMA_VERSION as nat) + "."@,
        AppStateError::UnsupportedProjectSchema { schema_version, path } =>
            "Unsupported recent project schema "@ + decimal(schema_version as nat) + " for "@
                + path@ + "."@,
        AppStateError::WrongSourceCount { count } => "Expected "@ + decimal(
            LOOPER_PART_COUNT as nat,
        ) + " looper source settings, got "@ + decimal(count as nat) + "."@,
    }
}

impl AppStateError {
    /// The text of the error, as the user sees it.
    pub fn message(&self) -> (r: String)
        ensures
            r@ == app_state_error_text(*self),
    {
        match self {
            AppStateError::UnsupportedSchema { found } => {
                let mut s = owned("Unsupported app state schema ");
                push_decimal(&mut s, *found as u64);
                s.append(". Expected ");
                push_decimal(&mut s, APP_SCHEMA_VERSION as u64);
                s.append(".");
                s
            },
            AppStateError::UnsupportedProjectSchema { schema_version, path } => {
                let mut s = owned("Unsupported recent project schema ");
                push_decimal(&mut s, *schema_version as u64);
                s.append(" for ");
                s.append(path.as_str());
                s.append(".");
                s
            },
            AppStateError::WrongSourceCount { count } => {
                let mut s = owned("Expected ");
                push_decimal(&mut s, LOOPER_PART_COUNT as u64);
                s.append(" looper source settings, got ");
                push_decimal(&mut s, *count as u64);
                s.append(".");
                s
            },
        }
    }
}

} // verus!
