//! Looper project folders: the checks on a project manifest, the part count
//! and part sources it declares, and the names of each part's audio files.
use vstd::prelude::*;
use crate::sources::{LooperSource, LOOPER_PART_COUNT, MAX_NATIVE_INPUT_CHANNELS};
use crate::text::{decimal, owned, push_decimal, str_chars, text_is};

verus! {

broadcast use vstd::string::group_string_axioms;

/// The project schema this version writes.
pub const PROJECT_SCHEMA_VERSION: u32 = 2;

/// The schema of projects saved before parts had sources.
pub const LEGACY_PROJECT_SCHEMA_VERSION: u32 = 1;

/// The part count assumed for a manifest that declares none.
pub const LEGACY_PART_COUNT: usize = 3;

/// A part's saved source as the manifest holds it: the source itself when
/// the entry is in that form, else the entry's `kind` and `channel` fields.
#[derive(Debug)]
pub struct SourceMetadata {
    pub parsed: Option<LooperSource>,
    pub kind: Option<String>,
    pub channel: Option<u64>,
}

/// The fields of a project manifest that loading reads.
#[derive(Debug)]
pub struct ProjectManifest {
    pub schema_version: Option<u64>,
    pub app: Option<String>,
    pub kind: Option<String>,
    pub part_count: Option<u64>,
    /// The `source` entry of each listed part (`None` for a part without
    /// one); `None` when the manifest lists no parts.
    pub parts: Option<Vec<Option<SourceMetadata>>>,
}

/// What loading learns from a valid manifest.
#[derive(Debug)]
pub struct ProjectManifestInfo {
    pub schema_version: u32,
    pub part_count: usize,
    /// The saved source of each part, where one was saved.
    pub sources: Vec<Option<LooperSource>>,
}

/// Why a project manifest was refused.
#[derive(Debug, Clone, Copy, PartialEq, Eq, Structural)]
pub enum ManifestError {
    MissingSchemaVersion,
    UnsupportedSchema { found: u32 },
    /// The manifest was not written by this app.
    NotShedPower,
    /// The manifest is not a looper project.
    NotLooperProject,
}

/// The source a metadata entry names: the entry itself when it parsed as a
/// source, else the source its `kind` names (an input channel defaults to
/// channel 1 and is capped at the last native channel); `None` for an
/// unknown or missing kind.
pub open spec fn source_of_metadata(m: SourceMetadata) -> Option<LooperSource> {
    match m.parsed {
        Some(s) => Some(s),
        None => match m.kind {
            None => None,
            Some(k) => if k@ == "input_channel"@ {
                let c: u64 = match m.channel {
                    Some(c) => c,
                    None => 1,
                };
                Some(
                    LooperSource::InputChannel(
                        (if c > MAX_NATIVE_INPUT_CHANNELS { MAX_NATIVE_INPUT_CHANNELS as u64 } else { c }) as u8,
                    ),
                )
            } else if k@ == "input_mix"@ {
                Some(LooperSource::InputMix)
            } else if k@ == "synth"@ {
                Some(LooperSource::Synth)
            } else if k@ == "mpc"@ {
                Some(LooperSource::Mpc)
            } else if k@ == "jam"@ {
                Some(LooperSource::Jam)
            } else if k@ == "instrument_mix"@ {
                Some(LooperSource::InstrumentMix)
            } else if k@ == "silent"@ {
                Some(LooperSource::Silent)
            } else {
                None
            },
        },
    }
}

/// The source a part's saved metadata names (see `source_of_metadata`).
pub fn parse_looper_source_metadata(m: &SourceMetadata) -> (r: Option<LooperSource>)
    ensures
        r == source_of_metadata(*m),
{
    if let Some(s) = m.parsed {
        return Some(s);
    }
    let kind = match &m.kind {
        Some(k) => str_chars(k.as_str()),
        None => {
            return None;
        },
    };
    if text_is(&kind, "input_channel") {
        let c: u64 = match m.channel {
            Some(c) => c,
            None => 1,
        };
        let c = if c > MAX_NATIVE_INPUT_CHANNELS as u64 { MAX_NATIVE_INPUT_CHANNELS as u64 } else { c };
        Some(LooperSource::InputChannel(c as u8))
    } else if text_is(&kind, "input_mix") {
        Some(LooperSource::InputMix)
    } else if text_is(&kind, "synth") {
        Some(LooperSource::Synth)
    } else if text_is(&kind, "mpc") {
        Some(LooperSource::Mpc)
    } else if text_is(&kind, "jam") {
        Some(LooperSource::Jam)
    } else if text_is(&kind, "instrument_mix") {
        Some(LooperSource::InstrumentMix)
    } else if text_is(&kind, "silent") {
        Some(LooperSource::Silent)
    } else {
        None
    }
}

/// The saved source of part `i` of a parts list.
pub open spec fn part_source(parts: Option<Vec<Option<SourceMetadata>>>, i: int) -> Option<LooperSource> {
    match parts {
        Some(list) => if i < list@.len() {
            match list@[i] {
                Some(m) => source_of_metadata(m),
                None => None,
            }
        } else {
            None
        },
        None => None,
    }
}

/// The saved source of each of the looper's parts; parts past the looper's
/// count are ignored, and a part the list does not reach has none.
pub fn parse_project_part_sources(parts: &Option<Vec<Option<SourceMetadata>>>) -> (r: Vec<
    Option<LooperSource>,
>)
    ensures
        r@.len() == LOOPER_PART_COUNT,
        forall|i: int| 0 <= i < LOOPER_PART_COUNT ==> #[trigger] r@[i] == part_source(*parts, i),
{
    let mut r: Vec<Option<LooperSource>> = Vec::new();
    let mut i: usize = 0;
    while i < LOOPER_PART_COUNT
        invariant
            i <= LOOPER_PART_COUNT,
            r@.len() == i,
            forall|k: int| 0 <= k < i ==> #[trigger] r@[k] == part_source(*parts, k),
        decreases LOOPER_PART_COUNT - i,
    {
        let source = match parts {
            Some(list) => if i < list.len() {
                match &list[i] {
                    Some(m) => parse_looper_source_metadata(m),
                    None => None,
                }
            } else {
                None
            },
            None => None,
        };
        r.push(source);
        i = i + 1;
    }
    r
}

/// The part count a manifest declares: its explicit count, else the length
/// of its parts list, else the legacy count; at least one part and at most
/// the looper's count.
pub open spec fn inferred_part_count(explicit: Option<u64>, parts_len: Option<usize>) -> int {
    let n: int = match explicit {
        Some(v) => (v as usize) as int,
        None => match parts_len {
            Some(l) => l as int,
            None => LEGACY_PART_COUNT as int,
        },
    };
    if n < 1 {
        1
    } else if n > LOOPER_PART_COUNT {
        LOOPER_PART_COUNT as int
    } else {
        n
    }
}

/// The part count a manifest declares (see `inferred_part_count`).
pub fn infer_project_part_count(explicit: Option<u64>, parts_len: Option<usize>) -> (r: usize)
    ensures
        r == inferred_part_count(explicit, parts_len),
        1 <= r <= LOOPER_PART_COUNT,
{
    let n: usize = match explicit {
        Some(v) => v as usize,
        None => match parts_len {
            Some(l) => l,
            None => LEGACY_PART_COUNT,
        },
    };
    if n < 1 {
        1
    } else if n > LOOPER_PART_COUNT {
        LOOPER_PART_COUNT
    } else {
        n
    }
}

/// Whether an optional string is `Some` of the text `lit`.
pub open spec fn is_text(s: Option<String>, lit: Seq<char>) -> bool {
    s matches Some(t) && t@ == lit
}

/// The verdict on a manifest's header: the schema version must be present
/// and, cut to 32 bits, be the legacy or the current schema; then the
/// manifest must name this app and a looper project.
pub open spec fn manifest_verdict(m: ProjectManifest) -> Result<u32, ManifestError> {
    match m.schema_version {
        None => Err(ManifestError::MissingSchemaVersion),
        Some(v) => {
            let v32 = v as u32;
            if v32 != LEGACY_PROJECT_SCHEMA_VERSION && v32 != PROJECT_SCHEMA_VERSION {
                Err(ManifestError::UnsupportedSchema { found: v32 })
            } else if !is_text(m.app, "shed-power"@) {
                Err(ManifestError::NotShedPower)
            } else if !is_text(m.kind, "looper_project"@) {
                Err(ManifestError::NotLooperProject)
            } else {
                Ok(v32)
            }
        },
    }
}

/// Whether an optional string is `Some` of `lit`.
fn text_matches(s: &Option<String>, lit: &str) -> (r: bool)
    ensures
        r == is_text(*s, lit@),
{
    match s {
        Some(t) => {
            let chars = str_chars(t.as_str());
            text_is(&chars, lit)
        },
        None => false,
    }
}

/// Checks a project manifest and reads what loading needs from it: the
/// schema version, the part count and the saved part sources. Refused with
/// the first failing check, in the order of `manifest_verdict`.
pub fn validate_project_manifest(m: &ProjectManifest) -> (r: Result<ProjectManifestInfo, ManifestError>)
    ensures
        match manifest_verdict(*m) {
            Err(e) => r == Err::<ProjectManifestInfo, ManifestError>(e),
            Ok(v) => r matches Ok(info) && {
                &&& info.schema_version == v
                &&& info.part_count == inferred_part_count(
                    m.part_count,
                    match m.parts {
                        Some(list) => Some(list@.len() as usize),
                        None => None,
                    },
                )
                &&& info.sources@.len() == LOOPER_PART_COUNT
                &&& forall|i: int| 0 <= i < LOOPER_PART_COUNT ==> #[trigger] info.sources@[i] == part_source(m.parts, i)
            },
        },
{
    let v = match m.schema_version {
        Some(v) => v,
        None => {
            return Err(ManifestError::MissingSchemaVersion);
        },
    };
    let v32 = v as u32;
    if v32 != LEGACY_PROJECT_SCHEMA_VERSION && v32 != PROJECT_SCHEMA_VERSION {
        return Err(ManifestError::UnsupportedSchema { found: v32 });
    }
    if !text_matches(&m.app, "shed-power") {
        return Err(ManifestError::NotShedPower);
    }
    if !text_matches(&m.kind, "looper_project") {
        return Err(ManifestError::NotLooperProject);
    }
    let parts_len = match &m.parts {
        Some(list) => Some(list.len()),
        None => None,
    };
    Ok(
        ProjectManifestInfo {
            schema_version: v32,
            part_count: infer_project_part_count(m.part_count, parts_len),
            sources: parse_project_part_sources(&m.parts),
        },
    )
}

/// Whether `m` reads as a manifest this version saves for a looper whose
/// parts record from `sources`: the current schema, this app, a looper
/// project, the looper's full part count, and each part listed with its
/// source.
pub open spec fn saved_manifest(m: ProjectManifest, sources: Seq<LooperSource>) -> bool {
    &&& m.schema_version == Some(PROJECT_SCHEMA_VERSION as u64)
    &&& is_text(m.app, "shed-power"@)
    &&& is_text(m.kind, "looper_project"@)
    &&& m.part_count == Some(LOOPER_PART_COUNT as u64)
    &&& sources.len() == LOOPER_PART_COUNT
    &&& m.parts matches Some(list) && list@.len() == LOOPER_PART_COUNT && forall|i: int|
        0 <= i < LOOPER_PART_COUNT ==> (#[trigger] list@[i] matches Some(meta) && meta.parsed
            == Some(sources[i]))
}

/// A project this version saves loads back: its manifest passes the checks
/// with the current schema and the looper's full part count, and every part
/// gets back the source it was saved with.
pub proof fn lemma_saved_project_loads(m: ProjectManifest, sources: Seq<LooperSource>)
    requires
        saved_manifest(m, sources),
    ensures
        manifest_verdict(m) == Ok::<u32, ManifestError>(PROJECT_SCHEMA_VERSION),
        inferred_part_count(m.part_count, Some(LOOPER_PART_COUNT)) == LOOPER_PART_COUNT,
        forall|i: int| 0 <= i < LOOPER_PART_COUNT ==> #[trigger] part_source(m.parts, i) == Some(sources[i]),
{
    assert((PROJECT_SCHEMA_VERSION as u64) as u32 == PROJECT_SCHEMA_VERSION);
    assert forall|i: int| 0 <= i < LOOPER_PART_COUNT implies #[trigger] part_source(m.parts, i) == Some(
        sources[i],
    ) by {
        let list = m.parts->0;
        assert(list@[i] matches Some(meta) && meta.parsed == Some(sources[i]));
    }
}

/// The text of a manifest error for the manifest at `path` (as shown to the
/// user).
pub open spec fn manifest_error_text(e: ManifestError, path: Seq<char>) -> Seq<char> {
    match e {
        ManifestError::MissingSchemaVersion => "Project manifest "@ + path + " is missing schema_version."@,
        ManifestError::UnsupportedSchema { found } => "Unsupported project schema "@ + decimal(
            found as nat,
        ) + " in "@ + path + ". Expected "@ + decimal(LEGACY_PROJECT_SCHEMA_VERSION as nat)
            + " or "@ + decimal(PROJECT_SCHEMA_VERSION as nat) + "."@,
        ManifestError::NotShedPower => "Project manifest "@ + path + " is not a SHED POWER project."@,
        ManifestError::NotLooperProject => "Project manifest "@ + path + " is not a looper project."@,
    }
}

impl ManifestError {
    /// The text of the error for the manifest at `path`, as the user sees
    /// it.
    pub fn message(&self, path: &str) -> (r: String)
        ensures
            r@ == manifest_error_text(*self, path@),
    {
        match self {
            ManifestError::MissingSchemaVersion => {
                let mut s = owned("Project manifest ");
                s.append(path);
                s.append(" is missing schema_version.");
                s
            },
            ManifestError::UnsupportedSchema { found } => {
                let mut s = owned("Unsupported project schema ");
                push_decimal(&mut s, *found as u64);
                s.append(" in ");
                s.append(path);
                s.append(". Expected ");
                push_decimal(&mut s, LEGACY_PROJECT_SCHEMA_VERSION as u64);
                s.append(" or ");
                push_decimal(&mut s, PROJECT_SCHEMA_VERSION as u64);
                s.append(".");
                s
            },
            ManifestError::NotShedPower => {
                let mut s = owned("Project manifest ");
                s.append(path);
                s.append(" is not a SHED POWER project.");
                s
            },
            ManifestError::NotLooperProject => {
                let mut s = owned("Project manifest ");
                s.append(path);
                s.append(" is not a looper project.");
                s
            },
        }
    }
}

/// The file name of a part's mixed audio.
pub open spec fn mixed_file_text(part_name: Seq<char>) -> Seq<char> {
    "part_"@ + part_name + ".wav"@
}

/// The file name of one layer of a part.
pub open spec fn layer_file_text(part_name: Seq<char>, layer_index: nat) -> Seq<char> {
    "part_"@ + part_name + "_layer_"@ + decimal(layer_index) + ".wav"@
}

/// The file name of a part's mixed audio: `part_<name>.wav`.
pub fn part_mixed_file_name(part_name: &str) -> (r: String)
    ensures
        r@ == mixed_file_text(part_name@),
{
    let mut s = owned("part_");
    s.append(part_name);
    s.append(".wav");
    s
}

/// The file name of one layer of a part: `part_<name>_layer_<index>.wav`.
pub fn part_layer_file_name(part_name: &str, layer_index: usize) -> (r: String)
    ensures
        r@ == layer_file_text(part_name@, layer_index as nat),
{
    let mut s = owned("part_");
    s.append(part_name);
    s.append("_layer_");
    push_decimal(&mut s, layer_index as u64);
    s.append(".wav");
    s
}

/// The layer files a part is saved with: one per non-empty layer, named by
/// the layer's position among all the part's layers.
pub open spec fn saved_layer_texts(part_name: Seq<char>, layer_lens: Seq<usize>) -> Seq<Seq<char>>
    decreases layer_lens.len(),
{
    if layer_lens.len() == 0 {
        seq![]
    } else {
        let rest = saved_layer_texts(part_name, layer_lens.drop_last());
        if layer_lens.last() > 0 {
            rest.push(layer_file_text(part_name, (layer_lens.len() - 1) as nat))
        } else {
            rest
        }
    }
}

/// The names of the layer files a part is saved with, given the lengths of
/// its layers (see `saved_layer_texts`).
pub fn saved_layer_files(part_name: &str, layer_lens: &[usize]) -> (r: Vec<String>)
    ensures
        r@.map_values(|s: String| s@) == saved_layer_texts(part_name@, layer_lens@),
{
    let mut r: Vec<String> = Vec::new();
    let mut i: usize = 0;
    assert(layer_lens@.take(0) =~= Seq::<usize>::empty());
    assert(r@.map_values(|s: String| s@) =~= saved_layer_texts(part_name@, layer_lens@.take(0)));
    while i < layer_lens.len()
        invariant
            i <= layer_lens@.len(),
            r@.map_values(|s: String| s@) == saved_layer_texts(part_name@, layer_lens@.take(i as int)),
        decreases layer_lens@.len() - i,
    {
        assert(layer_lens@.take(i + 1).drop_last() =~= layer_lens@.take(i as int));
        if layer_lens[i] > 0 {
            let ghost before = r@;
            let name = part_layer_file_name(part_name, i);
            r.push(name);
            assert(r@.map_values(|s: String| s@) =~= before.map_values(|s: String| s@).push(name@));
        }
        i = i + 1;
    }
    assert(layer_lens@.take(layer_lens@.len() as int) =~= layer_lens@);
    r
}

/// Whether `file_name` names a saved layer of the part: it starts with
/// `part_<name>_layer_` and ends with `.wav`.
pub open spec fn is_layer_file_text(file_name: Seq<char>, part_name: Seq<char>) -> bool {
    let prefix = "part_"@ + part_name + "_layer_"@;
    &&& file_name.len() >= prefix.len()
    &&& file_name.take(prefix.len() as int) == prefix
    &&& file_name.len() >= 4
    &&& file_name.skip(file_name.len() - 4) == ".wav"@
}

/// Whether `file_name` names a saved layer of the part (see
/// `is_layer_file_text`); such files are removed before a part is saved
/// again.
pub fn is_part_layer_file(file_name: &str, part_name: &str) -> (r: bool)
    ensures
        r == is_layer_file_text(file_name@, part_name@),
{
    let mut prefix = owned("part_");
    prefix.append(part_name);
    prefix.append("_layer_");
    let name = str_chars(file_name);
    let pre = str_chars(prefix.as_str());
    let suffix = str_chars(".wav");
    proof {
        reveal_strlit(".wav");
    }
    if name.len() < pre.len() || name.len() < suffix.len() {
        return false;
    }
    let mut i: usize = 0;
    while i < pre.len()
        invariant
            name@ == file_name@,
            pre@ == "part_"@ + part_name@ + "_layer_"@,
            pre@.len() <= name@.len(),
            i <= pre@.len(),
            forall|k: int| 0 <= k < i ==> name@[k] == pre@[k],
        decreases pre@.len() - i,
    {
        if name[i] != pre[i] {
            assert(name@.take(pre@.len() as int)[i as int] != pre@[i as int]);
            return false;
        }
        i = i + 1;
    }
    assert(name@.take(pre@.len() as int) =~= pre@);
    let start = name.len() - suffix.len();
    let mut j: usize = 0;
    while j < suffix.len()
        invariant
            name@ == file_name@,
            suffix@ == ".wav"@,
            name@.len() <= usize::MAX,
            start + suffix@.len() == name@.len(),
            j <= suffix@.len(),
            forall|k: int| 0 <= k < j ==> name@[start + k] == suffix@[k],
        decreases suffix@.len() - j,
    {
        if name[start + j] != suffix[j] {
            assert(name@.skip(start as int)[j as int] != suffix@[j as int]);
            return false;
        }
        j = j + 1;
    }
    assert(name@.skip(start as int) =~= suffix@);
    true
}

/// The name of a looper part: `A` to `E`.
pub open spec fn part_name_text(i: int) -> Seq<char> {
    if i == 0 {
        "A"@
    } else if i == 1 {
        "B"@
    } else if i == 2 {
        "C"@
    } else if i == 3 {
        "D"@
    } else {
        "E"@
    }
}

/// The name of a looper part (`A` to `E`; any later index is `E`).
pub fn part_name(i: usize) -> (r: &'static str)
    ensures
        r@ == part_name_text(i as int),
{
    if i == 0 {
        "A"
    } else if i == 1 {
        "B"
    } else if i == 2 {
        "C"
    } else if i == 3 {
        "D"
    } else {
        "E"
    }
}

/// What a saved project lists for one part.
#[derive(Debug)]
pub struct ProjectPartEntry {
    pub id: String,
    pub mixed_file: String,
    /// Length of the part's mixed audio.
    pub samples: usize,
    /// Number of layers, empty ones included.
    pub layer_count: usize,
    pub layer_files: Vec<String>,
}

/// The lengths of a part's layers, none for a part the list does not reach.
pub open spec fn layers_of(layer_lens: Seq<Vec<usize>>, i: int) -> Seq<usize> {
    if i < layer_lens.len() { layer_lens[i]@ } else { seq![] }
}

/// The entries a saved project lists, one per looper part in order, from
/// the length of each part's mixed audio and the lengths of its layers (a
/// part the lists do not reach has none).
pub fn project_part_entries(buffer_lens: &[usize], layer_lens: &[Vec<usize>]) -> (r: Vec<ProjectPartEntry>)
    ensures
        r@.len() == LOOPER_PART_COUNT,
        forall|i: int| 0 <= i < LOOPER_PART_COUNT ==> {
            let e = #[trigger] r@[i];
            let layers = layers_of(layer_lens@, i);
            &&& e.id@ == part_name_text(i)
            &&& e.mixed_file@ == mixed_file_text(part_name_text(i))
            &&& e.samples == if i < buffer_lens@.len() { buffer_lens@[i] } else { 0 }
            &&& e.layer_count == layers.len()
            &&& e.layer_files@.map_values(|s: String| s@) == saved_layer_texts(part_name_text(i), layers)
        },
{
    let mut r: Vec<ProjectPartEntry> = Vec::new();
    let mut i: usize = 0;
    while i < LOOPER_PART_COUNT
        invariant
            i <= LOOPER_PART_COUNT,
            r@.len() == i,
            forall|k: int| 0 <= k < i ==> {
                let e = #[trigger] r@[k];
                let layers = layers_of(layer_lens@, k);
                &&& e.id@ == part_name_text(k)
                &&& e.mixed_file@ == mixed_file_text(part_name_text(k))
                &&& e.samples == if k < buffer_lens@.len() { buffer_lens@[k] } else { 0 }
                &&& e.layer_count == layers.len()
                &&& e.layer_files@.map_values(|s: String| s@) == saved_layer_texts(part_name_text(k), layers)
            },
        decreases LOOPER_PART_COUNT - i,
    {
        let name = part_name(i);
        let empty: Vec<usize> = Vec::new();
        let layers: &[usize] = if i < layer_lens.len() { layer_lens[i].as_slice() } else { empty.as_slice() };
        assert(layers@ == layers_of(layer_lens@, i as int));
        let samples = if i < buffer_lens.len() { buffer_lens[i] } else { 0 };
        let entry = ProjectPartEntry {
            id: owned(name),
            mixed_file: part_mixed_file_name(name),
            samples,
            layer_count: layers.len(),
            layer_files: saved_layer_files(name, layers),
        };
        r.push(entry);
        i = i + 1;
    }
    r
}

} // verus!
