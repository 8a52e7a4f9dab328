//! What can be told of a deleted file, and which files are worth a closer look.

use crate::browse_cache::extension;
use crate::bytes::{le16, le32, matches_at, occurs_at, read_le16, read_le32};
use crate::clock::{format_rfc3339, iso_text, now_iso, rfc3339_text};
use crate::kinds::{infer_artifact_kind, inferred_kind};
use crate::model::{
    ArtifactClass, ArtifactFamily, ArtifactKind, ArtifactRecord, ByteRun, Confidence,
    NameSourceKind, OriginType, PreviewFact, Recoverability, RecoveryPlan, ScanMode,
};
use crate::ntfs_names::{generated_name, generic_kind, is_generic_kind};
use crate::numbers::{decimal, decimal_string};
use crate::records::{fact, fact_views, ArtifactView, FactView};
use crate::text::{ascii_lower, eq_ignore_ascii_case, has_prefix, owned, to_ascii_lowercase};
use crate::volume::{range_covered, DataAttribute, DataRun, NtfsDataStream, VolumeBitmap};
use vstd::prelude::*;
use vstd::string::*;

verus! {

// ---------------------------------------------------------------------------
// Limits.

pub const FAST_PREVIEW_BYTES: usize = 2048;

pub const DEEP_PREVIEW_BYTES: usize = 32768;

pub const FAST_ISO_PREVIEW_BYTES: usize = 4096;

pub const DEEP_ISO_PREVIEW_BYTES: usize = 40960;

// ---------------------------------------------------------------------------
// Sizes and runs.

/// The largest size of the data attributes of a kind.
pub open spec fn largest_size(attributes: Seq<DataAttribute>, named: bool) -> u64
    decreases attributes.len(),
{
    if attributes.len() == 0 {
        0
    } else {
        let rest = largest_size(attributes.drop_last(), named);
        let last = attributes.last();
        if last.named == named && last.size > rest {
            last.size
        } else {
            rest
        }
    }
}

pub open spec fn has_unnamed(attributes: Seq<DataAttribute>) -> bool {
    exists|i: int| 0 <= i < attributes.len() && !(#[trigger] attributes[i]).named
}

/// The size of a file: that of its unnamed data, else that of its largest named stream.
pub open spec fn logical_size(attributes: Seq<DataAttribute>) -> u64 {
    largest_size(attributes, !has_unnamed(attributes))
}

pub fn ntfs_primary_logical_size(attributes: &Vec<DataAttribute>) -> (r: u64)
    ensures
        r == logical_size(attributes@),
{
    let mut unnamed: u64 = 0;
    let mut named: u64 = 0;
    let mut any_unnamed: bool = false;
    let mut i: usize = 0;
    assert(attributes@.subrange(0, 0) =~= seq![]);
    while i < attributes.len()
        invariant
            i <= attributes@.len(),
            unnamed == largest_size(attributes@.subrange(0, i as int), false),
            named == largest_size(attributes@.subrange(0, i as int), true),
            any_unnamed == exists|j: int| 0 <= j < i && !(#[trigger] attributes@[j]).named,
        decreases attributes@.len() - i,
    {
        proof {
            let now = attributes@.subrange(0, i + 1);
            assert(now.drop_last() =~= attributes@.subrange(0, i as int));
        }
        let size: u64 = attributes[i].size;
        if attributes[i].named {
            if size > named {
                named = size;
            }
        } else {
            any_unnamed = true;
            assert(!attributes@[i as int].named);
            if size > unnamed {
                unnamed = size;
            }
        }
        i += 1;
    }
    assert(attributes@.subrange(0, i as int) =~= attributes@);
    if any_unnamed {
        unnamed
    } else {
        named
    }
}

/// A data run as it is recovered.
pub open spec fn byte_run(run: DataRun) -> ByteRun {
    match run {
        DataRun::Data { lcn, length } => ByteRun { offset: lcn, length, sparse: false },
        DataRun::Sparse { length } => ByteRun { offset: 0, length, sparse: true },
    }
}

pub open spec fn byte_runs(runs: Seq<DataRun>) -> Seq<ByteRun> {
    runs.map_values(|run: DataRun| byte_run(run))
}

pub fn convert_runs(runs: &Vec<DataRun>) -> (r: Vec<ByteRun>)
    ensures
        r@ == byte_runs(runs@),
{
    let mut out: Vec<ByteRun> = Vec::new();
    let mut i: usize = 0;
    while i < runs.len()
        invariant
            i <= runs@.len(),
            out@ =~= byte_runs(runs@.subrange(0, i as int)),
        decreases runs@.len() - i,
    {
        match runs[i] {
            DataRun::Data { lcn, length } => out.push(
                ByteRun { offset: lcn, length, sparse: false },
            ),
            DataRun::Sparse { length } => out.push(ByteRun { offset: 0, length, sparse: true }),
        }
        i += 1;
    }
    assert(runs@.subrange(0, i as int) =~= runs@);
    out
}

pub open spec fn is_data(run: ByteRun) -> bool {
    !run.sparse
}

/// A run that is no hole and whose clusters are in use again.
pub open spec fn is_taken(extents: Seq<ByteRun>, run: ByteRun) -> bool {
    !run.sparse && !range_covered(extents, run.offset, run.length)
}

/// How much of a file in some runs can still be read. A file of holes alone counts as partial.
pub open spec fn assessed(bitmap: Option<VolumeBitmap>, runs: Seq<ByteRun>) -> Recoverability {
    match bitmap {
        None => Recoverability::Unknown,
        Some(b) => if runs.len() == 0 {
            Recoverability::Poor
        } else if (exists|i: int| 0 <= i < runs.len() && is_data(#[trigger] runs[i])) && forall|
            i: int,
        |
            0 <= i < runs.len() ==> !is_taken(b.extents@, #[trigger] runs[i]) {
            Recoverability::Good
        } else {
            Recoverability::Partial
        },
    }
}

pub open spec fn bitmap_view(bitmap: Option<&VolumeBitmap>) -> Option<VolumeBitmap> {
    match bitmap {
        Some(b) => Some(*b),
        None => None,
    }
}

pub open spec fn bitmap_ok(bitmap: Option<&VolumeBitmap>) -> bool {
    match bitmap {
        Some(b) => b.wf(),
        None => true,
    }
}

pub fn assess_recoverability(bitmap: Option<&VolumeBitmap>, runs: &Vec<ByteRun>) -> (r:
    Recoverability)
    requires
        bitmap_ok(bitmap),
    ensures
        r == assessed(bitmap_view(bitmap), runs@),
{
    let free = match bitmap {
        Some(free) => free,
        None => {
            return Recoverability::Unknown;
        },
    };
    if runs.len() == 0 {
        return Recoverability::Poor;
    }
    let mut any_data: bool = false;
    let mut i: usize = 0;
    while i < runs.len()
        invariant
            i <= runs@.len(),
            bitmap == Some(free),
            free.wf(),
            any_data == exists|j: int| 0 <= j < i && is_data(#[trigger] runs@[j]),
            forall|j: int| 0 <= j < i ==> !is_taken(free.extents@, #[trigger] runs@[j]),
        decreases runs@.len() - i,
    {
        if !runs[i].sparse {
            any_data = true;
            assert(is_data(runs@[i as int]));
            if !free.covers_range(runs[i].offset, runs[i].length) {
                assert(is_taken(free.extents@, runs@[i as int]));
                return Recoverability::Partial;
            }
        }
        i += 1;
    }
    if any_data {
        Recoverability::Good
    } else {
        Recoverability::Partial
    }
}

/// A record after its runs were held against the free space again.
pub open spec fn refreshed(bitmap: VolumeBitmap, record: ArtifactRecord) -> ArtifactRecord {
    match record.recovery_plan {
        RecoveryPlan::RawRuns { source_path, runs, logical_size } => ArtifactRecord {
            recoverability: assessed(Some(bitmap), runs@),
            ..record
        },
        _ => record,
    }
}

/// Holds all records with runs against the free space again.
pub fn refresh_recoverability(bitmap: &VolumeBitmap, results: &mut Vec<ArtifactRecord>)
    requires
        bitmap.wf(),
    ensures
        final(results)@.len() == old(results)@.len(),
        forall|i: int|
            0 <= i < old(results)@.len() ==> #[trigger] final(results)@[i] == refreshed(
                *bitmap,
                old(results)@[i],
            ),
{
    let mut i: usize = 0;
    while i < results.len()
        invariant
            bitmap.wf(),
            i <= results@.len(),
            results@.len() == old(results)@.len(),
            forall|j: int|
                0 <= j < i ==> #[trigger] results@[j] == refreshed(*bitmap, old(results)@[j]),
            forall|j: int| i <= j < results@.len() ==> #[trigger] results@[j] == old(results)@[j],
        decreases results@.len() - i,
    {
        let fresh: Option<Recoverability> = match &results[i].recovery_plan {
            RecoveryPlan::RawRuns { source_path: _, runs, logical_size: _ } => Some(
                assess_recoverability(Some(bitmap), runs),
            ),
            _ => None,
        };
        if let Some(recoverability) = fresh {
            results[i].recoverability = recoverability;
        }
        i += 1;
    }
}

// ---------------------------------------------------------------------------
// Which records are kept and looked into.

pub open spec fn executable_extension(ext: Seq<char>) -> bool {
    let e = ascii_lower(ext);
    e == "dll"@ || e == "exe"@ || e == "sys"@ || e == "ocx"@ || e == "scr"@ || e == "cpl"@ || e
        == "mui"@ || e == "cat"@
}

pub fn is_fast_executable_extension(extension: &str) -> (r: bool)
    ensures
        r == executable_extension(extension@),
{
    let e = to_ascii_lowercase(extension);
    *e.as_str() == *"dll" || *e.as_str() == *"exe" || *e.as_str() == *"sys" || *e.as_str() == *"ocx"
        || *e.as_str() == *"scr" || *e.as_str() == *"cpl" || *e.as_str() == *"mui" || *e.as_str()
        == *"cat"
}

pub open spec fn has_executable_extension(v: ArtifactView) -> bool {
    v.extension matches Some(e) && executable_extension(e)
}

fn executable_by_extension(record: &ArtifactRecord) -> (r: bool)
    ensures
        r == has_executable_extension(record@),
{
    match &record.extension {
        Some(e) => is_fast_executable_extension(e.as_str()),
        None => false,
    }
}

/// A file of which something can be had.
pub open spec fn recoverable(v: ArtifactView) -> bool {
    v.recoverability == Recoverability::Good || v.recoverability == Recoverability::Partial
}

pub open spec fn telling_family(family: ArtifactFamily) -> bool {
    family != ArtifactFamily::Binary && family != ArtifactFamily::Unknown
}

fn is_telling_family(family: ArtifactFamily) -> (r: bool)
    ensures
        r == telling_family(family),
{
    family != ArtifactFamily::Binary && family != ArtifactFamily::Unknown
}

/// A record that is worth a closer look.
pub open spec fn worth_enriching(v: ArtifactView) -> bool {
    v.original_path is None || telling_family(v.family) || generic_kind(v.kind) || recoverable(v)
}

pub fn should_enrich_deleted_record(record: &ArtifactRecord) -> (r: bool)
    ensures
        r == worth_enriching(record@),
{
    record.original_path.is_none() || is_telling_family(record.family) || is_generic_kind(
        record.kind,
    ) || record.recoverability == Recoverability::Good || record.recoverability
        == Recoverability::Partial
}

/// A record that a fast scan keeps.
pub open spec fn kept_by_fast_scan(v: ArtifactView) -> bool {
    let placed = v.original_path is Some;
    let has_extension = v.extension matches Some(e) && e.len() > 0;
    let executable = has_executable_extension(v);
    let named = !generated_name(v.name) || placed;
    let shown = named && (placed || has_extension || executable);
    ||| v.deleted_entry && v.filesystem_record is Some
    ||| {
        &&& !(generated_name(v.name) && !placed && generic_kind(v.kind) && !recoverable(v))
        &&& {
            ||| shown && (v.size > 0 || executable)
            ||| shown && v.filesystem_record is Some
            ||| recoverable(v)
            ||| telling_family(v.family)
            ||| !generic_kind(v.kind)
            ||| v.size > 0 && v.confidence != Confidence::Low && (placed || has_extension)
        }
    }
}

pub fn keep_fast_record(record: &ArtifactRecord) -> (r: bool)
    ensures
        r == kept_by_fast_scan(record@),
{
    if record.deleted_entry && record.filesystem_record.is_some() {
        return true;
    }
    let path_resolved: bool = record.original_path.is_some();
    let has_extension: bool = match &record.extension {
        Some(e) => !e.as_str().is_empty(),
        None => false,
    };
    let specific_kind: bool = !is_generic_kind(record.kind);
    let recoverable: bool = record.recoverability == Recoverability::Good || record.recoverability
        == Recoverability::Partial;
    let autogenerated_name: bool = has_prefix(record.name.as_str(), "deleted_record_");
    let named_record: bool = !autogenerated_name || path_resolved;
    let executable_name: bool = executable_by_extension(record);
    let high_priority_family: bool = is_telling_family(record.family);
    let metadata_quality: bool = record.size > 0 && record.confidence != Confidence::Low && (
    path_resolved || has_extension);
    let shown: bool = named_record && (path_resolved || has_extension || executable_name);
    if autogenerated_name && !path_resolved && !specific_kind && !recoverable {
        return false;
    }
    (shown && (record.size > 0 || executable_name)) || (shown
        && record.filesystem_record.is_some()) || recoverable || high_priority_family
        || specific_kind || metadata_quality
}

/// The content of a file as far as the choice of a preview depends on it.
pub open spec fn small_and_telling(v: ArtifactView, stream: NtfsDataStream) -> bool {
    stream matches NtfsDataStream::NonResident { logical_size, runs } && 0 < logical_size <= 262144
        && telling_family(v.family) && v.family != ArtifactFamily::Executable
}

/// A fast scan looks into content at the name of which it cannot tell the kind, and into
/// content that is cheap to read.
pub open spec fn preview_wanted(
    mode: ScanMode,
    v: ArtifactView,
    stream: Option<NtfsDataStream>,
) -> bool {
    match stream {
        None => false,
        Some(stream) => v.size != 0 && (mode == ScanMode::Deep || stream is Resident
            || generic_kind(v.kind) || (match v.extension {
            None => true,
            Some(e) => ascii_lower(e) == ascii_lower("bin"@) || ascii_lower(e) == ascii_lower(
                "dat"@,
            ),
        }) || v.original_path is None || generated_name(v.name) || v.family
            == ArtifactFamily::Executable || small_and_telling(v, stream)
            || has_executable_extension(v)),
    }
}

pub open spec fn stream_view(stream: Option<&NtfsDataStream>) -> Option<NtfsDataStream> {
    match stream {
        Some(s) => Some(*s),
        None => None,
    }
}

pub fn should_capture_preview(
    mode: ScanMode,
    record: &ArtifactRecord,
    data_stream: Option<&NtfsDataStream>,
) -> (r: bool)
    ensures
        r == preview_wanted(mode, record@, stream_view(data_stream)),
{
    let data_stream = match data_stream {
        Some(data_stream) => data_stream,
        None => {
            return false;
        },
    };
    if record.size == 0 {
        return false;
    }
    if mode == ScanMode::Deep {
        return true;
    }
    let small: bool = match data_stream {
        NtfsDataStream::Resident(_) => {
            return true;
        },
        NtfsDataStream::NonResident { logical_size, runs: _ } => *logical_size > 0 && *logical_size
            <= 262144 && is_telling_family(record.family) && record.family
            != ArtifactFamily::Executable,
    };
    let missing_extension: bool = match &record.extension {
        None => true,
        Some(e) => eq_ignore_ascii_case(e.as_str(), "bin") || eq_ignore_ascii_case(
            e.as_str(),
            "dat",
        ),
    };
    is_generic_kind(record.kind) || missing_extension || record.original_path.is_none()
        || has_prefix(record.name.as_str(), "deleted_record_") || record.family
        == ArtifactFamily::Executable || small || executable_by_extension(record)
}

pub open spec fn pe_kind(kind: ArtifactKind) -> bool {
    kind == ArtifactKind::Exe || kind == ArtifactKind::Dll || kind == ArtifactKind::Sys || kind
        == ArtifactKind::Scr || kind == ArtifactKind::Ocx || kind == ArtifactKind::Cpl || kind
        == ArtifactKind::Pe
}

pub open spec fn packed_kind(kind: ArtifactKind) -> bool {
    kind == ArtifactKind::Zip || kind == ArtifactKind::Jar || kind == ArtifactKind::Apk || kind
        == ArtifactKind::Rar || kind == ArtifactKind::SevenZip || kind == ArtifactKind::Cab || kind
        == ArtifactKind::Tar || kind == ArtifactKind::Gzip || kind == ArtifactKind::Bzip2 || kind
        == ArtifactKind::Xz || kind == ArtifactKind::Pdf || kind == ArtifactKind::Sqlite || kind
        == ArtifactKind::Msi || kind == ArtifactKind::OleCompound
}

pub open spec fn written_kind(kind: ArtifactKind) -> bool {
    kind == ArtifactKind::Bat || kind == ArtifactKind::Cmd || kind == ArtifactKind::Ps1 || kind
        == ArtifactKind::Vbs || kind == ArtifactKind::Js || kind == ArtifactKind::Ini || kind
        == ArtifactKind::Cfg || kind == ArtifactKind::Json || kind == ArtifactKind::Yml || kind
        == ArtifactKind::Yaml || kind == ArtifactKind::Txt || kind == ArtifactKind::Log
}

/// How many bytes a preview reads.
pub open spec fn probe_length(mode: ScanMode, kind: ArtifactKind) -> usize {
    if mode == ScanMode::Deep {
        if kind == ArtifactKind::Iso {
            DEEP_ISO_PREVIEW_BYTES
        } else {
            DEEP_PREVIEW_BYTES
        }
    } else if kind == ArtifactKind::Iso {
        FAST_ISO_PREVIEW_BYTES
    } else if pe_kind(kind) || packed_kind(kind) {
        4096
    } else if written_kind(kind) {
        8192
    } else {
        FAST_PREVIEW_BYTES
    }
}

pub fn preview_probe_length(mode: ScanMode, kind: ArtifactKind) -> (r: usize)
    ensures
        r == probe_length(mode, kind),
{
    match mode {
        ScanMode::Deep => match kind {
            ArtifactKind::Iso => DEEP_ISO_PREVIEW_BYTES,
            _ => DEEP_PREVIEW_BYTES,
        },
        ScanMode::Fast => match kind {
            ArtifactKind::Iso => FAST_ISO_PREVIEW_BYTES,
            ArtifactKind::Exe
            | ArtifactKind::Dll
            | ArtifactKind::Sys
            | ArtifactKind::Scr
            | ArtifactKind::Ocx
            | ArtifactKind::Cpl
            | ArtifactKind::Pe => 4096,
            ArtifactKind::Zip
            | ArtifactKind::Jar
            | ArtifactKind::Apk
            | ArtifactKind::Rar
            | ArtifactKind::SevenZip
            | ArtifactKind::Cab
            | ArtifactKind::Tar
            | ArtifactKind::Gzip
            | ArtifactKind::Bzip2
            | ArtifactKind::Xz
            | ArtifactKind::Pdf
            | ArtifactKind::Sqlite
            | ArtifactKind::Msi
            | ArtifactKind::OleCompound => 4096,
            ArtifactKind::Bat
            | ArtifactKind::Cmd
            | ArtifactKind::Ps1
            | ArtifactKind::Vbs
            | ArtifactKind::Js
            | ArtifactKind::Ini
            | ArtifactKind::Cfg
            | ArtifactKind::Json
            | ArtifactKind::Yml
            | ArtifactKind::Yaml
            | ArtifactKind::Txt
            | ArtifactKind::Log => 8192,
            _ => FAST_PREVIEW_BYTES,
        },
    }
}

/// How far a record of the file table has been confirmed.
pub open spec fn record_class(v: ArtifactView) -> ArtifactClass {
    if v.is_fragment || v.origin_type == OriginType::PartialFragment {
        ArtifactClass::FragmentCandidate
    } else if recoverable(v) {
        ArtifactClass::Recoverable
    } else if v.preview_ready || !generic_kind(v.kind) {
        ArtifactClass::ValidatedHit
    } else {
        ArtifactClass::NamedMetadataCandidate
    }
}

pub fn classify_ntfs_record(record: &ArtifactRecord) -> (r: ArtifactClass)
    ensures
        r == record_class(record@),
{
    if record.is_fragment || record.origin_type == OriginType::PartialFragment {
        return ArtifactClass::FragmentCandidate;
    }
    if record.recoverability == Recoverability::Good || record.recoverability
        == Recoverability::Partial {
        return ArtifactClass::Recoverable;
    }
    if record.preview_ready || !is_generic_kind(record.kind) {
        return ArtifactClass::ValidatedHit;
    }
    ArtifactClass::NamedMetadataCandidate
}

/// A generated name makes a record less sure.
pub open spec fn generated_confidence(v: ArtifactView) -> Confidence {
    if v.name_source == NameSourceKind::Generated {
        if v.original_path is Some {
            Confidence::Medium
        } else {
            Confidence::Low
        }
    } else {
        v.confidence
    }
}

pub fn apply_generated_name_confidence(record: &mut ArtifactRecord)
    ensures
        *final(record) == (ArtifactRecord {
            confidence: generated_confidence(old(record)@),
            ..*old(record)
        }),
{
    if record.name_source == NameSourceKind::Generated {
        record.confidence =
        if record.original_path.is_some() {
            Confidence::Medium
        } else {
            Confidence::Low
        };
    }
}

// ---------------------------------------------------------------------------
// Default extensions.

/// The extension that a record of a kind gets where its name has none.
pub open spec fn default_extension(kind: ArtifactKind) -> Option<Seq<char>> {
    match kind {
        ArtifactKind::Exe | ArtifactKind::Pe => Some("exe"@),
        ArtifactKind::Dll => Some("dll"@),
        ArtifactKind::Sys => Some("sys"@),
        ArtifactKind::Msi => Some("msi"@),
        ArtifactKind::Jar => Some("jar"@),
        ArtifactKind::Zip => Some("zip"@),
        ArtifactKind::Rar => Some("rar"@),
        ArtifactKind::SevenZip => Some("7z"@),
        ArtifactKind::Cab => Some("cab"@),
        ArtifactKind::Iso => Some("iso"@),
        ArtifactKind::Apk => Some("apk"@),
        ArtifactKind::Pdf => Some("pdf"@),
        ArtifactKind::Png => Some("png"@),
        ArtifactKind::Jpg => Some("jpg"@),
        ArtifactKind::Gif => Some("gif"@),
        ArtifactKind::Sqlite => Some("sqlite3"@),
        ArtifactKind::Bat => Some("bat"@),
        ArtifactKind::Cmd => Some("cmd"@),
        ArtifactKind::Ps1 => Some("ps1"@),
        ArtifactKind::Vbs => Some("vbs"@),
        ArtifactKind::Js => Some("js"@),
        ArtifactKind::Ini => Some("ini"@),
        ArtifactKind::Cfg => Some("cfg"@),
        ArtifactKind::Json => Some("json"@),
        ArtifactKind::Yml => Some("yml"@),
        ArtifactKind::Yaml => Some("yaml"@),
        ArtifactKind::Txt => Some("txt"@),
        ArtifactKind::Log => Some("log"@),
        _ => None,
    }
}

pub fn default_extension_for_kind(kind: ArtifactKind) -> (r: Option<&'static str>)
    ensures
        match default_extension(kind) {
            Some(ext) => r matches Some(s) && s@ == ext,
            None => r is None,
        },
{
    match kind {
        ArtifactKind::Exe | ArtifactKind::Pe => Some("exe"),
        ArtifactKind::Dll => Some("dll"),
        ArtifactKind::Sys => Some("sys"),
        ArtifactKind::Msi => Some("msi"),
        ArtifactKind::Jar => Some("jar"),
        ArtifactKind::Zip => Some("zip"),
        ArtifactKind::Rar => Some("rar"),
        ArtifactKind::SevenZip => Some("7z"),
        ArtifactKind::Cab => Some("cab"),
        ArtifactKind::Iso => Some("iso"),
        ArtifactKind::Apk => Some("apk"),
        ArtifactKind::Pdf => Some("pdf"),
        ArtifactKind::Png => Some("png"),
        ArtifactKind::Jpg => Some("jpg"),
        ArtifactKind::Gif => Some("gif"),
        ArtifactKind::Sqlite => Some("sqlite3"),
        ArtifactKind::Bat => Some("bat"),
        ArtifactKind::Cmd => Some("cmd"),
        ArtifactKind::Ps1 => Some("ps1"),
        ArtifactKind::Vbs => Some("vbs"),
        ArtifactKind::Js => Some("js"),
        ArtifactKind::Ini => Some("ini"),
        ArtifactKind::Cfg => Some("cfg"),
        ArtifactKind::Json => Some("json"),
        ArtifactKind::Yml => Some("yml"),
        ArtifactKind::Yaml => Some("yaml"),
        ArtifactKind::Txt => Some("txt"),
        ArtifactKind::Log => Some("log"),
        _ => None,
    }
}

// ---------------------------------------------------------------------------
// Facts of a preview.

/// Adds a fact.
pub fn push_fact(facts: &mut Vec<PreviewFact>, label: &str, value: String)
    ensures
        fact_views(final(facts)@) == fact_views(old(facts)@).push(fact(label@, value@)),
{
    facts.push(PreviewFact { label: owned(label), value });
    assert(fact_views(facts@) =~= fact_views(old(facts)@).push(fact(label@, value@)));
}

/// The processor that a PE header names.
pub open spec fn machine_name(machine: int) -> Seq<char> {
    if machine == 0x014c {
        "x86"@
    } else if machine == 0x8664 {
        "x64"@
    } else if machine == 0x01c4 {
        "ARM"@
    } else if machine == 0xaa64 {
        "ARM64"@
    } else {
        "unknown"@
    }
}

fn name_of_machine(machine: u16) -> (r: &'static str)
    ensures
        r@ == machine_name(machine as int),
{
    if machine == 0x014c {
        "x86"
    } else if machine == 0x8664 {
        "x64"
    } else if machine == 0x01c4 {
        "ARM"
    } else if machine == 0xaa64 {
        "ARM64"
    } else {
        "unknown"
    }
}

/// Seconds since 1970 in nanoseconds.
pub open spec fn unix_nanos(seconds: int) -> i128 {
    (seconds * 1_000_000_000) as i128
}

/// The processor, the compile time and the number of sections of a PE header.
pub open spec fn pe_facts(bytes: Seq<u8>) -> Option<(Seq<char>, Seq<char>, u16)> {
    let at = le32(bytes, 0x3c);
    if bytes.len() < 0x40 || bytes.len() < at + 24 || !occurs_at(
        bytes,
        seq![0x50u8, 0x45, 0, 0],
        at,
    ) {
        None
    } else {
        match rfc3339_text(unix_nanos(le32(bytes, at + 8))) {
            Some(time) => Some((machine_name(le16(bytes, at + 4)), time, le16(bytes, at + 6) as u16)),
            None => None,
        }
    }
}

pub fn parse_pe_preview(bytes: &[u8]) -> (r: Option<(String, String, u16)>)
    ensures
        match pe_facts(bytes@) {
            Some((machine, time, sections)) => r matches Some((m, t, n)) && m@ == machine && t@
                == time && n == sections,
            None => r is None,
        },
{
    let n: usize = bytes.len();
    if n < 0x40 {
        return None;
    }
    let at: u32 = read_le32(bytes, 0x3c);
    if at as u64 > (n - 24) as u64 {
        return None;
    }
    let at: usize = at as usize;
    if !matches_at(bytes, &[0x50, 0x45, 0, 0], at) {
        return None;
    }
    let machine: u16 = read_le16(bytes, at + 4);
    let sections: u16 = read_le16(bytes, at + 6);
    let seconds: u32 = read_le32(bytes, at + 8);
    match format_rfc3339(seconds as i128 * 1_000_000_000) {
        Some(time) => Some((owned(name_of_machine(machine)), time, sections)),
        None => None,
    }
}

/// What the signature of a content is called.
pub open spec fn signature_name(kind: ArtifactKind) -> Option<Seq<char>> {
    match kind {
        ArtifactKind::Exe | ArtifactKind::Dll | ArtifactKind::Sys | ArtifactKind::Pe => Some(
            "MZ / PE image"@,
        ),
        ArtifactKind::Jar | ArtifactKind::Apk | ArtifactKind::Zip => Some("ZIP local header"@),
        ArtifactKind::Rar => Some("RAR archive"@),
        ArtifactKind::SevenZip => Some("7-Zip archive"@),
        ArtifactKind::Cab => Some("Microsoft Cabinet"@),
        ArtifactKind::Pdf => Some("PDF document"@),
        ArtifactKind::Png => Some("PNG image"@),
        ArtifactKind::Jpg => Some("JPEG image"@),
        ArtifactKind::Gif => Some("GIF image"@),
        ArtifactKind::Sqlite => Some("SQLite database"@),
        ArtifactKind::Msi => Some("OLE Compound / MSI database"@),
        ArtifactKind::OleCompound => Some("OLE Compound"@),
        ArtifactKind::Iso => Some("ISO 9660 primary volume descriptor"@),
        _ => None,
    }
}

fn name_of_signature(kind: ArtifactKind) -> (r: Option<&'static str>)
    ensures
        match signature_name(kind) {
            Some(name) => r matches Some(s) && s@ == name,
            None => r is None,
        },
{
    match kind {
        ArtifactKind::Exe | ArtifactKind::Dll | ArtifactKind::Sys | ArtifactKind::Pe => Some(
            "MZ / PE image",
        ),
        ArtifactKind::Jar | ArtifactKind::Apk | ArtifactKind::Zip => Some("ZIP local header"),
        ArtifactKind::Rar => Some("RAR archive"),
        ArtifactKind::SevenZip => Some("7-Zip archive"),
        ArtifactKind::Cab => Some("Microsoft Cabinet"),
        ArtifactKind::Pdf => Some("PDF document"),
        ArtifactKind::Png => Some("PNG image"),
        ArtifactKind::Jpg => Some("JPEG image"),
        ArtifactKind::Gif => Some("GIF image"),
        ArtifactKind::Sqlite => Some("SQLite database"),
        ArtifactKind::Msi => Some("OLE Compound / MSI database"),
        ArtifactKind::OleCompound => Some("OLE Compound"),
        ArtifactKind::Iso => Some("ISO 9660 primary volume descriptor"),
        _ => None,
    }
}

/// What is told beside the signature: the subtype of a ZIP archive, the header of a PE image.
pub open spec fn detail_facts(kind: ArtifactKind, bytes: Seq<u8>) -> Seq<FactView> {
    if kind == ArtifactKind::Jar {
        seq![fact("Subtype"@, "JAR"@)]
    } else if kind == ArtifactKind::Apk {
        seq![fact("Subtype"@, "APK"@)]
    } else if kind == ArtifactKind::Exe || kind == ArtifactKind::Dll || kind == ArtifactKind::Sys
        || kind == ArtifactKind::Pe {
        match pe_facts(bytes) {
            Some((machine, time, sections)) => seq![
                fact("Machine"@, machine),
                fact("Compile Time"@, time),
                fact("Sections"@, decimal(sections as nat)),
            ],
            None => seq![],
        }
    } else {
        seq![]
    }
}

/// The facts of a preview that was captured at a given time.
pub open spec fn facts_of(bytes: Seq<u8>, captured_at: Seq<char>) -> Seq<FactView> {
    let kind = inferred_kind("preview.bin"@, Some(bytes));
    (match signature_name(kind) {
        Some(name) => seq![fact("Signature"@, name)] + detail_facts(kind, bytes),
        None => seq![],
    }).push(fact("Preview Captured"@, captured_at))
}

/// The facts of a preview that was captured at a given time.
pub fn preview_facts_at(bytes: &[u8], captured_at: String) -> (r: Vec<PreviewFact>)
    ensures
        fact_views(r@) == facts_of(bytes@, captured_at@),
{
    let kind = infer_artifact_kind("preview.bin", Some(bytes));
    let mut facts: Vec<PreviewFact> = Vec::new();
    assert(fact_views(facts@) =~= seq![]);
    if let Some(name) = name_of_signature(kind) {
        push_fact(&mut facts, "Signature", owned(name));
        let ghost head = fact_views(facts@);
        assert(head =~= seq![fact("Signature"@, name@)]);
        if kind == ArtifactKind::Jar {
            push_fact(&mut facts, "Subtype", owned("JAR"));
        } else if kind == ArtifactKind::Apk {
            push_fact(&mut facts, "Subtype", owned("APK"));
        } else if kind == ArtifactKind::Exe || kind == ArtifactKind::Dll || kind
            == ArtifactKind::Sys || kind == ArtifactKind::Pe {
            if let Some((machine, time, sections)) = parse_pe_preview(bytes) {
                push_fact(&mut facts, "Machine", machine);
                push_fact(&mut facts, "Compile Time", time);
                push_fact(&mut facts, "Sections", decimal_string(sections as u64));
            }
        }
        assert(fact_views(facts@) =~= head + detail_facts(kind, bytes@));
    }
    push_fact(&mut facts, "Preview Captured", captured_at);
    facts
}

/// The facts of a preview that is captured now.
pub fn preview_facts(bytes: &[u8]) -> (r: Vec<PreviewFact>)
    ensures
        exists|nanos: i128| fact_views(r@) == facts_of(bytes@, #[trigger] iso_text(nanos)),
{
    preview_facts_at(bytes, now_iso())
}

// ---------------------------------------------------------------------------
// Laws.

/// Runs that are all free are good, and a run in use never is.
pub proof fn lemma_good_means_free(bitmap: VolumeBitmap, runs: Seq<ByteRun>, i: int)
    requires
        assessed(Some(bitmap), runs) == Recoverability::Good,
        0 <= i < runs.len(),
        !runs[i].sparse,
    ensures
        range_covered(bitmap.extents@, runs[i].offset, runs[i].length),
{
    assert(!is_taken(bitmap.extents@, runs[i]));
}

} // verus!
