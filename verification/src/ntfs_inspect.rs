//! From a deleted record of the master file table to the record of a file.

use crate::browse_cache::{extension, plain_extension};
use crate::bytes::{push_bytes, push_zeros, zero_bytes};
use crate::clock::{format_time, iso_text, now_iso, time_text};
use crate::codec::{base64_bytes, base64_text, encode_base64};
use crate::kinds::{
    infer_artifact_kind, infer_artifact_kind_from_bytes, inferred_kind, is_scan_id, signature_kind,
};
use crate::model::{
    clone_path_evidences, family_of, family_score, ArtifactFamily, ArtifactKind, ArtifactRecord,
    ByteRun, Confidence, ContentSourceKind, DeletedTimeConfidence, DeletedTimeSource,
    NameSourceKind, PathConfidence, PlacementKind, Recoverability, RecoveryPlan, ScanMode,
    ScanSource,
};
use crate::ntfs_names::{
    best_candidate, classify_name_source, collect_file_name_candidates, name_candidates,
    name_context, name_source_of, names_seen, select_best_name_candidate, CandidateView,
    FileNameAttribute, FileNameCandidate, NamedRecord,
};
use crate::ntfs_paths::{normalize_path, normalized_path, MftIndex, PathCache};
use crate::ntfs_records::{
    logical_size, ntfs_primary_logical_size, byte_runs, convert_runs, assessed, bitmap_view,
    bitmap_ok, assess_recoverability, worth_enriching, should_enrich_deleted_record,
    kept_by_fast_scan, keep_fast_record, preview_wanted, should_capture_preview, probe_length,
    preview_probe_length, record_class, classify_ntfs_record, generated_confidence,
    apply_generated_name_confidence, default_extension, default_extension_for_kind, facts_of,
    preview_facts_at,
};
use crate::numbers::{decimal, push_decimal};
use crate::records::{fresh_view, lemma_fresh_view, plan_view, push_note, ArtifactView, PlanView};
use crate::text::{clone_opt, first_of, opt_view, or_else, owned};
use crate::volume::{DataAttribute, DataRun, NtfsDataStream, VolumeBitmap};
use vstd::prelude::*;
use vstd::string::*;

verus! {

// ---------------------------------------------------------------------------
// The record of a deleted file.

/// A file record of the master file table that is no longer in use.
#[derive(Debug)]
pub struct DeletedFileRecord {
    pub number: u64,
    /// The bitmap of the table still marks the slot.
    pub slot_marked: bool,
    pub named: NamedRecord,
    pub data: Vec<DataAttribute>,
    pub stream: Option<NtfsDataStream>,
    /// The path and the times that the standard information gives.
    pub info_path: String,
    pub info_created: Option<i128>,
    pub info_modified: Option<i128>,
}

/// The name of a record that has none.
pub open spec fn generated_for(number: u64) -> Seq<char> {
    "deleted_record_"@ + decimal(number as nat)
}

pub open spec fn freed_slot_note() -> Seq<char> {
    "Recovered from a freed MFT slot; metadata may be stale or partially overwritten."@
}

/// The record under the name of a candidate, before its content is looked at.
pub open spec fn named_view(
    id: Seq<char>,
    scan_id: Seq<char>,
    source_id: Seq<char>,
    file: DeletedFileRecord,
    c: CandidateView,
) -> ArtifactView {
    ArtifactView {
        filesystem_record: Some(file.number),
        size: logical_size(file.data@),
        original_path: c.original_path,
        probable_path: c.probable_path,
        extension: plain_extension(c.name),
        name_source: name_source_of(c, generated_for(file.number)),
        path_evidence: c.path_evidence,
        created_at: c.created_at,
        modified_at: c.modified_at,
        last_metadata_change_at: c.last_metadata_change_at,
        parent_reference: if c.parent_reference != 0 {
            Some(c.parent_reference)
        } else {
            None
        },
        confidence: if c.original_path is Some {
            Confidence::High
        } else {
            Confidence::Medium
        },
        placement_kind: c.placement_kind,
        path_confidence: c.path_confidence,
        notes: if file.slot_marked {
            seq![]
        } else {
            seq![freed_slot_note()]
        },
        ..fresh_view(id, scan_id, source_id, c.name)
    }
}

fn named_record(
    scan_id: &str,
    source_id: &str,
    file: &DeletedFileRecord,
    candidate: &FileNameCandidate,
    fallback_name: &str,
) -> (r: ArtifactRecord)
    requires
        fallback_name@ == generated_for(file.number),
    ensures
        is_scan_id(r@.id),
        r@ == named_view(r@.id, scan_id@, source_id@, *file, candidate@),
{
    let mut record = ArtifactRecord::new(scan_id, source_id, candidate.name.as_str());
    proof {
        lemma_fresh_view(record, scan_id@, source_id@, candidate.name@);
    }
    record.filesystem_record = Some(file.number);
    record.size = ntfs_primary_logical_size(&file.data);
    record.original_path = clone_opt(&candidate.original_path);
    record.probable_path = clone_opt(&candidate.probable_path);
    record.extension = extension(candidate.name.as_str());
    record.name_source = classify_name_source(candidate, fallback_name);
    record.path_evidence = clone_path_evidences(&candidate.path_evidence);
    record.created_at = clone_opt(&candidate.created_at);
    record.modified_at = clone_opt(&candidate.modified_at);
    record.last_metadata_change_at = clone_opt(&candidate.last_metadata_change_at);
    if candidate.parent_reference != 0 {
        record.parent_reference = Some(candidate.parent_reference);
    }
    if record.original_path.is_some() {
        record.confidence = Confidence::High;
    }
    record.placement_kind = candidate.placement_kind;
    record.path_confidence = candidate.path_confidence;
    if !file.slot_marked {
        record.notes.push(
            owned(
                "Recovered from a freed MFT slot; metadata may be stale or partially overwritten.",
            ),
        );
    }
    assert(record@ =~= named_view(record.id@, scan_id@, source_id@, *file, candidate@));
    record
}

/// The first run that is no hole.
pub open spec fn first_data_run(runs: Seq<DataRun>) -> Option<(u64, u64)>
    decreases runs.len(),
{
    if runs.len() == 0 {
        None
    } else {
        match runs[0] {
            DataRun::Data { lcn, length } => Some((lcn, length)),
            DataRun::Sparse { length } => first_data_run(runs.drop_first()),
        }
    }
}

fn find_data_run(runs: &Vec<DataRun>) -> (r: Option<(u64, u64)>)
    ensures
        r == first_data_run(runs@),
{
    let mut i: usize = 0;
    assert(runs@.subrange(0, runs@.len() as int) =~= runs@);
    while i < runs.len()
        invariant
            i <= runs@.len(),
            first_data_run(runs@) == first_data_run(
                runs@.subrange(i as int, runs@.len() as int),
            ),
        decreases runs@.len() - i,
    {
        assert(runs@.subrange(i as int, runs@.len() as int).drop_first() =~= runs@.subrange(
            i + 1,
            runs@.len() as int,
        ));
        match runs[i] {
            DataRun::Data { lcn, length } => {
                return Some((lcn, length));
            },
            DataRun::Sparse { length: _ } => {},
        }
        i += 1;
    }
    None
}

/// The record of a file whose content stands in the file table.
pub open spec fn resident_view(v: ArtifactView, bytes: Seq<u8>) -> ArtifactView {
    ArtifactView {
        size: bytes.len() as u64,
        recoverability: Recoverability::Good,
        content_source: ContentSourceKind::ResidentData,
        ..v
    }
}

/// The record of a file whose content lies in runs of clusters.
pub open spec fn runs_view(
    v: ArtifactView,
    logical_size: u64,
    runs: Seq<DataRun>,
    bitmap: Option<VolumeBitmap>,
) -> ArtifactView {
    let first = first_data_run(runs);
    let recoverability = assessed(bitmap, byte_runs(runs));
    ArtifactView {
        size: logical_size,
        raw_offset: match first {
            Some((lcn, length)) => Some(lcn),
            None => v.raw_offset,
        },
        raw_length: match first {
            Some((lcn, length)) => Some(length),
            None => v.raw_length,
        },
        recoverability,
        content_source: ContentSourceKind::RawRuns,
        notes: if recoverability != Recoverability::Good {
            v.notes.push("One or more NTFS data runs are currently allocated or sparse."@)
        } else {
            v.notes
        },
        ..v
    }
}

/// The record of a file without content.
pub open spec fn empty_view(v: ArtifactView) -> ArtifactView {
    ArtifactView {
        confidence: Confidence::Low,
        recoverability: Recoverability::Poor,
        notes: v.notes.push("Deleted record has no readable $DATA attribute."@),
        ..v
    }
}

/// The record with what its content says.
pub open spec fn streamed_view(
    v: ArtifactView,
    stream: Option<NtfsDataStream>,
    bitmap: Option<VolumeBitmap>,
) -> ArtifactView {
    match stream {
        Some(NtfsDataStream::Resident(bytes)) => resident_view(v, bytes@),
        Some(NtfsDataStream::NonResident { logical_size, runs }) => runs_view(
            v,
            logical_size,
            runs@,
            bitmap,
        ),
        None => empty_view(v),
    }
}

/// How the content of a file is recovered.
pub open spec fn stream_plan(stream: Option<NtfsDataStream>, device_path: Seq<char>) -> PlanView {
    match stream {
        Some(NtfsDataStream::Resident(bytes)) => PlanView::ResidentBase64 {
            base64: base64_text(bytes@),
            logical_size: bytes@.len() as u64,
        },
        Some(NtfsDataStream::NonResident { logical_size, runs }) => PlanView::RawRuns {
            source_path: device_path,
            runs: byte_runs(runs@),
            logical_size,
        },
        None => PlanView::Unrecoverable {
            reason: "Deleted record has no readable $DATA attribute"@,
        },
    }
}

/// A plan asks for all bytes of the content, as many as are shown as the size of the file, from
/// the places where they lie.
pub open spec fn asks_for_the_stream(
    plan: RecoveryPlan,
    size: u64,
    stream: Option<NtfsDataStream>,
    device_path: Seq<char>,
) -> bool {
    match (stream, plan) {
        (
            Some(NtfsDataStream::Resident(bytes)),
            RecoveryPlan::ResidentBase64 { base64, logical_size },
        ) => logical_size == bytes@.len() && size == bytes@.len(),
        (
            Some(NtfsDataStream::NonResident { logical_size: whole, runs: held }),
            RecoveryPlan::RawRuns { source_path, runs, logical_size },
        ) => {
            &&& logical_size == whole && size == whole
            &&& source_path@ == device_path
            &&& runs@.len() == held@.len()
            &&& forall|k: int|
                0 <= k < runs@.len() ==> match held@[k] {
                    DataRun::Data { lcn, length } => !(#[trigger] runs@[k]).sparse && runs@[k].offset
                        == lcn && runs@[k].length == length,
                    DataRun::Sparse { length } => runs@[k].sparse && runs@[k].length == length,
                }
        },
        (None, RecoveryPlan::Unrecoverable { reason }) => true,
        _ => false,
    }
}

/// A plan that holds resident content gives it back.
pub open spec fn keeps_content(plan: RecoveryPlan, stream: Option<NtfsDataStream>) -> bool {
    stream matches Some(NtfsDataStream::Resident(bytes)) ==> (plan matches
        RecoveryPlan::ResidentBase64 { base64, logical_size } && base64_bytes(base64@) == Some(
        bytes@,
    ))
}

fn add_resident(record: &mut ArtifactRecord, bytes: &Vec<u8>)
    ensures
        final(record)@ == resident_view(old(record)@, bytes@),
{
    record.size = bytes.len() as u64;
    record.recoverability = Recoverability::Good;
    record.content_source = ContentSourceKind::ResidentData;
}

fn add_runs(
    record: &mut ArtifactRecord,
    logical_size: u64,
    runs: &Vec<DataRun>,
    bitmap: Option<&VolumeBitmap>,
) -> (r: Vec<ByteRun>)
    requires
        bitmap_ok(bitmap),
    ensures
        final(record)@ == runs_view(old(record)@, logical_size, runs@, bitmap_view(bitmap)),
        r@ == byte_runs(runs@),
{
    record.size = logical_size;
    if let Some((lcn, length)) = find_data_run(runs) {
        record.raw_offset = Some(lcn);
        record.raw_length = Some(length);
    }
    let converted = convert_runs(runs);
    let recoverability = assess_recoverability(bitmap, &converted);
    record.recoverability = recoverability;
    record.content_source = ContentSourceKind::RawRuns;
    if recoverability != Recoverability::Good {
        push_note(record, "One or more NTFS data runs are currently allocated or sparse.");
    }
    converted
}

fn add_nothing(record: &mut ArtifactRecord)
    ensures
        final(record)@ == empty_view(old(record)@),
{
    record.confidence = Confidence::Low;
    record.recoverability = Recoverability::Poor;
    push_note(record, "Deleted record has no readable $DATA attribute.");
}

fn add_stream(
    record: &mut ArtifactRecord,
    stream: &Option<NtfsDataStream>,
    bitmap: Option<&VolumeBitmap>,
    device_path: &str,
) -> (r: RecoveryPlan)
    requires
        bitmap_ok(bitmap),
    ensures
        final(record)@ == streamed_view(old(record)@, *stream, bitmap_view(bitmap)),
        plan_view(r) == stream_plan(*stream, device_path@),
        keeps_content(r, *stream),
        asks_for_the_stream(r, final(record)@.size, *stream, device_path@),
{
    match stream {
        Some(NtfsDataStream::Resident(bytes)) => {
            add_resident(record, bytes);
            RecoveryPlan::ResidentBase64 {
                base64: encode_base64(bytes.as_slice()),
                logical_size: bytes.len() as u64,
            }
        },
        Some(NtfsDataStream::NonResident { logical_size, runs }) => {
            let converted = add_runs(record, *logical_size, runs, bitmap);
            RecoveryPlan::RawRuns {
                source_path: owned(device_path),
                runs: converted,
                logical_size: *logical_size,
            }
        },
        None => {
            add_nothing(record);
            RecoveryPlan::Unrecoverable {
                reason: owned("Deleted record has no readable $DATA attribute"),
            }
        },
    }
}

/// The record under the name of a candidate whose path was looked up.
pub open spec fn renamed_view(
    v: ArtifactView,
    file: DeletedFileRecord,
    c: CandidateView,
) -> ArtifactView {
    ArtifactView {
        name: c.name,
        original_path: c.original_path,
        probable_path: c.probable_path,
        extension: plain_extension(c.name),
        name_source: name_source_of(c, generated_for(file.number)),
        placement_kind: c.placement_kind,
        path_confidence: c.path_confidence,
        path_evidence: c.path_evidence,
        created_at: or_else(time_text(file.info_created), or_else(c.created_at, v.created_at)),
        modified_at: or_else(time_text(file.info_modified), or_else(c.modified_at, v.modified_at)),
        last_metadata_change_at: or_else(c.last_metadata_change_at, v.last_metadata_change_at),
        parent_reference: if c.parent_reference != 0 {
            Some(c.parent_reference)
        } else {
            None
        },
        ..v
    }
}

fn rename_record(
    record: &mut ArtifactRecord,
    file: &DeletedFileRecord,
    candidate: &FileNameCandidate,
    fallback_name: &str,
)
    requires
        fallback_name@ == generated_for(file.number),
    ensures
        final(record)@ == renamed_view(old(record)@, *file, candidate@),
{
    record.name = candidate.name.clone();
    record.original_path = clone_opt(&candidate.original_path);
    record.probable_path = clone_opt(&candidate.probable_path);
    record.extension = extension(candidate.name.as_str());
    record.name_source = classify_name_source(candidate, fallback_name);
    record.placement_kind = candidate.placement_kind;
    record.path_confidence = candidate.path_confidence;
    record.path_evidence = clone_path_evidences(&candidate.path_evidence);
    record.created_at = first_of(clone_opt(&candidate.created_at), &record.created_at);
    record.modified_at = first_of(clone_opt(&candidate.modified_at), &record.modified_at);
    record.last_metadata_change_at =
    first_of(clone_opt(&candidate.last_metadata_change_at), &record.last_metadata_change_at);
    record.parent_reference =
    if candidate.parent_reference != 0 {
        Some(candidate.parent_reference)
    } else {
        None
    };
    record.created_at = first_of(format_time(file.info_created), &record.created_at);
    record.modified_at = first_of(format_time(file.info_modified), &record.modified_at);
    assert(record@ =~= renamed_view(old(record)@, *file, candidate@));
}

/// The kind that the first bytes of a content give, under a name.
pub open spec fn previewed_kind(name: Seq<char>, bytes: Seq<u8>) -> ArtifactKind {
    let by_signature = match signature_kind(bytes) {
        Some(kind) => kind,
        None => ArtifactKind::Unknown,
    };
    if bytes.len() == 0 || by_signature == ArtifactKind::Unknown {
        ArtifactKind::Unknown
    } else {
        inferred_kind(name, Some(bytes))
    }
}

pub open spec fn weak_signature_note() -> Seq<char> {
    "Preview bytes did not preserve a stronger signature than the surviving filename metadata."@
}

pub open spec fn unconfirmed_note() -> Seq<char> {
    "Deep validation did not confirm the filename-derived type from the available header bytes."@
}

pub open spec fn header_family(family: ArtifactFamily) -> bool {
    family == ArtifactFamily::Executable || family == ArtifactFamily::Archive || family
        == ArtifactFamily::Database || family == ArtifactFamily::Container
}

/// The record with what the first bytes of its content say of its kind.
pub open spec fn kind_checked_view(v: ArtifactView, mode: ScanMode, bytes: Seq<u8>) -> ArtifactView {
    let kind = previewed_kind(v.name, bytes);
    if bytes.len() == 0 && v.kind != ArtifactKind::Unknown {
        v
    } else if kind != ArtifactKind::Unknown || v.kind == ArtifactKind::Unknown {
        ArtifactView {
            kind,
            family: family_of(kind),
            priority_score: family_score(family_of(kind)),
            ..v
        }
    } else if mode == ScanMode::Deep && header_family(v.family) {
        ArtifactView {
            confidence: if v.confidence == Confidence::High {
                Confidence::Medium
            } else {
                v.confidence
            },
            notes: v.notes.push(weak_signature_note()).push(unconfirmed_note()),
            ..v
        }
    } else {
        ArtifactView { notes: v.notes.push(weak_signature_note()), ..v }
    }
}

fn check_kind(record: &mut ArtifactRecord, mode: ScanMode, bytes: &[u8])
    ensures
        final(record)@ == kind_checked_view(old(record)@, mode, bytes@),
{
    let no_bytes: bool = bytes.len() == 0;
    if no_bytes && record.kind != ArtifactKind::Unknown {
        return;
    }
    let kind: ArtifactKind = if no_bytes || infer_artifact_kind_from_bytes(bytes)
        == ArtifactKind::Unknown {
        ArtifactKind::Unknown
    } else {
        infer_artifact_kind(record.name.as_str(), Some(bytes))
    };
    if kind != ArtifactKind::Unknown || record.kind == ArtifactKind::Unknown {
        record.kind = kind;
        record.family = kind.family();
        record.priority_score = kind.priority_score();
    } else {
        push_note(
            record,
            "Preview bytes did not preserve a stronger signature than the surviving filename metadata.",
        );
        if mode == ScanMode::Deep && (record.family == ArtifactFamily::Executable || record.family
            == ArtifactFamily::Archive || record.family == ArtifactFamily::Database
            || record.family == ArtifactFamily::Container) {
            if record.confidence == Confidence::High {
                record.confidence = Confidence::Medium;
            }
            push_note(
                record,
                "Deep validation did not confirm the filename-derived type from the available header bytes.",
            );
        }
    }
}

pub open spec fn no_path_note() -> Seq<char> {
    "Original path could not be reconstructed from surviving $FILE_NAME metadata."@
}

pub open spec fn probable_path_note() -> Seq<char> {
    "A probable path was reconstructed from MFT record numbers, but one or more parent sequence values no longer match."@
}

/// The record with what its path says.
pub open spec fn path_checked_view(v: ArtifactView) -> ArtifactView {
    if v.original_path is Some {
        ArtifactView {
            confidence: Confidence::High,
            placement_kind: PlacementKind::OriginalPath,
            path_confidence: PathConfidence::Exact,
            ..v
        }
    } else if v.probable_path is Some {
        ArtifactView { notes: v.notes.push(no_path_note()).push(probable_path_note()), ..v }
    } else {
        ArtifactView { notes: v.notes.push(no_path_note()), ..v }
    }
}

fn check_path(record: &mut ArtifactRecord)
    ensures
        final(record)@ == path_checked_view(old(record)@),
{
    if record.original_path.is_none() {
        push_note(
            record,
            "Original path could not be reconstructed from surviving $FILE_NAME metadata.",
        );
        if record.probable_path.is_some() {
            push_note(
                record,
                "A probable path was reconstructed from MFT record numbers, but one or more parent sequence values no longer match.",
            );
        }
    } else {
        record.confidence = Confidence::High;
        record.placement_kind = PlacementKind::OriginalPath;
        record.path_confidence = PathConfidence::Exact;
    }
}

/// The record with the facts of its preview, which a deep scan keeps.
pub open spec fn shown_view(
    v: ArtifactView,
    mode: ScanMode,
    bytes: Seq<u8>,
    captured_at: Seq<char>,
) -> ArtifactView {
    ArtifactView {
        preview: if mode == ScanMode::Deep && bytes.len() > 0 {
            facts_of(bytes, captured_at)
        } else {
            v.preview
        },
        preview_ready: bytes.len() > 0,
        ..v
    }
}

fn show(record: &mut ArtifactRecord, mode: ScanMode, bytes: &[u8], captured_at: String)
    ensures
        final(record)@ == shown_view(old(record)@, mode, bytes@, captured_at@),
{
    if mode == ScanMode::Deep && bytes.len() > 0 {
        record.preview = preview_facts_at(bytes, captured_at);
    }
    record.preview_ready = bytes.len() > 0;
}

/// The record after a closer look at the first bytes of its content.
pub open spec fn previewed_view(
    v: ArtifactView,
    mode: ScanMode,
    bytes: Seq<u8>,
    captured_at: Seq<char>,
) -> ArtifactView {
    path_checked_view(shown_view(kind_checked_view(v, mode, bytes), mode, bytes, captured_at))
}

fn add_preview(record: &mut ArtifactRecord, mode: ScanMode, bytes: &[u8], captured_at: String)
    ensures
        final(record)@ == previewed_view(old(record)@, mode, bytes@, captured_at@),
{
    check_kind(record, mode, bytes);
    show(record, mode, bytes, captured_at);
    check_path(record);
}

/// The record with a place that fits its paths.
pub open spec fn placed_view(v: ArtifactView) -> ArtifactView {
    if v.original_path is Some && v.path_confidence == PathConfidence::Unknown {
        ArtifactView {
            placement_kind: PlacementKind::OriginalPath,
            path_confidence: PathConfidence::Exact,
            ..v
        }
    } else if v.original_path is None && v.probable_path is None {
        ArtifactView {
            placement_kind: PlacementKind::UnknownParent,
            path_confidence: PathConfidence::Unknown,
            ..v
        }
    } else {
        v
    }
}

fn place(record: &mut ArtifactRecord)
    ensures
        final(record)@ == placed_view(old(record)@),
{
    if record.original_path.is_some() {
        if record.path_confidence == PathConfidence::Unknown {
            record.placement_kind = PlacementKind::OriginalPath;
            record.path_confidence = PathConfidence::Exact;
        }
    } else if record.probable_path.is_none() {
        record.placement_kind = PlacementKind::UnknownParent;
        record.path_confidence = PathConfidence::Unknown;
    }
}

/// The record with the extension of its kind where its name has none.
pub open spec fn extended_view(v: ArtifactView) -> ArtifactView {
    ArtifactView { extension: or_else(v.extension, default_extension(v.kind)), ..v }
}

fn extend(record: &mut ArtifactRecord)
    ensures
        final(record)@ == extended_view(old(record)@),
{
    if record.extension.is_none() {
        if let Some(ext) = default_extension_for_kind(record.kind) {
            record.extension = Some(owned(ext));
        }
    }
}

/// The record with an estimated time of deletion where only its metadata tells one.
pub open spec fn timed_view(v: ArtifactView) -> ArtifactView {
    if v.deleted_at is None && v.last_metadata_change_at is Some {
        ArtifactView {
            deleted_time_source: Some(DeletedTimeSource::MftMetadata),
            deleted_time_confidence: DeletedTimeConfidence::Estimated,
            ..v
        }
    } else {
        v
    }
}

fn estimate_deletion(record: &mut ArtifactRecord)
    ensures
        final(record)@ == timed_view(old(record)@),
{
    if record.deleted_at.is_none() && record.last_metadata_change_at.is_some() {
        record.deleted_time_source = Some(DeletedTimeSource::MftMetadata);
        record.deleted_time_confidence = DeletedTimeConfidence::Estimated;
    }
}

pub open spec fn doubted_view(v: ArtifactView) -> ArtifactView {
    ArtifactView { confidence: generated_confidence(v), ..v }
}

pub open spec fn classified_view(v: ArtifactView) -> ArtifactView {
    ArtifactView { artifact_class: record_class(v), ..v }
}

/// The record with its place, its extension, the time of its deletion and its class.
pub open spec fn settled_view(v: ArtifactView) -> ArtifactView {
    classified_view(timed_view(extended_view(doubted_view(placed_view(v)))))
}

fn doubt(record: &mut ArtifactRecord)
    ensures
        final(record)@ == doubted_view(old(record)@),
{
    apply_generated_name_confidence(record);
}

fn classify(record: &mut ArtifactRecord)
    ensures
        final(record)@ == classified_view(old(record)@),
{
    record.artifact_class = classify_ntfs_record(record);
}

fn settle(record: &mut ArtifactRecord)
    ensures
        final(record)@ == settled_view(old(record)@),
{
    place(record);
    doubt(record);
    extend(record);
    estimate_deletion(record);
    classify(record);
}

/// The first bytes of a content that a closer look asks for.
#[derive(Debug)]
pub enum PreviewProbe {
    Skip,
    Ready(Vec<u8>),
    Read(usize),
}

/// A deleted record of which only the first bytes of the content are still to be seen.
#[derive(Debug)]
pub struct PreparedRecord {
    pub record: ArtifactRecord,
    pub plan: RecoveryPlan,
    pub enriched: bool,
    pub probe: PreviewProbe,
}

/// What a deleted record is looked up in.
pub struct InspectInput {
    pub scan_id: Seq<char>,
    pub source: ScanSource,
    pub mode: ScanMode,
    pub bitmap: Option<VolumeBitmap>,
    pub mft: MftIndex,
    pub cache: Map<u64, Seq<char>>,
    pub file: DeletedFileRecord,
}

/// The name of the file by its attributes alone.
pub open spec fn first_name(x: InspectInput) -> CandidateView {
    let list = name_candidates(
        name_context(
            x.mft,
            x.source.device_path@,
            opt_view(x.source.mount_point),
            x.file.named.reference,
            false,
        ),
        x.cache,
        x.file.named.names@,
        generated_for(x.file.number),
        None,
    );
    list[best_candidate(list, ArtifactKind::Unknown)]
}

/// The record by its attributes alone.
pub open spec fn first_view(id: Seq<char>, x: InspectInput) -> ArtifactView {
    streamed_view(
        named_view(id, x.scan_id, x.source.id@, x.file, first_name(x)),
        x.file.stream,
        x.bitmap,
    )
}

/// Whether the record gets a closer look.
pub open spec fn looked_into(id: Seq<char>, x: InspectInput) -> bool {
    x.mode == ScanMode::Deep || worth_enriching(first_view(id, x))
}

/// The name of the file when its directories are looked up too.
pub open spec fn placed_name(id: Seq<char>, x: InspectInput) -> CandidateView {
    let list = name_candidates(
        name_context(
            x.mft,
            x.source.device_path@,
            opt_view(x.source.mount_point),
            x.file.named.reference,
            true,
        ),
        x.cache,
        x.file.named.names@,
        first_name(x).name,
        normalized_path(
            x.source.device_path@,
            opt_view(x.source.mount_point),
            x.file.info_path@,
        ),
    );
    list[best_candidate(list, first_view(id, x).kind)]
}

/// The record before its content is looked at.
pub open spec fn prepared_view(id: Seq<char>, x: InspectInput) -> ArtifactView {
    if looked_into(id, x) {
        renamed_view(first_view(id, x), x.file, placed_name(id, x))
    } else {
        first_view(id, x)
    }
}

/// The known paths afterwards.
pub open spec fn prepared_cache(id: Seq<char>, x: InspectInput) -> Map<u64, Seq<char>> {
    if looked_into(id, x) {
        names_seen(
            name_context(
                x.mft,
                x.source.device_path@,
                opt_view(x.source.mount_point),
                x.file.named.reference,
                true,
            ),
            x.cache,
            x.file.named.names@,
        ).0
    } else {
        x.cache
    }
}

pub open spec fn front_bytes(bytes: Seq<u8>, n: int) -> Seq<u8> {
    bytes.subrange(
        0,
        if bytes.len() < n {
            bytes.len() as int
        } else {
            n
        },
    )
}

/// Which bytes the closer look asks for.
pub open spec fn probe_ok(probe: PreviewProbe, id: Seq<char>, x: InspectInput) -> bool {
    let v = prepared_view(id, x);
    if !looked_into(id, x) || !preview_wanted(x.mode, v, x.file.stream) {
        probe is Skip
    } else {
        match x.file.stream {
            Some(NtfsDataStream::Resident(bytes)) => probe matches PreviewProbe::Ready(front)
                && front@ == front_bytes(bytes@, probe_length(x.mode, v.kind) as int),
            _ => probe matches PreviewProbe::Read(n) && n == probe_length(x.mode, v.kind),
        }
    }
}

/// Without looking up directories nothing becomes known.
proof fn lemma_names_without_paths(
    ctx: crate::ntfs_names::NameContext,
    cache: Map<u64, Seq<char>>,
    names: Seq<FileNameAttribute>,
)
    requires
        !ctx.resolve_paths,
    ensures
        names_seen(ctx, cache, names).0 == cache,
    decreases names.len(),
{
    if names.len() > 0 {
        lemma_names_without_paths(ctx, cache, names.drop_last());
    }
}

/// The record of a deleted file as far as the file table tells it.
pub fn prepare_deleted_record(
    scan_id: &str,
    source: &ScanSource,
    mode: ScanMode,
    bitmap: Option<&VolumeBitmap>,
    mft: &MftIndex,
    cache: &mut PathCache,
    file: &DeletedFileRecord,
) -> (r: PreparedRecord)
    requires
        bitmap_ok(bitmap),
    ensures
        ({
            let x = InspectInput {
                scan_id: scan_id@,
                source: *source,
                mode,
                bitmap: bitmap_view(bitmap),
                mft: *mft,
                cache: old(cache)@,
                file: *file,
            };
            let id = r.record.id@;
            &&& is_scan_id(id)
            &&& r.record@ == prepared_view(id, x)
            &&& r.enriched == looked_into(id, x)
            &&& plan_view(r.plan) == stream_plan(file.stream, source.device_path@)
            &&& keeps_content(r.plan, file.stream)
            &&& asks_for_the_stream(r.plan, r.record.size, file.stream, source.device_path@)
            &&& probe_ok(r.probe, id, x)
            &&& final(cache)@ == prepared_cache(id, x)
        }),
{
    let ghost x = InspectInput {
        scan_id: scan_id@,
        source: *source,
        mode,
        bitmap: bitmap_view(bitmap),
        mft: *mft,
        cache: cache@,
        file: *file,
    };
    let mut fallback_name = owned("deleted_record_");
    push_decimal(&mut fallback_name, file.number);
    let cheap = collect_file_name_candidates(
        mft,
        cache,
        source.device_path.as_str(),
        &source.mount_point,
        &file.named,
        fallback_name.as_str(),
        &None,
        false,
    );
    proof {
        lemma_names_without_paths(
            name_context(
                *mft,
                source.device_path@,
                opt_view(source.mount_point),
                file.named.reference,
                false,
            ),
            x.cache,
            file.named.names@,
        );
    }
    let selected = match select_best_name_candidate(&cheap, ArtifactKind::Unknown) {
        Some(candidate) => candidate.clone(),
        None => cheap[0].clone(),
    };
    assert(selected@ == first_name(x));
    let mut record = named_record(
        scan_id,
        source.id.as_str(),
        file,
        &selected,
        fallback_name.as_str(),
    );
    let ghost id = record.id@;
    assert(record@.id == id);
    let plan = add_stream(&mut record, &file.stream, bitmap, source.device_path.as_str());
    assert(record@ == first_view(id, x));
    let enriched: bool = mode == ScanMode::Deep || should_enrich_deleted_record(&record);
    let mut probe = PreviewProbe::Skip;
    if enriched {
        let info_path = normalize_path(
            source.device_path.as_str(),
            &source.mount_point,
            file.info_path.as_str(),
        );
        let candidates = collect_file_name_candidates(
            mft,
            cache,
            source.device_path.as_str(),
            &source.mount_point,
            &file.named,
            selected.name.as_str(),
            &info_path,
            true,
        );
        let better = match select_best_name_candidate(&candidates, record.kind) {
            Some(candidate) => candidate.clone(),
            None => candidates[0].clone(),
        };
        assert(better@ == placed_name(id, x));
        rename_record(&mut record, file, &better, fallback_name.as_str());
        assert(record@ == prepared_view(id, x));
        let stream: Option<&NtfsDataStream> = match &file.stream {
            Some(stream) => Some(stream),
            None => None,
        };
        if should_capture_preview(mode, &record, stream) {
            let length: usize = preview_probe_length(mode, record.kind);
            probe =
            match &file.stream {
                Some(NtfsDataStream::Resident(bytes)) => PreviewProbe::Ready(
                    front_of(bytes, length),
                ),
                _ => PreviewProbe::Read(length),
            };
        }
    }
    assert(record@ == prepared_view(id, x));
    PreparedRecord { record, plan, enriched, probe }
}

fn front_of(bytes: &Vec<u8>, n: usize) -> (r: Vec<u8>)
    ensures
        r@ == front_bytes(bytes@, n as int),
{
    let end: usize = if bytes.len() < n {
        bytes.len()
    } else {
        n
    };
    crate::bytes::slice_to_vec(bytes.as_slice(), 0, end)
}

/// The record once the first bytes of its content have been seen.
pub open spec fn inspected_view(
    prepared: PreparedRecord,
    mode: ScanMode,
    bytes: Seq<u8>,
    captured_at: Seq<char>,
) -> ArtifactView {
    settled_view(
        if prepared.enriched {
            previewed_view(prepared.record@, mode, bytes, captured_at)
        } else {
            ArtifactView { preview_ready: false, ..prepared.record@ }
        },
    )
}

/// A record with its recovery plan.
pub open spec fn planned_view(v: ArtifactView, plan: PlanView) -> ArtifactView {
    ArtifactView { recovery_plan: plan, ..v }
}

/// The record of a deleted file, from what the file table tells, the first bytes of its content
/// and the time at which they were seen. A fast scan drops a record that tells nothing.
pub fn inspect_deleted_record_at(
    prepared: PreparedRecord,
    mode: ScanMode,
    bytes: &[u8],
    captured_at: String,
) -> (r: Option<ArtifactRecord>)
    ensures
        ({
            let v = inspected_view(prepared, mode, bytes@, captured_at@);
            if mode == ScanMode::Fast && !kept_by_fast_scan(v) {
                r is None
            } else {
                r matches Some(record) && record@ == planned_view(v, plan_view(prepared.plan))
            }
        }),
{
    let ghost given = prepared;
    let PreparedRecord { mut record, plan, enriched, probe: _ } = prepared;
    if enriched {
        add_preview(&mut record, mode, bytes, captured_at);
    } else {
        record.preview_ready = false;
    }
    settle(&mut record);
    assert(record@ == inspected_view(given, mode, bytes@, captured_at@));
    if mode == ScanMode::Fast && !keep_fast_record(&record) {
        return None;
    }
    record.recovery_plan = plan;
    Some(record)
}

/// The record of a deleted file, from what the file table tells and the first bytes of its
/// content, seen now.
pub fn inspect_deleted_record(prepared: PreparedRecord, mode: ScanMode, bytes: &[u8]) -> (r: Option<
    ArtifactRecord,
>)
    ensures
        exists|nanos: i128|
            {
                let v = inspected_view(prepared, mode, bytes@, #[trigger] iso_text(nanos));
                if mode == ScanMode::Fast && !kept_by_fast_scan(v) {
                    r is None
                } else {
                    r matches Some(record) && record@ == planned_view(v, plan_view(prepared.plan))
                }
            },
{
    inspect_deleted_record_at(prepared, mode, bytes, now_iso())
}

// ---------------------------------------------------------------------------
// Reading the first bytes of a content in runs.

/// The state of a read of the first bytes: the runs still to be read, how many bytes are
/// missing, and what has been read.
pub struct PreviewState {
    pub runs: Seq<DataRun>,
    pub missing: u64,
    pub bytes: Seq<u8>,
}

pub open spec fn smaller(a: u64, b: u64) -> u64 {
    if a < b {
        a
    } else {
        b
    }
}

/// The holes in front are filled with zeros.
pub open spec fn past_holes(s: PreviewState) -> PreviewState
    decreases s.runs.len(),
{
    if s.missing == 0 || s.runs.len() == 0 {
        s
    } else {
        match s.runs[0] {
            DataRun::Data { lcn, length } => s,
            DataRun::Sparse { length } => past_holes(
                PreviewState {
                    runs: s.runs.drop_first(),
                    missing: (s.missing - smaller(length, s.missing)) as u64,
                    bytes: s.bytes + zero_bytes(smaller(length, s.missing) as int),
                },
            ),
        }
    }
}

/// The next read: where the run in front lies and how much of it is wanted.
pub open spec fn wanted_read(s: PreviewState) -> Option<(u64, u64)> {
    if s.missing == 0 || s.runs.len() == 0 {
        None
    } else {
        match s.runs[0] {
            DataRun::Data { lcn, length } => Some((lcn, smaller(length, s.missing))),
            DataRun::Sparse { length } => None,
        }
    }
}

/// The bytes of the run in front have come; a read may give fewer than were asked for.
pub open spec fn after_read(s: PreviewState, got: Seq<u8>) -> PreviewState {
    PreviewState {
        runs: s.runs.drop_first(),
        missing: if got.len() < s.missing {
            (s.missing - got.len()) as u64
        } else {
            0
        },
        bytes: s.bytes + got,
    }
}

/// A read of the first bytes of a content in runs.
#[derive(Debug)]
pub struct PreviewReads {
    runs: Vec<DataRun>,
    next: usize,
    missing: u64,
    bytes: Vec<u8>,
}

impl View for PreviewReads {
    type V = PreviewState;

    closed spec fn view(&self) -> PreviewState {
        PreviewState {
            runs: self.runs@.subrange(self.next as int, self.runs@.len() as int),
            missing: self.missing,
            bytes: self.bytes@,
        }
    }
}

impl PreviewReads {
    pub closed spec fn wf(&self) -> bool {
        self.next <= self.runs@.len() && self.missing + self.bytes@.len() <= usize::MAX
    }

    /// A read that asks for the first `target_len` bytes.
    pub fn new(runs: Vec<DataRun>, target_len: usize) -> (r: Self)
        ensures
            r.wf(),
            r@ == (PreviewState { runs: runs@, missing: target_len as u64, bytes: seq![] }),
    {
        let r = PreviewReads { runs, next: 0, missing: target_len as u64, bytes: Vec::new() };
        assert(r@.runs =~= runs@);
        assert(r@.bytes =~= seq![]);
        r
    }

    /// The next read, as an offset on the volume and a number of bytes.
    pub fn next_read(&mut self) -> (r: Option<(u64, usize)>)
        requires
            old(self).wf(),
        ensures
            final(self).wf(),
            final(self)@ == past_holes(old(self)@),
            match wanted_read(final(self)@) {
                Some((offset, length)) => r == Some((offset, length as usize)) && length
                    <= usize::MAX,
                None => r is None,
            },
    {
        while self.next < self.runs.len() && self.missing > 0
            invariant
                self.wf(),
                self.runs == old(self).runs,
                past_holes(self@) == past_holes(old(self)@),
            decreases self.runs@.len() - self.next,
        {
            let ghost before = self@;
            let ghost n = self.next as int;
            let ghost total = self.runs@.len() as int;
            proof {
                assert(self@.runs[0] == self.runs@[n]);
                assert(self@.runs.drop_first() =~= self.runs@.subrange(n + 1, total));
            }
            match self.runs[self.next] {
                DataRun::Data { lcn, length } => {
                    let chunk: u64 = if length < self.missing {
                        length
                    } else {
                        self.missing
                    };
                    return Some((lcn, chunk as usize));
                },
                DataRun::Sparse { length } => {
                    let chunk: u64 = if length < self.missing {
                        length
                    } else {
                        self.missing
                    };
                    push_zeros(&mut self.bytes, chunk as usize);
                    self.missing = self.missing - chunk;
                    self.next = self.next + 1;
                    assert(self@ == (PreviewState {
                        runs: before.runs.drop_first(),
                        missing: (before.missing - smaller(length, before.missing)) as u64,
                        bytes: before.bytes + zero_bytes(smaller(length, before.missing) as int),
                    }));
                },
            }
        }
        None
    }

    /// Takes what the last read gave.
    pub fn supply(&mut self, got: &[u8])
        requires
            old(self).wf(),
            wanted_read(old(self)@) matches Some((offset, length)) && got@.len() <= length,
        ensures
            final(self).wf(),
            final(self)@ == after_read(old(self)@, got@),
    {
        let ghost before = self@;
        push_bytes(&mut self.bytes, got);
        let total: usize = self.runs.len();
        assert(self.next < total);
        let count: u64 = got.len() as u64;
        self.missing =
        if count < self.missing {
            self.missing - count
        } else {
            0
        };
        self.next = self.next + 1;
        proof {
            let n = old(self).next as int;
            let total = old(self).runs@.len() as int;
            assert(before.runs.drop_first() =~= self.runs@.subrange(n + 1, total));
        }
    }

    /// What has been read.
    pub fn finish(self) -> (r: Vec<u8>)
        ensures
            r@ == self@.bytes,
    {
        self.bytes
    }
}

// ---------------------------------------------------------------------------
// Laws.

/// A fast scan loses no deleted record of the file table, however little is known of it.
pub proof fn lemma_fast_scan_keeps_every_deleted_record(
    id: Seq<char>,
    x: InspectInput,
    prepared: PreparedRecord,
    mode: ScanMode,
    bytes: Seq<u8>,
    captured_at: Seq<char>,
)
    requires
        prepared.record@ == prepared_view(id, x),
    ensures
        kept_by_fast_scan(inspected_view(prepared, mode, bytes, captured_at)),
{
}

/// A record with an original path never has an unknown place, and one without any path always
/// has.
pub proof fn lemma_place_fits_paths(v: ArtifactView)
    ensures
        ({
            let s = settled_view(v);
            &&& s.original_path is Some ==> s.path_confidence != PathConfidence::Unknown
            &&& s.original_path is None && s.probable_path is None ==> s.path_confidence
                == PathConfidence::Unknown && s.placement_kind == PlacementKind::UnknownParent
        }),
{
}

/// A generated name without a path is never trusted.
pub proof fn lemma_generated_names_stay_low(v: ArtifactView)
    ensures
        v.name_source == NameSourceKind::Generated && v.original_path is None ==> settled_view(
            v,
        ).confidence == Confidence::Low,
{
}

} // verus!
