//! What records of deleted files say, told of their fields.

use crate::evidence::{
    found_index, i30_created, i30_merged, number_index, reference_index, usn_created, usn_merged,
};
use crate::i30::{DirectoryPath, I30Entry, I30View};
use crate::model::{
    ArtifactRecord, DeletedTimeConfidence, DeletedTimeSource, NameSourceKind, PathConfidence,
    PathEvidenceSource,
};
use crate::ntfs_names::FileNameCandidate;
use crate::ntfs_paths::{lemma_record_number_is_low_part, record_number, MftRecord};
use crate::records::{evidence_views, fact_views, plan_view, ArtifactView};
use crate::recycle_bin::RecycleBinMetadata;
use crate::text::{opt_view, views};
use crate::usn::{UsnEvidence, UsnEvidenceView, UsnRecordRaw};
use vstd::prelude::*;
use vstd::string::*;

verus! {

// ---------------------------------------------------------------------------
// Fields.

/// What is told of a record is what its fields hold, each under its own name.
pub proof fn lemma_record_shows_its_fields(r: ArtifactRecord)
    ensures
        r@.id == r.id@,
        r@.scan_id == r.scan_id@,
        r@.source_id == r.source_id@,
        r@.name == r.name@,
        r@.original_path == opt_view(r.original_path),
        r@.probable_path == opt_view(r.probable_path),
        r@.placement_kind == r.placement_kind,
        r@.path_confidence == r.path_confidence,
        r@.path_evidence == evidence_views(r.path_evidence@),
        r@.name_source == r.name_source,
        r@.content_source == r.content_source,
        r@.artifact_class == r.artifact_class,
        r@.preview_ready == r.preview_ready,
        r@.is_fragment == r.is_fragment,
        r@.fragment_id == opt_view(r.fragment_id),
        r@.extension == opt_view(r.extension),
        r@.family == r.family,
        r@.kind == r.kind,
        r@.origin_type == r.origin_type,
        r@.confidence == r.confidence,
        r@.recoverability == r.recoverability,
        r@.deleted_entry == r.deleted_entry,
        r@.size == r.size,
        r@.priority_score == r.priority_score,
        r@.filesystem_record == r.filesystem_record,
        r@.parent_reference == r.parent_reference,
        r@.raw_offset == r.raw_offset,
        r@.raw_length == r.raw_length,
        r@.created_at == opt_view(r.created_at),
        r@.modified_at == opt_view(r.modified_at),
        r@.deleted_at == opt_view(r.deleted_at),
        r@.deleted_time_source == r.deleted_time_source,
        r@.deleted_time_confidence == r.deleted_time_confidence,
        r@.last_metadata_change_at == opt_view(r.last_metadata_change_at),
        r@.notes == views(r.notes@),
        r@.preview == fact_views(r.preview@),
        r@.recovery_plan == plan_view(r.recovery_plan),
{
}

/// What is told of an entry of a directory index is what its fields hold.
pub proof fn lemma_index_entry_shows_its_fields(r: I30Entry)
    ensures
        r@.file_reference == r.file_reference,
        r@.parent_reference == r.parent_reference,
        r@.name == r.name@,
        r@.path == opt_view(r.path),
        r@.path_confidence == r.path_confidence,
        r@.size == r.size,
        r@.from_slack == r.from_slack,
        r@.created_at == opt_view(r.created_at),
        r@.modified_at == opt_view(r.modified_at),
        r@.last_metadata_change_at == opt_view(r.last_metadata_change_at),
{
}

/// What is told of a record of the journal is what its fields hold.
pub proof fn lemma_journal_record_shows_its_fields(r: UsnRecordRaw)
    ensures
        r@.file_reference == r.file_reference,
        r@.parent_reference == r.parent_reference,
        r@.timestamp == r.timestamp,
        r@.reason == r.reason,
        r@.name == r.name@,
{
}

/// What is told of evidence of the journal is what its fields hold.
pub proof fn lemma_journal_evidence_shows_its_fields(r: UsnEvidence)
    ensures
        r@.file_reference == r.file_reference,
        r@.parent_reference == r.parent_reference,
        r@.name == r.name@,
        r@.reason == r.reason,
        r@.timestamp == opt_view(r.timestamp),
        r@.path == opt_view(r.path),
{
}

/// What is told of a candidate for a name is what its fields hold.
pub proof fn lemma_candidate_shows_its_fields(r: FileNameCandidate)
    ensures
        r@.name == r.name@,
        r@.original_path == opt_view(r.original_path),
        r@.probable_path == opt_view(r.probable_path),
        r@.parent_reference == r.parent_reference,
        r@.namespace == r.namespace,
        r@.placement_kind == r.placement_kind,
        r@.path_confidence == r.path_confidence,
        r@.path_evidence == evidence_views(r.path_evidence@),
        r@.created_at == opt_view(r.created_at),
        r@.modified_at == opt_view(r.modified_at),
        r@.last_metadata_change_at == opt_view(r.last_metadata_change_at),
{
}

/// What is told of what the recycle bin keeps is what its fields hold.
pub proof fn lemma_recycle_metadata_shows_its_fields(r: RecycleBinMetadata)
    ensures
        r@.original_path == r.original_path@,
        r@.deleted_at == opt_view(r.deleted_at),
{
}

/// What is told of a directory is what its fields hold.
pub proof fn lemma_directory_shows_its_fields(r: DirectoryPath)
    ensures
        r@.path == r.path@,
        r@.confidence == r.confidence,
{
}

// ---------------------------------------------------------------------------
// Evidence.

/// A directory index tells a record the times that it lacks, each of its own kind, and a probable
/// path where it has none; it tells nothing of its content.
pub proof fn lemma_index_tells_times_and_place(v: ArtifactView, e: I30View)
    ensures
        ({
            let r = i30_merged(v, e);
            &&& v.created_at is Some ==> r.created_at == v.created_at
            &&& v.created_at is None ==> r.created_at == e.created_at
            &&& v.modified_at is Some ==> r.modified_at == v.modified_at
            &&& v.modified_at is None ==> r.modified_at == e.modified_at
            &&& v.last_metadata_change_at is Some ==> r.last_metadata_change_at
                == v.last_metadata_change_at
            &&& v.last_metadata_change_at is None ==> r.last_metadata_change_at
                == e.last_metadata_change_at
            &&& r.deleted_at == v.deleted_at
            &&& r.deleted_at is None && r.last_metadata_change_at is Some
                ==> r.deleted_time_confidence == DeletedTimeConfidence::Estimated
            &&& v.parent_reference is Some ==> r.parent_reference == v.parent_reference
            &&& v.parent_reference is None && e.parent_reference != 0 ==> r.parent_reference == Some(
                e.parent_reference,
            )
            &&& v.original_path is None && v.probable_path is None ==> r.probable_path == e.path
            &&& v.probable_path is Some ==> r.probable_path == v.probable_path
            &&& v.name_source != NameSourceKind::Generated && !"deleted_record_"@.is_prefix_of(v.name)
                ==> r.name == v.name
            &&& v.name_source == NameSourceKind::Generated && e.name.len() > 0 ==> r.name == e.name
            &&& r.size == v.size && r.id == v.id && r.recoverability == v.recoverability
        }),
{
}

/// The journal tells a record when it was deleted where it notes a deletion, and where it lay: its
/// original path where reference and directory agree, else a probable one.
pub proof fn lemma_journal_tells_deletion_and_place(
    v: ArtifactView,
    e: UsnEvidenceView,
    by_reference: bool,
)
    ensures
        ({
            let r = usn_merged(v, e, by_reference);
            &&& e.reason & 0x200 != 0 && e.timestamp is Some ==> r.deleted_at == e.timestamp
                && r.deleted_time_source == Some(DeletedTimeSource::UsnJournal)
                && r.deleted_time_confidence == DeletedTimeConfidence::Exact
            &&& e.reason & 0x200 == 0 || e.timestamp is None ==> r.deleted_at == v.deleted_at
                && r.deleted_time_source == v.deleted_time_source
            &&& r.created_at == v.created_at && r.modified_at == v.modified_at
            &&& r.last_metadata_change_at == v.last_metadata_change_at
            &&& r.size == v.size && r.id == v.id && r.recoverability == v.recoverability
            &&& v.original_path is None && by_reference && e.path is Some && v.parent_reference
                == Some(e.parent_reference) ==> r.original_path == e.path && r.path_confidence
                == PathConfidence::Reconstructed
            &&& v.original_path is None && !by_reference ==> r.original_path is None
            &&& v.original_path is None && v.probable_path is None && !by_reference
                ==> r.probable_path == e.path
        }),
{
}

/// A file of which only a directory index is left is shown with what its entry says.
pub proof fn lemma_indexed_files_are_shown(
    id: Seq<char>,
    scan_id: Seq<char>,
    source_id: Seq<char>,
    e: I30View,
)
    ensures
        ({
            let r = i30_created(id, scan_id, source_id, e);
            &&& r.id == id && r.scan_id == scan_id && r.source_id == source_id
            &&& r.name == e.name && r.size == e.size
            &&& r.filesystem_record == Some((e.file_reference % 0x1_0000_0000_0000) as u64)
            &&& r.parent_reference == Some(e.parent_reference)
            &&& r.created_at == e.created_at && r.modified_at == e.modified_at
            &&& r.last_metadata_change_at == e.last_metadata_change_at
            &&& r.original_path is None && r.probable_path == e.path
            &&& r.path_evidence.len() == 1 && r.path_evidence[0].source == PathEvidenceSource::I30
                && r.path_evidence[0].path == e.path
            &&& r.recovery_plan is Unrecoverable
        }),
{
    lemma_record_number_is_low_part(e.file_reference);
}

/// A file of which only the journal is left is shown with what the journal says.
pub proof fn lemma_noted_files_are_shown(
    id: Seq<char>,
    scan_id: Seq<char>,
    source_id: Seq<char>,
    e: UsnEvidenceView,
)
    ensures
        ({
            let r = usn_created(id, scan_id, source_id, e);
            &&& r.id == id && r.scan_id == scan_id && r.source_id == source_id
            &&& r.name == e.name
            &&& r.filesystem_record == Some((e.file_reference % 0x1_0000_0000_0000) as u64)
            &&& r.parent_reference == Some(e.parent_reference)
            &&& e.reason & 0x200 != 0 && e.timestamp is Some ==> r.deleted_at == e.timestamp
            &&& e.reason & 0x200 == 0 ==> r.deleted_at is None
            &&& r.original_path is None && r.probable_path == e.path
            &&& r.path_evidence.len() == 1 && r.path_evidence[0].source
                == PathEvidenceSource::UsnJournal && r.path_evidence[0].path == e.path
            &&& r.recovery_plan is Unrecoverable
        }),
{
    lemma_record_number_is_low_part(e.file_reference);
}

/// A record is about the file of a reference.
pub open spec fn is_of_reference(
    records: Seq<Option<MftRecord>>,
    v: ArtifactView,
    reference: u64,
) -> bool {
    v.filesystem_record matches Some(n) && n < records.len() && (records[n as int] matches Some(
        record,
    ) && record.reference == reference)
}

proof fn lemma_indexes_find(
    records: Seq<Option<MftRecord>>,
    results: Seq<ArtifactView>,
    reference: u64,
    number: u64,
)
    requires
        results.len() <= usize::MAX,
    ensures
        ({
            let by_reference = reference_index(records, results);
            &&& by_reference.contains_key(reference) <==> exists|i: int|
                0 <= i < results.len() && is_of_reference(records, #[trigger] results[i], reference)
            &&& by_reference.contains_key(reference) ==> by_reference[reference] < results.len()
                && is_of_reference(records, results[by_reference[reference] as int], reference)
        }),
        ({
            let by_number = number_index(results);
            &&& by_number.contains_key(number) <==> exists|i: int|
                0 <= i < results.len() && (#[trigger] results[i]).filesystem_record == Some(number)
            &&& by_number.contains_key(number) ==> by_number[number] < results.len()
                && results[by_number[number] as int].filesystem_record == Some(number) && forall|
                i: int,
            |
                0 <= i < by_number[number] ==> (#[trigger] results[i]).filesystem_record != Some(
                    number,
                )
        }),
    decreases results.len(),
{
    if results.len() > 0 {
        let front = results.drop_last();
        let last = results.last();
        let at = results.len() - 1;
        lemma_indexes_find(records, front, reference, number);
        assert(results[at] == last);
        assert forall|i: int| 0 <= i < front.len() implies #[trigger] front[i] == results[i] by {}
        if reference_index(records, front).contains_key(reference) {
            let i = choose|i: int|
                0 <= i < front.len() && is_of_reference(records, #[trigger] front[i], reference);
            assert(is_of_reference(records, results[i], reference));
        }
        if is_of_reference(records, last, reference) {
            assert(is_of_reference(records, results[at], reference));
        }
        if exists|i: int|
            0 <= i < results.len() && is_of_reference(records, #[trigger] results[i], reference) {
            let i = choose|i: int|
                0 <= i < results.len() && is_of_reference(records, #[trigger] results[i], reference);
            if i < at {
                assert(is_of_reference(records, front[i], reference));
            }
        }
        if number_index(front).contains_key(number) {
            let k = number_index(front)[number];
            assert(front[k as int] == results[k as int]);
            assert forall|i: int| 0 <= i < k implies (#[trigger] results[i]).filesystem_record
                != Some(number) by {
                assert(front[i] == results[i]);
            }
        } else {
            assert forall|i: int| 0 <= i < at implies (#[trigger] results[i]).filesystem_record
                != Some(number) by {
                assert(front[i].filesystem_record != Some(number));
            }
        }
    }
}

/// Evidence for a reference goes to a record about a file of that very reference; only where there
/// is none, to the first record of its record number.
pub proof fn lemma_evidence_goes_to_the_file(
    records: Seq<Option<MftRecord>>,
    results: Seq<ArtifactView>,
    reference: u64,
)
    requires
        results.len() <= usize::MAX,
    ensures
        match found_index(records, results, reference) {
            Some(k) => k < results.len() && (is_of_reference(records, results[k as int], reference)
                || ((forall|i: int|
                0 <= i < results.len() ==> !is_of_reference(
                    records,
                    #[trigger] results[i],
                    reference,
                )) && results[k as int].filesystem_record == Some(
                (reference % 0x1_0000_0000_0000) as u64,
            ))),
            None => forall|i: int|
                0 <= i < results.len() ==> !is_of_reference(
                    records,
                    #[trigger] results[i],
                    reference,
                ) && results[i].filesystem_record != Some((reference % 0x1_0000_0000_0000) as u64),
        },
{
    lemma_record_number_is_low_part(reference);
    lemma_indexes_find(records, results, reference, record_number(reference));
}

} // verus!
