//! What copies and summaries hold, field by field.

use crate::model::{
    family_score, same_archive_preview_page, same_artifact_preview_response, same_artifact_record,
    same_artifact_summary, same_content_preview_response, same_preview_chunk_response,
    same_preview_session_info, same_recovery_item_result, same_recovery_plan, same_recovery_request,
    same_scan_summary, same_source_entry, summarizes, ArchivePreviewPage, ArtifactFamily,
    ArtifactPreviewResponse, ArtifactRecord, ArtifactSummary, ContentPreviewResponse,
    PreviewChunkResponse, PreviewSessionInfo, RecoveryItemResult, RecoveryPlan, RecoveryRequest,
    ScanStatus, ScanSummary, SourceEntry,
};
use vstd::prelude::*;

verus! {

/// A copy holds what the first holds, field by field.
pub proof fn lemma_source_entry_is_copied_whole(a: SourceEntry, b: SourceEntry)
    requires
        same_source_entry(a, b),
    ensures
        a.name == b.name,
        a.path == b.path,
        a.parent_path == b.parent_path,
        a.mft_reference == b.mft_reference,
        a.parent_reference == b.parent_reference,
        a.extension == b.extension,
        a.is_directory == b.is_directory,
        a.has_children == b.has_children,
        a.is_metafile == b.is_metafile,
        a.entry_class == b.entry_class,
        a.size == b.size,
        a.created_at == b.created_at,
        a.modified_at == b.modified_at,
        a.accessed_at == b.accessed_at,
        a.hidden == b.hidden,
        a.system == b.system,
        a.read_only == b.read_only,
        a.attr_bits == b.attr_bits,
        a.attributes@ == b.attributes@,
        a.deleted_hits == b.deleted_hits,
        a.access_state == b.access_state,
{
}

/// A copy holds what the first holds, field by field.
pub proof fn lemma_artifact_preview_response_is_copied_whole(a: ArtifactPreviewResponse, b: ArtifactPreviewResponse)
    requires
        same_artifact_preview_response(a, b),
    ensures
        a.artifact_id == b.artifact_id,
        a.requested_mode == b.requested_mode,
        a.resolved_mode == b.resolved_mode,
        a.offset == b.offset,
        a.length == b.length,
        a.total_size == b.total_size,
        a.has_more == b.has_more,
        a.warnings@ == b.warnings@,
        a.summary@ == b.summary@,
        a.text_excerpt == b.text_excerpt,
        a.hex_rows@ == b.hex_rows@,
        a.archive_entry_count == b.archive_entry_count,
        a.archive_entries_truncated == b.archive_entries_truncated,
        a.archive_entries@ == b.archive_entries@,
{
}

/// A copy holds what the first holds, field by field.
pub proof fn lemma_content_preview_response_is_copied_whole(a: ContentPreviewResponse, b: ContentPreviewResponse)
    requires
        same_content_preview_response(a, b),
    ensures
        a.target_key == b.target_key,
        a.requested_mode == b.requested_mode,
        a.resolved_mode == b.resolved_mode,
        a.offset == b.offset,
        a.length == b.length,
        a.total_size == b.total_size,
        a.has_more == b.has_more,
        a.warnings@ == b.warnings@,
        a.summary@ == b.summary@,
        a.text_excerpt == b.text_excerpt,
        a.hex_rows@ == b.hex_rows@,
        a.archive_entry_count == b.archive_entry_count,
        a.archive_entries_truncated == b.archive_entries_truncated,
        a.archive_entries@ == b.archive_entries@,
{
}

/// A copy holds what the first holds, field by field.
pub proof fn lemma_preview_session_info_is_copied_whole(a: PreviewSessionInfo, b: PreviewSessionInfo)
    requires
        same_preview_session_info(a, b),
    ensures
        a.session_id == b.session_id,
        a.target_key == b.target_key,
        a.requested_mode == b.requested_mode,
        a.resolved_mode == b.resolved_mode,
        a.total_size == b.total_size,
        a.summary@ == b.summary@,
        a.warnings@ == b.warnings@,
        a.preview_ready == b.preview_ready,
        a.archive_entry_count == b.archive_entry_count,
        a.archive_entries_truncated == b.archive_entries_truncated,
{
}

/// A copy holds what the first holds, field by field.
pub proof fn lemma_preview_chunk_response_is_copied_whole(a: PreviewChunkResponse, b: PreviewChunkResponse)
    requires
        same_preview_chunk_response(a, b),
    ensures
        a.session_id == b.session_id,
        a.target_key == b.target_key,
        a.requested_mode == b.requested_mode,
        a.resolved_mode == b.resolved_mode,
        a.offset == b.offset,
        a.length == b.length,
        a.total_size == b.total_size,
        a.has_more == b.has_more,
        a.warnings@ == b.warnings@,
        a.text_excerpt == b.text_excerpt,
        a.hex_rows@ == b.hex_rows@,
{
}

/// A copy holds what the first holds, field by field.
pub proof fn lemma_archive_preview_page_is_copied_whole(a: ArchivePreviewPage, b: ArchivePreviewPage)
    requires
        same_archive_preview_page(a, b),
    ensures
        a.session_id == b.session_id,
        a.target_key == b.target_key,
        a.offset == b.offset,
        a.count == b.count,
        a.total_entries == b.total_entries,
        a.has_more == b.has_more,
        a.warnings@ == b.warnings@,
        a.entries@ == b.entries@,
{
}

/// A copy holds what the first holds, field by field.
pub proof fn lemma_artifact_summary_is_copied_whole(a: ArtifactSummary, b: ArtifactSummary)
    requires
        same_artifact_summary(a, b),
    ensures
        a.id == b.id,
        a.scan_id == b.scan_id,
        a.source_id == b.source_id,
        a.name == b.name,
        a.original_path == b.original_path,
        a.probable_path == b.probable_path,
        a.placement_kind == b.placement_kind,
        a.path_confidence == b.path_confidence,
        a.path_evidence@ == b.path_evidence@,
        a.name_source == b.name_source,
        a.content_source == b.content_source,
        a.artifact_class == b.artifact_class,
        a.preview_ready == b.preview_ready,
        a.is_fragment == b.is_fragment,
        a.fragment_id == b.fragment_id,
        a.extension == b.extension,
        a.family == b.family,
        a.kind == b.kind,
        a.origin_type == b.origin_type,
        a.confidence == b.confidence,
        a.recoverability == b.recoverability,
        a.deleted_entry == b.deleted_entry,
        a.size == b.size,
        a.priority_score == b.priority_score,
        a.filesystem_record == b.filesystem_record,
        a.parent_reference == b.parent_reference,
        a.raw_offset == b.raw_offset,
        a.raw_length == b.raw_length,
        a.created_at == b.created_at,
        a.modified_at == b.modified_at,
        a.deleted_at == b.deleted_at,
        a.deleted_time_source == b.deleted_time_source,
        a.deleted_time_confidence == b.deleted_time_confidence,
        a.last_metadata_change_at == b.last_metadata_change_at,
{
}

/// A copy holds what the first holds, field by field.
pub proof fn lemma_scan_summary_is_copied_whole(a: ScanSummary, b: ScanSummary)
    requires
        same_scan_summary(a, b),
    ensures
        a.scan_id == b.scan_id,
        a.source_id == b.source_id,
        a.source_name == b.source_name,
        a.mode == b.mode,
        a.filesystem == b.filesystem,
        a.status == b.status,
        a.started_at == b.started_at,
        a.finished_at == b.finished_at,
        a.duration_seconds == b.duration_seconds,
        a.warnings@ == b.warnings@,
        a.counters == b.counters,
{
}

/// A copy holds what the first holds, field by field.
pub proof fn lemma_recovery_request_is_copied_whole(a: RecoveryRequest, b: RecoveryRequest)
    requires
        same_recovery_request(a, b),
    ensures
        a.scan_id == b.scan_id,
        a.artifact_ids@ == b.artifact_ids@,
        a.destination == b.destination,
{
}

/// A copy holds what the first holds, field by field.
pub proof fn lemma_recovery_item_result_is_copied_whole(a: RecoveryItemResult, b: RecoveryItemResult)
    requires
        same_recovery_item_result(a, b),
    ensures
        a.artifact_id == b.artifact_id,
        a.file_path == b.file_path,
        a.metadata_path == b.metadata_path,
        a.sha256 == b.sha256,
        a.blake3 == b.blake3,
        a.status == b.status,
        a.notes@ == b.notes@,
{
}

/// A copy holds what the first holds, field by field.
pub proof fn lemma_artifact_record_is_copied_whole(a: ArtifactRecord, b: ArtifactRecord)
    requires
        same_artifact_record(a, b),
    ensures
        a.id == b.id,
        a.scan_id == b.scan_id,
        a.source_id == b.source_id,
        a.name == b.name,
        a.original_path == b.original_path,
        a.probable_path == b.probable_path,
        a.placement_kind == b.placement_kind,
        a.path_confidence == b.path_confidence,
        a.path_evidence@ == b.path_evidence@,
        a.name_source == b.name_source,
        a.content_source == b.content_source,
        a.artifact_class == b.artifact_class,
        a.preview_ready == b.preview_ready,
        a.is_fragment == b.is_fragment,
        a.fragment_id == b.fragment_id,
        a.extension == b.extension,
        a.family == b.family,
        a.kind == b.kind,
        a.origin_type == b.origin_type,
        a.confidence == b.confidence,
        a.recoverability == b.recoverability,
        a.deleted_entry == b.deleted_entry,
        a.size == b.size,
        a.priority_score == b.priority_score,
        a.filesystem_record == b.filesystem_record,
        a.parent_reference == b.parent_reference,
        a.raw_offset == b.raw_offset,
        a.raw_length == b.raw_length,
        a.created_at == b.created_at,
        a.modified_at == b.modified_at,
        a.deleted_at == b.deleted_at,
        a.deleted_time_source == b.deleted_time_source,
        a.deleted_time_confidence == b.deleted_time_confidence,
        a.last_metadata_change_at == b.last_metadata_change_at,
        a.notes@ == b.notes@,
        a.preview@ == b.preview@,
        same_recovery_plan(a.recovery_plan, b.recovery_plan),
{
}

/// What a list shows of a record is what the record holds, each under its own name.
pub proof fn lemma_summary_shows_the_record(summary: ArtifactSummary, record: ArtifactRecord)
    requires
        summarizes(summary, record),
    ensures
        summary.id == record.id,
        summary.scan_id == record.scan_id,
        summary.source_id == record.source_id,
        summary.name == record.name,
        summary.original_path == record.original_path,
        summary.probable_path == record.probable_path,
        summary.placement_kind == record.placement_kind,
        summary.path_confidence == record.path_confidence,
        summary.path_evidence@ == record.path_evidence@,
        summary.name_source == record.name_source,
        summary.content_source == record.content_source,
        summary.artifact_class == record.artifact_class,
        summary.preview_ready == record.preview_ready,
        summary.is_fragment == record.is_fragment,
        summary.fragment_id == record.fragment_id,
        summary.extension == record.extension,
        summary.family == record.family,
        summary.kind == record.kind,
        summary.origin_type == record.origin_type,
        summary.confidence == record.confidence,
        summary.recoverability == record.recoverability,
        summary.deleted_entry == record.deleted_entry,
        summary.size == record.size,
        summary.priority_score == record.priority_score,
        summary.filesystem_record == record.filesystem_record,
        summary.parent_reference == record.parent_reference,
        summary.raw_offset == record.raw_offset,
        summary.raw_length == record.raw_length,
        summary.created_at == record.created_at,
        summary.modified_at == record.modified_at,
        summary.deleted_at == record.deleted_at,
        summary.deleted_time_source == record.deleted_time_source,
        summary.deleted_time_confidence == record.deleted_time_confidence,
        summary.last_metadata_change_at == record.last_metadata_change_at,
{
}

/// A copied plan reads the same bytes.
pub proof fn lemma_plan_is_copied_whole(a: RecoveryPlan, b: RecoveryPlan)
    requires
        same_recovery_plan(a, b),
    ensures
        match (a, b) {
            (
                RecoveryPlan::RawRuns { source_path: p, runs: r, logical_size: n },
                RecoveryPlan::RawRuns { source_path: q, runs: t, logical_size: m },
            ) => p == q && r@ == t@ && n == m,
            (
                RecoveryPlan::ResidentBase64 { base64: p, logical_size: n },
                RecoveryPlan::ResidentBase64 { base64: q, logical_size: m },
            ) => p == q && n == m,
            (RecoveryPlan::Unrecoverable { reason: p }, RecoveryPlan::Unrecoverable { reason: q }) => p
                == q,
            _ => false,
        },
{
}

/// Results of families that tell more are shown earlier.
pub proof fn lemma_families_are_ranked()
    ensures
        family_score(ArtifactFamily::Executable) > family_score(ArtifactFamily::Archive)
            > family_score(ArtifactFamily::Script) > family_score(ArtifactFamily::Database)
            > family_score(ArtifactFamily::Container) > family_score(ArtifactFamily::Document)
            > family_score(ArtifactFamily::Image) > family_score(ArtifactFamily::Config)
            > family_score(ArtifactFamily::Text) > family_score(ArtifactFamily::Binary)
            > family_score(ArtifactFamily::Unknown) > 0,
{
}

/// A scan that is over is one that was done, with warnings or without, or failed or was stopped;
/// only one that was done is a success.
pub proof fn lemma_statuses_tell_the_end(status: ScanStatus)
    ensures
        status.spec_is_terminal() <==> status != ScanStatus::Idle && status != ScanStatus::Running,
        status.spec_is_success() <==> status == ScanStatus::Completed || status
            == ScanStatus::CompletedWithWarnings,
{
}

} // verus!
