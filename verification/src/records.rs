//! What an artifact record says, apart from how it is stored.

use crate::kinds::{inferred_kind, is_fresh_record};
use crate::model::{
    family_of, family_score, same_artifact_record, ArtifactClass, ArtifactFamily, ArtifactKind,
    ArtifactRecord, ByteRun, Confidence, ContentSourceKind, DeletedTimeConfidence,
    DeletedTimeSource, NameSourceKind, OriginType, PathConfidence, PathEvidence,
    PathEvidenceSource, PlacementKind, PreviewFact, Recoverability, RecoveryPlan,
};
use crate::text::{opt_view, owned, views};
use vstd::prelude::*;

verus! {

/// What a piece of path evidence says.
#[verifier::ext_equal]
pub struct EvidenceView {
    pub source: PathEvidenceSource,
    pub path: Option<Seq<char>>,
    pub confidence: PathConfidence,
    pub note: Seq<char>,
}

pub open spec fn evidence_view(e: PathEvidence) -> EvidenceView {
    EvidenceView {
        source: e.source,
        path: opt_view(e.path),
        confidence: e.confidence,
        note: e.note@,
    }
}

pub open spec fn evidence_views(list: Seq<PathEvidence>) -> Seq<EvidenceView> {
    list.map_values(|e: PathEvidence| evidence_view(e))
}

/// What a preview fact says.
#[verifier::ext_equal]
pub struct FactView {
    pub label: Seq<char>,
    pub value: Seq<char>,
}

pub open spec fn fact_view(f: PreviewFact) -> FactView {
    FactView { label: f.label@, value: f.value@ }
}

pub open spec fn fact_views(list: Seq<PreviewFact>) -> Seq<FactView> {
    list.map_values(|f: PreviewFact| fact_view(f))
}

/// A fact with a label and a value.
pub open spec fn fact(label: Seq<char>, value: Seq<char>) -> FactView {
    FactView { label, value }
}

/// What a recovery plan says.
#[verifier::ext_equal]
pub enum PlanView {
    ResidentBase64 { base64: Seq<char>, logical_size: u64 },
    RawRuns { source_path: Seq<char>, runs: Seq<ByteRun>, logical_size: u64 },
    Unrecoverable { reason: Seq<char> },
}

pub open spec fn plan_view(plan: RecoveryPlan) -> PlanView {
    match plan {
        RecoveryPlan::ResidentBase64 { base64, logical_size } => PlanView::ResidentBase64 {
            base64: base64@,
            logical_size,
        },
        RecoveryPlan::RawRuns { source_path, runs, logical_size } => PlanView::RawRuns {
            source_path: source_path@,
            runs: runs@,
            logical_size,
        },
        RecoveryPlan::Unrecoverable { reason } => PlanView::Unrecoverable { reason: reason@ },
    }
}

/// What an artifact record says.
#[verifier::ext_equal]
pub struct ArtifactView {
    pub id: Seq<char>,
    pub scan_id: Seq<char>,
    pub source_id: Seq<char>,
    pub name: Seq<char>,
    pub original_path: Option<Seq<char>>,
    pub probable_path: Option<Seq<char>>,
    pub placement_kind: PlacementKind,
    pub path_confidence: PathConfidence,
    pub path_evidence: Seq<EvidenceView>,
    pub name_source: NameSourceKind,
    pub content_source: ContentSourceKind,
    pub artifact_class: ArtifactClass,
    pub preview_ready: bool,
    pub is_fragment: bool,
    pub fragment_id: Option<Seq<char>>,
    pub extension: Option<Seq<char>>,
    pub family: ArtifactFamily,
    pub kind: ArtifactKind,
    pub origin_type: OriginType,
    pub confidence: Confidence,
    pub recoverability: Recoverability,
    pub deleted_entry: bool,
    pub size: u64,
    pub priority_score: u16,
    pub filesystem_record: Option<u64>,
    pub parent_reference: Option<u64>,
    pub raw_offset: Option<u64>,
    pub raw_length: Option<u64>,
    pub created_at: Option<Seq<char>>,
    pub modified_at: Option<Seq<char>>,
    pub deleted_at: Option<Seq<char>>,
    pub deleted_time_source: Option<DeletedTimeSource>,
    pub deleted_time_confidence: DeletedTimeConfidence,
    pub last_metadata_change_at: Option<Seq<char>>,
    pub notes: Seq<Seq<char>>,
    pub preview: Seq<FactView>,
    pub recovery_plan: PlanView,
}

impl View for ArtifactRecord {
    type V = ArtifactView;

    open spec fn view(&self) -> ArtifactView {
        ArtifactView {
            id: self.id@,
            scan_id: self.scan_id@,
            source_id: self.source_id@,
            name: self.name@,
            original_path: opt_view(self.original_path),
            probable_path: opt_view(self.probable_path),
            placement_kind: self.placement_kind,
            path_confidence: self.path_confidence,
            path_evidence: evidence_views(self.path_evidence@),
            name_source: self.name_source,
            content_source: self.content_source,
            artifact_class: self.artifact_class,
            preview_ready: self.preview_ready,
            is_fragment: self.is_fragment,
            fragment_id: opt_view(self.fragment_id),
            extension: opt_view(self.extension),
            family: self.family,
            kind: self.kind,
            origin_type: self.origin_type,
            confidence: self.confidence,
            recoverability: self.recoverability,
            deleted_entry: self.deleted_entry,
            size: self.size,
            priority_score: self.priority_score,
            filesystem_record: self.filesystem_record,
            parent_reference: self.parent_reference,
            raw_offset: self.raw_offset,
            raw_length: self.raw_length,
            created_at: opt_view(self.created_at),
            modified_at: opt_view(self.modified_at),
            deleted_at: opt_view(self.deleted_at),
            deleted_time_source: self.deleted_time_source,
            deleted_time_confidence: self.deleted_time_confidence,
            last_metadata_change_at: opt_view(self.last_metadata_change_at),
            notes: views(self.notes@),
            preview: fact_views(self.preview@),
            recovery_plan: plan_view(self.recovery_plan),
        }
    }
}

/// What the records of a list say.
pub open spec fn record_views(list: Seq<ArtifactRecord>) -> Seq<ArtifactView> {
    list.map_values(|r: ArtifactRecord| r@)
}

/// What the record of a file says of which only the name is known.
pub open spec fn fresh_view(
    id: Seq<char>,
    scan_id: Seq<char>,
    source_id: Seq<char>,
    name: Seq<char>,
) -> ArtifactView {
    let kind = inferred_kind(name, None);
    ArtifactView {
        id,
        scan_id,
        source_id,
        name,
        original_path: None,
        probable_path: None,
        placement_kind: PlacementKind::UnknownParent,
        path_confidence: PathConfidence::Unknown,
        path_evidence: seq![],
        name_source: if "deleted_record_"@.is_prefix_of(name) {
            NameSourceKind::Generated
        } else {
            NameSourceKind::LongName
        },
        content_source: ContentSourceKind::Unknown,
        artifact_class: ArtifactClass::NamedMetadataCandidate,
        preview_ready: false,
        is_fragment: false,
        fragment_id: None,
        extension: None,
        family: family_of(kind),
        kind,
        origin_type: OriginType::FilesystemDeletedEntry,
        confidence: Confidence::Medium,
        recoverability: Recoverability::Unknown,
        deleted_entry: true,
        size: 0,
        priority_score: family_score(family_of(kind)),
        filesystem_record: None,
        parent_reference: None,
        raw_offset: None,
        raw_length: None,
        created_at: None,
        modified_at: None,
        deleted_at: None,
        deleted_time_source: None,
        deleted_time_confidence: DeletedTimeConfidence::Unknown,
        last_metadata_change_at: None,
        notes: seq![],
        preview: seq![],
        recovery_plan: PlanView::Unrecoverable { reason: "No recovery plan assigned"@ },
    }
}

pub proof fn lemma_fresh_view(
    r: ArtifactRecord,
    scan_id: Seq<char>,
    source_id: Seq<char>,
    name: Seq<char>,
)
    requires
        is_fresh_record(r, scan_id, source_id, name),
    ensures
        r@ == fresh_view(r.id@, scan_id, source_id, name),
{
    assert(r@ =~= fresh_view(r.id@, scan_id, source_id, name));
}

/// A copy of a record says the same.
pub proof fn lemma_same_view(a: ArtifactRecord, b: ArtifactRecord)
    requires
        same_artifact_record(a, b),
    ensures
        a@ == b@,
{
}

/// Adds a note.
pub fn push_note(record: &mut ArtifactRecord, note: &str)
    ensures
        final(record)@ == (ArtifactView { notes: old(record)@.notes.push(note@), ..old(record)@ }),
{
    record.notes.push(owned(note));
    assert(record@ =~= (ArtifactView { notes: old(record)@.notes.push(note@), ..old(record)@ }));
}

} // verus!
