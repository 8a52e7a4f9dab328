//! What directory indexes and the change journal add to the deleted files that a scan found.

use crate::browse_cache::{extension, plain_extension};
use crate::i30::{DirectoryPath, DirectoryView, I30Entry, I30View};
use crate::kinds::{infer_artifact_kind, inferred_kind, is_scan_id};
use crate::model::{
    family_of, family_score, ArtifactClass, ArtifactRecord, Confidence, DeletedTimeConfidence,
    DeletedTimeSource, NameSourceKind, PathConfidence, PathEvidence, PathEvidenceSource,
    PlacementKind, RecoveryPlan, ScanSource,
};
use crate::ntfs_names::generated_name;
use crate::ntfs_paths::{
    chain_confidence, directory_chain, normalize_path, normalized_path,
    ntfs_reference_record_number, reconstruct_file_name_candidate_path, record_number,
    resolved_cache, resolved_path, MftIndex, MftRecord, PathCache, ROOT_RECORD,
};
use crate::numbers::{decimal, push_decimal};
use crate::records::{
    evidence_view, evidence_views, fresh_view, lemma_fresh_view, push_note, record_views,
    ArtifactView, EvidenceView, PlanView,
};
use crate::seqs::turn_around;
use crate::text::{
    ascii_lower, clone_opt, contains_string, count_if, first_index, first_of, or_else, has_prefix,
    has_substring, index_of_from, lemma_first_index_props, opt_view, owned, string_of, strip_back,
    to_ascii_lowercase, trim_end_char, views,
};
use crate::bytes::occurs_in;
use crate::usn::{tells_of_deletion, DirectoryPaths, UsnEvidence, UsnEvidenceView};
use std::collections::HashMap;
use vstd::prelude::*;
use vstd::string::*;

verus! {

broadcast use vstd::std_specs::hash::group_hash_axioms;

// ---------------------------------------------------------------------------
// Warnings.

/// What stands in front of the first closing bracket.
pub open spec fn warning_prefix(warning: Seq<char>) -> Seq<char> {
    warning.subrange(0, first_index(warning, ']'))
}

pub open spec fn has_prefix_of(prefix: Seq<char>) -> spec_fn(Seq<char>) -> bool {
    |s: Seq<char>| prefix.is_prefix_of(s)
}

/// Warnings with one more, unless it is there or eight of its kind are.
pub open spec fn capped_warnings(list: Seq<Seq<char>>, warning: Seq<char>) -> Seq<Seq<char>> {
    if list.contains(warning) {
        list
    } else if count_if(list, has_prefix_of(warning_prefix(warning))) >= 8 && !occurs_in(
        warning,
        ":info]"@,
    ) {
        list
    } else {
        list.push(warning)
    }
}

fn prefix_of_warning(warning: &str) -> (r: String)
    ensures
        r@ == warning_prefix(warning@),
{
    let chars = crate::text::chars_of(warning);
    proof {
        lemma_first_index_props(warning@, ']');
    }
    let at: usize = index_of_from(&chars, ']', 0);
    proof {
        crate::text::lemma_first_index(warning@, ']', at as int);
    }
    string_of(&chars, 0, at)
}

fn count_with_prefix(warnings: &Vec<String>, prefix: &str) -> (r: usize)
    ensures
        r == count_if(views(warnings@), has_prefix_of(prefix@)),
{
    let ghost list = views(warnings@);
    let ghost f = has_prefix_of(prefix@);
    let mut count: usize = 0;
    let mut i: usize = 0;
    assert(list.subrange(0, 0) =~= seq![]);
    while i < warnings.len()
        invariant
            i <= warnings@.len(),
            list == views(warnings@),
            f == has_prefix_of(prefix@),
            count <= i,
            count == count_if(list.subrange(0, i as int), f),
        decreases warnings@.len() - i,
    {
        proof {
            let now = list.subrange(0, i + 1);
            assert(now.drop_last() =~= list.subrange(0, i as int));
            assert(now.last() == warnings@[i as int]@);
        }
        if has_prefix(warnings[i].as_str(), prefix) {
            count += 1;
        }
        i += 1;
    }
    assert(list.subrange(0, i as int) =~= list);
    count
}

/// Adds a warning, unless it is there or eight of its kind are.
pub fn push_capped_warning(warnings: &mut Vec<String>, warning: String)
    ensures
        views(final(warnings)@) == capped_warnings(views(old(warnings)@), warning@),
{
    if contains_string(warnings, warning.as_str()) {
        return;
    }
    let prefix = prefix_of_warning(warning.as_str());
    if count_with_prefix(warnings, prefix.as_str()) >= 8 && !has_substring(
        warning.as_str(),
        ":info]",
    ) {
        return;
    }
    warnings.push(warning);
    assert(views(warnings@) =~= views(old(warnings)@).push(warning@));
}

// ---------------------------------------------------------------------------
// Directories.

/// The paths of the directories up to a record number, and what is known on the way.
pub open spec fn directories_upto(
    source: ScanSource,
    mft: MftIndex,
    n: int,
) -> (Map<u64, Seq<char>>, Map<u64, DirectoryView>)
    decreases n,
{
    let records = mft.records@;
    let root = match source.mount_point {
        Some(m) => m@,
        None => source.device_path@,
    };
    if n <= ROOT_RECORD + 1 {
        (
            Map::empty(),
            if ROOT_RECORD < records.len() && records[ROOT_RECORD as int] is Some {
                Map::empty().insert(
                    records[ROOT_RECORD as int]->Some_0.reference,
                    DirectoryView {
                        path: strip_back(root, '\\'),
                        confidence: PathConfidence::Exact,
                    },
                )
            } else {
                Map::empty()
            },
        )
    } else {
        let (cache, paths) = directories_upto(source, mft, n - 1);
        with_directory(source, mft, records[n - 1], cache, paths)
    }
}

/// One more record of the table; only a directory that can be placed adds a path.
pub open spec fn with_directory(
    source: ScanSource,
    mft: MftIndex,
    slot: Option<MftRecord>,
    cache: Map<u64, Seq<char>>,
    paths: Map<u64, DirectoryView>,
) -> (Map<u64, Seq<char>>, Map<u64, DirectoryView>) {
    match slot {
        None => (cache, paths),
        Some(record) => match record.best_name {
            None => (cache, paths),
            Some(best) => if !record.directory {
                (cache, paths)
            } else {
                match directory_chain(
                    mft.records@,
                    cache,
                    best.parent_reference,
                    seq![],
                    false,
                ) {
                    None => (cache, paths),
                    Some(chain) => (
                        resolved_cache(
                            cache,
                            mft.volume_path@,
                            chain,
                            record.reference,
                            best.name@,
                        ),
                        match normalized_path(
                            source.device_path@,
                            opt_view(source.mount_point),
                            resolved_path(mft.volume_path@, chain, best.name@),
                        ) {
                            Some(path) => paths.insert(
                                record.reference,
                                DirectoryView { path, confidence: chain_confidence(chain) },
                            ),
                            None => paths,
                        },
                    ),
                }
            },
        },
    }
}

pub open spec fn sparse_map_warning() -> Seq<char> {
    "[raw:i30:warning] Directory path map is sparse; probable paths may remain under Unknown."@
}

fn add_directory(
    source: &ScanSource,
    mft: &MftIndex,
    slot: &Option<MftRecord>,
    cache: &mut PathCache,
    paths: &mut DirectoryPaths,
)
    ensures
        (final(cache)@, final(paths)@) == with_directory(
            *source,
            *mft,
            *slot,
            old(cache)@,
            old(paths)@,
        ),
{
    if let Some(record) = slot {
        if record.directory {
            if let Some(best) = &record.best_name {
                if let Some(resolution) = reconstruct_file_name_candidate_path(
                    mft,
                    cache,
                    record.reference,
                    best.name.as_str(),
                    best.parent_reference,
                ) {
                    if let Some(path) = normalize_path(
                        source.device_path.as_str(),
                        &source.mount_point,
                        resolution.path.as_str(),
                    ) {
                        paths.insert(
                            record.reference,
                            DirectoryPath { path, confidence: resolution.confidence },
                        );
                    }
                }
            }
        }
    }
}

/// Finds the paths of all directories.
pub fn build_directory_paths(source: &ScanSource, mft: &MftIndex, warnings: &mut Vec<String>) -> (r:
    DirectoryPaths)
    ensures
        r@ == directories_upto(*source, *mft, mft.records@.len() as int).1,
        views(final(warnings)@) == if r@.len() <= 1 {
            capped_warnings(views(old(warnings)@), sparse_map_warning())
        } else {
            views(old(warnings)@)
        },
{
    let mut cache = PathCache::new();
    let mut paths = DirectoryPaths::new();
    let root: &str = match &source.mount_point {
        Some(mount_point) => mount_point.as_str(),
        None => source.device_path.as_str(),
    };
    let n: usize = mft.records.len();
    if n > ROOT_RECORD as usize {
        if let Some(record) = &mft.records[ROOT_RECORD as usize] {
            paths.insert(
                record.reference,
                DirectoryPath {
                    path: trim_end_char(root, '\\'),
                    confidence: PathConfidence::Exact,
                },
            );
        }
        let mut i: usize = ROOT_RECORD as usize + 1;
        while i < n
            invariant
                n == mft.records@.len(),
                ROOT_RECORD + 1 <= i <= n,
                (cache@, paths@) == directories_upto(*source, *mft, i as int),
            decreases n - i,
        {
            add_directory(source, mft, &mft.records[i], &mut cache, &mut paths);
            i += 1;
        }
    }
    if paths.len() <= 1 {
        push_capped_warning(
            warnings,
            owned(
                "[raw:i30:warning] Directory path map is sparse; probable paths may remain under Unknown.",
            ),
        );
    }
    paths
}

// ---------------------------------------------------------------------------
// What a piece of evidence changes.

/// A record whose name was generated takes a name that it is told.
pub open spec fn hinted_view(v: ArtifactView, name: Seq<char>) -> ArtifactView {
    if name.len() == 0 || !(v.name_source == NameSourceKind::Generated || generated_name(v.name)) {
        v
    } else {
        let kind = inferred_kind(name, None);
        ArtifactView {
            name,
            name_source: NameSourceKind::Reconstructed,
            extension: plain_extension(name),
            kind,
            family: family_of(kind),
            priority_score: family_score(family_of(kind)),
            confidence: if v.confidence == Confidence::Low {
                Confidence::Medium
            } else {
                v.confidence
            },
            ..v
        }
    }
}

pub fn apply_name_hint(artifact: &mut ArtifactRecord, name: &str)
    ensures
        final(artifact)@ == hinted_view(old(artifact)@, name@),
{
    if name.is_empty() {
        return;
    }
    if artifact.name_source == NameSourceKind::Generated || has_prefix(
        artifact.name.as_str(),
        "deleted_record_",
    ) {
        artifact.name = owned(name);
        artifact.name_source = NameSourceKind::Reconstructed;
        artifact.extension = extension(name);
        let kind = infer_artifact_kind(name, None);
        artifact.kind = kind;
        artifact.family = kind.family();
        artifact.priority_score = kind.priority_score();
        if artifact.confidence == Confidence::Low {
            artifact.confidence = Confidence::Medium;
        }
    }
}

/// A record with the times of an index entry where it has none of its own.
pub open spec fn entry_times_view(v: ArtifactView, e: I30View) -> ArtifactView {
    ArtifactView {
        created_at: or_else(v.created_at, e.created_at),
        modified_at: or_else(v.modified_at, e.modified_at),
        last_metadata_change_at: or_else(v.last_metadata_change_at, e.last_metadata_change_at),
        ..v
    }
}

/// A record whose deletion is estimated by the last change of its metadata.
pub open spec fn entry_estimated_view(v: ArtifactView) -> ArtifactView {
    if v.deleted_at is None && v.last_metadata_change_at is Some {
        ArtifactView {
            deleted_time_source: Some(DeletedTimeSource::I30MftChange),
            deleted_time_confidence: DeletedTimeConfidence::Estimated,
            ..v
        }
    } else {
        v
    }
}

pub open spec fn entry_timed_view(v: ArtifactView, e: I30View) -> ArtifactView {
    entry_estimated_view(entry_times_view(v, e))
}

fn take_entry_times(artifact: &mut ArtifactRecord, entry: &I30Entry)
    ensures
        final(artifact)@ == entry_times_view(old(artifact)@, entry@),
{
    artifact.created_at = first_of(clone_opt(&artifact.created_at), &entry.created_at);
    artifact.modified_at = first_of(clone_opt(&artifact.modified_at), &entry.modified_at);
    artifact.last_metadata_change_at =
    first_of(clone_opt(&artifact.last_metadata_change_at), &entry.last_metadata_change_at);
}

fn estimate_by_entry(artifact: &mut ArtifactRecord)
    ensures
        final(artifact)@ == entry_estimated_view(old(artifact)@),
{
    if artifact.deleted_at.is_none() && artifact.last_metadata_change_at.is_some() {
        artifact.deleted_time_source = Some(DeletedTimeSource::I30MftChange);
        artifact.deleted_time_confidence = DeletedTimeConfidence::Estimated;
    }
}

pub fn apply_i30_timestamps(artifact: &mut ArtifactRecord, entry: &I30Entry)
    ensures
        final(artifact)@ == entry_timed_view(old(artifact)@, entry@),
{
    take_entry_times(artifact, entry);
    estimate_by_entry(artifact);
}

/// A record with the time of deletion that the journal tells.
pub open spec fn journal_timed_view(v: ArtifactView, e: UsnEvidenceView) -> ArtifactView {
    if tells_of_deletion(e.reason) && e.timestamp is Some {
        ArtifactView {
            deleted_at: e.timestamp,
            deleted_time_source: Some(DeletedTimeSource::UsnJournal),
            deleted_time_confidence: DeletedTimeConfidence::Exact,
            ..v
        }
    } else {
        v
    }
}

pub fn apply_usn_time(artifact: &mut ArtifactRecord, evidence: &UsnEvidence)
    ensures
        final(artifact)@ == journal_timed_view(old(artifact)@, evidence@),
{
    if evidence.reason & crate::usn::USN_REASON_FILE_DELETE == 0 {
        return;
    }
    if let Some(timestamp) = &evidence.timestamp {
        artifact.deleted_at = Some(timestamp.clone());
        artifact.deleted_time_source = Some(DeletedTimeSource::UsnJournal);
        artifact.deleted_time_confidence = DeletedTimeConfidence::Exact;
    }
}

/// Two pieces of evidence that say the same, whatever their notes.
pub open spec fn same_evidence(a: EvidenceView, b: EvidenceView) -> bool {
    a.source == b.source && a.path == b.path && a.confidence == b.confidence
}

pub open spec fn has_evidence(list: Seq<EvidenceView>, e: EvidenceView) -> bool {
    exists|i: int| 0 <= i < list.len() && same_evidence(#[trigger] list[i], e)
}

/// A record with one more piece of evidence, unless it has it.
pub open spec fn evidenced_view(v: ArtifactView, e: EvidenceView) -> ArtifactView {
    if has_evidence(v.path_evidence, e) {
        v
    } else {
        ArtifactView { path_evidence: v.path_evidence.push(e), ..v }
    }
}

fn opt_equal(a: &Option<String>, b: &Option<String>) -> (r: bool)
    ensures
        r == (opt_view(*a) == opt_view(*b)),
{
    match (a, b) {
        (Some(x), Some(y)) => *x.as_str() == *y.as_str(),
        (None, None) => true,
        _ => false,
    }
}

pub fn push_path_evidence(
    artifact: &mut ArtifactRecord,
    source: PathEvidenceSource,
    path: Option<String>,
    confidence: PathConfidence,
    note: &str,
)
    ensures
        final(artifact)@ == evidenced_view(
            old(artifact)@,
            EvidenceView { source, path: opt_view(path), confidence, note: note@ },
        ),
{
    let evidence = PathEvidence { source, path, confidence, note: owned(note) };
    let ghost e = evidence_view(evidence);
    let ghost list = evidence_views(artifact.path_evidence@);
    let mut i: usize = 0;
    while i < artifact.path_evidence.len()
        invariant
            i <= artifact.path_evidence@.len(),
            *artifact == *old(artifact),
            list == evidence_views(artifact.path_evidence@),
            e == evidence_view(evidence),
            e == (EvidenceView { source, path: opt_view(path), confidence, note: note@ }),
            list == old(artifact)@.path_evidence,
            forall|j: int| 0 <= j < i ==> !same_evidence(#[trigger] list[j], e),
        decreases artifact.path_evidence@.len() - i,
    {
        if artifact.path_evidence[i].source == source && artifact.path_evidence[i].confidence
            == confidence && opt_equal(&artifact.path_evidence[i].path, &evidence.path) {
            assert(same_evidence(list[i as int], e));
            return;
        }
        i += 1;
    }
    artifact.path_evidence.push(evidence);
    assert(evidence_views(artifact.path_evidence@) =~= list.push(e));
}

/// What tells two records apart that only evidence speaks of.
pub open spec fn record_key(v: ArtifactView) -> Seq<char> {
    decimal(
        match v.filesystem_record {
            Some(n) => n as nat,
            None => 0,
        },
    ) + "|"@ + decimal(
        match v.parent_reference {
            Some(n) => n as nat,
            None => 0,
        },
    ) + "|"@ + ascii_lower(v.name) + "|"@ + match v.deleted_at {
        Some(t) => t,
        None => seq![],
    }
}

pub fn artifact_key(artifact: &ArtifactRecord) -> (r: String)
    ensures
        r@ == record_key(artifact@),
{
    let mut key = String::new();
    assert(key@ =~= seq![]);
    push_decimal(
        &mut key,
        match artifact.filesystem_record {
            Some(n) => n,
            None => 0,
        },
    );
    key.append("|");
    push_decimal(
        &mut key,
        match artifact.parent_reference {
            Some(n) => n,
            None => 0,
        },
    );
    key.append("|");
    let name = to_ascii_lowercase(artifact.name.as_str());
    key.append(name.as_str());
    key.append("|");
    if let Some(time) = &artifact.deleted_at {
        key.append(time.as_str());
    }
    assert(key@ =~= record_key(artifact@));
    key
}

// ---------------------------------------------------------------------------
// Evidence for a record that was found.

/// A record with a directory where it has none.
pub open spec fn parented_view(v: ArtifactView, parent_reference: u64) -> ArtifactView {
    if v.parent_reference is None && parent_reference != 0 {
        ArtifactView { parent_reference: Some(parent_reference), ..v }
    } else {
        v
    }
}

fn take_parent(artifact: &mut ArtifactRecord, parent_reference: u64)
    ensures
        final(artifact)@ == parented_view(old(artifact)@, parent_reference),
{
    if artifact.parent_reference.is_none() && parent_reference != 0 {
        artifact.parent_reference = Some(parent_reference);
    }
}

/// A record without any path takes a probable one.
pub open spec fn probable_view(
    v: ArtifactView,
    path: Option<Seq<char>>,
    confidence: PathConfidence,
) -> ArtifactView {
    if v.probable_path is None && v.original_path is None && path is Some {
        ArtifactView {
            probable_path: path,
            placement_kind: PlacementKind::BrokenParentChain,
            path_confidence: confidence,
            ..v
        }
    } else {
        v
    }
}

fn take_probable_path(
    artifact: &mut ArtifactRecord,
    path: &Option<String>,
    confidence: PathConfidence,
)
    ensures
        final(artifact)@ == probable_view(old(artifact)@, opt_view(*path), confidence),
{
    if artifact.probable_path.is_none() && artifact.original_path.is_none() {
        if let Some(path) = path {
            artifact.probable_path = Some(path.clone());
            artifact.placement_kind = PlacementKind::BrokenParentChain;
            artifact.path_confidence = confidence;
        }
    }
}

/// How sure the path of an index entry is; slack is never more than partial.
pub open spec fn entry_confidence(e: I30View) -> PathConfidence {
    if e.from_slack {
        PathConfidence::Partial
    } else {
        e.path_confidence
    }
}

pub open spec fn entry_note(e: I30View) -> Seq<char> {
    if e.from_slack {
        "$I30 slack preserved a directory index entry for this record."@
    } else {
        "$I30 directory index preserved a filename entry for this record."@
    }
}

pub open spec fn entry_evidence(e: I30View, confidence: PathConfidence, note: Seq<char>) -> EvidenceView {
    EvidenceView { source: PathEvidenceSource::I30, path: e.path, confidence, note }
}

pub open spec fn candidate_view(v: ArtifactView) -> ArtifactView {
    ArtifactView { artifact_class: ArtifactClass::NamedMetadataCandidate, ..v }
}

/// A record with what an index entry says of it.
pub open spec fn i30_merged(v: ArtifactView, e: I30View) -> ArtifactView {
    let confidence = entry_confidence(e);
    let named = parented_view(hinted_view(v, e.name), e.parent_reference);
    let placed = entry_timed_view(probable_view(named, e.path, confidence), e);
    candidate_view(evidenced_view(placed, entry_evidence(e, confidence, entry_note(e))))
}

fn merge_i30(artifact: &mut ArtifactRecord, entry: &I30Entry)
    ensures
        final(artifact)@ == i30_merged(old(artifact)@, entry@),
{
    let confidence: PathConfidence = if entry.from_slack {
        PathConfidence::Partial
    } else {
        entry.path_confidence
    };
    apply_name_hint(artifact, entry.name.as_str());
    take_parent(artifact, entry.parent_reference);
    take_probable_path(artifact, &entry.path, confidence);
    apply_i30_timestamps(artifact, entry);
    push_path_evidence(
        artifact,
        PathEvidenceSource::I30,
        clone_opt(&entry.path),
        confidence,
        if entry.from_slack {
            "$I30 slack preserved a directory index entry for this record."
        } else {
            "$I30 directory index preserved a filename entry for this record."
        },
    );
    set_candidate(artifact);
}

fn set_candidate(artifact: &mut ArtifactRecord)
    ensures
        final(artifact)@ == candidate_view(old(artifact)@),
{
    artifact.artifact_class = ArtifactClass::NamedMetadataCandidate;
}

/// A record with the path that the journal tells: an original one where the file reference and
/// the directory match, else a probable one.
pub open spec fn journal_placed_view(
    v: ArtifactView,
    e: UsnEvidenceView,
    confidence: PathConfidence,
) -> ArtifactView {
    if v.original_path is None && confidence == PathConfidence::Reconstructed && e.path is Some
        && v.parent_reference == Some(e.parent_reference) {
        ArtifactView {
            original_path: e.path,
            probable_path: None,
            placement_kind: PlacementKind::OriginalPath,
            path_confidence: PathConfidence::Reconstructed,
            confidence: Confidence::High,
            ..v
        }
    } else {
        probable_view(v, e.path, PathConfidence::Partial)
    }
}

fn take_journal_path(
    artifact: &mut ArtifactRecord,
    evidence: &UsnEvidence,
    confidence: PathConfidence,
)
    ensures
        final(artifact)@ == journal_placed_view(old(artifact)@, evidence@, confidence),
{
    let same_parent: bool = match artifact.parent_reference {
        Some(parent) => parent == evidence.parent_reference,
        None => false,
    };
    if artifact.original_path.is_none() && confidence == PathConfidence::Reconstructed
        && evidence.path.is_some() && same_parent {
        artifact.original_path = clone_opt(&evidence.path);
        artifact.probable_path = None;
        artifact.placement_kind = PlacementKind::OriginalPath;
        artifact.path_confidence = PathConfidence::Reconstructed;
        artifact.confidence = Confidence::High;
    } else {
        take_probable_path(artifact, &evidence.path, PathConfidence::Partial);
    }
}

pub open spec fn journal_evidence(
    e: UsnEvidenceView,
    confidence: PathConfidence,
    note: Seq<char>,
) -> EvidenceView {
    EvidenceView { source: PathEvidenceSource::UsnJournal, path: e.path, confidence, note }
}

pub open spec fn journal_note() -> Seq<char> {
    "USN Journal preserved a delete/rename event for this file reference."@
}

/// A record with what the journal says of it. `by_reference` says that the file reference
/// itself was found, and not only its record number.
pub open spec fn usn_merged(v: ArtifactView, e: UsnEvidenceView, by_reference: bool) -> ArtifactView {
    let confidence = if by_reference {
        PathConfidence::Reconstructed
    } else {
        PathConfidence::Partial
    };
    let named = parented_view(hinted_view(v, e.name), e.parent_reference);
    evidenced_view(
        journal_timed_view(journal_placed_view(named, e, confidence), e),
        journal_evidence(e, confidence, journal_note()),
    )
}

fn merge_usn(artifact: &mut ArtifactRecord, evidence: &UsnEvidence, by_reference: bool)
    ensures
        final(artifact)@ == usn_merged(old(artifact)@, evidence@, by_reference),
{
    let confidence: PathConfidence = if by_reference {
        PathConfidence::Reconstructed
    } else {
        PathConfidence::Partial
    };
    apply_name_hint(artifact, evidence.name.as_str());
    take_parent(artifact, evidence.parent_reference);
    take_journal_path(artifact, evidence, confidence);
    apply_usn_time(artifact, evidence);
    push_path_evidence(
        artifact,
        PathEvidenceSource::UsnJournal,
        clone_opt(&evidence.path),
        confidence,
        "USN Journal preserved a delete/rename event for this file reference.",
    );
}

// ---------------------------------------------------------------------------
// Files that only evidence speaks of.

/// A record that an index entry in slack alone gives.
pub open spec fn i30_started(
    id: Seq<char>,
    scan_id: Seq<char>,
    source_id: Seq<char>,
    e: I30View,
) -> ArtifactView {
    ArtifactView {
        filesystem_record: Some(record_number(e.file_reference)),
        parent_reference: Some(e.parent_reference),
        size: e.size,
        extension: plain_extension(e.name),
        name_source: NameSourceKind::Reconstructed,
        confidence: Confidence::Low,
        recovery_plan: PlanView::Unrecoverable {
            reason: "Recovered only from NTFS $I30 directory index evidence"@,
        },
        created_at: e.created_at,
        modified_at: e.modified_at,
        last_metadata_change_at: e.last_metadata_change_at,
        ..fresh_view(id, scan_id, source_id, e.name)
    }
}

pub open spec fn noted_view(v: ArtifactView, note: Seq<char>) -> ArtifactView {
    ArtifactView { notes: v.notes.push(note), ..v }
}

pub open spec fn i30_created_note() -> Seq<char> {
    "Created from validated NTFS $I30 slack; content recovery depends on surviving MFT/data runs."@
}

pub open spec fn i30_created_evidence_note() -> Seq<char> {
    "$I30 slack preserved metadata for a deleted or reused MFT record."@
}

pub open spec fn i30_created(
    id: Seq<char>,
    scan_id: Seq<char>,
    source_id: Seq<char>,
    e: I30View,
) -> ArtifactView {
    let placed = probable_view(
        i30_started(id, scan_id, source_id, e),
        e.path,
        PathConfidence::Partial,
    );
    noted_view(
        evidenced_view(
            entry_timed_view(placed, e),
            entry_evidence(e, PathConfidence::Partial, i30_created_evidence_note()),
        ),
        i30_created_note(),
    )
}

fn start_i30(scan_id: &str, source_id: &str, entry: &I30Entry) -> (r: ArtifactRecord)
    ensures
        is_scan_id(r@.id),
        r@ == i30_started(r@.id, scan_id@, source_id@, entry@),
{
    let mut artifact = ArtifactRecord::new(scan_id, source_id, entry.name.as_str());
    proof {
        lemma_fresh_view(artifact, scan_id@, source_id@, entry.name@);
    }
    artifact.filesystem_record = Some(ntfs_reference_record_number(entry.file_reference));
    artifact.parent_reference = Some(entry.parent_reference);
    artifact.size = entry.size;
    artifact.extension = extension(entry.name.as_str());
    artifact.name_source = NameSourceKind::Reconstructed;
    artifact.confidence = Confidence::Low;
    artifact.recovery_plan =
    RecoveryPlan::Unrecoverable {
        reason: owned("Recovered only from NTFS $I30 directory index evidence"),
    };
    artifact.created_at = clone_opt(&entry.created_at);
    artifact.modified_at = clone_opt(&entry.modified_at);
    artifact.last_metadata_change_at = clone_opt(&entry.last_metadata_change_at);
    artifact
}

fn create_i30(scan_id: &str, source_id: &str, entry: &I30Entry) -> (r: ArtifactRecord)
    ensures
        is_scan_id(r@.id),
        r@ == i30_created(r@.id, scan_id@, source_id@, entry@),
{
    let mut artifact = start_i30(scan_id, source_id, entry);
    let ghost id = artifact@.id;
    take_probable_path(&mut artifact, &entry.path, PathConfidence::Partial);
    apply_i30_timestamps(&mut artifact, entry);
    push_path_evidence(
        &mut artifact,
        PathEvidenceSource::I30,
        clone_opt(&entry.path),
        PathConfidence::Partial,
        "$I30 slack preserved metadata for a deleted or reused MFT record.",
    );
    push_note(
        &mut artifact,
        "Created from validated NTFS $I30 slack; content recovery depends on surviving MFT/data runs.",
    );
    assert(artifact@ == i30_created(id, scan_id@, source_id@, entry@));
    artifact
}

/// A record that the journal alone gives.
pub open spec fn usn_started(
    id: Seq<char>,
    scan_id: Seq<char>,
    source_id: Seq<char>,
    e: UsnEvidenceView,
) -> ArtifactView {
    ArtifactView {
        filesystem_record: Some(record_number(e.file_reference)),
        parent_reference: Some(e.parent_reference),
        extension: plain_extension(e.name),
        name_source: NameSourceKind::Reconstructed,
        recovery_plan: PlanView::Unrecoverable {
            reason: "Recovered only from NTFS USN Journal delete evidence"@,
        },
        ..fresh_view(id, scan_id, source_id, e.name)
    }
}

pub open spec fn usn_created_note() -> Seq<char> {
    "Created from USN Journal metadata; content recovery requires surviving MFT/data evidence."@
}

pub open spec fn usn_created_evidence_note() -> Seq<char> {
    "USN Journal recorded deletion metadata for a file not recoverable from MFT alone."@
}

pub open spec fn usn_created(
    id: Seq<char>,
    scan_id: Seq<char>,
    source_id: Seq<char>,
    e: UsnEvidenceView,
) -> ArtifactView {
    let placed = probable_view(
        usn_started(id, scan_id, source_id, e),
        e.path,
        PathConfidence::Partial,
    );
    noted_view(
        evidenced_view(
            journal_timed_view(placed, e),
            journal_evidence(e, PathConfidence::Partial, usn_created_evidence_note()),
        ),
        usn_created_note(),
    )
}

fn start_usn(scan_id: &str, source_id: &str, evidence: &UsnEvidence) -> (r: ArtifactRecord)
    ensures
        is_scan_id(r@.id),
        r@ == usn_started(r@.id, scan_id@, source_id@, evidence@),
{
    let mut artifact = ArtifactRecord::new(scan_id, source_id, evidence.name.as_str());
    proof {
        lemma_fresh_view(artifact, scan_id@, source_id@, evidence.name@);
    }
    artifact.filesystem_record = Some(ntfs_reference_record_number(evidence.file_reference));
    artifact.parent_reference = Some(evidence.parent_reference);
    artifact.extension = extension(evidence.name.as_str());
    artifact.name_source = NameSourceKind::Reconstructed;
    artifact.recovery_plan =
    RecoveryPlan::Unrecoverable {
        reason: owned("Recovered only from NTFS USN Journal delete evidence"),
    };
    artifact
}

fn create_usn(scan_id: &str, source_id: &str, evidence: &UsnEvidence) -> (r: ArtifactRecord)
    ensures
        is_scan_id(r@.id),
        r@ == usn_created(r@.id, scan_id@, source_id@, evidence@),
{
    let mut artifact = start_usn(scan_id, source_id, evidence);
    let ghost id = artifact@.id;
    take_probable_path(&mut artifact, &evidence.path, PathConfidence::Partial);
    apply_usn_time(&mut artifact, evidence);
    push_path_evidence(
        &mut artifact,
        PathEvidenceSource::UsnJournal,
        clone_opt(&evidence.path),
        PathConfidence::Partial,
        "USN Journal recorded deletion metadata for a file not recoverable from MFT alone.",
    );
    push_note(
        &mut artifact,
        "Created from USN Journal metadata; content recovery requires surviving MFT/data evidence.",
    );
    assert(artifact@ == usn_created(id, scan_id@, source_id@, evidence@));
    artifact
}

// ---------------------------------------------------------------------------
// The merger.

/// The last record of each file reference that is still in the table.
pub open spec fn reference_index(
    records: Seq<Option<MftRecord>>,
    results: Seq<ArtifactView>,
) -> Map<u64, usize>
    decreases results.len(),
{
    if results.len() == 0 {
        Map::empty()
    } else {
        let rest = reference_index(records, results.drop_last());
        match results.last().filesystem_record {
            Some(n) => if n < records.len() && records[n as int] is Some {
                rest.insert(records[n as int]->Some_0.reference, (results.len() - 1) as usize)
            } else {
                rest
            },
            None => rest,
        }
    }
}

/// The first record of each record number.
pub open spec fn number_index(results: Seq<ArtifactView>) -> Map<u64, usize>
    decreases results.len(),
{
    if results.len() == 0 {
        Map::empty()
    } else {
        let rest = number_index(results.drop_last());
        match results.last().filesystem_record {
            Some(n) => if rest.contains_key(n) {
                rest
            } else {
                rest.insert(n, (results.len() - 1) as usize)
            },
            None => rest,
        }
    }
}

/// The record that a file reference is about.
pub open spec fn found_index(
    records: Seq<Option<MftRecord>>,
    results: Seq<ArtifactView>,
    file_reference: u64,
) -> Option<usize> {
    let by_reference = reference_index(records, results);
    let by_number = number_index(results);
    let number = record_number(file_reference);
    if by_reference.contains_key(file_reference) {
        Some(by_reference[file_reference])
    } else if by_number.contains_key(number) {
        Some(by_number[number])
    } else {
        None
    }
}

pub open spec fn record_keys(results: Seq<ArtifactView>) -> Seq<Seq<char>> {
    results.map_values(|v: ArtifactView| record_key(v))
}

/// The indexes depend on the record numbers alone.
proof fn lemma_index_by_numbers(
    records: Seq<Option<MftRecord>>,
    a: Seq<ArtifactView>,
    b: Seq<ArtifactView>,
)
    requires
        a.len() == b.len(),
        forall|i: int|
            0 <= i < a.len() ==> (#[trigger] a[i]).filesystem_record == b[i].filesystem_record,
    ensures
        reference_index(records, a) == reference_index(records, b),
        number_index(a) == number_index(b),
    decreases a.len(),
{
    if a.len() > 0 {
        assert(a.last().filesystem_record == b.last().filesystem_record) by {
            assert(a[a.len() - 1].filesystem_record == b[b.len() - 1].filesystem_record);
        }
        assert forall|i: int| 0 <= i < a.drop_last().len() implies (#[trigger] a.drop_last()[i]).filesystem_record
            == b.drop_last()[i].filesystem_record by {
            assert(a[i].filesystem_record == b[i].filesystem_record);
        }
        lemma_index_by_numbers(records, a.drop_last(), b.drop_last());
    }
}

/// Indexes point at records.
proof fn lemma_index_in_range(records: Seq<Option<MftRecord>>, results: Seq<ArtifactView>)
    requires
        results.len() <= usize::MAX,
    ensures
        forall|k: u64| #[trigger]
            reference_index(records, results).contains_key(k) ==> reference_index(
                records,
                results,
            )[k] < results.len(),
        forall|k: u64| #[trigger]
            number_index(results).contains_key(k) ==> number_index(results)[k] < results.len(),
    decreases results.len(),
{
    if results.len() > 0 {
        lemma_index_in_range(records, results.drop_last());
        let front = results.drop_last();
        assert forall|k: u64| #[trigger]
            reference_index(records, results).contains_key(k) implies reference_index(
            records,
            results,
        )[k] < results.len() by {
            if reference_index(records, front).contains_key(k) {
                assert(reference_index(records, front)[k] < front.len());
            }
        }
        assert forall|k: u64| #[trigger] number_index(results).contains_key(k) implies number_index(
            results,
        )[k] < results.len() by {
            if number_index(front).contains_key(k) {
                assert(number_index(front)[k] < front.len());
            }
        }
    }
}

/// What was found, and the records that evidence has added to it.
#[derive(Debug)]
pub struct EvidenceMerger {
    scan_id: String,
    source_id: String,
    results: Vec<ArtifactRecord>,
    by_reference: HashMap<u64, usize>,
    by_number: HashMap<u64, usize>,
    keys: Vec<String>,
}

impl EvidenceMerger {
    pub closed spec fn scan_id(&self) -> Seq<char> {
        self.scan_id@
    }

    pub closed spec fn source_id(&self) -> Seq<char> {
        self.source_id@
    }

    pub closed spec fn results(&self) -> Seq<ArtifactView> {
        record_views(self.results@)
    }

    /// The keys of the records when the last one was added.
    pub closed spec fn keys(&self) -> Seq<Seq<char>> {
        views(self.keys@)
    }

    pub closed spec fn wf(&self, mft: MftIndex) -> bool {
        &&& self.by_reference@ == reference_index(mft.records@, record_views(self.results@))
        &&& self.by_number@ == number_index(record_views(self.results@))
    }

    fn index_last(&mut self, mft: &MftIndex)
        requires
            old(self).results@.len() > 0,
            old(self).by_reference@ == reference_index(
                mft.records@,
                record_views(old(self).results@).drop_last(),
            ),
            old(self).by_number@ == number_index(record_views(old(self).results@).drop_last()),
        ensures
            final(self).wf(*mft),
            final(self).results@ == old(self).results@,
            final(self).keys@ == old(self).keys@,
            final(self).scan_id == old(self).scan_id,
            final(self).source_id == old(self).source_id,
    {
        let last: usize = self.results.len() - 1;
        let ghost all = record_views(self.results@);
        assert(all.last() == self.results@[last as int]@);
        if let Some(number) = self.results[last].filesystem_record {
            if !self.by_number.contains_key(&number) {
                self.by_number.insert(number, last);
            }
            if number < mft.records.len() as u64 {
                if let Some(record) = &mft.records[number as usize] {
                    self.by_reference.insert(record.reference, last);
                }
            }
        }
    }

    fn rebuild_keys(&mut self)
        ensures
            final(self).keys() == record_keys(final(self).results()),
            final(self).results@ == old(self).results@,
            final(self).by_reference == old(self).by_reference,
            final(self).by_number == old(self).by_number,
            final(self).scan_id == old(self).scan_id,
            final(self).source_id == old(self).source_id,
    {
        let mut keys: Vec<String> = Vec::new();
        let mut i: usize = 0;
        while i < self.results.len()
            invariant
                *self == *old(self),
                i <= self.results@.len(),
                keys@.len() == i,
                forall|j: int|
                    0 <= j < i ==> (#[trigger] keys@[j])@ == record_key(self.results@[j]@),
            decreases self.results@.len() - i,
        {
            keys.push(artifact_key(&self.results[i]));
            i += 1;
        }
        self.keys = keys;
        assert(views(self.keys@) =~= record_keys(record_views(self.results@)));
    }

    /// A merger of what a scan has found.
    pub fn new(scan_id: &str, source_id: &str, mft: &MftIndex, found: Vec<ArtifactRecord>) -> (r:
        Self)
        ensures
            r.wf(*mft),
            r.scan_id() == scan_id@,
            r.source_id() == source_id@,
            r.results() == record_views(found@),
            r.keys() == record_keys(record_views(found@)),
    {
        let ghost given = found@;
        let mut merger = EvidenceMerger {
            scan_id: owned(scan_id),
            source_id: owned(source_id),
            results: Vec::new(),
            by_reference: HashMap::new(),
            by_number: HashMap::new(),
            keys: Vec::new(),
        };
        let mut turned = turn_around(found);
        assert(record_views(merger.results@) =~= seq![]);
        assert(given.subrange(0, 0) =~= merger.results@);
        while turned.len() > 0
            invariant
                merger.wf(*mft),
                merger.scan_id@ == scan_id@,
                merger.source_id@ == source_id@,
                merger.results@.len() + turned@.len() == given.len(),
                merger.results@ == given.subrange(0, merger.results@.len() as int),
                forall|k: int|
                    0 <= k < turned@.len() ==> #[trigger] turned@[k] == given[given.len() - 1 - k],
            decreases turned@.len(),
        {
            let ghost before = record_views(merger.results@);
            if let Some(record) = turned.pop() {
                merger.results.push(record);
                assert(record_views(merger.results@).drop_last() =~= before);
                merger.index_last(mft);
            }
            assert(merger.results@ =~= given.subrange(0, merger.results@.len() as int));
        }
        merger.rebuild_keys();
        assert(merger.results@ =~= given);
        merger
    }

    fn find(&self, mft: &MftIndex, file_reference: u64) -> (r: Option<usize>)
        requires
            self.wf(*mft),
        ensures
            r == found_index(mft.records@, self.results(), file_reference),
            r matches Some(i) ==> i < self.results@.len(),
    {
        let count: usize = self.results.len();
        proof {
            lemma_index_in_range(mft.records@, record_views(self.results@));
        }
        match self.by_reference.get(&file_reference) {
            Some(i) => Some(*i),
            None => match self.by_number.get(&ntfs_reference_record_number(file_reference)) {
                Some(i) => Some(*i),
                None => None,
            },
        }
    }

    /// Adds a record that only evidence speaks of, unless there is one like it.
    fn add(&mut self, mft: &MftIndex, artifact: ArtifactRecord)
        requires
            old(self).wf(*mft),
        ensures
            final(self).wf(*mft),
            final(self).scan_id() == old(self).scan_id(),
            final(self).source_id() == old(self).source_id(),
            if old(self).keys().contains(record_key(artifact@)) {
                final(self).results() == old(self).results() && final(self).keys()
                    == old(self).keys()
            } else {
                final(self).results() == old(self).results().push(artifact@) && final(self).keys()
                    == record_keys(final(self).results())
            },
    {
        let key = artifact_key(&artifact);
        if contains_string(&self.keys, key.as_str()) {
            return;
        }
        let ghost before = record_views(self.results@);
        self.results.push(artifact);
        proof {
            assert(record_views(self.results@).drop_last() =~= before);
            assert(record_views(self.results@) =~= before.push(artifact@));
        }
        self.index_last(mft);
        self.rebuild_keys();
    }

    /// Takes an index entry: the record that it is about learns from it; without one, an entry
    /// in slack whose record is not in use gives a new record.
    pub fn apply_i30(&mut self, mft: &MftIndex, entry: I30Entry)
        requires
            old(self).wf(*mft),
        ensures
            final(self).wf(*mft),
            final(self).scan_id() == old(self).scan_id(),
            final(self).source_id() == old(self).source_id(),
            match found_index(mft.records@, old(self).results(), entry.file_reference) {
                Some(i) => {
                    &&& final(self).results() == old(self).results().update(
                        i as int,
                        i30_merged(old(self).results()[i as int], entry@),
                    )
                    &&& final(self).keys() == old(self).keys()
                },
                None => {
                    if !entry.from_slack || entry_in_use(mft.records@, entry@) {
                        final(self).results() == old(self).results() && final(self).keys()
                            == old(self).keys()
                    } else {
                        exists|id: Seq<char>|
                            is_scan_id(id) && added_record(
                                *old(self),
                                *final(self),
                                #[trigger] i30_created(
                                    id,
                                    old(self).scan_id(),
                                    old(self).source_id(),
                                    entry@,
                                ),
                            )
                    }
                },
            },
    {
        if let Some(index) = self.find(mft, entry.file_reference) {
            let ghost before = record_views(self.results@);
            merge_i30(&mut self.results[index], &entry);
            proof {
                let after = record_views(self.results@);
                assert(after =~= before.update(
                    index as int,
                    i30_merged(before[index as int], entry@),
                ));
                lemma_index_by_numbers(mft.records@, after, before);
            }
            return;
        }
        if !entry.from_slack || should_skip_created_i30_entry(mft, &entry) {
            return;
        }
        let artifact = create_i30(self.scan_id.as_str(), self.source_id.as_str(), &entry);
        let ghost made = artifact@;
        self.add(mft, artifact);
        assert(added_record(
            *old(self),
            *self,
            i30_created(made.id, old(self).scan_id(), old(self).source_id(), entry@),
        ));
    }

    /// Takes what the journal says: the record that it is about learns from it; without one, a
    /// deletion gives a new record.
    pub fn apply_usn(&mut self, mft: &MftIndex, evidence: UsnEvidence)
        requires
            old(self).wf(*mft),
        ensures
            final(self).wf(*mft),
            final(self).scan_id() == old(self).scan_id(),
            final(self).source_id() == old(self).source_id(),
            match found_index(mft.records@, old(self).results(), evidence.file_reference) {
                Some(i) => {
                    &&& final(self).results() == old(self).results().update(
                        i as int,
                        usn_merged(
                            old(self).results()[i as int],
                            evidence@,
                            reference_index(mft.records@, old(self).results()).contains_key(
                                evidence.file_reference,
                            ),
                        ),
                    )
                    &&& final(self).keys() == old(self).keys()
                },
                None => {
                    if !tells_of_deletion(evidence.reason) || evidence.name@.len() == 0 {
                        final(self).results() == old(self).results() && final(self).keys()
                            == old(self).keys()
                    } else {
                        exists|id: Seq<char>|
                            is_scan_id(id) && added_record(
                                *old(self),
                                *final(self),
                                #[trigger] usn_created(
                                    id,
                                    old(self).scan_id(),
                                    old(self).source_id(),
                                    evidence@,
                                ),
                            )
                    }
                },
            },
    {
        if let Some(index) = self.find(mft, evidence.file_reference) {
            let ghost before = record_views(self.results@);
            let by_reference: bool = self.by_reference.contains_key(&evidence.file_reference);
            merge_usn(&mut self.results[index], &evidence, by_reference);
            proof {
                let after = record_views(self.results@);
                assert(after =~= before.update(
                    index as int,
                    usn_merged(before[index as int], evidence@, by_reference),
                ));
                lemma_index_by_numbers(mft.records@, after, before);
            }
            return;
        }
        if evidence.reason & crate::usn::USN_REASON_FILE_DELETE == 0
            || evidence.name.as_str().is_empty() {
            return;
        }
        let artifact = create_usn(self.scan_id.as_str(), self.source_id.as_str(), &evidence);
        let ghost made = artifact@;
        self.add(mft, artifact);
        assert(added_record(
            *old(self),
            *self,
            usn_created(made.id, old(self).scan_id(), old(self).source_id(), evidence@),
        ));
    }

    /// What was found, with what evidence says of it.
    pub fn finish(self) -> (r: Vec<ArtifactRecord>)
        ensures
            record_views(r@) == self.results(),
    {
        self.results
    }
}

/// One more record, unless there is one like it.
pub open spec fn added_record(
    before: EvidenceMerger,
    after: EvidenceMerger,
    made: ArtifactView,
) -> bool {
    if before.keys().contains(record_key(made)) {
        after.results() == before.results() && after.keys() == before.keys()
    } else {
        after.results() == before.results().push(made) && after.keys() == record_keys(
            after.results(),
        )
    }
}

/// The file of an index entry is in use under the same reference.
pub open spec fn entry_in_use(records: Seq<Option<MftRecord>>, e: I30View) -> bool {
    let n = record_number(e.file_reference);
    n < records.len() && (records[n as int] matches Some(record) && record.reference
        == e.file_reference && record.used)
}

pub fn should_skip_created_i30_entry(mft: &MftIndex, entry: &I30Entry) -> (r: bool)
    ensures
        r == entry_in_use(mft.records@, entry@),
{
    let number: u64 = ntfs_reference_record_number(entry.file_reference);
    if number < mft.records.len() as u64 {
        if let Some(record) = &mft.records[number as usize] {
            return record.reference == entry.file_reference && record.used;
        }
    }
    false
}

// ---------------------------------------------------------------------------
// Laws.

proof fn lemma_pushed_once(v: ArtifactView, e: EvidenceView)
    ensures
        has_evidence(evidenced_view(v, e).path_evidence, e),
{
    let once = evidenced_view(v, e);
    if !has_evidence(v.path_evidence, e) {
        assert(same_evidence(once.path_evidence[v.path_evidence.len() as int], e));
    }
}

proof fn lemma_entry_twice(v: ArtifactView, entry: I30View)
    ensures
        i30_merged(i30_merged(v, entry), entry) == i30_merged(v, entry),
{
    let confidence = entry_confidence(entry);
    let hinted = hinted_view(v, entry.name);
    let named = parented_view(hinted, entry.parent_reference);
    let probable = probable_view(named, entry.path, confidence);
    let placed = entry_timed_view(probable, entry);
    let e = entry_evidence(entry, confidence, entry_note(entry));
    lemma_pushed_once(placed, e);
    let once = i30_merged(v, entry);
    assert(once.name == hinted.name && once.name_source == hinted.name_source);
    assert(once.parent_reference == named.parent_reference);
    assert(once.probable_path == probable.probable_path);
    assert(once.original_path == probable.original_path);
    assert(hinted_view(once, entry.name) == once);
    assert(parented_view(once, entry.parent_reference) == once);
    assert(probable_view(once, entry.path, confidence) == once);
    assert(entry_times_view(once, entry) == once);
    assert(entry_estimated_view(once) == once);
    assert(evidenced_view(once, e) == once);
    assert(candidate_view(once) == once);
}

proof fn lemma_hint_stays(v: ArtifactView, w: ArtifactView, name: Seq<char>)
    requires
        ({
            let hinted = hinted_view(v, name);
            &&& w.name == hinted.name
            &&& w.name_source == hinted.name_source
            &&& w.extension == hinted.extension
            &&& w.kind == hinted.kind
            &&& w.family == hinted.family
            &&& w.priority_score == hinted.priority_score
            &&& w.confidence == hinted.confidence || w.confidence == Confidence::High
        }),
    ensures
        hinted_view(w, name) == w,
{
}

proof fn lemma_journal_place_stays(
    v: ArtifactView,
    w: ArtifactView,
    e: UsnEvidenceView,
    confidence: PathConfidence,
)
    requires
        ({
            let placed = journal_placed_view(v, e, confidence);
            &&& w.original_path == placed.original_path
            &&& w.probable_path == placed.probable_path
            &&& w.parent_reference == v.parent_reference
        }),
    ensures
        journal_placed_view(w, e, confidence) == w,
{
}

spec fn journal_weight(by_reference: bool) -> PathConfidence {
    if by_reference {
        PathConfidence::Reconstructed
    } else {
        PathConfidence::Partial
    }
}

/// A record that has what the journal says takes nothing more from it.
proof fn lemma_journal_known(w: ArtifactView, evidence: UsnEvidenceView, by_reference: bool)
    requires
        hinted_view(w, evidence.name) == w,
        parented_view(w, evidence.parent_reference) == w,
        journal_placed_view(w, evidence, journal_weight(by_reference)) == w,
        journal_timed_view(w, evidence) == w,
        has_evidence(
            w.path_evidence,
            journal_evidence(evidence, journal_weight(by_reference), journal_note()),
        ),
    ensures
        usn_merged(w, evidence, by_reference) == w,
{
}

proof fn lemma_journal_twice(v: ArtifactView, evidence: UsnEvidenceView, by_reference: bool)
    ensures
        usn_merged(usn_merged(v, evidence, by_reference), evidence, by_reference) == usn_merged(
            v,
            evidence,
            by_reference,
        ),
{
    let confidence = journal_weight(by_reference);
    let hinted = hinted_view(v, evidence.name);
    let named = parented_view(hinted, evidence.parent_reference);
    let placed = journal_placed_view(named, evidence, confidence);
    let dated = journal_timed_view(placed, evidence);
    let e = journal_evidence(evidence, confidence, journal_note());
    let once = evidenced_view(dated, e);
    lemma_pushed_once(dated, e);
    assert(once == usn_merged(v, evidence, by_reference));
    assert(once.confidence == placed.confidence);
    assert(placed.confidence == named.confidence || placed.confidence == Confidence::High);
    lemma_hint_stays(v, once, evidence.name);
    lemma_journal_place_stays(named, once, evidence, confidence);
    assert(once.parent_reference == named.parent_reference);
    assert(once.deleted_at == dated.deleted_at);
    assert(once.deleted_time_source == dated.deleted_time_source);
    assert(once.deleted_time_confidence == dated.deleted_time_confidence);
    lemma_journal_known(once, evidence, by_reference);
}

/// The same evidence twice says no more than once, be it an index entry or a journal record.
pub proof fn lemma_evidence_is_idempotent(
    v: ArtifactView,
    entry: I30View,
    evidence: UsnEvidenceView,
    by_reference: bool,
)
    ensures
        i30_merged(i30_merged(v, entry), entry) == i30_merged(v, entry),
        usn_merged(usn_merged(v, evidence, by_reference), evidence, by_reference) == usn_merged(
            v,
            evidence,
            by_reference,
        ),
{
    lemma_entry_twice(v, entry);
    lemma_journal_twice(v, evidence, by_reference);
}

/// No evidence takes an original path away or changes it.
pub proof fn lemma_evidence_keeps_original_paths(
    v: ArtifactView,
    entry: I30View,
    evidence: UsnEvidenceView,
    by_reference: bool,
)
    requires
        v.original_path is Some,
    ensures
        i30_merged(v, entry).original_path == v.original_path,
        usn_merged(v, evidence, by_reference).original_path == v.original_path,
{
}

/// Evidence never changes how the content of a file is recovered.
pub proof fn lemma_evidence_keeps_recovery_plans(
    v: ArtifactView,
    entry: I30View,
    evidence: UsnEvidenceView,
    by_reference: bool,
)
    ensures
        i30_merged(v, entry).recovery_plan == v.recovery_plan,
        usn_merged(v, evidence, by_reference).recovery_plan == v.recovery_plan,
        i30_merged(v, entry).filesystem_record == v.filesystem_record,
        usn_merged(v, evidence, by_reference).filesystem_record == v.filesystem_record,
{
}

/// The list of warnings never grows beyond one copy of each warning, and never loses one.
pub proof fn lemma_warnings_are_kept(list: Seq<Seq<char>>, warning: Seq<char>)
    ensures
        list.is_prefix_of(capped_warnings(list, warning)),
        list.no_duplicates() ==> capped_warnings(list, warning).no_duplicates(),
        capped_warnings(list, warning).len() <= list.len() + 1,
{
}

} // verus!
