//! The names of a deleted file, and which of them is the best.

use crate::browse_cache::{extension, plain_extension};
use crate::browse_paths::{byte_len, byte_length};
use crate::clock::{filetime_text, format_ntfs_filetime};
use crate::kinds::{infer_artifact_kind, inferred_kind};
use crate::model::{
    clone_path_evidences, ArtifactKind, NameSourceKind, PathConfidence, PathEvidence,
    PlacementKind,
};
use crate::ntfs_paths::{
    chain_confidence, chain_note, chain_placement, chain_source, directory_chain, normalize_path,
    normalized_path, ntfs_reference_record_number, reconstruct_file_name_candidate_path,
    record_number, resolved_cache, resolved_path, MftIndex, MftRecord, PathCache,
};
use crate::records::{evidence_view, evidence_views, EvidenceView};
use crate::text::{
    after_last, clone_opt, has_prefix, opt_view, owned, replace_char, replaced, rsplit_after, trim,
    trimmed,
};
use vstd::prelude::*;
use vstd::string::*;

verus! {

/// The name spaces of a file name.
pub const NAMESPACE_POSIX: u8 = 0;

pub const NAMESPACE_WIN32: u8 = 1;

pub const NAMESPACE_DOS: u8 = 2;

pub const NAMESPACE_WIN32_AND_DOS: u8 = 3;

/// A file name attribute of a record; the times are ticks of 100 nanoseconds since 1601.
#[derive(Debug)]
pub struct FileNameAttribute {
    pub name: String,
    pub reparse_point: bool,
    pub parent_reference: u64,
    pub namespace: u8,
    pub created: u64,
    pub modified: u64,
    pub changed: u64,
}

/// A name that a deleted file may have had, and where it lay under that name.
#[derive(Debug)]
pub struct FileNameCandidate {
    pub name: String,
    pub original_path: Option<String>,
    pub probable_path: Option<String>,
    pub parent_reference: u64,
    pub namespace: u8,
    pub placement_kind: PlacementKind,
    pub path_confidence: PathConfidence,
    pub path_evidence: Vec<PathEvidence>,
    pub created_at: Option<String>,
    pub modified_at: Option<String>,
    pub last_metadata_change_at: Option<String>,
}

/// What a candidate says.
#[verifier::ext_equal]
pub struct CandidateView {
    pub name: Seq<char>,
    pub original_path: Option<Seq<char>>,
    pub probable_path: Option<Seq<char>>,
    pub parent_reference: u64,
    pub namespace: u8,
    pub placement_kind: PlacementKind,
    pub path_confidence: PathConfidence,
    pub path_evidence: Seq<EvidenceView>,
    pub created_at: Option<Seq<char>>,
    pub modified_at: Option<Seq<char>>,
    pub last_metadata_change_at: Option<Seq<char>>,
}

impl View for FileNameCandidate {
    type V = CandidateView;

    open spec fn view(&self) -> CandidateView {
        CandidateView {
            name: self.name@,
            original_path: opt_view(self.original_path),
            probable_path: opt_view(self.probable_path),
            parent_reference: self.parent_reference,
            namespace: self.namespace,
            placement_kind: self.placement_kind,
            path_confidence: self.path_confidence,
            path_evidence: evidence_views(self.path_evidence@),
            created_at: opt_view(self.created_at),
            modified_at: opt_view(self.modified_at),
            last_metadata_change_at: opt_view(self.last_metadata_change_at),
        }
    }
}

pub open spec fn candidate_views(list: Seq<FileNameCandidate>) -> Seq<CandidateView> {
    list.map_values(|c: FileNameCandidate| c@)
}

impl Clone for FileNameCandidate {
    fn clone(&self) -> (r: Self)
        ensures
            r@ == self@,
    {
        FileNameCandidate {
            name: self.name.clone(),
            original_path: clone_opt(&self.original_path),
            probable_path: clone_opt(&self.probable_path),
            parent_reference: self.parent_reference,
            namespace: self.namespace,
            placement_kind: self.placement_kind,
            path_confidence: self.path_confidence,
            path_evidence: clone_path_evidences(&self.path_evidence),
            created_at: clone_opt(&self.created_at),
            modified_at: clone_opt(&self.modified_at),
            last_metadata_change_at: clone_opt(&self.last_metadata_change_at),
        }
    }
}

// ---------------------------------------------------------------------------
// Which names a file may have had.

/// Where the names of a file are looked up.
pub struct NameContext {
    pub records: Seq<Option<MftRecord>>,
    pub volume_path: Seq<char>,
    pub device_path: Seq<char>,
    pub mount_point: Option<Seq<char>>,
    pub file_reference: u64,
    pub resolve_paths: bool,
}

/// The directories above a name, where they are looked for and found.
pub open spec fn name_chain(
    ctx: NameContext,
    cache: Map<u64, Seq<char>>,
    attribute: FileNameAttribute,
) -> Option<crate::ntfs_paths::DirectoryChain> {
    if ctx.resolve_paths {
        directory_chain(ctx.records, cache, attribute.parent_reference, seq![], false)
    } else {
        None
    }
}

/// The known paths after a name has been looked at.
pub open spec fn cache_after_name(
    ctx: NameContext,
    cache: Map<u64, Seq<char>>,
    attribute: FileNameAttribute,
) -> Map<u64, Seq<char>> {
    match name_chain(ctx, cache, attribute) {
        Some(chain) => resolved_cache(
            cache,
            ctx.volume_path,
            chain,
            ctx.file_reference,
            attribute.name@,
        ),
        None => cache,
    }
}

/// The path of a name, as the user knows it.
pub open spec fn name_path(
    ctx: NameContext,
    cache: Map<u64, Seq<char>>,
    attribute: FileNameAttribute,
) -> Option<Seq<char>> {
    match name_chain(ctx, cache, attribute) {
        Some(chain) => normalized_path(
            ctx.device_path,
            ctx.mount_point,
            resolved_path(ctx.volume_path, chain, attribute.name@),
        ),
        None => None,
    }
}

/// The candidate that a name gives.
pub open spec fn named_candidate(
    ctx: NameContext,
    cache: Map<u64, Seq<char>>,
    attribute: FileNameAttribute,
) -> CandidateView {
    let unplaced = CandidateView {
        name: attribute.name@,
        original_path: None,
        probable_path: None,
        parent_reference: record_number(attribute.parent_reference),
        namespace: attribute.namespace,
        placement_kind: PlacementKind::UnknownParent,
        path_confidence: PathConfidence::Unknown,
        path_evidence: seq![],
        created_at: filetime_text(attribute.created),
        modified_at: filetime_text(attribute.modified),
        last_metadata_change_at: filetime_text(attribute.changed),
    };
    match (name_chain(ctx, cache, attribute), name_path(ctx, cache, attribute)) {
        (Some(chain), Some(path)) => CandidateView {
            original_path: if chain.mismatch {
                None
            } else {
                Some(path)
            },
            probable_path: if chain.mismatch {
                Some(path)
            } else {
                None
            },
            placement_kind: chain_placement(chain),
            path_confidence: chain_confidence(chain),
            path_evidence: seq![
                EvidenceView {
                    source: chain_source(chain),
                    path: Some(path),
                    confidence: chain_confidence(chain),
                    note: chain_note(chain),
                },
            ],
            ..unplaced
        },
        _ => unplaced,
    }
}

/// Two candidates with the same name and paths.
pub open spec fn same_name_and_paths(a: CandidateView, b: CandidateView) -> bool {
    a.name == b.name && a.original_path == b.original_path && a.probable_path == b.probable_path
}

pub open spec fn listed_before(list: Seq<CandidateView>, c: CandidateView) -> bool {
    exists|i: int| 0 <= i < list.len() && same_name_and_paths(#[trigger] list[i], c)
}

/// The known paths and the candidates after the first names have been looked at. Names of
/// reparse points and empty names do not count.
pub open spec fn names_seen(
    ctx: NameContext,
    cache: Map<u64, Seq<char>>,
    attributes: Seq<FileNameAttribute>,
) -> (Map<u64, Seq<char>>, Seq<CandidateView>)
    decreases attributes.len(),
{
    if attributes.len() == 0 {
        (cache, seq![])
    } else {
        let (known, list) = names_seen(ctx, cache, attributes.drop_last());
        let attribute = attributes.last();
        if attribute.reparse_point || attribute.name@.len() == 0 {
            (known, list)
        } else {
            let candidate = named_candidate(ctx, known, attribute);
            (
                cache_after_name(ctx, known, attribute),
                if listed_before(list, candidate) {
                    list
                } else {
                    list.push(candidate)
                },
            )
        }
    }
}

/// The candidate of a file without a name.
pub open spec fn fallback_candidate(
    name: Seq<char>,
    original_path: Option<Seq<char>>,
) -> CandidateView {
    CandidateView {
        name,
        original_path,
        probable_path: None,
        parent_reference: 0,
        namespace: NAMESPACE_WIN32,
        placement_kind: if original_path is Some {
            PlacementKind::OriginalPath
        } else {
            PlacementKind::UnknownParent
        },
        path_confidence: if original_path is Some {
            PathConfidence::Reconstructed
        } else {
            PathConfidence::Unknown
        },
        path_evidence: seq![],
        created_at: None,
        modified_at: None,
        last_metadata_change_at: None,
    }
}

/// All candidates for the name of a file.
pub open spec fn name_candidates(
    ctx: NameContext,
    cache: Map<u64, Seq<char>>,
    attributes: Seq<FileNameAttribute>,
    fallback_name: Seq<char>,
    fallback_path: Option<Seq<char>>,
) -> Seq<CandidateView> {
    let list = names_seen(ctx, cache, attributes).1;
    if list.len() == 0 {
        seq![fallback_candidate(fallback_name, fallback_path)]
    } else {
        list
    }
}

pub fn file_name_timestamps(attribute: &FileNameAttribute) -> (r: (
    Option<String>,
    Option<String>,
    Option<String>,
))
    ensures
        opt_view(r.0) == filetime_text(attribute.created),
        opt_view(r.1) == filetime_text(attribute.modified),
        opt_view(r.2) == filetime_text(attribute.changed),
{
    (
        format_ntfs_filetime(attribute.created),
        format_ntfs_filetime(attribute.modified),
        format_ntfs_filetime(attribute.changed),
    )
}

fn opt_same(a: &Option<String>, b: &Option<String>) -> (r: bool)
    ensures
        r == (opt_view(*a) == opt_view(*b)),
{
    match (a, b) {
        (Some(x), Some(y)) => *x.as_str() == *y.as_str(),
        (None, None) => true,
        _ => false,
    }
}

fn is_listed(list: &Vec<FileNameCandidate>, c: &FileNameCandidate) -> (r: bool)
    ensures
        r == listed_before(candidate_views(list@), c@),
{
    let mut i: usize = 0;
    while i < list.len()
        invariant
            i <= list@.len(),
            forall|j: int|
                0 <= j < i ==> !same_name_and_paths(#[trigger] candidate_views(list@)[j], c@),
        decreases list@.len() - i,
    {
        if *list[i].name.as_str() == *c.name.as_str() && opt_same(
            &list[i].original_path,
            &c.original_path,
        ) && opt_same(&list[i].probable_path, &c.probable_path) {
            assert(same_name_and_paths(candidate_views(list@)[i as int], c@));
            return true;
        }
        i += 1;
    }
    false
}

/// The record of the file whose names are looked at: its reference and its name attributes.
#[derive(Debug)]
pub struct NamedRecord {
    pub reference: u64,
    pub names: Vec<FileNameAttribute>,
}

pub open spec fn name_context(
    mft: MftIndex,
    device_path: Seq<char>,
    mount_point: Option<Seq<char>>,
    file_reference: u64,
    resolve_paths: bool,
) -> NameContext {
    NameContext {
        records: mft.records@,
        volume_path: mft.volume_path@,
        device_path,
        mount_point,
        file_reference,
        resolve_paths,
    }
}

fn candidate_for(
    mft: &MftIndex,
    cache: &mut PathCache,
    device_path: &str,
    mount_point: &Option<String>,
    file_reference: u64,
    attribute: &FileNameAttribute,
    resolve_paths: bool,
) -> (r: FileNameCandidate)
    ensures
        r@ == named_candidate(
            name_context(
                *mft,
                device_path@,
                opt_view(*mount_point),
                file_reference,
                resolve_paths,
            ),
            old(cache)@,
            *attribute,
        ),
        final(cache)@ == cache_after_name(
            name_context(
                *mft,
                device_path@,
                opt_view(*mount_point),
                file_reference,
                resolve_paths,
            ),
            old(cache)@,
            *attribute,
        ),
{
    let ghost ctx = name_context(
        *mft,
        device_path@,
        opt_view(*mount_point),
        file_reference,
        resolve_paths,
    );
    let (created_at, modified_at, last_metadata_change_at) = file_name_timestamps(attribute);
    let mut candidate = FileNameCandidate {
        name: attribute.name.clone(),
        original_path: None,
        probable_path: None,
        parent_reference: ntfs_reference_record_number(attribute.parent_reference),
        namespace: attribute.namespace,
        placement_kind: PlacementKind::UnknownParent,
        path_confidence: PathConfidence::Unknown,
        path_evidence: Vec::new(),
        created_at,
        modified_at,
        last_metadata_change_at,
    };
    assert(evidence_views(candidate.path_evidence@) =~= seq![]);
    if resolve_paths {
        if let Some(resolution) = reconstruct_file_name_candidate_path(
            mft,
            cache,
            file_reference,
            attribute.name.as_str(),
            attribute.parent_reference,
        ) {
            if let Some(path) = normalize_path(device_path, mount_point, resolution.path.as_str()) {
                candidate.placement_kind = resolution.placement_kind;
                candidate.path_confidence = resolution.confidence;
                let certain: bool = match resolution.confidence {
                    PathConfidence::Exact => true,
                    PathConfidence::Reconstructed => true,
                    _ => false,
                };
                if certain {
                    candidate.original_path = Some(path.clone());
                } else {
                    candidate.probable_path = Some(path.clone());
                }
                let evidence = PathEvidence {
                    source: resolution.evidence_source,
                    path: Some(path),
                    confidence: resolution.confidence,
                    note: owned(resolution.note),
                };
                candidate.path_evidence.push(evidence);
                assert(evidence_views(candidate.path_evidence@) =~= seq![evidence_view(evidence)]);
            }
        }
    }
    assert(candidate@ =~= named_candidate(ctx, old(cache)@, *attribute));
    candidate
}

/// Collects the candidates for the name of a file.
pub fn collect_file_name_candidates(
    mft: &MftIndex,
    cache: &mut PathCache,
    device_path: &str,
    mount_point: &Option<String>,
    file: &NamedRecord,
    fallback_name: &str,
    fallback_original_path: &Option<String>,
    resolve_paths: bool,
) -> (r: Vec<FileNameCandidate>)
    ensures
        ({
            let ctx = name_context(
                *mft,
                device_path@,
                opt_view(*mount_point),
                file.reference,
                resolve_paths,
            );
            &&& candidate_views(r@) == name_candidates(
                ctx,
                old(cache)@,
                file.names@,
                fallback_name@,
                opt_view(*fallback_original_path),
            )
            &&& final(cache)@ == names_seen(ctx, old(cache)@, file.names@).0
        }),
        r@.len() > 0,
{
    let ghost ctx = name_context(
        *mft,
        device_path@,
        opt_view(*mount_point),
        file.reference,
        resolve_paths,
    );
    let ghost start = cache@;
    let mut list: Vec<FileNameCandidate> = Vec::new();
    let mut i: usize = 0;
    proof {
        assert(candidate_views(list@) =~= seq![]);
        assert(file.names@.subrange(0, 0) =~= seq![]);
    }
    while i < file.names.len()
        invariant
            i <= file.names@.len(),
            ctx == name_context(
                *mft,
                device_path@,
                opt_view(*mount_point),
                file.reference,
                resolve_paths,
            ),
            names_seen(ctx, start, file.names@.subrange(0, i as int)) == (
                cache@,
                candidate_views(list@),
            ),
        decreases file.names@.len() - i,
    {
        let ghost front = file.names@.subrange(0, i as int);
        proof {
            let now = file.names@.subrange(0, i + 1);
            assert(now.drop_last() =~= front);
            assert(now.last() == file.names@[i as int]);
        }
        let attribute = &file.names[i];
        if !attribute.reparse_point && !attribute.name.as_str().is_empty() {
            let candidate = candidate_for(
                mft,
                cache,
                device_path,
                mount_point,
                file.reference,
                attribute,
                resolve_paths,
            );
            if !is_listed(&list, &candidate) {
                let ghost before = list@;
                list.push(candidate);
                assert(candidate_views(list@) =~= candidate_views(before).push(candidate@));
            }
        }
        i += 1;
    }
    assert(file.names@.subrange(0, i as int) =~= file.names@);
    if list.len() == 0 {
        let placed: bool = fallback_original_path.is_some();
        let candidate = FileNameCandidate {
            name: owned(fallback_name),
            original_path: clone_opt(fallback_original_path),
            probable_path: None,
            parent_reference: 0,
            namespace: NAMESPACE_WIN32,
            placement_kind: if placed {
                PlacementKind::OriginalPath
            } else {
                PlacementKind::UnknownParent
            },
            path_confidence: if placed {
                PathConfidence::Reconstructed
            } else {
                PathConfidence::Unknown
            },
            path_evidence: Vec::new(),
            created_at: None,
            modified_at: None,
            last_metadata_change_at: None,
        };
        proof {
            assert(candidate@ =~= fallback_candidate(
                fallback_name@,
                opt_view(*fallback_original_path),
            ));
        }
        list.push(candidate);
        assert(candidate_views(list@) =~= seq![candidate@]);
    }
    list
}

// ---------------------------------------------------------------------------
// Which name is the best.

/// A name of a kind fits a content of a kind.
pub open spec fn fits_kind(candidate_kind: ArtifactKind, preview_kind: ArtifactKind) -> bool {
    preview_kind != ArtifactKind::Unknown && (candidate_kind == preview_kind || (preview_kind
        == ArtifactKind::Pe && (candidate_kind == ArtifactKind::Exe || candidate_kind
        == ArtifactKind::Dll || candidate_kind == ArtifactKind::Sys || candidate_kind
        == ArtifactKind::Scr || candidate_kind == ArtifactKind::Ocx || candidate_kind
        == ArtifactKind::Cpl)))
}

pub fn candidate_matches_preview_kind(
    candidate_kind: ArtifactKind,
    preview_kind: ArtifactKind,
) -> (r: bool)
    ensures
        r == fits_kind(candidate_kind, preview_kind),
{
    if preview_kind == ArtifactKind::Unknown {
        return false;
    }
    if candidate_kind == preview_kind {
        return true;
    }
    preview_kind == ArtifactKind::Pe && (candidate_kind == ArtifactKind::Exe || candidate_kind
        == ArtifactKind::Dll || candidate_kind == ArtifactKind::Sys || candidate_kind
        == ArtifactKind::Scr || candidate_kind == ArtifactKind::Ocx || candidate_kind
        == ArtifactKind::Cpl)
}

/// A kind that says little about a file.
pub open spec fn generic_kind(kind: ArtifactKind) -> bool {
    kind == ArtifactKind::Unknown || kind == ArtifactKind::Bin || kind == ArtifactKind::Dat
}

pub fn is_generic_kind(kind: ArtifactKind) -> (r: bool)
    ensures
        r == generic_kind(kind),
{
    kind == ArtifactKind::Unknown || kind == ArtifactKind::Bin || kind == ArtifactKind::Dat
}

/// How good a name is: that it fits the content counts most, then how much its extension says,
/// then its path, its name space and its length.
pub open spec fn name_score(c: CandidateView, preview_kind: ArtifactKind) -> (
    int,
    int,
    int,
    int,
    int,
) {
    let kind = inferred_kind(c.name, None);
    (
        if fits_kind(kind, preview_kind) {
            1
        } else {
            0
        },
        if !generic_kind(kind) {
            2
        } else if plain_extension(c.name) is Some {
            1
        } else {
            0
        },
        if c.original_path is Some {
            2
        } else if c.probable_path is Some {
            1
        } else {
            0
        },
        if c.namespace == NAMESPACE_WIN32_AND_DOS {
            3
        } else if c.namespace == NAMESPACE_WIN32 {
            2
        } else if c.namespace == NAMESPACE_POSIX {
            1
        } else {
            0
        },
        byte_length(c.name),
    )
}

/// The first score is lower.
pub open spec fn score_below(a: (int, int, int, int, int), b: (int, int, int, int, int)) -> bool {
    if a.0 != b.0 {
        a.0 < b.0
    } else if a.1 != b.1 {
        a.1 < b.1
    } else if a.2 != b.2 {
        a.2 < b.2
    } else if a.3 != b.3 {
        a.3 < b.3
    } else {
        a.4 < b.4
    }
}

pub fn score_file_name_candidate(candidate: &FileNameCandidate, preview_kind: ArtifactKind) -> (r: (
    u8,
    u8,
    u8,
    u8,
    usize,
))
    ensures
        ({
            let s = name_score(candidate@, preview_kind);
            r.0 == s.0 && r.1 == s.1 && r.2 == s.2 && r.3 == s.3 && r.4 == s.4
        }),
{
    let kind = infer_artifact_kind(candidate.name.as_str(), None);
    let kind_match: u8 = if candidate_matches_preview_kind(kind, preview_kind) {
        1
    } else {
        0
    };
    let specificity_rank: u8 = if is_generic_kind(kind) {
        if extension(candidate.name.as_str()).is_some() {
            1
        } else {
            0
        }
    } else {
        2
    };
    let namespace_rank: u8 = if candidate.namespace == NAMESPACE_WIN32_AND_DOS {
        3
    } else if candidate.namespace == NAMESPACE_WIN32 {
        2
    } else if candidate.namespace == NAMESPACE_POSIX {
        1
    } else {
        0
    };
    let path_rank: u8 = if candidate.original_path.is_some() {
        2
    } else if candidate.probable_path.is_some() {
        1
    } else {
        0
    };
    (
        kind_match,
        specificity_rank,
        path_rank,
        namespace_rank,
        byte_len(candidate.name.as_str()),
    )
}

fn lower_score(a: (u8, u8, u8, u8, usize), b: (u8, u8, u8, u8, usize)) -> (r: bool)
    ensures
        r == score_below(
            (a.0 as int, a.1 as int, a.2 as int, a.3 as int, a.4 as int),
            (b.0 as int, b.1 as int, b.2 as int, b.3 as int, b.4 as int),
        ),
{
    if a.0 != b.0 {
        a.0 < b.0
    } else if a.1 != b.1 {
        a.1 < b.1
    } else if a.2 != b.2 {
        a.2 < b.2
    } else if a.3 != b.3 {
        a.3 < b.3
    } else {
        a.4 < b.4
    }
}

/// The place of the best candidate; the last one where several are equally good.
pub open spec fn best_candidate(list: Seq<CandidateView>, preview_kind: ArtifactKind) -> int
    decreases list.len(),
{
    if list.len() <= 1 {
        0
    } else {
        let best = best_candidate(list.drop_last(), preview_kind);
        if score_below(
            name_score(list.last(), preview_kind),
            name_score(list[best], preview_kind),
        ) {
            best
        } else {
            list.len() - 1
        }
    }
}

/// No candidate is better than the best one, and none behind it is as good.
pub proof fn lemma_best_candidate(list: Seq<CandidateView>, preview_kind: ArtifactKind)
    requires
        list.len() > 0,
    ensures
        0 <= best_candidate(list, preview_kind) < list.len(),
        forall|j: int|
            0 <= j < list.len() ==> !score_below(
                name_score(list[best_candidate(list, preview_kind)], preview_kind),
                name_score(#[trigger] list[j], preview_kind),
            ),
        forall|j: int|
            best_candidate(list, preview_kind) < j < list.len() ==> score_below(
                name_score(#[trigger] list[j], preview_kind),
                name_score(list[best_candidate(list, preview_kind)], preview_kind),
            ),
    decreases list.len(),
{
    if list.len() > 1 {
        let front = list.drop_last();
        lemma_best_candidate(front, preview_kind);
        let best = best_candidate(front, preview_kind);
        assert(front[best] == list[best]);
        assert forall|j: int| 0 <= j < list.len() implies !score_below(
            name_score(list[best_candidate(list, preview_kind)], preview_kind),
            name_score(#[trigger] list[j], preview_kind),
        ) by {
            if j < front.len() {
                assert(front[j] == list[j]);
            }
        }
        assert forall|j: int| best_candidate(list, preview_kind) < j < list.len() implies score_below(
            name_score(#[trigger] list[j], preview_kind),
            name_score(list[best_candidate(list, preview_kind)], preview_kind),
        ) by {
            if j < front.len() {
                assert(front[j] == list[j]);
            }
        }
    }
}

pub fn select_best_name_candidate(
    candidates: &Vec<FileNameCandidate>,
    preview_kind: ArtifactKind,
) -> (r: Option<&FileNameCandidate>)
    ensures
        match r {
            Some(c) => candidates@.len() > 0 && c@ == candidate_views(
                candidates@,
            )[best_candidate(candidate_views(candidates@), preview_kind)],
            None => candidates@.len() == 0,
        },
{
    if candidates.len() == 0 {
        return None;
    }
    let ghost list = candidate_views(candidates@);
    let mut best: usize = 0;
    let mut i: usize = 1;
    while i < candidates.len()
        invariant
            1 <= i <= candidates@.len(),
            best < i,
            list == candidate_views(candidates@),
            best == best_candidate(list.subrange(0, i as int), preview_kind),
        decreases candidates@.len() - i,
    {
        proof {
            let now = list.subrange(0, i + 1);
            assert(now.drop_last() =~= list.subrange(0, i as int));
            assert(now.last() == candidates@[i as int]@);
            assert(now[best as int] == candidates@[best as int]@);
        }
        if !lower_score(
            score_file_name_candidate(&candidates[i], preview_kind),
            score_file_name_candidate(&candidates[best], preview_kind),
        ) {
            best = i;
        }
        i += 1;
    }
    assert(list.subrange(0, i as int) =~= list);
    Some(&candidates[best])
}

// ---------------------------------------------------------------------------
// Where a name comes from.

pub open spec fn generated_name(name: Seq<char>) -> bool {
    "deleted_record_"@.is_prefix_of(name)
}

/// Where the name of a candidate comes from.
pub open spec fn name_source_of(c: CandidateView, fallback_name: Seq<char>) -> NameSourceKind {
    if generated_name(c.name) {
        NameSourceKind::Generated
    } else if c.namespace == NAMESPACE_DOS {
        NameSourceKind::DosName
    } else if c.name != fallback_name {
        NameSourceKind::Reconstructed
    } else {
        NameSourceKind::LongName
    }
}

pub fn classify_name_source(candidate: &FileNameCandidate, fallback_name: &str) -> (r:
    NameSourceKind)
    ensures
        r == name_source_of(candidate@, fallback_name@),
{
    if has_prefix(candidate.name.as_str(), "deleted_record_") {
        return NameSourceKind::Generated;
    }
    if candidate.namespace == NAMESPACE_DOS {
        return NameSourceKind::DosName;
    }
    if *candidate.name.as_str() == *fallback_name {
        NameSourceKind::LongName
    } else {
        NameSourceKind::Reconstructed
    }
}

/// The name at the end of a path, without blanks around it; nothing where it is empty.
pub open spec fn path_name(path: Seq<char>) -> Option<Seq<char>> {
    let shown = replaced(path, '/', '\\');
    let name = trimmed(
        match after_last(shown, '\\') {
            Some(name) => name,
            None => shown,
        },
    );
    if name.len() == 0 {
        None
    } else {
        Some(name)
    }
}

pub fn file_name_from_path(path: &str) -> (r: Option<String>)
    ensures
        opt_view(r) == path_name(path@),
{
    let shown = replace_char(path, '/', '\\');
    let name = match rsplit_after(shown.as_str(), '\\') {
        Some(name) => trim(name.as_str()),
        None => trim(shown.as_str()),
    };
    if name.as_str().is_empty() {
        None
    } else {
        Some(name)
    }
}

} // verus!
