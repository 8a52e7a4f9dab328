//! What the browser shows: folders as they are, with the deleted files of the latest scan.

use crate::bridge::{source_with_id, unknown_source, BridgeState, BridgeView};
use crate::bridge_scans::record_of;
use crate::browse_cache::DeletedBrowseCache;
use crate::browse_listing::{
    augment_listing_with_deleted, build_probable_deleted_listing, build_synthetic_deleted_listing,
    build_unknown_deleted_listing, is_augmented, is_bucket_listing, is_synthetic_listing,
    requested, shown_indices,
};
use crate::browse_paths::{
    is_probable_bucket_path_for_source, is_unknown_bucket_path_for_source, normalize_browser_path,
    path_key, probable_bucket, unknown_bucket,
};
use crate::bytes::occurs_in;
use crate::catalog_status::{has_catalog, source_uses_catalog};
use crate::model::{
    message_of, same_source_entry, ArtifactPreviewRequest, ArtifactRecord, BrowseSourceRequest,
    ContentPreviewRequest, ContentTarget, PreviewFact, RssError, ScanSource, ScanStatus,
    SourceAccessState, SourceCatalogState, SourceDirectoryListing, SourceEntry, SourceEntryDetails,
};
use crate::numbers::{hex_string, hexadecimal, zero_padded};
use crate::records::{fact, fact_views, FactView};
use crate::sessions::ScanView;
use crate::sort::{
    lemma_text_before_asymmetric, lemma_text_before_transitive, str_before, text_before,
};
use crate::table::lemma_pairs_map;
use crate::text::{
    ascii_lower, concat2, has_substring, join, joined, opt_view, owned, to_ascii_lowercase, views,
};
use vstd::prelude::*;
use vstd::string::*;

verus! {

// ---------------------------------------------------------------------------
// The scan whose deleted files are shown.

/// A scan of a source that is over and whose deleted files are placed in folders.
pub open spec fn is_browsable(s: ScanView, source_id: Seq<char>) -> bool {
    &&& s.source.id@ == source_id
    &&& s.progress.status == ScanStatus::Completed || s.progress.status
        == ScanStatus::CompletedWithWarnings || s.progress.status == ScanStatus::Cancelled
    &&& s.cache is Some
}

/// A scan that is browsable, and none that is was changed later; without one there is no id.
pub open spec fn is_latest(b: BridgeView, source_id: Seq<char>, id: Option<Seq<char>>) -> bool {
    match id {
        Some(id) => {
            &&& b.sessions.contains_key(id)
            &&& is_browsable(b.sessions[id], source_id)
            &&& forall|k: Seq<char>| #[trigger]
                b.sessions.contains_key(k) && is_browsable(b.sessions[k], source_id)
                    ==> !text_before(
                    b.sessions[id].progress.updated_at,
                    b.sessions[k].progress.updated_at,
                )
        },
        None => forall|k: Seq<char>| #[trigger]
            b.sessions.contains_key(k) ==> !is_browsable(b.sessions[k], source_id),
    }
}

// ---------------------------------------------------------------------------
// Listings.

/// The files without a place.
pub open spec fn shows_unknown(
    r: SourceDirectoryListing,
    source: ScanSource,
    cache: DeletedBrowseCache,
    results: Seq<ArtifactRecord>,
    request: BrowseSourceRequest,
) -> bool {
    exists|chosen: Seq<usize>| #[trigger]
        requested(
            chosen,
            results,
            cache.unknown_artifact_indices@,
            cache.unknown_artifact_indices_by_extension@,
            cache.unknown_artifact_indices_by_extension.entries@.len() as int,
            request,
        ) && is_bucket_listing(
            r,
            source,
            cache,
            unknown_bucket(source.id@),
            results,
            chosen,
            request,
        )
}

/// The files with a probable place elsewhere.
pub open spec fn shows_probable(
    r: SourceDirectoryListing,
    source: ScanSource,
    cache: DeletedBrowseCache,
    results: Seq<ArtifactRecord>,
    request: BrowseSourceRequest,
) -> bool {
    exists|chosen: Seq<usize>| #[trigger]
        requested(
            chosen,
            results,
            cache.probable_artifact_indices@,
            cache.probable_artifact_indices_by_extension@,
            cache.probable_artifact_indices_by_extension.entries@.len() as int,
            request,
        ) && is_bucket_listing(
            r,
            source,
            cache,
            probable_bucket(source.id@),
            results,
            chosen,
            request,
        )
}

/// A live folder with its deleted files.
pub open spec fn shows_live(
    r: SourceDirectoryListing,
    live: SourceDirectoryListing,
    source: ScanSource,
    cache: DeletedBrowseCache,
    results: Seq<ArtifactRecord>,
    request: BrowseSourceRequest,
) -> bool {
    exists|chosen: Seq<usize>| #[trigger]
        requested(
            chosen,
            results,
            shown_indices(cache, path_key(live.path@), request),
            Map::empty(),
            0,
            request,
        ) && is_augmented(r, live, source, cache, results, chosen, request)
}

/// A folder that only deleted files have.
pub open spec fn shows_gone(
    r: SourceDirectoryListing,
    source: ScanSource,
    cache: DeletedBrowseCache,
    key: Seq<char>,
    results: Seq<ArtifactRecord>,
    request: BrowseSourceRequest,
) -> bool {
    exists|chosen: Seq<usize>| #[trigger]
        requested(
            chosen,
            results,
            shown_indices(cache, key, request),
            Map::empty(),
            0,
            request,
        ) && is_synthetic_listing(
            r,
            source,
            cache,
            cache.synthetic_folders@[key],
            key,
            results,
            chosen,
            request,
        )
}

/// Where a listing comes from.
pub enum BrowseStep {
    /// Nothing has to be read.
    Known(SourceDirectoryListing),
    /// The catalog of the source is asked.
    FromCatalog,
    /// The folder itself is read.
    FromFolder,
}

/// How a request is answered: of which source, with the deleted files of which scan.
pub struct BrowsePlan {
    pub source: ScanSource,
    pub scan_id: Option<String>,
    pub step: BrowseStep,
}

/// Whether a path is that of one of the two collecting folders.
pub open spec fn is_collecting(path: Option<Seq<char>>, source_id: Seq<char>) -> bool {
    path matches Some(p) && (path_key(p) == path_key(unknown_bucket(source_id)) || path_key(p)
        == path_key(probable_bucket(source_id)))
}

/// Whether the catalog of a source is asked for what it holds.
pub open spec fn asks_catalog(b: BridgeView, source: ScanSource) -> bool {
    has_catalog(source) && b.statuses.contains_key(source.id@) && b.statuses[source.id@].state
        == SourceCatalogState::Ready
}

/// What an error says of a path that is not there. Letters that are not ASCII play no part: only the
/// Kelvin sign and the dotted capital I have an ASCII letter in their lower case, and neither can
/// stand in one of these phrases.
pub open spec fn tells_of_missing_path(message: Seq<char>) -> bool {
    let m = ascii_lower(message);
    ||| occurs_in(m, "path_not_found"@)
    ||| occurs_in(m, "not found"@)
    ||| occurs_in(m, "cannot find the path specified"@)
    ||| occurs_in(m, "os error 3"@)
}

pub fn is_path_not_found_error(message: &str) -> (r: bool)
    ensures
        r == tells_of_missing_path(message@),
{
    let m = to_ascii_lowercase(message);
    has_substring(m.as_str(), "path_not_found") || has_substring(m.as_str(), "not found")
        || has_substring(m.as_str(), "cannot find the path specified") || has_substring(
        m.as_str(),
        "os error 3",
    )
}

// ---------------------------------------------------------------------------
// Details of an entry.

/// The note on an entry.
pub open spec fn entry_note(entry: SourceEntry) -> Seq<char> {
    if entry.access_state == SourceAccessState::Denied {
        "This item is visible in metadata, but Windows denied direct enumeration or file reads."@
    } else if entry.is_metafile {
        "This entry originates from NTFS metadata and is shown even when it is not visible through standard Win32 directory enumeration."@
    } else {
        "Live entry metadata loaded from the selected source."@
    }
}

/// The facts on an entry.
pub open spec fn detail_facts(entry: SourceEntry) -> Seq<FactView> {
    let bits: Seq<FactView> = match entry.attr_bits {
        Some(bits) => seq![fact("ATTR"@, "0x"@ + zero_padded(hexadecimal(bits as nat, false), 4))],
        None => seq![],
    };
    let labels: Seq<FactView> = if entry.attributes@.len() == 0 {
        seq![]
    } else {
        seq![fact("Attributes"@, joined(views(entry.attributes@), ", "@))]
    };
    bits + labels
}

/// The details of an entry that was looked up.
pub fn compute_entry_details(entry: SourceEntry) -> (r: SourceEntryDetails)
    ensures
        r.entry == entry,
        views(r.notes@) == seq![entry_note(entry)],
        fact_views(r.summary@) == detail_facts(entry),
{
    let note = if entry.access_state == SourceAccessState::Denied {
        owned(
            "This item is visible in metadata, but Windows denied direct enumeration or file reads.",
        )
    } else if entry.is_metafile {
        owned(
            "This entry originates from NTFS metadata and is shown even when it is not visible through standard Win32 directory enumeration.",
        )
    } else {
        owned("Live entry metadata loaded from the selected source.")
    };
    let mut notes: Vec<String> = Vec::new();
    notes.push(note);
    assert(views(notes@) =~= seq![entry_note(entry)]);
    let mut summary: Vec<PreviewFact> = Vec::new();
    if let Some(bits) = entry.attr_bits {
        let digits = hex_string(bits as u64, false, 4);
        summary.push(
            PreviewFact { label: owned("ATTR"), value: concat2("0x", digits.as_str()) },
        );
    }
    if entry.attributes.len() > 0 {
        summary.push(
            PreviewFact { label: owned("Attributes"), value: join(&entry.attributes, ", ") },
        );
    }
    assert(fact_views(summary@) =~= detail_facts(entry));
    SourceEntryDetails { entry, notes, summary }
}

impl BridgeState {
    /// The latest scan of a source whose deleted files are placed in folders.
    pub fn latest_deleted_browse_scan_id(&self, source_id: &str) -> (r: Option<String>)
        requires
            self.wf(),
        ensures
            is_latest(self@, source_id@, opt_view(r)),
    {
        let ghost all = self.sessions.entries@;
        proof {
            lemma_pairs_map(all);
        }
        let mut best: Option<usize> = None;
        let mut i: usize = 0;
        while i < self.sessions.entries.len()
            invariant
                all == self.sessions.entries@,
                i <= all.len(),
                match best {
                    Some(b) => {
                        &&& b < i
                        &&& is_browsable(all[b as int].1@, source_id@)
                        &&& forall|j: int|
                            0 <= j < i && is_browsable((#[trigger] all[j]).1@, source_id@)
                                ==> !text_before(
                                all[b as int].1@.progress.updated_at,
                                all[j].1@.progress.updated_at,
                            )
                    },
                    None => forall|j: int|
                        0 <= j < i ==> !is_browsable((#[trigger] all[j]).1@, source_id@),
                },
            decreases all.len() - i,
        {
            let session = &self.sessions.entries[i].1;
            let over: bool = session.progress.status == ScanStatus::Completed
                || session.progress.status == ScanStatus::CompletedWithWarnings
                || session.progress.status == ScanStatus::Cancelled;
            if *session.source.id.as_str() == *source_id && over
                && session.deleted_browse_cache.is_some() {
                match best {
                    None => {
                        proof {
                            if text_before(session@.progress.updated_at, session@.progress.updated_at) {
                                lemma_text_before_asymmetric(
                                    session@.progress.updated_at,
                                    session@.progress.updated_at,
                                );
                            }
                        }
                        best = Some(i);
                    },
                    Some(b) => {
                        let older = &self.sessions.entries[b].1;
                        if !str_before(
                            session.progress.updated_at.as_str(),
                            older.progress.updated_at.as_str(),
                        ) {
                            proof {
                                assert forall|j: int|
                                    0 <= j < i + 1 && is_browsable(
                                        (#[trigger] all[j]).1@,
                                        source_id@,
                                    ) implies !text_before(
                                    session@.progress.updated_at,
                                    all[j].1@.progress.updated_at,
                                ) by {
                                    if j < i {
                                        lemma_text_before_transitive(
                                            all[j].1@.progress.updated_at,
                                            older@.progress.updated_at,
                                            session@.progress.updated_at,
                                        );
                                    } else {
                                        if text_before(session@.progress.updated_at, session@.progress.updated_at) {
                                            lemma_text_before_asymmetric(
                                                session@.progress.updated_at,
                                                session@.progress.updated_at,
                                            );
                                        }
                                    }
                                }
                            }
                            best = Some(i);
                        } else {
                            proof {
                                lemma_text_before_asymmetric(
                                    session@.progress.updated_at,
                                    older@.progress.updated_at,
                                );
                            }
                        }
                    },
                }
            }
            i += 1;
        }
        proof {
            assert forall|k: Seq<char>| #[trigger] self@.sessions.contains_key(k) implies exists|
                j: int,
            |
                0 <= j < all.len() && (#[trigger] all[j]).0@ == k && self@.sessions[k]
                    == all[j].1@ by {
                assert(self.sessions@.contains_key(k));
                let j = choose|j: int| 0 <= j < all.len() && (#[trigger] all[j]).0@ == k;
                assert(self@.sessions[k] == all[j].1@);
            }
        }
        match best {
            Some(b) => {
                proof {
                    let id = all[b as int].0@;
                    assert(self@.sessions.contains_key(id));
                    assert(self@.sessions[id] == all[b as int].1@);
                }
                Some(self.sessions.entries[b].0.clone())
            },
            None => None,
        }
    }

    /// Whether the catalog of a source is asked for what it holds.
    pub fn reads_catalog(&self, source: &ScanSource) -> (r: bool)
        requires
            self.wf(),
        ensures
            r == asks_catalog(self@, *source),
    {
        source_uses_catalog(source) && self.catalog_is_ready(source.id.as_str())
    }

    /// How a request is answered. The two collecting folders of the latest scan are known without
    /// a read.
    pub fn plan_browse(&self, request: &BrowseSourceRequest) -> (r: Result<BrowsePlan, RssError>)
        requires
            self.wf(),
        ensures
            match (r, source_with_id(self@.sources, request.source_id@)) {
                (Ok(plan), Some(source)) => {
                    &&& plan.source == source
                    &&& is_latest(self@, source.id@, opt_view(plan.scan_id))
                    &&& if plan.scan_id is Some && is_collecting(
                        opt_view(request.path),
                        source.id@,
                    ) {
                        let session = self.sessions@[plan.scan_id->0@];
                        &&& plan.step matches BrowseStep::Known(listing)
                        &&& if path_key(request.path->0@) == path_key(
                            probable_bucket(source.id@),
                        ) {
                            shows_probable(
                                listing,
                                source,
                                session.deleted_browse_cache->0,
                                session.results@,
                                *request,
                            )
                        } else {
                            shows_unknown(
                                listing,
                                source,
                                session.deleted_browse_cache->0,
                                session.results@,
                                *request,
                            )
                        }
                    } else if asks_catalog(self@, source) {
                        plan.step is FromCatalog
                    } else {
                        plan.step is FromFolder
                    }
                },
                (Err(e), None) => message_of(e) == unknown_source(request.source_id@),
                _ => false,
            },
    {
        let source = match self.find_source(request.source_id.as_str()) {
            Ok(source) => source,
            Err(e) => {
                return Err(e);
            },
        };
        let scan_id = self.latest_deleted_browse_scan_id(source.id.as_str());
        let step: BrowseStep = if self.reads_catalog(&source) {
            BrowseStep::FromCatalog
        } else {
            BrowseStep::FromFolder
        };
        let (id, path) = match (&scan_id, &request.path) {
            (Some(id), Some(path)) => (id.as_str(), path.as_str()),
            _ => {
                return Ok(BrowsePlan { source, scan_id, step });
            },
        };
        let probable: bool = is_probable_bucket_path_for_source(path, source.id.as_str());
        if !probable && !is_unknown_bucket_path_for_source(path, source.id.as_str()) {
            return Ok(BrowsePlan { source, scan_id, step });
        }
        assert(self@.sessions.contains_key(id@));
        if let Some(session) = self.sessions.get(id) {
            if let Some(cache) = &session.deleted_browse_cache {
                let listing = if probable {
                    build_probable_deleted_listing(
                        &source,
                        cache,
                        session.results.as_slice(),
                        request,
                    )
                } else {
                    build_unknown_deleted_listing(
                        &source,
                        cache,
                        session.results.as_slice(),
                        request,
                    )
                };
                return Ok(BrowsePlan { source, scan_id, step: BrowseStep::Known(listing) });
            }
        }
        Ok(BrowsePlan { source, scan_id, step })
    }

    /// The answer to a request, from what was read of its folder. A folder that is gone but had
    /// deleted files is shown from those.
    pub fn browse_source(
        &self,
        request: &BrowseSourceRequest,
        source: &ScanSource,
        scan_id: Option<&str>,
        live: Result<SourceDirectoryListing, RssError>,
    ) -> (r: Result<SourceDirectoryListing, RssError>)
        requires
            self.wf(),
        ensures
            ({
                let cache = if scan_id is Some && self@.sessions.contains_key(scan_id->0@) {
                    self@.sessions[scan_id->0@].cache
                } else {
                    None
                };
                let results = self.sessions@[scan_id->0@].results@;
                match (live, cache) {
                    (Ok(listing), None) => r == Ok::<_, RssError>(listing),
                    (Ok(listing), Some(cache)) => r matches Ok(shown) && shows_live(
                        shown,
                        listing,
                        *source,
                        cache,
                        results,
                        *request,
                    ),
                    (Err(e), None) => r == Err::<SourceDirectoryListing, _>(e),
                    (Err(e), Some(cache)) => if tells_of_missing_path(message_of(e))
                        && request.path is Some && cache.synthetic_folders@.contains_key(
                        path_key(request.path->0@),
                    ) {
                        r matches Ok(shown) && shows_gone(
                            shown,
                            *source,
                            cache,
                            path_key(request.path->0@),
                            results,
                            *request,
                        )
                    } else {
                        r == Err::<SourceDirectoryListing, _>(e)
                    },
                }
            }),
    {
        let session = match scan_id {
            Some(id) => match self.sessions.get(id) {
                Some(session) => session,
                None => {
                    return live;
                },
            },
            None => {
                return live;
            },
        };
        let cache = match &session.deleted_browse_cache {
            Some(cache) => cache,
            None => {
                return live;
            },
        };
        proof {
            assert(self@.sessions.contains_key(scan_id->0@));
        }
        match live {
            Ok(listing) => {
                let mut shown = listing;
                augment_listing_with_deleted(
                    source,
                    cache,
                    session.results.as_slice(),
                    request,
                    &mut shown,
                );
                Ok(shown)
            },
            Err(RssError::Message(message)) => {
                if let Some(path) = &request.path {
                    if is_path_not_found_error(message.as_str())
                        && cache.synthetic_folders.contains_key(
                        normalize_browser_path(path.as_str()).as_str(),
                    ) {
                        return build_synthetic_deleted_listing(
                            source,
                            cache,
                            session.results.as_slice(),
                            request,
                        );
                    }
                }
                Err(RssError::Message(message))
            },
        }
    }
}

// ---------------------------------------------------------------------------
// What a preview or a signature is of.

/// What a preview or a signature is of: a result of a scan, or an entry of a source, which is
/// looked up in the catalog or on the source where it is not brought along.
pub enum ContentSubject {
    Artifact(ArtifactRecord),
    Entry { source: ScanSource, hint: Option<SourceEntry>, in_catalog: bool },
}

/// The request for a preview of a result.
pub fn artifact_request(request: &ContentPreviewRequest, scan_id: &str, artifact_id: &str) -> (r:
    ArtifactPreviewRequest)
    ensures
        r.scan_id@ == scan_id@,
        r.artifact_id@ == artifact_id@,
        r.mode == request.mode,
        r.offset == request.offset,
        r.length == request.length,
        r.max_entries == request.max_entries,
{
    ArtifactPreviewRequest {
        scan_id: owned(scan_id),
        artifact_id: owned(artifact_id),
        mode: request.mode,
        offset: request.offset,
        length: request.length,
        max_entries: request.max_entries,
    }
}

impl BridgeState {
    /// What a preview or a signature is of.
    pub fn content_subject(&self, target: &ContentTarget, hint: &Option<SourceEntry>) -> (r: Result<
        ContentSubject,
        RssError,
    >)
        requires
            self.wf(),
        ensures
            match *target {
                ContentTarget::Artifact { scan_id, artifact_id } => match (
                    r,
                    record_of(self@, scan_id@, artifact_id@),
                ) {
                    (Ok(ContentSubject::Artifact(found)), Some(record)) => found@ == record,
                    (Err(e), None) => message_of(e) == "Artifact "@ + artifact_id@
                        + " was not found in scan "@ + scan_id@,
                    _ => false,
                },
                ContentTarget::Entry { source_id, path } => match (
                    r,
                    source_with_id(self@.sources, source_id@),
                ) {
                    (
                        Ok(ContentSubject::Entry { source, hint: entry, in_catalog }),
                        Some(found),
                    ) => {
                        &&& source == found
                        &&& match (entry, *hint) {
                            (Some(a), Some(b)) => same_source_entry(b, a),
                            (None, None) => true,
                            _ => false,
                        }
                        &&& in_catalog == asks_catalog(self@, found)
                    },
                    (Err(e), None) => message_of(e) == unknown_source(source_id@),
                    _ => false,
                },
            },
    {
        match target {
            ContentTarget::Artifact { scan_id, artifact_id } => {
                match self.artifact_details(scan_id.as_str(), artifact_id.as_str()) {
                    Ok(artifact) => Ok(ContentSubject::Artifact(artifact)),
                    Err(e) => Err(e),
                }
            },
            ContentTarget::Entry { source_id, path: _ } => {
                let source = match self.find_source(source_id.as_str()) {
                    Ok(source) => source,
                    Err(e) => {
                        return Err(e);
                    },
                };
                let in_catalog = self.reads_catalog(&source);
                let hint: Option<SourceEntry> = match hint {
                    Some(entry) => Some(entry.clone()),
                    None => None,
                };
                Ok(ContentSubject::Entry { source, hint, in_catalog })
            },
        }
    }
}

// ---------------------------------------------------------------------------
// Laws.

/// A scan that is still running, or that failed, never shows deleted files in folders.
pub proof fn lemma_running_scans_are_not_browsed(
    b: BridgeView,
    source_id: Seq<char>,
    id: Seq<char>,
)
    requires
        is_latest(b, source_id, Some(id)),
    ensures
        b.sessions[id].progress.status.spec_is_terminal(),
        b.sessions[id].progress.status != ScanStatus::Failed,
        b.sessions[id].source.id@ == source_id,
{
}

} // verus!
