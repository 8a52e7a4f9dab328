//! What is known of the catalogs of sources: loaded or not, how far a load is, why one failed.

use crate::bytes::occurs_in;
use crate::catalog::{CatalogCacheState, CatalogPhase, CatalogProgress};
use crate::model::{
    ScanSource, SourceCatalogCacheState, SourceCatalogPhase, SourceCatalogState, SourceKind,
};
use crate::text::{clone_opt, has_substring, opt_view, owned};
use vstd::prelude::*;
use vstd::string::*;

verus! {

/// What is known of the catalog of a source.
#[derive(Debug)]
pub struct SourceCatalogStatus {
    pub state: SourceCatalogState,
    pub source_id: String,
    pub load_id: Option<String>,
    pub phase: Option<SourceCatalogPhase>,
    pub indexed_entries: u64,
    pub total_estimated_entries: Option<u64>,
    pub cache_state: SourceCatalogCacheState,
    pub started_at: Option<String>,
    pub updated_at: String,
    pub error: Option<String>,
    pub error_code: Option<String>,
    pub error_detail: Option<String>,
}

/// What a status says.
#[verifier::ext_equal]
pub ghost struct CatalogView {
    pub state: SourceCatalogState,
    pub source_id: Seq<char>,
    pub load_id: Option<Seq<char>>,
    pub phase: Option<SourceCatalogPhase>,
    pub indexed_entries: u64,
    pub total_estimated_entries: Option<u64>,
    pub cache_state: SourceCatalogCacheState,
    pub started_at: Option<Seq<char>>,
    pub updated_at: Seq<char>,
    pub error: Option<Seq<char>>,
    pub error_code: Option<Seq<char>>,
    pub error_detail: Option<Seq<char>>,
}

impl View for SourceCatalogStatus {
    type V = CatalogView;

    open spec fn view(&self) -> CatalogView {
        CatalogView {
            state: self.state,
            source_id: self.source_id@,
            load_id: opt_view(self.load_id),
            phase: self.phase,
            indexed_entries: self.indexed_entries,
            total_estimated_entries: self.total_estimated_entries,
            cache_state: self.cache_state,
            started_at: opt_view(self.started_at),
            updated_at: self.updated_at@,
            error: opt_view(self.error),
            error_code: opt_view(self.error_code),
            error_detail: opt_view(self.error_detail),
        }
    }
}

impl Clone for SourceCatalogStatus {
    fn clone(&self) -> (r: Self)
        ensures
            r == *self,
    {
        SourceCatalogStatus {
            state: self.state,
            source_id: self.source_id.clone(),
            load_id: clone_opt(&self.load_id),
            phase: self.phase,
            indexed_entries: self.indexed_entries,
            total_estimated_entries: self.total_estimated_entries,
            cache_state: self.cache_state,
            started_at: clone_opt(&self.started_at),
            updated_at: self.updated_at.clone(),
            error: clone_opt(&self.error),
            error_code: clone_opt(&self.error_code),
            error_detail: clone_opt(&self.error_detail),
        }
    }
}

/// Only mounted volumes have a catalog.
pub open spec fn has_catalog(source: ScanSource) -> bool {
    source.kind == SourceKind::LogicalVolume && source.mount_point is Some
}

pub fn source_uses_catalog(source: &ScanSource) -> (r: bool)
    ensures
        r == has_catalog(*source),
{
    source.kind == SourceKind::LogicalVolume && source.mount_point.is_some()
}

/// No catalog is loaded.
pub open spec fn unloaded(source_id: Seq<char>, now: Seq<char>) -> CatalogView {
    CatalogView {
        state: SourceCatalogState::Unloaded,
        source_id,
        load_id: None,
        phase: None,
        indexed_entries: 0,
        total_estimated_entries: None,
        cache_state: SourceCatalogCacheState::Cold,
        started_at: None,
        updated_at: now,
        error: None,
        error_code: None,
        error_detail: None,
    }
}

pub fn unloaded_catalog_status(source_id: &str, now: &str) -> (r: SourceCatalogStatus)
    ensures
        r@ == unloaded(source_id@, now@),
{
    SourceCatalogStatus {
        state: SourceCatalogState::Unloaded,
        source_id: owned(source_id),
        load_id: None,
        phase: None,
        indexed_entries: 0,
        total_estimated_entries: None,
        cache_state: SourceCatalogCacheState::Cold,
        started_at: None,
        updated_at: owned(now),
        error: None,
        error_code: None,
        error_detail: None,
    }
}

/// A load has started.
pub open spec fn load_started(
    source_id: Seq<char>,
    load_id: Seq<char>,
    force_rebuild: bool,
    now: Seq<char>,
) -> CatalogView {
    CatalogView {
        state: SourceCatalogState::Loading,
        load_id: Some(load_id),
        phase: Some(SourceCatalogPhase::OpeningVolume),
        cache_state: if force_rebuild {
            SourceCatalogCacheState::Rebuild
        } else {
            SourceCatalogCacheState::Cold
        },
        started_at: Some(now),
        ..unloaded(source_id, now)
    }
}

pub fn loading_catalog_status(source_id: &str, load_id: &str, force_rebuild: bool, now: &str) -> (r:
    SourceCatalogStatus)
    ensures
        r@ == load_started(source_id@, load_id@, force_rebuild, now@),
{
    let mut status = unloaded_catalog_status(source_id, now);
    status.state = SourceCatalogState::Loading;
    status.load_id = Some(owned(load_id));
    status.phase = Some(SourceCatalogPhase::OpeningVolume);
    status.cache_state =
    if force_rebuild {
        SourceCatalogCacheState::Rebuild
    } else {
        SourceCatalogCacheState::Cold
    };
    status.started_at = Some(owned(now));
    status
}

/// The phase of a load as it is shown.
pub open spec fn shown_phase(value: CatalogPhase) -> SourceCatalogPhase {
    match value {
        CatalogPhase::OpeningVolume => SourceCatalogPhase::OpeningVolume,
        CatalogPhase::EnumeratingFiles => SourceCatalogPhase::EnumeratingFiles,
        CatalogPhase::AugmentingNtfsMetadata => SourceCatalogPhase::AugmentingNtfsMetadata,
        CatalogPhase::BuildingIndexes => SourceCatalogPhase::BuildingIndexes,
        CatalogPhase::Finalizing => SourceCatalogPhase::Finalizing,
    }
}

pub fn map_catalog_phase(value: CatalogPhase) -> (r: SourceCatalogPhase)
    ensures
        r == shown_phase(value),
{
    match value {
        CatalogPhase::OpeningVolume => SourceCatalogPhase::OpeningVolume,
        CatalogPhase::EnumeratingFiles => SourceCatalogPhase::EnumeratingFiles,
        CatalogPhase::AugmentingNtfsMetadata => SourceCatalogPhase::AugmentingNtfsMetadata,
        CatalogPhase::BuildingIndexes => SourceCatalogPhase::BuildingIndexes,
        CatalogPhase::Finalizing => SourceCatalogPhase::Finalizing,
    }
}

/// How a load uses the cache, as it is shown.
pub open spec fn shown_cache_state(value: CatalogCacheState) -> SourceCatalogCacheState {
    match value {
        CatalogCacheState::Cold => SourceCatalogCacheState::Cold,
        CatalogCacheState::Warm => SourceCatalogCacheState::Warm,
        CatalogCacheState::DeltaRefresh => SourceCatalogCacheState::DeltaRefresh,
        CatalogCacheState::Rebuild => SourceCatalogCacheState::Rebuild,
    }
}

pub fn map_catalog_cache_state(value: CatalogCacheState) -> (r: SourceCatalogCacheState)
    ensures
        r == shown_cache_state(value),
{
    match value {
        CatalogCacheState::Cold => SourceCatalogCacheState::Cold,
        CatalogCacheState::Warm => SourceCatalogCacheState::Warm,
        CatalogCacheState::DeltaRefresh => SourceCatalogCacheState::DeltaRefresh,
        CatalogCacheState::Rebuild => SourceCatalogCacheState::Rebuild,
    }
}

/// A load is on its way.
pub open spec fn load_progress(
    prior: Option<CatalogView>,
    source_id: Seq<char>,
    load_id: Seq<char>,
    progress: CatalogProgress,
    now: Seq<char>,
) -> CatalogView {
    CatalogView {
        state: SourceCatalogState::Loading,
        load_id: Some(load_id),
        phase: Some(shown_phase(progress.phase)),
        indexed_entries: progress.indexed_entries,
        total_estimated_entries: progress.total_estimated_entries,
        cache_state: shown_cache_state(progress.cache_state),
        started_at: match prior {
            Some(status) => status.started_at,
            None => None,
        },
        ..unloaded(source_id, now)
    }
}

pub fn progressed_catalog_status(
    prior: Option<&SourceCatalogStatus>,
    source_id: &str,
    load_id: &str,
    progress: &CatalogProgress,
    now: &str,
) -> (r: SourceCatalogStatus)
    ensures
        r@ == load_progress(status_view(prior), source_id@, load_id@, *progress, now@),
{
    let mut status = unloaded_catalog_status(source_id, now);
    status.state = SourceCatalogState::Loading;
    status.load_id = Some(owned(load_id));
    status.phase = Some(map_catalog_phase(progress.phase));
    status.indexed_entries = progress.indexed_entries;
    status.total_estimated_entries = progress.total_estimated_entries;
    status.cache_state = map_catalog_cache_state(progress.cache_state);
    status.started_at =
    match prior {
        Some(prior) => clone_opt(&prior.started_at),
        None => None,
    };
    status
}

pub open spec fn status_view(o: Option<&SourceCatalogStatus>) -> Option<CatalogView> {
    match o {
        Some(status) => Some(status@),
        None => None,
    }
}

/// The short name of an error.
pub open spec fn error_name(error: Seq<char>) -> Seq<char> {
    if occurs_in(error, "UNIQUE constraint failed"@) {
        "sqlite_unique"@
    } else if occurs_in(error, "catalog_not_ready"@) {
        "catalog_not_ready"@
    } else if occurs_in(error, "cancelled"@) {
        "cancelled"@
    } else if occurs_in(error, "mounted logical volumes"@) || occurs_in(
        error,
        "Mounted source path"@,
    ) {
        "unsupported_source"@
    } else {
        "load_failed"@
    }
}

pub fn classify_catalog_error(error: Option<&str>) -> (r: (Option<String>, Option<String>))
    ensures
        match error {
            None => r.0 is None && r.1 is None,
            Some(e) => opt_view(r.0) == Some(error_name(e@)) && opt_view(r.1) == Some(e@),
        },
{
    let error = match error {
        Some(error) => error,
        None => {
            return (None, None);
        },
    };
    let code = if has_substring(error, "UNIQUE constraint failed") {
        "sqlite_unique"
    } else if has_substring(error, "catalog_not_ready") {
        "catalog_not_ready"
    } else if has_substring(error, "cancelled") {
        "cancelled"
    } else if has_substring(error, "mounted logical volumes") || has_substring(
        error,
        "Mounted source path",
    ) {
        "unsupported_source"
    } else {
        "load_failed"
    };
    (Some(owned(code)), Some(owned(error)))
}

/// A load is over.
pub open spec fn load_over(
    prior: Option<CatalogView>,
    source_id: Seq<char>,
    state: SourceCatalogState,
    error: Option<Seq<char>>,
    now: Seq<char>,
) -> CatalogView {
    if state == SourceCatalogState::Ready {
        CatalogView {
            state,
            indexed_entries: match prior {
                Some(status) => status.indexed_entries,
                None => 0,
            },
            total_estimated_entries: match prior {
                Some(status) => status.total_estimated_entries,
                None => None,
            },
            cache_state: match prior {
                Some(status) => status.cache_state,
                None => SourceCatalogCacheState::Warm,
            },
            started_at: match prior {
                Some(status) => status.started_at,
                None => None,
            },
            ..unloaded(source_id, now)
        }
    } else {
        CatalogView {
            state,
            error,
            error_code: match error {
                Some(e) => Some(error_name(e)),
                None => None,
            },
            error_detail: error,
            ..unloaded(source_id, now)
        }
    }
}

pub fn finished_catalog_status(
    prior: Option<&SourceCatalogStatus>,
    source_id: &str,
    state: SourceCatalogState,
    error: Option<String>,
    now: &str,
) -> (r: SourceCatalogStatus)
    ensures
        r@ == load_over(status_view(prior), source_id@, state, opt_view(error), now@),
{
    let mut status = unloaded_catalog_status(source_id, now);
    status.state = state;
    if state == SourceCatalogState::Ready {
        status.cache_state = SourceCatalogCacheState::Warm;
        if let Some(prior) = prior {
            status.indexed_entries = prior.indexed_entries;
            status.total_estimated_entries = prior.total_estimated_entries;
            status.cache_state = prior.cache_state;
            status.started_at = clone_opt(&prior.started_at);
        }
    } else {
        let told: Option<&str> = match &error {
            Some(error) => Some(error.as_str()),
            None => None,
        };
        let (code, detail) = classify_catalog_error(told);
        status.error_code = code;
        status.error_detail = detail;
        status.error = error;
    }
    status
}

/// How a load ended: in which state the catalog is then, and with which error.
pub open spec fn load_end(error: Option<Seq<char>>) -> (SourceCatalogState, Option<Seq<char>>) {
    match error {
        None => (SourceCatalogState::Ready, None),
        Some(message) => if occurs_in(message, "cancelled"@) {
            (SourceCatalogState::Unloaded, None)
        } else {
            (SourceCatalogState::Failed, Some(message))
        },
    }
}

/// How a load ended: a cancelled one leaves the catalog unloaded and is no failure.
pub fn end_of_load(error: Option<String>) -> (r: (SourceCatalogState, Option<String>))
    ensures
        (r.0, opt_view(r.1)) == load_end(opt_view(error)),
{
    match error {
        None => (SourceCatalogState::Ready, None),
        Some(message) => if has_substring(message.as_str(), "cancelled") {
            (SourceCatalogState::Unloaded, None)
        } else {
            (SourceCatalogState::Failed, Some(message))
        },
    }
}

// ---------------------------------------------------------------------------
// Laws.

/// A catalog has an error exactly where its load failed, and with the error its code.
pub proof fn lemma_errors_come_with_codes(
    prior: Option<CatalogView>,
    source_id: Seq<char>,
    error: Option<Seq<char>>,
    now: Seq<char>,
)
    ensures
        ({
            let end = load_end(error);
            let status = load_over(prior, source_id, end.0, end.1, now);
            &&& status.error is Some <==> status.state == SourceCatalogState::Failed
            &&& status.error is Some <==> status.error_code is Some
            &&& status.error == status.error_detail
            &&& status.load_id is None && status.phase is None
        }),
{
}

/// A load keeps the time at which it started until it is over.
pub proof fn lemma_loads_keep_their_start(
    source_id: Seq<char>,
    load_id: Seq<char>,
    force_rebuild: bool,
    progress: CatalogProgress,
    t1: Seq<char>,
    t2: Seq<char>,
    t3: Seq<char>,
)
    ensures
        ({
            let started = load_started(source_id, load_id, force_rebuild, t1);
            let on_its_way = load_progress(Some(started), source_id, load_id, progress, t2);
            let over = load_over(
                Some(on_its_way),
                source_id,
                SourceCatalogState::Ready,
                None,
                t3,
            );
            &&& on_its_way.started_at == Some(t1)
            &&& over.started_at == Some(t1)
            &&& over.indexed_entries == progress.indexed_entries
        }),
{
}

} // verus!
