//! The state behind the user interface: sources, their catalogs, scans, jobs and open previews.

use crate::browse_cache::DeletedBrowseCache;
use crate::catalog::CatalogProgress;
use crate::catalog_status::{
    finished_catalog_status, load_over, load_progress, load_started, loading_catalog_status,
    progressed_catalog_status, unloaded, unloaded_catalog_status, CatalogView, SourceCatalogStatus,
};
use crate::jobs::{Job, JobView};
use crate::model::{
    message_of, BootstrapInfo, ContentPreviewResponse, RssError, ScanSource, SourceCatalogState,
    SourceEntryDetails,
};
use crate::preview_session::{PreparedPreviewSession, PreviewSessionTarget};
use crate::refinement::{RawEvidenceJob, RawJobView};
use crate::sessions::{ScanSession, ScanView};
use crate::table::Table;
use crate::text::{concat2, concat3, opt_view, owned};
use vstd::prelude::*;
use vstd::string::*;

verus! {

/// An open preview: what was prepared for it, and of what it is.
pub struct PreviewSession {
    pub prepared: PreparedPreviewSession,
    pub target: PreviewSessionTarget,
}

/// The state behind the user interface.
pub struct BridgeState {
    pub version: String,
    pub eula_path: String,
    pub is_elevated: bool,
    pub sources: Vec<ScanSource>,
    pub sessions: Table<ScanSession>,
    pub source_catalog_statuses: Table<SourceCatalogStatus>,
    pub source_catalog_loads: Table<bool>,
    pub preview_jobs: Table<Job<ContentPreviewResponse>>,
    pub raw_evidence_jobs: Table<RawEvidenceJob>,
    pub preview_sessions: Table<PreviewSession>,
    pub entry_details_jobs: Table<Job<SourceEntryDetails>>,
}

/// What the state holds.
#[verifier::ext_equal]
pub ghost struct BridgeView {
    pub version: Seq<char>,
    pub eula_path: Seq<char>,
    pub is_elevated: bool,
    pub sources: Seq<ScanSource>,
    pub sessions: Map<Seq<char>, ScanView>,
    pub statuses: Map<Seq<char>, CatalogView>,
    pub loads: Map<Seq<char>, bool>,
    pub preview_jobs: Map<Seq<char>, JobView<ContentPreviewResponse>>,
    pub raw_jobs: Map<Seq<char>, RawJobView>,
    pub previews: Map<Seq<char>, PreviewSession>,
    pub details_jobs: Map<Seq<char>, JobView<SourceEntryDetails>>,
}

/// What the values of a map hold.
pub open spec fn seen<V: View>(m: Map<Seq<char>, V>) -> Map<Seq<char>, V::V> {
    m.map_values(|v: V| v@)
}

/// What one more value, or one less, does to what the values hold.
pub proof fn lemma_seen<V: View>(m: Map<Seq<char>, V>, k: Seq<char>, v: V)
    ensures
        seen(m.insert(k, v)) == seen(m).insert(k, v@),
        seen(m.remove(k)) == seen(m).remove(k),
        seen(Map::<Seq<char>, V>::empty()) == Map::<Seq<char>, V::V>::empty(),
{
    assert(seen(m.insert(k, v)) =~= seen(m).insert(k, v@));
    assert(seen(m.remove(k)) =~= seen(m).remove(k));
    assert(seen(Map::<Seq<char>, V>::empty()) =~= Map::<Seq<char>, V::V>::empty());
}

impl View for BridgeState {
    type V = BridgeView;

    open spec fn view(&self) -> BridgeView {
        BridgeView {
            version: self.version@,
            eula_path: self.eula_path@,
            is_elevated: self.is_elevated,
            sources: self.sources@,
            sessions: seen(self.sessions@),
            statuses: seen(self.source_catalog_statuses@),
            loads: self.source_catalog_loads@,
            preview_jobs: seen(self.preview_jobs@),
            raw_jobs: seen(self.raw_evidence_jobs@),
            previews: self.preview_sessions@,
            details_jobs: seen(self.entry_details_jobs@),
        }
    }
}

/// The folder tree of a scan is a sound one.
pub open spec fn sound_cache(cache: Option<DeletedBrowseCache>) -> bool {
    match cache {
        Some(cache) => cache.wf(),
        None => true,
    }
}

/// Every scan has a sound folder tree, or none.
pub open spec fn sound_scans(sessions: Map<Seq<char>, ScanView>) -> bool {
    forall|k: Seq<char>| #[trigger] sessions.contains_key(k) ==> sound_cache(sessions[k].cache)
}

/// The first source with an id.
pub open spec fn find_source_at(sources: Seq<ScanSource>, id: Seq<char>, i: int) -> Option<
    ScanSource,
>
    decreases sources.len() - i,
{
    if i < 0 || i >= sources.len() {
        None
    } else if sources[i].id@ == id {
        Some(sources[i])
    } else {
        find_source_at(sources, id, i + 1)
    }
}

pub open spec fn source_with_id(sources: Seq<ScanSource>, id: Seq<char>) -> Option<ScanSource> {
    find_source_at(sources, id, 0)
}

/// Whether some source has an id.
pub open spec fn has_source(sources: Seq<ScanSource>, id: Seq<char>) -> bool {
    exists|i: int| 0 <= i < sources.len() && (#[trigger] sources[i]).id@ == id
}

/// What is said of an id that no source has.
pub open spec fn unknown_source(id: Seq<char>) -> Seq<char> {
    "Unknown source id "@ + id
}

/// The statuses after the sources were listed anew: what is known of a source stays, and the
/// catalog of a new one is not loaded.
pub open spec fn refreshed(
    statuses: Map<Seq<char>, CatalogView>,
    sources: Seq<ScanSource>,
    now: Seq<char>,
) -> Map<Seq<char>, CatalogView> {
    Map::new(
        |k: Seq<char>| has_source(sources, k),
        |k: Seq<char>|
            if statuses.contains_key(k) {
                statuses[k]
            } else {
                unloaded(k, now)
            },
    )
}

/// The state at its start.
pub open spec fn first_state(
    version: Seq<char>,
    eula_path: Seq<char>,
    sources: Seq<ScanSource>,
    is_elevated: bool,
    now: Seq<char>,
) -> BridgeView {
    BridgeView {
        version,
        eula_path,
        is_elevated,
        sources,
        sessions: Map::empty(),
        statuses: refreshed(Map::empty(), sources, now),
        loads: Map::empty(),
        preview_jobs: Map::empty(),
        raw_jobs: Map::empty(),
        previews: Map::empty(),
        details_jobs: Map::empty(),
    }
}

/// The status of a source; one that nothing is known of has no catalog loaded.
pub open spec fn status_of(
    statuses: Map<Seq<char>, CatalogView>,
    source_id: Seq<char>,
    now: Seq<char>,
) -> CatalogView {
    if statuses.contains_key(source_id) {
        statuses[source_id]
    } else {
        unloaded(source_id, now)
    }
}

/// The status that is known of a source.
pub open spec fn known_status(
    statuses: Map<Seq<char>, CatalogView>,
    source_id: Seq<char>,
) -> Option<CatalogView> {
    if statuses.contains_key(source_id) {
        Some(statuses[source_id])
    } else {
        None
    }
}

/// The statuses for freshly listed sources.
fn refresh_statuses(
    known: &mut Table<SourceCatalogStatus>,
    sources: &Vec<ScanSource>,
    now: &str,
) -> (r: Table<SourceCatalogStatus>)
    requires
        old(known).wf(),
    ensures
        r.wf(),
        seen(r@) == refreshed(seen(old(known)@), sources@, now@),
{
    let ghost before = seen(known@);
    let mut fresh: Table<SourceCatalogStatus> = Table::new();
    let mut i: usize = 0;
    proof {
        assert(seen(fresh@) =~= refreshed(before, sources@.subrange(0, 0), now@));
    }
    while i < sources.len()
        invariant
            i <= sources@.len(),
            known.wf(),
            fresh.wf(),
            seen(fresh@) == refreshed(before, sources@.subrange(0, i as int), now@),
            forall|k: Seq<char>|
                !has_source(sources@.subrange(0, i as int), k) ==> (#[trigger] seen(
                    known@,
                ).contains_key(k) <==> before.contains_key(k)) && (before.contains_key(k)
                    ==> seen(known@)[k] == before[k]),
        decreases sources@.len() - i,
    {
        let source = &sources[i];
        let id = source.id.as_str();
        let ghost done = sources@.subrange(0, i as int);
        let ghost longer = sources@.subrange(0, i + 1);
        proof {
            assert forall|k: Seq<char>| has_source(longer, k) <==> has_source(done, k) || k
                == id@ by {
                if has_source(done, k) {
                    let j = choose|j: int|
                        0 <= j < done.len() && (#[trigger] done[j]).id@ == k;
                    assert(longer[j].id@ == k);
                }
                if k == id@ {
                    assert(longer[i as int].id@ == k);
                }
                if has_source(longer, k) && k != id@ {
                    let j = choose|j: int|
                        0 <= j < longer.len() && (#[trigger] longer[j]).id@ == k;
                    assert(done[j].id@ == k);
                }
            }
        }
        let ghost had = known@;
        if fresh.contains_key(id) {
            proof {
                assert(seen(fresh@).contains_key(id@));
                assert(has_source(done, id@));
                assert(seen(fresh@) =~= refreshed(before, longer, now@));
            }
        } else {
            proof {
                assert(!seen(fresh@).contains_key(id@));
                assert(!has_source(done, id@));
            }
            let status = match known.remove(id) {
                Some(status) => status,
                None => unloaded_catalog_status(id, now),
            };
            proof {
                lemma_seen(had, id@, status);
                lemma_seen(fresh@, id@, status);
                assert(seen(had).contains_key(id@) <==> before.contains_key(id@));
                assert(status@ == refreshed(before, longer, now@)[id@]);
            }
            fresh.insert(id, status);
            proof {
                assert(seen(fresh@) =~= refreshed(before, longer, now@));
            }
        }
        proof {
            assert forall|k: Seq<char>| !has_source(longer, k) implies (#[trigger] seen(
                known@,
            ).contains_key(k) <==> before.contains_key(k)) && (before.contains_key(k) ==> seen(
                known@,
            )[k] == before[k]) by {
                assert(!has_source(done, k));
                assert(seen(had).contains_key(k) <==> before.contains_key(k));
            }
        }
        i += 1;
    }
    assert(sources@.subrange(0, i as int) =~= sources@);
    fresh
}

/// The copies of sources.
pub fn clone_sources(sources: &Vec<ScanSource>) -> (r: Vec<ScanSource>)
    ensures
        r@ == sources@,
{
    let mut out: Vec<ScanSource> = Vec::new();
    let mut i: usize = 0;
    while i < sources.len()
        invariant
            i <= sources@.len(),
            out@ == sources@.subrange(0, i as int),
        decreases sources@.len() - i,
    {
        out.push(sources[i].clone());
        assert(out@ =~= sources@.subrange(0, i + 1));
        i += 1;
    }
    assert(out@ =~= sources@);
    out
}

impl BridgeState {
    /// All tables are in order and every folder tree is sound.
    pub open spec fn wf(&self) -> bool {
        &&& self.sessions.wf()
        &&& self.source_catalog_statuses.wf()
        &&& self.source_catalog_loads.wf()
        &&& self.preview_jobs.wf()
        &&& self.raw_evidence_jobs.wf()
        &&& self.preview_sessions.wf()
        &&& self.entry_details_jobs.wf()
        &&& sound_scans(self@.sessions)
    }

    /// The state at its start, with the sources that were found.
    pub fn new(
        version: &str,
        eula_path: &str,
        sources: Vec<ScanSource>,
        is_elevated: bool,
        now: &str,
    ) -> (r: Self)
        ensures
            r.wf(),
            r@ == first_state(version@, eula_path@, sources@, is_elevated, now@),
    {
        let mut none: Table<SourceCatalogStatus> = Table::new();
        let ghost nothing = seen(none@);
        let statuses = refresh_statuses(&mut none, &sources, now);
        let r = BridgeState {
            version: owned(version),
            eula_path: owned(eula_path),
            is_elevated,
            sources,
            sessions: Table::new(),
            source_catalog_statuses: statuses,
            source_catalog_loads: Table::new(),
            preview_jobs: Table::new(),
            raw_evidence_jobs: Table::new(),
            preview_sessions: Table::new(),
            entry_details_jobs: Table::new(),
        };
        proof {
            assert(nothing =~= Map::empty());
            assert(r@.sessions =~= Map::empty());
            assert(r@.preview_jobs =~= Map::empty());
            assert(r@.raw_jobs =~= Map::empty());
            assert(r@.details_jobs =~= Map::empty());
        }
        r
    }

    /// What the user interface shows first.
    pub fn bootstrap(&self) -> (r: BootstrapInfo)
        ensures
            r.app_name@ == "Files"@,
            r.app_author@ == "Jumarf"@,
            r.app_version@ == self@.version,
            r.license@ == "GPL-3.0-or-later"@,
            r.eula_path@ == self@.eula_path,
            r.is_elevated == self@.is_elevated,
            r.source_count == self@.sources.len(),
    {
        BootstrapInfo {
            app_name: owned("Files"),
            app_author: owned("Jumarf"),
            app_version: self.version.clone(),
            license: owned("GPL-3.0-or-later"),
            eula_path: self.eula_path.clone(),
            is_elevated: self.is_elevated,
            source_count: self.sources.len(),
        }
    }

    pub fn list_sources(&self) -> (r: Vec<ScanSource>)
        ensures
            r@ == self@.sources,
    {
        clone_sources(&self.sources)
    }

    /// Takes in sources that were listed anew.
    pub fn refresh_sources(&mut self, fresh: Vec<ScanSource>, now: &str) -> (r: Vec<ScanSource>)
        requires
            old(self).wf(),
        ensures
            final(self).wf(),
            r@ == fresh@,
            final(self)@ == (BridgeView {
                sources: fresh@,
                statuses: refreshed(old(self)@.statuses, fresh@, now@),
                ..old(self)@
            }),
    {
        let shown = clone_sources(&fresh);
        self.source_catalog_statuses =
        refresh_statuses(&mut self.source_catalog_statuses, &fresh, now);
        self.sources = fresh;
        shown
    }

    /// The source with an id.
    pub fn find_source(&self, source_id: &str) -> (r: Result<ScanSource, RssError>)
        ensures
            match (r, source_with_id(self@.sources, source_id@)) {
                (Ok(found), Some(source)) => found == source,
                (Err(e), None) => message_of(e) == unknown_source(source_id@),
                _ => false,
            },
    {
        let mut i: usize = 0;
        while i < self.sources.len()
            invariant
                i <= self.sources@.len(),
                source_with_id(self.sources@, source_id@) == find_source_at(
                    self.sources@,
                    source_id@,
                    i as int,
                ),
            decreases self.sources@.len() - i,
        {
            if *self.sources[i].id.as_str() == *source_id {
                return Ok(self.sources[i].clone());
            }
            i += 1;
        }
        Err(RssError::Message(concat2("Unknown source id ", source_id)))
    }

    pub fn source_catalog_status(&self, source_id: &str, now: &str) -> (r: SourceCatalogStatus)
        requires
            self.wf(),
        ensures
            r@ == status_of(self@.statuses, source_id@, now@),
    {
        match self.source_catalog_statuses.get(source_id) {
            Some(status) => status.clone(),
            None => unloaded_catalog_status(source_id, now),
        }
    }

    /// Whether the catalog of a source can be read.
    pub fn catalog_is_ready(&self, source_id: &str) -> (r: bool)
        requires
            self.wf(),
        ensures
            r == (self@.statuses.contains_key(source_id@) && self@.statuses[source_id@].state
                == SourceCatalogState::Ready),
    {
        match self.source_catalog_statuses.get(source_id) {
            Some(status) => status.state == SourceCatalogState::Ready,
            None => false,
        }
    }

    /// Starts a load of the catalog of a source, and gives the source.
    pub fn load_source_catalog(
        &mut self,
        source_id: &str,
        force_rebuild: bool,
        load_id: &str,
        now: &str,
    ) -> (r: Result<ScanSource, RssError>)
        requires
            old(self).wf(),
        ensures
            final(self).wf(),
            match (r, source_with_id(old(self)@.sources, source_id@)) {
                (Ok(found), Some(source)) => found == source && final(self)@ == (BridgeView {
                    statuses: old(self)@.statuses.insert(
                        source.id@,
                        load_started(source.id@, load_id@, force_rebuild, now@),
                    ),
                    loads: old(self)@.loads.insert(load_id@, false),
                    ..old(self)@
                }),
                (Err(e), None) => message_of(e) == unknown_source(source_id@) && final(self)@
                    == old(self)@,
                _ => false,
            },
    {
        let source = match self.find_source(source_id) {
            Ok(source) => source,
            Err(e) => {
                return Err(e);
            },
        };
        let status = loading_catalog_status(source.id.as_str(), load_id, force_rebuild, now);
        proof {
            lemma_seen(self.source_catalog_statuses@, source.id@, status);
        }
        self.source_catalog_statuses.insert(source.id.as_str(), status);
        self.source_catalog_loads.insert(load_id, false);
        Ok(source)
    }

    /// Asks a load to stop.
    pub fn cancel_source_load(&mut self, load_id: &str) -> (r: Result<(), RssError>)
        requires
            old(self).wf(),
        ensures
            final(self).wf(),
            if old(self)@.loads.contains_key(load_id@) {
                r is Ok && final(self)@ == (BridgeView {
                    loads: old(self)@.loads.insert(load_id@, true),
                    ..old(self)@
                })
            } else {
                final(self)@ == old(self)@ && (r matches Err(e) && message_of(e)
                    == "Source load "@ + load_id@ + " not found"@)
            },
    {
        if !self.source_catalog_loads.contains_key(load_id) {
            return Err(RssError::Message(concat3("Source load ", load_id, " not found")));
        }
        self.source_catalog_loads.insert(load_id, true);
        Ok(())
    }

    /// Whether a load was asked to stop.
    pub fn is_load_cancelled(&self, load_id: &str) -> (r: bool)
        requires
            self.wf(),
        ensures
            r == (self@.loads.contains_key(load_id@) && self@.loads[load_id@]),
    {
        match self.source_catalog_loads.get(load_id) {
            Some(cancelled) => *cancelled,
            None => false,
        }
    }

    /// Takes in how far a load is, and gives what is shown of it.
    pub fn emit_catalog_progress(
        &mut self,
        source_id: &str,
        load_id: &str,
        progress: &CatalogProgress,
        now: &str,
    ) -> (r: SourceCatalogStatus)
        requires
            old(self).wf(),
        ensures
            final(self).wf(),
            r@ == load_progress(
                known_status(old(self)@.statuses, source_id@),
                source_id@,
                load_id@,
                *progress,
                now@,
            ),
            final(self)@ == (BridgeView {
                statuses: old(self)@.statuses.insert(source_id@, r@),
                ..old(self)@
            }),
    {
        let status = progressed_catalog_status(
            self.source_catalog_statuses.get(source_id),
            source_id,
            load_id,
            progress,
            now,
        );
        let shown = status.clone();
        proof {
            lemma_seen(self.source_catalog_statuses@, source_id@, status);
        }
        self.source_catalog_statuses.insert(source_id, status);
        shown
    }

    /// Takes in that a load is over, and gives what is shown of it.
    pub fn finish_catalog_load(
        &mut self,
        source_id: &str,
        load_id: &str,
        state: SourceCatalogState,
        error: Option<String>,
        now: &str,
    ) -> (r: SourceCatalogStatus)
        requires
            old(self).wf(),
        ensures
            final(self).wf(),
            r@ == load_over(
                known_status(old(self)@.statuses, source_id@),
                source_id@,
                state,
                opt_view(error),
                now@,
            ),
            final(self)@ == (BridgeView {
                loads: old(self)@.loads.remove(load_id@),
                statuses: old(self)@.statuses.insert(source_id@, r@),
                ..old(self)@
            }),
    {
        let _ = self.source_catalog_loads.remove(load_id);
        let status = finished_catalog_status(
            self.source_catalog_statuses.get(source_id),
            source_id,
            state,
            error,
            now,
        );
        let shown = status.clone();
        proof {
            lemma_seen(self.source_catalog_statuses@, source_id@, status);
        }
        self.source_catalog_statuses.insert(source_id, status);
        shown
    }
}

// ---------------------------------------------------------------------------
// Laws.

proof fn lemma_find_source_at(sources: Seq<ScanSource>, id: Seq<char>, i: int)
    requires
        0 <= i <= sources.len(),
    ensures
        match find_source_at(sources, id, i) {
            Some(source) => source.id@ == id && exists|j: int|
                i <= j < sources.len() && #[trigger] sources[j] == source,
            None => forall|j: int| i <= j < sources.len() ==> (#[trigger] sources[j]).id@ != id,
        },
    decreases sources.len() - i,
{
    if i < sources.len() && sources[i].id@ != id {
        lemma_find_source_at(sources, id, i + 1);
    }
}

/// A source is found by its id exactly where one has it.
pub proof fn lemma_sources_are_found(sources: Seq<ScanSource>, id: Seq<char>)
    ensures
        source_with_id(sources, id) is Some <==> has_source(sources, id),
        source_with_id(sources, id) matches Some(source) ==> source.id@ == id
            && sources.contains(source),
{
    lemma_find_source_at(sources, id, 0);
}

/// To list the sources anew without a change keeps what is known of their catalogs.
pub proof fn lemma_refresh_keeps_what_is_known(
    statuses: Map<Seq<char>, CatalogView>,
    sources: Seq<ScanSource>,
    now: Seq<char>,
    later: Seq<char>,
)
    ensures
        refreshed(refreshed(statuses, sources, now), sources, later) == refreshed(
            statuses,
            sources,
            now,
        ),
{
    assert(refreshed(refreshed(statuses, sources, now), sources, later) =~= refreshed(
        statuses,
        sources,
        now,
    ));
}

} // verus!
