//! How scans, refinements and loads go on, and what they tell on their way.

use crate::catalog_status::{
    error_name, load_end, load_over, load_progress, load_started, unloaded, CatalogView,
    SourceCatalogStatus,
};
use crate::evidence_run::{
    after_answer, after_journal, after_raw_journal, front_read, stage_report, to_next_read,
    RefineStage, RefineView, RunsView,
};
use crate::model::{ArtifactRecord, RawEvidenceConfig, ScanOptions};
use crate::ntfs_paths::{
    chain_confidence, chain_path, chain_placement, directory_chain, normalized_path, path_joined,
    record_number, resolved_path, DirectoryChain, MftRecord, ROOT_RECORD,
};
use crate::scan_course::{
    action_at, fits, step_after, CourseInput, CourseView, ScanAction, ScanEvent, ScanStage,
};
use crate::scan_run::{carves, MetadataPass};
use crate::text::{lemma_drop_back, is_char, opt_view};
use crate::volume::{bit_set, run_bytes, DataRun, VolumeBitmap};
use vstd::prelude::*;
use vstd::string::*;

verus! {

// ---------------------------------------------------------------------------
// Scans.

/// What a scan does at a stage is what it waits for there: to be told on, an answer, the free
/// space, the deleted entries, or what was carved.
pub proof fn lemma_scans_wait_for_what_they_do(c: CourseView, options: ScanOptions, event: ScanEvent)
    requires
        fits(c.stage, event),
    ensures
        match action_at(c, options) {
            ScanAction::Report => event is Told,
            ScanAction::ReportAndAsk | ScanAction::Ask => event is Answer,
            ScanAction::ReadBitmap { late } => (event is BitmapLoaded || event is BitmapFailed) && (
            late <==> c.stage is ReadingLateBitmap),
            ScanAction::ReadEntries { pass } => (event is EntriesRead || event is EntriesFailed)
                && c.stage == ScanStage::ReadingEntries(pass),
            ScanAction::Carve { .. } => event is Carved || event is CarveFailed,
            ScanAction::End => false,
        },
{
}

/// The free space of an NTFS volume is read in front, that of any other source only where it is
/// carved.
pub proof fn lemma_free_space_is_read_first(c: CourseView, x: CourseInput)
    requires
        c.stage is LoadingBitmap,
    ensures
        ({
            let next = step_after(c, ScanEvent::Answer { stop: false }, x);
            &&& x.source.filesystem is Ntfs ==> next.stage is ReadingBitmap
            &&& !(x.source.filesystem is Ntfs) ==> next.stage is EnumeratingEntries
            &&& next.bitmap == c.bitmap && next.results == c.results
        }),
{
}

/// What a scan read of the free space it knows from then on.
pub proof fn lemma_free_space_is_known_once_read(c: CourseView, bitmap: VolumeBitmap, x: CourseInput)
    ensures
        c.stage is ReadingBitmap ==> {
            let next = step_after(c, ScanEvent::BitmapLoaded { bitmap }, x);
            next.bitmap == Some(bitmap) && next.stage is EnumeratingEntries && next.results
                == c.results && next.run.warnings == c.run.warnings
        },
        c.stage is ReadingLateBitmap ==> {
            let next = step_after(c, ScanEvent::BitmapLoaded { bitmap }, x);
            next.bitmap == Some(bitmap) && next.stage is CarvingFreeSpace && next.results.len()
                == c.results.len() && next.run.warnings == c.run.warnings
        },
{
}

/// Entries are read of the file systems that tell of deleted files, with a pass of their own;
/// of any other none are read, and the scan warns.
pub proof fn lemma_entries_are_read_by_file_system(c: CourseView, x: CourseInput)
    requires
        c.stage is EnumeratingEntries,
    ensures
        ({
            let next = step_after(c, ScanEvent::Told, x);
            &&& x.source.filesystem is Ntfs ==> next.stage == ScanStage::ReadingEntries(
                MetadataPass::MasterFileTable,
            )
            &&& x.source.filesystem is Fat32 ==> next.stage == ScanStage::ReadingEntries(
                MetadataPass::FatDirectories,
            )
            &&& x.source.filesystem is Ntfs || x.source.filesystem is Fat32 ==> next.run.warnings
                == c.run.warnings && next.results == c.results
            &&& x.source.filesystem is ExFat || x.source.filesystem is Unknown
                ==> next.results.len() == 0 && next.run.warnings.len() == c.run.warnings.len() + 1
        }),
{
    reveal_with_fuel(crate::seqs::kept, 1);
}

/// Behind the entries a deep scan carves, once the free space is known; a scan that does not
/// carve comes to its end.
pub proof fn lemma_deep_scans_carve(
    c: CourseView,
    pass: MetadataPass,
    found: Vec<ArtifactRecord>,
    x: CourseInput,
)
    requires
        c.stage == ScanStage::ReadingEntries(pass),
    ensures
        ({
            let next = step_after(c, ScanEvent::EntriesRead { found, stopped: false }, x);
            &&& x.options.mode is Deep && c.bitmap is Some ==> next.stage is CarvingFreeSpace
            &&& x.options.mode is Deep && c.bitmap is None ==> next.stage is ReadingLateBitmap
            &&& !carves(x.source, x.options) ==> next.stage is Closing
            &&& next.bitmap == c.bitmap
        }),
{
}

/// A scan that nobody stops is done once its last question is answered, with all that it found.
pub proof fn lemma_scans_end_with_what_they_found(c: CourseView, stop: bool, x: CourseInput)
    requires
        c.stage is Closing,
    ensures
        ({
            let next = step_after(c, ScanEvent::Answer { stop }, x);
            &&& stop ==> next.stage is Cancelled
            &&& !stop ==> next.stage is Finished
            &&& next.results == c.results && next.run == c.run && next.bitmap == c.bitmap
        }),
{
}

// ---------------------------------------------------------------------------
// Refinements.

/// Each report of a refinement is further on than the ones of the stages before it.
pub proof fn lemma_refinement_reports_rise(max_record: u64, entries: u64)
    ensures
        ({
            let directories = stage_report(RefineStage::Directories, max_record, entries)->0;
            let merging = stage_report(RefineStage::Merging, max_record, entries)->0;
            let reading = stage_report(RefineStage::Entries, max_record, entries)->0;
            let read = stage_report(RefineStage::EntriesCollected, max_record, entries)->0;
            let journal = stage_report(RefineStage::Journal, max_record, entries)->0;
            let noted = stage_report(RefineStage::JournalCollected, max_record, entries)->0;
            let last = stage_report(RefineStage::LastMerging, max_record, entries)->0;
            &&& 0 < directories.percent < merging.percent < reading.percent < read.percent
                < journal.percent < noted.percent < last.percent < 100
            &&& read.processed_units == entries
            &&& directories.processed_units == 0 && reading.processed_units == 0
            &&& max_record >= 5 ==> directories.total_units == Some((max_record - 5) as u64)
                && reading.total_units == Some((max_record - 5) as u64)
            &&& directories.asks_for_stop && merging.asks_for_stop && reading.asks_for_stop
                && journal.asks_for_stop && last.asks_for_stop
            &&& !read.asks_for_stop && !noted.asks_for_stop
            &&& directories.stage == "building_directory_map"@
            &&& merging.stage == "merging_evidence"@ && last.stage == "merging_evidence"@
            &&& reading.stage == "parsing_i30"@ && read.stage == "parsing_i30"@
            &&& journal.stage == "reading_usn"@ && noted.stage == "reading_usn"@
        }),
{
}

/// A refinement that is asked to stop ends unfinished. Else it reads what it was asked to read:
/// the indexes of folders and the journal, each only where it was asked for, and comes to its
/// end behind the last merge.
pub proof fn lemma_refinements_read_what_was_asked_for(stage: RefineStage, config: RawEvidenceConfig)
    ensures
        after_answer(stage, config, false) == RefineStage::Ended(false),
        after_answer(RefineStage::Directories, config, true) is Merging,
        config.i30_enabled ==> after_answer(RefineStage::Merging, config, true) is Entries,
        !config.i30_enabled && config.usn_enabled ==> after_answer(
            RefineStage::Merging,
            config,
            true,
        ) is Journal,
        !config.i30_enabled && !config.usn_enabled ==> after_answer(
            RefineStage::Merging,
            config,
            true,
        ) is LastMerging,
        after_answer(RefineStage::Entries, config, true) is CollectEntries,
        config.usn_enabled ==> after_answer(
            RefineStage::EntriesCollected,
            config,
            true,
        ) is Journal,
        !config.usn_enabled ==> after_answer(
            RefineStage::EntriesCollected,
            config,
            true,
        ) is LastMerging,
        after_answer(RefineStage::Journal, config, true) is CollectJournal,
        after_answer(RefineStage::JournalCollected, config, true) is LastMerging,
        after_answer(RefineStage::LastMerging, config, true) == RefineStage::Ended(true),
{
}

/// A journal that could not be read is read from the volume where that is asked for, unless the
/// refinement is asked to stop; what cannot be read at all is left out.
pub proof fn lemma_journals_are_read_another_way(v: RefineView, error: Seq<char>, stop: bool)
    ensures
        after_journal(v, None, stop).stage is JournalCollected,
        after_journal(v, None, stop).warnings == v.warnings,
        v.config.raw_usn_fallback && !stop ==> after_journal(
            v,
            Some(error),
            stop,
        ).stage is CollectRawJournal,
        !v.config.raw_usn_fallback || stop ==> after_journal(
            v,
            Some(error),
            stop,
        ).stage is JournalCollected,
        after_raw_journal(v, None).stage is JournalCollected,
        after_raw_journal(v, Some(error)).stage is JournalCollected,
        after_raw_journal(v, None).warnings == v.warnings,
        after_journal(v, Some(error), stop).entries == v.entries,
        after_raw_journal(v, Some(error)).config == v.config,
{
}

/// A read starts where the last one of its run ended; runs without data are passed over.
pub proof fn lemma_reads_go_on_in_their_run(v: RunsView)
    ensures
        front_read(v) matches Some((offset, length)) ==> v.runs.len() > 0 && (
        v.runs[0] matches DataRun::Data { lcn, length: whole } && v.consumed < whole && (lcn
            + v.consumed <= u64::MAX ==> offset == lcn + v.consumed) && length > 0),
        v.runs.len() > 0 && v.runs[0] is Sparse ==> front_read(v) is None,
        front_read(v) is Some ==> to_next_read(v) == v,
        front_read(v) is None && v.runs.len() > 0 ==> to_next_read(v) == to_next_read(
            (RunsView { runs: v.runs.drop_first(), consumed: 0, limit: v.limit, unit: v.unit }),
        ),
{
}

// ---------------------------------------------------------------------------
// Loads.

/// What is said of a catalog is what the fields of its status hold.
pub proof fn lemma_catalog_status_says_its_fields(s: SourceCatalogStatus)
    ensures
        s@.state == s.state,
        s@.source_id == s.source_id@,
        s@.load_id == opt_view(s.load_id),
        s@.phase == s.phase,
        s@.indexed_entries == s.indexed_entries,
        s@.total_estimated_entries == s.total_estimated_entries,
        s@.cache_state == s.cache_state,
        s@.started_at == opt_view(s.started_at),
        s@.updated_at == s.updated_at@,
        s@.error == opt_view(s.error),
        s@.error_code == opt_view(s.error_code),
        s@.error_detail == opt_view(s.error_detail),
{
}

/// A load that starts has read nothing; it tells when it started, and whether the catalog is
/// built anew.
pub proof fn lemma_loads_start_with_nothing(
    source_id: Seq<char>,
    load_id: Seq<char>,
    force_rebuild: bool,
    now: Seq<char>,
)
    ensures
        ({
            let s = load_started(source_id, load_id, force_rebuild, now);
            &&& s.state is Loading
            &&& s.source_id == source_id
            &&& s.load_id == Some(load_id)
            &&& s.phase matches Some(p) && p is OpeningVolume
            &&& s.indexed_entries == 0 && s.total_estimated_entries is None
            &&& s.cache_state is Rebuild <==> force_rebuild
            &&& s.cache_state is Cold <==> !force_rebuild
            &&& s.started_at == Some(now) && s.updated_at == now
            &&& s.error is None && s.error_code is None
        }),
        unloaded(source_id, now).state is Unloaded,
        unloaded(source_id, now).source_id == source_id,
        unloaded(source_id, now).load_id is None,
        unloaded(source_id, now).started_at is None,
        unloaded(source_id, now).updated_at == now,
{
}

/// A load on its way tells how far it is, and when it started.
pub proof fn lemma_loads_tell_how_far_they_are(
    prior: CatalogView,
    source_id: Seq<char>,
    load_id: Seq<char>,
    progress: crate::catalog::CatalogProgress,
    now: Seq<char>,
)
    ensures
        ({
            let s = load_progress(Some(prior), source_id, load_id, progress, now);
            &&& s.state is Loading
            &&& s.source_id == source_id && s.load_id == Some(load_id)
            &&& s.indexed_entries == progress.indexed_entries
            &&& s.total_estimated_entries == progress.total_estimated_entries
            &&& s.started_at == prior.started_at
            &&& s.updated_at == now
            &&& s.error is None
            &&& progress.phase is OpeningVolume <==> s.phase->0 is OpeningVolume
            &&& progress.phase is EnumeratingFiles <==> s.phase->0 is EnumeratingFiles
            &&& progress.phase is AugmentingNtfsMetadata <==> s.phase->0 is AugmentingNtfsMetadata
            &&& progress.phase is BuildingIndexes <==> s.phase->0 is BuildingIndexes
            &&& progress.phase is Finalizing <==> s.phase->0 is Finalizing
            &&& progress.cache_state is Cold <==> s.cache_state is Cold
            &&& progress.cache_state is Warm <==> s.cache_state is Warm
            &&& progress.cache_state is DeltaRefresh <==> s.cache_state is DeltaRefresh
            &&& progress.cache_state is Rebuild <==> s.cache_state is Rebuild
        }),
{
}

/// A load that is over leaves a catalog that is ready, with all that was read; one that was
/// cancelled leaves none and no error; any other leaves its error.
pub proof fn lemma_loads_end_as_they_went(
    prior: CatalogView,
    source_id: Seq<char>,
    error: Seq<char>,
    now: Seq<char>,
)
    ensures
        ({
            let (state, told) = load_end(None);
            let s = load_over(Some(prior), source_id, state, told, now);
            &&& s.state is Ready
            &&& s.indexed_entries == prior.indexed_entries
            &&& s.total_estimated_entries == prior.total_estimated_entries
            &&& s.cache_state == prior.cache_state
            &&& s.started_at == prior.started_at
            &&& s.updated_at == now
            &&& s.error is None
        }),
        ({
            let (state, told) = load_end(Some(error));
            let s = load_over(Some(prior), source_id, state, told, now);
            &&& s.source_id == source_id && s.updated_at == now && s.indexed_entries == 0
            &&& crate::bytes::occurs_in(error, "cancelled"@) ==> s.state is Unloaded
                && s.error is None
            &&& !crate::bytes::occurs_in(error, "cancelled"@) ==> s.state is Failed && s.error
                == Some(error) && s.error_code == Some(error_name(error)) && s.error_detail == Some(
                error,
            )
        }),
{
}

// ---------------------------------------------------------------------------
// Folders of the file table.

proof fn lemma_mismatch_stays(
    records: Seq<Option<MftRecord>>,
    cache: Map<u64, Seq<char>>,
    reference: u64,
    visited: Seq<u64>,
)
    ensures
        directory_chain(records, cache, reference, visited, true) matches Some(chain)
            ==> chain.mismatch,
    decreases records.len() - visited.len(),
{
    let number = record_number(reference);
    if number != ROOT_RECORD && !visited.contains(number) && number < records.len()
        && visited.len() < records.len() {
        if let Some(record) = records[number as int] {
            if let Some(best) = record.best_name {
                lemma_mismatch_stays(
                    records,
                    cache,
                    best.parent_reference,
                    visited.push(number),
                );
            }
        }
    }
}

/// The folders above a file are told by the file table: the nearest one by its own name, with
/// the folders above it. A folder that is no longer in use, or whose record belongs to another
/// file by now, makes the whole way less sure.
pub proof fn lemma_folders_are_told_by_the_table(
    records: Seq<Option<MftRecord>>,
    cache: Map<u64, Seq<char>>,
    reference: u64,
    visited: Seq<u64>,
)
    requires
        reference % 0x1_0000_0000_0000 != 5,
        !cache.contains_key(reference),
        directory_chain(records, cache, reference, visited, false) is Some,
    ensures
        ({
            let chain = directory_chain(records, cache, reference, visited, false)->0;
            let number = (reference % 0x1_0000_0000_0000) as int;
            &&& number < records.len()
            &&& records[number] matches Some(record)
            &&& record.best_name matches Some(best)
            &&& chain.components.len() > 0
            &&& chain.components[0] == (record.reference, best.name@)
            &&& !record.used ==> chain.deleted && !(chain_confidence(chain) is Exact)
            &&& record.reference != reference ==> chain.mismatch && chain_confidence(
                chain,
            ) is Partial
        }),
{
    crate::ntfs_paths::lemma_record_number_is_low_part(reference);
    let number = record_number(reference);
    let record = records[number as int]->0;
    let best = record.best_name->0;
    if record.reference != reference {
        lemma_mismatch_stays(records, cache, best.parent_reference, visited.push(number));
    }
}

/// The way ends at the root of the volume, where nothing is unsure.
pub proof fn lemma_ways_end_at_the_root(
    records: Seq<Option<MftRecord>>,
    cache: Map<u64, Seq<char>>,
    reference: u64,
    visited: Seq<u64>,
    volume: Seq<char>,
    name: Seq<char>,
)
    requires
        reference % 0x1_0000_0000_0000 == 5,
    ensures
        ({
            let chain = directory_chain(records, cache, reference, visited, false);
            &&& chain matches Some(c)
            &&& c.components.len() == 0 && !c.mismatch && !c.deleted
            &&& chain_confidence(c) is Exact && chain_placement(c) is OriginalPath
            &&& resolved_path(volume, c, name) == path_joined(volume, name)
        }),
{
    crate::ntfs_paths::lemma_record_number_is_low_part(reference);
}

/// A way is sure where no folder on it is out of date or deleted, and leads to the original path
/// where none is out of date.
pub proof fn lemma_ways_are_as_sure_as_their_folders(chain: DirectoryChain)
    ensures
        chain_confidence(chain) is Exact <==> !chain.mismatch && !chain.deleted,
        chain_confidence(chain) is Reconstructed <==> !chain.mismatch && chain.deleted,
        chain_confidence(chain) is Partial <==> chain.mismatch,
        chain_placement(chain) is BrokenParentChain <==> chain.mismatch,
        chain_placement(chain) is OriginalPath <==> !chain.mismatch,
        crate::ntfs_paths::chain_source(chain) is MftSequenceMismatch <==> chain.mismatch,
        crate::ntfs_paths::chain_source(chain) is MftDeletedDirectory <==> !chain.mismatch
            && chain.deleted,
        crate::ntfs_paths::chain_source(chain) is MftExact <==> !chain.mismatch && !chain.deleted,
{
}

/// The path of a file ends with its name, behind one separator, and begins with the path of its
/// folder.
pub proof fn lemma_paths_end_with_the_name(base: Seq<char>, name: Seq<char>, folder: Seq<char>)
    requires
        base.len() > 0,
    ensures
        ({
            let path = path_joined(base, name);
            &&& base.is_prefix_of(path) && name.is_suffix_of(path)
            &&& base.last() == '\\' || base.last() == '/' ==> path.len() == base.len() + name.len()
            &&& base.last() != '\\' && base.last() != '/' ==> path.len() == base.len() + 1
                + name.len() && path[base.len() as int] == '\\'
        }),
        forall|r: u64, rest: Seq<(u64, Seq<char>)>| #[trigger]
            chain_path(base, seq![(r, folder)] + rest) == path_joined(
                chain_path(base, rest),
                folder,
            ),
{
    let path = path_joined(base, name);
    assert(base =~= path.subrange(0, base.len() as int));
    assert(name =~= path.subrange(path.len() - name.len(), path.len() as int));
    assert forall|r: u64, rest: Seq<(u64, Seq<char>)>| #[trigger]
        chain_path(base, seq![(r, folder)] + rest) == path_joined(
            chain_path(base, rest),
            folder,
        ) by {
        let whole = seq![(r, folder)] + rest;
        assert(whole.drop_first() =~= rest);
        assert(whole[0] == (r, folder));
    }
}

/// A path on a device is shown on the drive that the device is mounted as, and as it is where it
/// is not mounted.
pub proof fn lemma_paths_are_shown_on_their_drive(
    device: Seq<char>,
    drive: char,
    rest: Seq<char>,
)
    requires
        device.len() > 0,
        drive != '\\',
    ensures
        normalized_path(device, Some(seq![drive, ':', '\\']), device + rest) == Some(
            seq![drive, ':'] + rest,
        ),
        normalized_path(device, None, device + rest) == Some(device + rest),
        normalized_path(device, None, Seq::<char>::empty()) is None,
{
    let path = device + rest;
    let root = seq![drive, ':', '\\'];
    assert(path.subrange(0, device.len() as int) =~= device);
    assert(crate::bytes::occurs_at(path, device, 0));
    lemma_drop_back(root, is_char('\\'), 2);
    assert(root.subrange(0, 2) =~= seq![drive, ':']);
    assert(path.subrange(0, 0) + seq![drive, ':'] + path.subrange(
        device.len() as int,
        path.len() as int,
    ) =~= seq![drive, ':'] + rest);
}

// ---------------------------------------------------------------------------
// Clusters.

/// A cluster has one bit, the lowest of a byte first.
pub proof fn lemma_clusters_have_one_bit(bits: Seq<u8>, i: int)
    requires
        0 <= i < 8 * bits.len(),
    ensures
        i % 8 == 0 ==> (bit_set(bits, i) <==> bits[i / 8] % 2 == 1),
        i % 8 == 1 ==> (bit_set(bits, i) <==> bits[i / 8] / 2 % 2 == 1),
        i % 8 == 2 ==> (bit_set(bits, i) <==> bits[i / 8] / 4 % 2 == 1),
        i % 8 == 3 ==> (bit_set(bits, i) <==> bits[i / 8] / 8 % 2 == 1),
        i % 8 == 4 ==> (bit_set(bits, i) <==> bits[i / 8] / 16 % 2 == 1),
        i % 8 == 5 ==> (bit_set(bits, i) <==> bits[i / 8] / 32 % 2 == 1),
        i % 8 == 6 ==> (bit_set(bits, i) <==> bits[i / 8] / 64 % 2 == 1),
        i % 8 == 7 ==> (bit_set(bits, i) <==> bits[i / 8] / 128 % 2 == 1),
{
    let b = bits[i / 8];
    assert((b & (1u8 << 0u8) != 0 <==> b % 2 == 1) && (b & (1u8 << 1u8) != 0 <==> b / 2 % 2 == 1)
        && (b & (1u8 << 2u8) != 0 <==> b / 4 % 2 == 1) && (b & (1u8 << 3u8) != 0 <==> b / 8 % 2
        == 1) && (b & (1u8 << 4u8) != 0 <==> b / 16 % 2 == 1) && (b & (1u8 << 5u8) != 0 <==> b / 32
        % 2 == 1) && (b & (1u8 << 6u8) != 0 <==> b / 64 % 2 == 1) && (b & (1u8 << 7u8) != 0 <==> b
        / 128 % 2 == 1)) by (bit_vector);
}

/// A run of clusters begins where its first cluster does, and has the bytes of all of them.
pub proof fn lemma_runs_have_the_bytes_of_their_clusters(
    first: int,
    count: int,
    cluster_size: u64,
)
    requires
        0 <= first,
        0 <= count,
        (first + count) * cluster_size <= u64::MAX,
    ensures
        run_bytes((first, count), cluster_size).offset == first * cluster_size,
        run_bytes((first, count), cluster_size).length == count * cluster_size,
        !run_bytes((first, count), cluster_size).sparse,
{
    let size = cluster_size as int;
    assert(0 <= first * size && 0 <= count * size && first * size + count * size == (first + count)
        * size) by (nonlinear_arith)
        requires
            0 <= first,
            0 <= count,
            0 <= size,
    ;
}

/// A deep scan always carves; a fast one carves NTFS sources alone, and not where it is given no
/// budget.
pub proof fn lemma_fast_scans_carve_within_their_budget(
    source: crate::model::ScanSource,
    options: ScanOptions,
)
    ensures
        options.mode is Deep ==> carves(source, options),
        options.mode is Fast && !(source.filesystem is Ntfs) ==> !carves(source, options),
        options.mode is Fast && options.carve_budget_bytes == Some(0u64) ==> !carves(
            source,
            options,
        ),
        options.mode is Fast && source.filesystem is Ntfs && options.carve_budget_bytes != Some(0u64)
            ==> carves(source, options),
{
}

} // verus!
