//! The course of a raw evidence refinement: which evidence is read in which order, what is
//! reported on the way, and where the reads on the volume lie.

use crate::bytes::{le64, read_le64};
use crate::evidence::{
    build_directory_paths, capped_warnings, directories_upto, push_capped_warning,
    sparse_map_warning,
};
use crate::i30::{index_read, next_index_read};
use crate::model::{RawEvidenceConfig, RssError, ScanSource};
use crate::ntfs_paths::{MftIndex, ROOT_RECORD};
use crate::ntfs_scan::require_ntfs;
use crate::numbers::{decimal, decimal_string};
use crate::text::{concat2, concat4, owned, views};
use crate::usn::{
    parse_usn_record_sequence, usn_sequence, usn_views, DirectoryPaths, UsnRecordRaw,
};
use crate::volume::DataRun;
use vstd::prelude::*;
use vstd::string::*;

verus! {

// ---------------------------------------------------------------------------
// The stages.

/// What a refinement waits for: the answer to a report, or the end of a collection.
#[derive(Debug, Clone, Copy, PartialEq, Eq, Structural)]
pub enum RefineStage {
    Directories,
    Merging,
    Entries,
    CollectEntries,
    EntriesCollected,
    Journal,
    CollectJournal,
    CollectRawJournal,
    JournalCollected,
    LastMerging,
    Ended(bool),
}

/// What is reported on the way: the stage, how much of the whole is done in hundredths, how many
/// units of how many, and whether a request to stop is asked for first.
#[derive(Debug)]
pub struct RefineReport {
    pub stage: String,
    pub percent: u32,
    pub processed_units: u64,
    pub total_units: Option<u64>,
    pub asks_for_stop: bool,
}

/// What is done next.
#[derive(Debug)]
pub enum RefineAction {
    Report(RefineReport),
    CollectEntries,
    CollectJournal,
    CollectRawJournal,
    Finish { completed: bool, last_report: Option<RefineReport> },
}

/// What a report says.
#[verifier::ext_equal]
pub ghost struct ReportView {
    pub stage: Seq<char>,
    pub percent: u32,
    pub processed_units: u64,
    pub total_units: Option<u64>,
    pub asks_for_stop: bool,
}

impl View for RefineReport {
    type V = ReportView;

    open spec fn view(&self) -> ReportView {
        ReportView {
            stage: self.stage@,
            percent: self.percent,
            processed_units: self.processed_units,
            total_units: self.total_units,
            asks_for_stop: self.asks_for_stop,
        }
    }
}

fn make_report(
    stage: &str,
    percent: u32,
    processed_units: u64,
    total_units: Option<u64>,
    asks_for_stop: bool,
) -> (r: RefineReport)
    ensures
        r@ == (ReportView { stage: stage@, percent, processed_units, total_units, asks_for_stop }),
{
    RefineReport { stage: owned(stage), percent, processed_units, total_units, asks_for_stop }
}

/// How many records of the file table hold files.
pub open spec fn record_count(max_record: u64) -> u64 {
    if max_record < ROOT_RECORD {
        0
    } else {
        (max_record - ROOT_RECORD) as u64
    }
}

/// The report that a stage waits for an answer to.
pub open spec fn stage_report(stage: RefineStage, max_record: u64, entries: u64) -> Option<
    ReportView,
> {
    match stage {
        RefineStage::Directories => Some(
            ReportView {
                stage: "building_directory_map"@,
                percent: 5,
                processed_units: 0,
                total_units: Some(record_count(max_record)),
                asks_for_stop: true,
            },
        ),
        RefineStage::Merging => Some(
            ReportView {
                stage: "merging_evidence"@,
                percent: 18,
                processed_units: 0,
                total_units: None,
                asks_for_stop: true,
            },
        ),
        RefineStage::Entries => Some(
            ReportView {
                stage: "parsing_i30"@,
                percent: 25,
                processed_units: 0,
                total_units: Some(record_count(max_record)),
                asks_for_stop: true,
            },
        ),
        RefineStage::EntriesCollected => Some(
            ReportView {
                stage: "parsing_i30"@,
                percent: 55,
                processed_units: entries,
                total_units: None,
                asks_for_stop: false,
            },
        ),
        RefineStage::Journal => Some(
            ReportView {
                stage: "reading_usn"@,
                percent: 58,
                processed_units: 0,
                total_units: None,
                asks_for_stop: true,
            },
        ),
        RefineStage::JournalCollected => Some(
            ReportView {
                stage: "reading_usn"@,
                percent: 82,
                processed_units: 0,
                total_units: None,
                asks_for_stop: false,
            },
        ),
        RefineStage::LastMerging => Some(
            ReportView {
                stage: "merging_evidence"@,
                percent: 90,
                processed_units: 0,
                total_units: None,
                asks_for_stop: true,
            },
        ),
        _ => None,
    }
}

/// The stage behind the directory indexes: the journal, where it is wanted.
pub open spec fn journal_or_last(config: RawEvidenceConfig) -> RefineStage {
    if config.usn_enabled {
        RefineStage::Journal
    } else {
        RefineStage::LastMerging
    }
}

/// The stage after an answer to a report.
pub open spec fn after_answer(
    stage: RefineStage,
    config: RawEvidenceConfig,
    go_on: bool,
) -> RefineStage {
    if !go_on {
        RefineStage::Ended(false)
    } else {
        match stage {
            RefineStage::Directories => RefineStage::Merging,
            RefineStage::Merging => if config.i30_enabled {
                RefineStage::Entries
            } else {
                journal_or_last(config)
            },
            RefineStage::Entries => RefineStage::CollectEntries,
            RefineStage::EntriesCollected => journal_or_last(config),
            RefineStage::Journal => RefineStage::CollectJournal,
            RefineStage::JournalCollected => RefineStage::LastMerging,
            RefineStage::LastMerging => RefineStage::Ended(true),
            other => other,
        }
    }
}

/// What is known of a refinement on its way.
#[verifier::ext_equal]
pub ghost struct RefineView {
    pub config: RawEvidenceConfig,
    pub max_record: u64,
    pub stage: RefineStage,
    pub entries: u64,
    pub warnings: Seq<Seq<char>>,
}

/// A refinement on its way.
#[derive(Debug)]
pub struct RefinementRun {
    config: RawEvidenceConfig,
    max_record: u64,
    stage: RefineStage,
    entries: u64,
    warnings: Vec<String>,
}

impl View for RefinementRun {
    type V = RefineView;

    closed spec fn view(&self) -> RefineView {
        RefineView {
            config: self.config,
            max_record: self.max_record,
            stage: self.stage,
            entries: self.entries,
            warnings: views(self.warnings@),
        }
    }
}

/// A refinement at its start.
pub open spec fn refine_start(
    config: RawEvidenceConfig,
    max_record: u64,
    warnings: Seq<Seq<char>>,
) -> RefineView {
    RefineView { config, max_record, stage: RefineStage::Directories, entries: 0, warnings }
}

/// With one more warning, unless there are enough of its kind.
pub open spec fn warned(v: RefineView, warning: Seq<char>) -> RefineView {
    RefineView { warnings: capped_warnings(v.warnings, warning), ..v }
}

/// The journal was read, or its reading broke off; then the file that holds it is read, where
/// that is wanted and nobody asked to stop.
pub open spec fn after_journal(v: RefineView, error: Option<Seq<char>>, stop: bool) -> RefineView {
    match error {
        None => RefineView { stage: RefineStage::JournalCollected, ..v },
        Some(e) => RefineView {
            stage: if v.config.raw_usn_fallback && !stop {
                RefineStage::CollectRawJournal
            } else {
                RefineStage::JournalCollected
            },
            ..warned(v, "[raw:usn:warning] USN Journal API evidence was skipped: "@ + e)
        },
    }
}

/// The file that holds the journal was read, or its reading broke off.
pub open spec fn after_raw_journal(v: RefineView, error: Option<Seq<char>>) -> RefineView {
    let told = match error {
        None => v,
        Some(e) => warned(v, "[raw:usn:warning] Raw $UsnJrnl:$J fallback was skipped: "@ + e),
    };
    RefineView { stage: RefineStage::JournalCollected, ..told }
}

/// The text of an optional string.
pub open spec fn str_view(o: Option<&str>) -> Option<Seq<char>> {
    match o {
        Some(s) => Some(s@),
        None => None,
    }
}

/// Whether any raw evidence is asked for.
pub open spec fn wants_evidence(config: RawEvidenceConfig) -> bool {
    config.i30_enabled || config.usn_enabled
}

/// A refinement of the results of a source, where there is evidence to read: an NTFS source, and
/// one of the two sorts of evidence asked for.
pub fn refine_raw_evidence(
    source: &ScanSource,
    config: &RawEvidenceConfig,
    max_record: u64,
    warnings: Vec<String>,
) -> (r: Result<Option<RefinementRun>, RssError>)
    ensures
        if source.filesystem != crate::model::FileSystemKind::Ntfs {
            r matches Err(RssError::Message(m)) && m@ == source.display_name@
                + " is not an NTFS source"@
        } else if !wants_evidence(*config) {
            r matches Ok(None)
        } else {
            r matches Ok(Some(run)) && run@ == refine_start(
                *config,
                max_record,
                views(warnings@),
            )
        },
{
    if let Err(e) = require_ntfs(source) {
        return Err(e);
    }
    if !config.i30_enabled && !config.usn_enabled {
        return Ok(None);
    }
    Ok(
        Some(
            RefinementRun {
                config: *config,
                max_record,
                stage: RefineStage::Directories,
                entries: 0,
                warnings,
            },
        ),
    )
}

impl RefinementRun {
    fn report(&self) -> (r: Option<RefineReport>)
        ensures
            match stage_report(self@.stage, self@.max_record, self@.entries) {
                Some(report) => r matches Some(x) && x@ == report,
                None => r is None,
            },
    {
        let count: u64 = if self.max_record < ROOT_RECORD {
            0
        } else {
            self.max_record - ROOT_RECORD
        };
        match self.stage {
            RefineStage::Directories => Some(
                make_report("building_directory_map", 5, 0, Some(count), true),
            ),
            RefineStage::Merging => Some(make_report("merging_evidence", 18, 0, None, true)),
            RefineStage::Entries => Some(make_report("parsing_i30", 25, 0, Some(count), true)),
            RefineStage::EntriesCollected => Some(
                make_report("parsing_i30", 55, self.entries, None, false),
            ),
            RefineStage::Journal => Some(make_report("reading_usn", 58, 0, None, true)),
            RefineStage::JournalCollected => Some(make_report("reading_usn", 82, 0, None, false)),
            RefineStage::LastMerging => Some(make_report("merging_evidence", 90, 0, None, true)),
            _ => None,
        }
    }

    /// What is done next; at the end, with so many results.
    pub fn action(&self, results: u64) -> (r: RefineAction)
        ensures
            match self@.stage {
                RefineStage::CollectEntries => r is CollectEntries,
                RefineStage::CollectJournal => r is CollectJournal,
                RefineStage::CollectRawJournal => r is CollectRawJournal,
                RefineStage::Ended(false) => r matches RefineAction::Finish {
                    completed: false,
                    last_report: None,
                },
                RefineStage::Ended(true) => r matches RefineAction::Finish {
                    completed: true,
                    last_report: Some(last),
                } && last@ == (ReportView {
                    stage: "done"@,
                    percent: 100,
                    processed_units: results,
                    total_units: Some(results),
                    asks_for_stop: false,
                }),
                stage => r matches RefineAction::Report(report) && Some(report@) == stage_report(
                    stage,
                    self@.max_record,
                    self@.entries,
                ),
            },
    {
        match self.stage {
            RefineStage::CollectEntries => RefineAction::CollectEntries,
            RefineStage::CollectJournal => RefineAction::CollectJournal,
            RefineStage::CollectRawJournal => RefineAction::CollectRawJournal,
            RefineStage::Ended(completed) => {
                let last_report = if completed {
                    Some(make_report("done", 100, results, Some(results), false))
                } else {
                    None
                };
                RefineAction::Finish { completed, last_report }
            },
            _ => {
                match self.report() {
                    Some(report) => RefineAction::Report(report),
                    None => RefineAction::Finish { completed: false, last_report: None },
                }
            },
        }
    }

    /// Takes the answer to a report: whether the refinement goes on.
    pub fn answer(&mut self, go_on: bool)
        requires
            stage_report(old(self)@.stage, old(self)@.max_record, old(self)@.entries) is Some,
        ensures
            final(self)@ == (RefineView {
                stage: after_answer(old(self)@.stage, old(self)@.config, go_on),
                ..old(self)@
            }),
    {
        let behind: RefineStage = if self.config.usn_enabled {
            RefineStage::Journal
        } else {
            RefineStage::LastMerging
        };
        self.stage =
        if !go_on {
            RefineStage::Ended(false)
        } else {
            match self.stage {
                RefineStage::Directories => RefineStage::Merging,
                RefineStage::Merging => if self.config.i30_enabled {
                    RefineStage::Entries
                } else {
                    behind
                },
                RefineStage::Entries => RefineStage::CollectEntries,
                RefineStage::EntriesCollected => behind,
                RefineStage::Journal => RefineStage::CollectJournal,
                RefineStage::JournalCollected => RefineStage::LastMerging,
                RefineStage::LastMerging => RefineStage::Ended(true),
                other => other,
            }
        };
    }

    /// The directory indexes were read and gave so many entries, or the reading was stopped.
    pub fn entries_collected(&mut self, entries: u64, stopped: bool)
        requires
            old(self)@.stage == RefineStage::CollectEntries,
        ensures
            final(self)@ == (RefineView {
                stage: if stopped {
                    RefineStage::Ended(false)
                } else {
                    RefineStage::EntriesCollected
                },
                entries,
                ..old(self)@
            }),
    {
        self.entries = entries;
        self.stage =
        if stopped {
            RefineStage::Ended(false)
        } else {
            RefineStage::EntriesCollected
        };
    }

    /// The journal was read, or its reading broke off with an error; `stop` tells whether it was
    /// asked to stop.
    pub fn journal_collected(&mut self, error: Option<&str>, stop: bool)
        requires
            old(self)@.stage == RefineStage::CollectJournal,
        ensures
            final(self)@ == after_journal(old(self)@, str_view(error), stop),
    {
        match error {
            None => {
                self.stage = RefineStage::JournalCollected;
            },
            Some(e) => {
                self.warn(
                    concat2("[raw:usn:warning] USN Journal API evidence was skipped: ", e),
                );
                self.stage =
                if self.config.raw_usn_fallback && !stop {
                    RefineStage::CollectRawJournal
                } else {
                    RefineStage::JournalCollected
                };
            },
        }
    }

    /// The file that holds the journal was read, or its reading broke off with an error.
    pub fn raw_journal_collected(&mut self, error: Option<&str>)
        requires
            old(self)@.stage == RefineStage::CollectRawJournal,
        ensures
            final(self)@ == after_raw_journal(old(self)@, str_view(error)),
    {
        if let Some(e) = error {
            self.warn(concat2("[raw:usn:warning] Raw $UsnJrnl:$J fallback was skipped: ", e));
        }
        self.stage = RefineStage::JournalCollected;
    }

    fn warn(&mut self, warning: String)
        ensures
            final(self)@ == warned(old(self)@, warning@),
            final(self).config == old(self).config,
    {
        push_capped_warning(&mut self.warnings, warning);
    }

    /// Finds the paths of all directories, and warns where there are hardly any.
    pub fn directory_paths(&mut self, source: &ScanSource, mft: &MftIndex) -> (r: DirectoryPaths)
        ensures
            r@ == directories_upto(*source, *mft, mft.records@.len() as int).1,
            final(self)@ == if r@.len() <= 1 {
                warned(old(self)@, sparse_map_warning())
            } else {
                old(self)@
            },
    {
        build_directory_paths(source, mft, &mut self.warnings)
    }

    /// The volume could not be opened for the reads of directory indexes.
    pub fn index_not_opened(&mut self, error: &str)
        ensures
            final(self)@ == warned(
                old(self)@,
                "[raw:i30:warning] $INDEX_ALLOCATION reads were skipped: "@ + error@,
            ),
    {
        self.warn(concat2("[raw:i30:warning] $INDEX_ALLOCATION reads were skipped: ", error));
    }

    /// The index of a directory could not be read to its end.
    pub fn index_broke_off(&mut self, record_number: u64, error: &str)
        ensures
            final(self)@ == warned(
                old(self)@,
                "[raw:i30:warning] $INDEX_ALLOCATION for directory record "@ + decimal(
                    record_number as nat,
                ) + " was partially skipped: "@ + error@,
            ),
    {
        let number = decimal_string(record_number);
        self.warn(
            concat4(
                "[raw:i30:warning] $INDEX_ALLOCATION for directory record ",
                number.as_str(),
                " was partially skipped: ",
                error,
            ),
        );
    }

    /// A part of the file that holds the journal could not be read.
    pub fn journal_chunk_skipped(&mut self, error: &str)
        ensures
            final(self)@ == warned(
                old(self)@,
                "[raw:usn:warning] Raw $J read chunk was skipped: "@ + error@,
            ),
    {
        self.warn(concat2("[raw:usn:warning] Raw $J read chunk was skipped: ", error));
    }

    /// The warnings so far.
    pub fn warnings(&self) -> (r: &Vec<String>)
        ensures
            views(r@) == self@.warnings,
    {
        &self.warnings
    }
}

// ---------------------------------------------------------------------------
// Reads of runs, window by window.

/// What is still to be read of some runs.
#[verifier::ext_equal]
pub ghost struct RunsView {
    pub runs: Seq<DataRun>,
    pub consumed: u64,
    pub limit: u64,
    pub unit: u32,
}

/// The next read of the run in front: whole units of at most one window.
pub open spec fn front_read(v: RunsView) -> Option<(u64, int)> {
    if v.runs.len() == 0 {
        None
    } else {
        match v.runs[0] {
            DataRun::Sparse { length } => None,
            DataRun::Data { lcn, length } => if v.consumed < length && v.consumed < v.limit
                && index_read(length, v.consumed, v.unit as int) > 0 {
                Some(
                    (
                        if lcn + v.consumed > u64::MAX {
                            u64::MAX
                        } else {
                            (lcn + v.consumed) as u64
                        },
                        index_read(length, v.consumed, v.unit as int),
                    ),
                )
            } else {
                None
            },
        }
    }
}

/// Without the run in front.
pub open spec fn next_run(v: RunsView) -> RunsView {
    RunsView { runs: v.runs.drop_first(), consumed: 0, ..v }
}

/// The runs in front that have nothing left to read are passed over.
pub open spec fn to_next_read(v: RunsView) -> RunsView
    decreases v.runs.len(),
{
    if v.runs.len() == 0 || front_read(v) is Some {
        v
    } else {
        to_next_read(next_run(v))
    }
}

/// Reads of runs: of the index buffers of a directory, or of the file that holds the journal.
#[derive(Debug)]
pub struct RunReads {
    runs: Vec<DataRun>,
    next: usize,
    consumed: u64,
    limit: u64,
    unit: u32,
}

impl View for RunReads {
    type V = RunsView;

    closed spec fn view(&self) -> RunsView {
        RunsView {
            runs: self.runs@.subrange(self.next as int, self.runs@.len() as int),
            consumed: self.consumed,
            limit: self.limit,
            unit: self.unit,
        }
    }
}

impl RunReads {
    pub closed spec fn wf(&self) -> bool {
        self.next <= self.runs@.len() && self.unit > 0
    }

    /// Reads of whole index buffers.
    pub fn of_index(runs: Vec<DataRun>, index_buffer_size: u32) -> (r: Self)
        requires
            index_buffer_size > 0,
        ensures
            r.wf(),
            r@ == (RunsView {
                runs: runs@,
                consumed: 0,
                limit: u64::MAX,
                unit: index_buffer_size,
            }),
    {
        let r = RunReads {
            runs,
            next: 0,
            consumed: 0,
            limit: u64::MAX,
            unit: index_buffer_size,
        };
        assert(r@.runs =~= runs@);
        r
    }

    /// Reads of a file; of each run not more than the file is long.
    pub fn of_journal(runs: Vec<DataRun>, logical_size: u64) -> (r: Self)
        ensures
            r.wf(),
            r@ == (RunsView { runs: runs@, consumed: 0, limit: logical_size, unit: 1 }),
    {
        let r = RunReads { runs, next: 0, consumed: 0, limit: logical_size, unit: 1 };
        assert(r@.runs =~= runs@);
        r
    }

    /// The next read, as an offset on the volume and a number of bytes.
    pub fn next_read(&mut self) -> (r: Option<(u64, usize)>)
        requires
            old(self).wf(),
        ensures
            final(self).wf(),
            final(self)@ == to_next_read(old(self)@),
            match front_read(final(self)@) {
                Some((offset, length)) => r matches Some((o, n)) && o == offset && n == length,
                None => r is None,
            },
    {
        while self.next < self.runs.len()
            invariant
                self.wf(),
                to_next_read(self@) == to_next_read(old(self)@),
            decreases self.runs@.len() - self.next,
        {
            let ghost n = self.next as int;
            let ghost total = self.runs@.len() as int;
            proof {
                assert(self@.runs[0] == self.runs@[n]);
                assert(self@.runs.drop_first() =~= self.runs@.subrange(n + 1, total));
            }
            if let DataRun::Data { lcn, length } = self.runs[self.next] {
                if self.consumed < length && self.consumed < self.limit {
                    let wanted: usize = next_index_read(length, self.consumed, self.unit);
                    if wanted > 0 {
                        return Some((lcn.saturating_add(self.consumed), wanted));
                    }
                }
            }
            let ghost before = self@;
            self.next = self.next + 1;
            self.consumed = 0;
            assert(self@ == next_run(before));
        }
        None
    }

    /// The last read came.
    pub fn supplied(&mut self)
        requires
            old(self).wf(),
            front_read(old(self)@) is Some,
        ensures
            final(self).wf(),
            final(self)@ == (RunsView {
                consumed: (old(self)@.consumed + (front_read(old(self)@)->0).1) as u64,
                ..old(self)@
            }),
    {
        assert(self@.runs[0] == self.runs@[self.next as int]);
        if let DataRun::Data { lcn, length } = self.runs[self.next] {
            let wanted: usize = next_index_read(length, self.consumed, self.unit);
            proof {
                lemma_read_is_in_run(length, self.consumed, self.unit as int);
            }
            self.consumed = self.consumed + wanted as u64;
        }
    }

    /// The last read failed: the rest of its run is passed over.
    pub fn skip_run(&mut self)
        requires
            old(self).wf(),
            front_read(old(self)@) is Some,
        ensures
            final(self).wf(),
            final(self)@ == next_run(old(self)@),
    {
        proof {
            let n = self.next as int;
            let total = self.runs@.len() as int;
            assert(self@.runs.drop_first() =~= self.runs@.subrange(n + 1, total));
        }
        let total: usize = self.runs.len();
        assert(self.next < total);
        self.next = self.next + 1;
        self.consumed = 0;
    }
}

/// A read of whole units lies within its run.
pub proof fn lemma_read_is_in_run(length: u64, consumed: u64, unit: int)
    requires
        consumed <= length,
        unit > 0,
    ensures
        0 <= index_read(length, consumed, unit) <= length - consumed,
{
    let left = length - consumed;
    let window = if left < crate::i30::RAW_READ_WINDOW {
        left
    } else {
        crate::i30::RAW_READ_WINDOW as int
    };
    assert(0 <= window % unit <= window) by (nonlinear_arith)
        requires
            unit > 0,
            window >= 0,
    ;
}

// ---------------------------------------------------------------------------
// The journal.

/// Where in the journal the reading is.
#[verifier::ext_equal]
pub ghost struct JournalView {
    pub next: i64,
    pub end: i64,
    pub done: bool,
}

/// A reading of the journal from its first record to where its next one will stand.
#[derive(Debug)]
pub struct JournalReads {
    next: i64,
    end: i64,
    done: bool,
}

impl View for JournalReads {
    type V = JournalView;

    closed spec fn view(&self) -> JournalView {
        JournalView { next: self.next, end: self.end, done: self.done }
    }
}

/// Where a buffer says that the next one starts.
pub open spec fn follower(buffer: Seq<u8>) -> i64 {
    (le64(buffer, 0) as u64) as i64
}

/// The journal is read on from where a buffer ends, unless the buffer holds no record or does
/// not lead on.
pub open spec fn after_buffer(v: JournalView, buffer: Seq<u8>) -> JournalView {
    if buffer.len() <= 8 || follower(buffer) <= v.next {
        JournalView { done: true, ..v }
    } else {
        JournalView { next: follower(buffer), ..v }
    }
}

/// The newest form of journal records that is asked for.
pub fn newest_journal_version(supported: u16) -> (r: u16)
    ensures
        r == if supported < 3 {
            supported
        } else {
            3
        },
{
    if supported < 3 {
        supported
    } else {
        3
    }
}

impl JournalReads {
    pub fn new(first: i64, next: i64) -> (r: Self)
        ensures
            r@ == (JournalView { next: first, end: next, done: false }),
    {
        JournalReads { next: first, end: next, done: false }
    }

    /// Where the next read starts, where there is more to read.
    pub fn next_read(&self) -> (r: Option<i64>)
        ensures
            r == if !self@.done && self@.next < self@.end {
                Some(self@.next)
            } else {
                None
            },
    {
        if !self.done && self.next < self.end {
            Some(self.next)
        } else {
            None
        }
    }

    /// Takes what a read gave: where the next one starts, and records.
    pub fn supply(&mut self, buffer: &[u8]) -> (r: Vec<UsnRecordRaw>)
        ensures
            final(self)@ == after_buffer(old(self)@, buffer@),
            usn_views(r@) == if buffer@.len() <= 8 {
                seq![]
            } else {
                usn_sequence(buffer@.subrange(8, buffer@.len() as int))
            },
    {
        if buffer.len() <= 8 {
            self.done = true;
            let none: Vec<UsnRecordRaw> = Vec::new();
            assert(usn_views(none@) =~= seq![]);
            return none;
        }
        let follower: i64 = read_le64(buffer, 0) as i64;
        let records = parse_usn_record_sequence(buffer, 8);
        if follower <= self.next {
            self.done = true;
        } else {
            self.next = follower;
        }
        records
    }
}

// ---------------------------------------------------------------------------
// Laws.

/// How far a stage is from the end.
pub open spec fn stages_left(stage: RefineStage) -> nat {
    match stage {
        RefineStage::Directories => 10,
        RefineStage::Merging => 9,
        RefineStage::Entries => 8,
        RefineStage::CollectEntries => 7,
        RefineStage::EntriesCollected => 6,
        RefineStage::Journal => 5,
        RefineStage::CollectJournal => 4,
        RefineStage::CollectRawJournal => 3,
        RefineStage::JournalCollected => 2,
        RefineStage::LastMerging => 1,
        RefineStage::Ended(completed) => 0,
    }
}

/// Every answer and every collection brings a refinement nearer to its end, and nobody's wish to
/// stop is passed over: a report that is answered with a refusal ends it as not completed.
pub proof fn lemma_refinement_comes_to_its_end(
    v: RefineView,
    go_on: bool,
    error: Option<Seq<char>>,
    stop: bool,
)
    ensures
        stage_report(v.stage, v.max_record, v.entries) is Some ==> stages_left(
            after_answer(v.stage, v.config, go_on),
        ) < stages_left(v.stage),
        after_answer(v.stage, v.config, false) == RefineStage::Ended(false),
        v.stage == RefineStage::CollectJournal ==> stages_left(after_journal(v, error, stop).stage)
            < stages_left(v.stage),
        v.stage == RefineStage::CollectRawJournal ==> stages_left(
            after_raw_journal(v, error).stage,
        ) < stages_left(v.stage),
{
}

/// No read of a run reaches beyond its end, and the reads of a run follow each other.
pub proof fn lemma_reads_stay_in_their_run(v: RunsView)
    requires
        v.unit > 0,
    ensures
        match (front_read(v), v.runs[0]) {
            (Some((offset, length)), DataRun::Data { lcn, length: whole }) => {
                &&& 0 < length
                &&& v.consumed + length <= whole
                &&& length % (v.unit as int) == 0
                &&& lcn + whole <= u64::MAX ==> offset == lcn + v.consumed
            },
            _ => true,
        },
{
    if front_read(v) is Some {
        if let DataRun::Data { lcn, length } = v.runs[0] {
            lemma_read_is_in_run(length, v.consumed, v.unit as int);
            let left = length - v.consumed;
            let window = if left < crate::i30::RAW_READ_WINDOW {
                left
            } else {
                crate::i30::RAW_READ_WINDOW as int
            };
            let unit = v.unit as int;
            assert((window - window % unit) % unit == 0) by {
                vstd::arithmetic::div_mod::lemma_fundamental_div_mod(window, unit);
                vstd::arithmetic::div_mod::lemma_mod_multiples_basic(window / unit, unit);
                vstd::arithmetic::mul::lemma_mul_is_commutative(unit, window / unit);
            }
        }
    }
}

/// The journal is read onwards only.
pub proof fn lemma_journal_is_read_onwards(v: JournalView, buffer: Seq<u8>)
    ensures
        after_buffer(v, buffer).done || after_buffer(v, buffer).next > v.next,
{
}

} // verus!
