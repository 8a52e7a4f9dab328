//! A scan of the master file table: what it has found, and when it reports.

use crate::model::{
    ArtifactRecord, Confidence, FileSystemKind, NameSourceKind, PathConfidence, RawEvidenceConfig,
    RawEvidenceMode, Recoverability, RssError, ScanMode, ScanSource,
};
use crate::records::record_views;
use crate::recycle_bin::{apply_recycle_bin_metadata, recycle_applied, told};
use crate::sort::{
    by_number, by_text, lemma_by_number, lemma_by_text, lemma_then_by, stable_sort_by,
    stable_sorted, str_before, strict_weak_order, then_by,
};
use crate::text::concat2;
use vstd::prelude::*;
use vstd::string::*;

verus! {

/// The first record of the file table that is no file of the file system itself.
pub const FIRST_NORMAL_RECORD: u64 = 24;

pub const FAST_PROGRESS_RECORD_INTERVAL: u64 = 262144;

pub const DEEP_PROGRESS_RECORD_INTERVAL: u64 = 16384;

pub const FAST_RESULT_BATCH_SIZE: usize = 16384;

pub const DEEP_RESULT_BATCH_SIZE: usize = 256;

pub const FAST_EMIT_INTERVAL_MILLIS: u64 = 900;

pub const DEEP_EMIT_INTERVAL_MILLIS: u64 = 300;

// ---------------------------------------------------------------------------
// When a scan reports.

/// The time between two reports, in milliseconds.
pub fn emit_interval(mode: ScanMode) -> (r: u64)
    ensures
        r == match mode {
            ScanMode::Fast => FAST_EMIT_INTERVAL_MILLIS,
            ScanMode::Deep => DEEP_EMIT_INTERVAL_MILLIS,
        },
{
    match mode {
        ScanMode::Fast => FAST_EMIT_INTERVAL_MILLIS,
        ScanMode::Deep => DEEP_EMIT_INTERVAL_MILLIS,
    }
}

pub open spec fn record_interval(mode: ScanMode) -> u64 {
    match mode {
        ScanMode::Fast => FAST_PROGRESS_RECORD_INTERVAL,
        ScanMode::Deep => DEEP_PROGRESS_RECORD_INTERVAL,
    }
}

pub fn progress_record_interval(mode: ScanMode) -> (r: u64)
    ensures
        r == record_interval(mode),
{
    match mode {
        ScanMode::Fast => FAST_PROGRESS_RECORD_INTERVAL,
        ScanMode::Deep => DEEP_PROGRESS_RECORD_INTERVAL,
    }
}

pub open spec fn batch_size(mode: ScanMode) -> usize {
    match mode {
        ScanMode::Fast => FAST_RESULT_BATCH_SIZE,
        ScanMode::Deep => DEEP_RESULT_BATCH_SIZE,
    }
}

pub fn result_batch_size(mode: ScanMode) -> (r: usize)
    ensures
        r == batch_size(mode),
{
    match mode {
        ScanMode::Fast => FAST_RESULT_BATCH_SIZE,
        ScanMode::Deep => DEEP_RESULT_BATCH_SIZE,
    }
}

/// A report is due: enough results, enough time, enough records, or the last record.
pub open spec fn report_due(
    mode: ScanMode,
    record_number: u64,
    max_record: u64,
    result_count: usize,
    reported: usize,
    interval_elapsed: bool,
) -> bool {
    result_count - reported >= batch_size(mode) || interval_elapsed || (record_number + 1)
        % (record_interval(mode) as int) == 0 || record_number + 1 == max_record
}

pub fn should_emit_progress(
    mode: ScanMode,
    record_number: u64,
    max_record: u64,
    result_count: usize,
    last_emitted_result_count: usize,
    interval_elapsed: bool,
) -> (r: bool)
    requires
        record_number < max_record,
    ensures
        r == report_due(
            mode,
            record_number,
            max_record,
            result_count,
            last_emitted_result_count,
            interval_elapsed,
        ),
{
    let new_results: usize = result_count.saturating_sub(last_emitted_result_count);
    new_results >= result_batch_size(mode) || interval_elapsed || (record_number + 1)
        % progress_record_interval(mode) == 0 || record_number + 1 == max_record
}

// ---------------------------------------------------------------------------
// The order of the results.

pub open spec fn confidence_rank(confidence: Confidence) -> int {
    match confidence {
        Confidence::High => 0,
        Confidence::Medium => 1,
        Confidence::Low => 2,
    }
}

pub fn rank_of_confidence(confidence: Confidence) -> (r: u8)
    ensures
        r == confidence_rank(confidence),
{
    match confidence {
        Confidence::High => 0,
        Confidence::Medium => 1,
        Confidence::Low => 2,
    }
}

pub open spec fn recoverability_rank(recoverability: Recoverability) -> int {
    match recoverability {
        Recoverability::Good => 0,
        Recoverability::Partial => 1,
        Recoverability::Poor => 2,
        Recoverability::Unknown => 3,
    }
}

pub fn rank_of_recoverability(recoverability: Recoverability) -> (r: u8)
    ensures
        r == recoverability_rank(recoverability),
{
    match recoverability {
        Recoverability::Good => 0,
        Recoverability::Partial => 1,
        Recoverability::Poor => 2,
        Recoverability::Unknown => 3,
    }
}

pub open spec fn path_rank(confidence: PathConfidence) -> int {
    match confidence {
        PathConfidence::Exact => 0,
        PathConfidence::Reconstructed => 1,
        PathConfidence::Partial => 2,
        PathConfidence::Unknown => 3,
    }
}

pub fn path_confidence_rank(record: &ArtifactRecord) -> (r: u8)
    ensures
        r == path_rank(record.path_confidence),
{
    match record.path_confidence {
        PathConfidence::Exact => 0,
        PathConfidence::Reconstructed => 1,
        PathConfidence::Partial => 2,
        PathConfidence::Unknown => 3,
    }
}

pub open spec fn source_rank(source: NameSourceKind) -> int {
    match source {
        NameSourceKind::LongName => 0,
        NameSourceKind::Reconstructed => 1,
        NameSourceKind::DosName => 2,
        NameSourceKind::Generated => 3,
    }
}

pub fn name_source_rank(record: &ArtifactRecord) -> (r: u8)
    ensures
        r == source_rank(record.name_source),
{
    match record.name_source {
        NameSourceKind::LongName => 0,
        NameSourceKind::Reconstructed => 1,
        NameSourceKind::DosName => 2,
        NameSourceKind::Generated => 3,
    }
}

pub open spec fn missing_rank<T>(o: Option<T>) -> int {
    if o is Some {
        0
    } else {
        1
    }
}

/// The higher score first, then the surer record, the surer path, the better name, those with
/// times, the more that can be recovered, and the name.
pub open spec fn result_order() -> spec_fn(ArtifactRecord, ArtifactRecord) -> bool {
    then_by(
        by_number(|r: ArtifactRecord| -(r.priority_score as int)),
        then_by(
            by_number(|r: ArtifactRecord| confidence_rank(r.confidence)),
            then_by(
                by_number(|r: ArtifactRecord| path_rank(r.path_confidence)),
                then_by(
                    by_number(|r: ArtifactRecord| source_rank(r.name_source)),
                    times_then_name(),
                ),
            ),
        ),
    )
}

pub open spec fn times_then_name() -> spec_fn(ArtifactRecord, ArtifactRecord) -> bool {
    then_by(
        by_number(|r: ArtifactRecord| missing_rank(r.created_at)),
        then_by(
            by_number(|r: ArtifactRecord| missing_rank(r.modified_at)),
            then_by(
                by_number(|r: ArtifactRecord| recoverability_rank(r.recoverability)),
                by_text(|r: ArtifactRecord| r.name@),
            ),
        ),
    )
}

pub proof fn lemma_result_order()
    ensures
        strict_weak_order(result_order()),
{
    let score = by_number(|r: ArtifactRecord| -(r.priority_score as int));
    let sure = by_number(|r: ArtifactRecord| confidence_rank(r.confidence));
    let path = by_number(|r: ArtifactRecord| path_rank(r.path_confidence));
    let source = by_number(|r: ArtifactRecord| source_rank(r.name_source));
    let created = by_number(|r: ArtifactRecord| missing_rank(r.created_at));
    let modified = by_number(|r: ArtifactRecord| missing_rank(r.modified_at));
    let recoverable = by_number(|r: ArtifactRecord| recoverability_rank(r.recoverability));
    let name = by_text(|r: ArtifactRecord| r.name@);
    lemma_by_number(|r: ArtifactRecord| -(r.priority_score as int));
    lemma_by_number(|r: ArtifactRecord| confidence_rank(r.confidence));
    lemma_by_number(|r: ArtifactRecord| path_rank(r.path_confidence));
    lemma_by_number(|r: ArtifactRecord| source_rank(r.name_source));
    lemma_by_number(|r: ArtifactRecord| missing_rank(r.created_at));
    lemma_by_number(|r: ArtifactRecord| missing_rank(r.modified_at));
    lemma_by_number(|r: ArtifactRecord| recoverability_rank(r.recoverability));
    lemma_by_text(|r: ArtifactRecord| r.name@);
    lemma_then_by(recoverable, name);
    lemma_then_by(modified, then_by(recoverable, name));
    lemma_then_by(created, then_by(modified, then_by(recoverable, name)));
    let rest = times_then_name();
    lemma_then_by(source, rest);
    lemma_then_by(path, then_by(source, rest));
    lemma_then_by(sure, then_by(path, then_by(source, rest)));
    lemma_then_by(score, then_by(sure, then_by(path, then_by(source, rest))));
}

fn times_and_name_before(a: &ArtifactRecord, b: &ArtifactRecord) -> (r: bool)
    ensures
        r == times_then_name()(*a, *b),
{
    if a.created_at.is_some() != b.created_at.is_some() {
        return a.created_at.is_some();
    }
    if a.modified_at.is_some() != b.modified_at.is_some() {
        return a.modified_at.is_some();
    }
    let left: u8 = rank_of_recoverability(a.recoverability);
    let right: u8 = rank_of_recoverability(b.recoverability);
    if left != right {
        return left < right;
    }
    str_before(a.name.as_str(), b.name.as_str())
}

/// Whether one result is shown before another.
pub fn result_before(a: &ArtifactRecord, b: &ArtifactRecord) -> (r: bool)
    ensures
        r == result_order()(*a, *b),
{
    if a.priority_score != b.priority_score {
        return a.priority_score > b.priority_score;
    }
    let left: u8 = rank_of_confidence(a.confidence);
    let right: u8 = rank_of_confidence(b.confidence);
    if left != right {
        return left < right;
    }
    let left: u8 = path_confidence_rank(a);
    let right: u8 = path_confidence_rank(b);
    if left != right {
        return left < right;
    }
    let left: u8 = name_source_rank(a);
    let right: u8 = name_source_rank(b);
    if left != right {
        return left < right;
    }
    times_and_name_before(a, b)
}

/// Puts the results in the order in which they are shown.
pub fn sort_results(results: Vec<ArtifactRecord>) -> (r: Vec<ArtifactRecord>)
    ensures
        stable_sorted(results@, r@, result_order()),
{
    let before = |a: &ArtifactRecord, b: &ArtifactRecord| -> (r: bool)
        ensures
            r == result_order()(*a, *b),
        { result_before(a, b) };
    proof {
        lemma_result_order();
    }
    stable_sort_by(results, before, Ghost(result_order()))
}

// ---------------------------------------------------------------------------
// The scan.

/// A report of a scan: how far it is, and which results are new.
#[derive(Debug, Clone, Copy, PartialEq, Eq, Structural)]
pub struct ScanReport {
    pub processed: u64,
    pub total: u64,
    pub found: usize,
    pub new_from: usize,
}

/// A scan of the file table.
#[derive(Debug)]
pub struct NtfsScan {
    mode: ScanMode,
    max_record: u64,
    results: Vec<ArtifactRecord>,
    reported: usize,
}

/// Only an NTFS source has a master file table.
pub fn require_ntfs(source: &ScanSource) -> (r: Result<(), RssError>)
    ensures
        if source.filesystem == FileSystemKind::Ntfs {
            r is Ok
        } else {
            r matches Err(RssError::Message(m)) && m@ == source.display_name@
                + " is not an NTFS source"@
        },
{
    if source.filesystem == FileSystemKind::Ntfs {
        Ok(())
    } else {
        Err(
            RssError::Message(
                concat2(source.display_name.as_str(), " is not an NTFS source"),
            ),
        )
    }
}

impl NtfsScan {
    pub closed spec fn mode(&self) -> ScanMode {
        self.mode
    }

    pub closed spec fn max_record(&self) -> u64 {
        self.max_record
    }

    /// What has been found.
    pub closed spec fn results(&self) -> Seq<ArtifactRecord> {
        self.results@
    }

    /// How many results have been reported.
    pub closed spec fn reported(&self) -> usize {
        self.reported
    }

    pub closed spec fn wf(&self) -> bool {
        self.reported <= self.results@.len()
    }

    /// A scan that has found nothing yet.
    pub fn new(mode: ScanMode, max_record: u64) -> (r: Self)
        ensures
            r.wf(),
            r.mode() == mode,
            r.max_record() == max_record,
            r.results() == Seq::<ArtifactRecord>::empty(),
            r.reported() == 0,
    {
        NtfsScan { mode, max_record, results: Vec::new(), reported: 0 }
    }

    /// Goes past a record, with what it gave. A report that is due covers every result since
    /// the last one.
    pub fn scan_deleted_entries(
        &mut self,
        record_number: u64,
        found: Option<ArtifactRecord>,
        interval_elapsed: bool,
    ) -> (r: Option<ScanReport>)
        requires
            old(self).wf(),
            record_number < old(self).max_record(),
        ensures
            final(self).wf(),
            final(self).mode() == old(self).mode(),
            final(self).max_record() == old(self).max_record(),
            final(self).results() == match found {
                Some(record) => old(self).results().push(record),
                None => old(self).results(),
            },
            ({
                let count = final(self).results().len();
                if report_due(
                    old(self).mode(),
                    record_number,
                    old(self).max_record(),
                    count as usize,
                    old(self).reported(),
                    interval_elapsed,
                ) {
                    &&& r matches Some(report)
                    &&& report.processed == record_number + 1
                    &&& report.total == old(self).max_record()
                    &&& report.found == count
                    &&& report.new_from == old(self).reported()
                    &&& final(self).reported() == count
                } else {
                    r is None && final(self).reported() == old(self).reported()
                }
            }),
    {
        if let Some(record) = found {
            self.results.push(record);
        }
        let count: usize = self.results.len();
        if should_emit_progress(
            self.mode,
            record_number,
            self.max_record,
            count,
            self.reported,
            interval_elapsed,
        ) {
            let report = ScanReport {
                processed: record_number + 1,
                total: self.max_record,
                found: count,
                new_from: self.reported,
            };
            self.reported = count;
            Some(report)
        } else {
            None
        }
    }

    /// The last report, where results are left to be reported.
    pub fn last_report(&mut self) -> (r: Option<ScanReport>)
        requires
            old(self).wf(),
        ensures
            final(self).wf(),
            final(self).mode() == old(self).mode(),
            final(self).max_record() == old(self).max_record(),
            final(self).results() == old(self).results(),
            final(self).reported() == old(self).results().len(),
            if old(self).reported() < old(self).results().len() {
                &&& r matches Some(report)
                &&& report.processed == old(self).max_record()
                &&& report.total == old(self).max_record()
                &&& report.found == old(self).results().len()
                &&& report.new_from == old(self).reported()
            } else {
                r is None
            },
    {
        let count: usize = self.results.len();
        if self.reported < count {
            let report = ScanReport {
                processed: self.max_record,
                total: self.max_record,
                found: count,
                new_from: self.reported,
            };
            self.reported = count;
            Some(report)
        } else {
            None
        }
    }

    /// What has been found so far.
    pub fn found(&self) -> (r: &Vec<ArtifactRecord>)
        ensures
            r@ == self.results(),
    {
        &self.results
    }

    /// Ends a scan that was stopped: what was found stays as it was found.
    pub fn stop(self) -> (r: Vec<ArtifactRecord>)
        ensures
            r@ == self.results(),
    {
        self.results
    }

    /// Ends a scan that went to its end: the recycle bin is read.
    pub fn finish(self) -> (r: Vec<ArtifactRecord>)
        ensures
            r@.len() == self.results().len(),
            forall|i: int|
                0 <= i < r@.len() ==> #[trigger] r@[i]@ == recycle_applied(
                    self.results()[i]@,
                    told(record_views(self.results())),
                ),
    {
        let mut results = self.results;
        apply_recycle_bin_metadata(&mut results);
        results
    }
}

/// Whether a scan goes on to refine the paths it found.
pub fn wants_raw_evidence(config: &RawEvidenceConfig) -> (r: bool)
    ensures
        r == (config.mode != RawEvidenceMode::ManualDeep && (config.i30_enabled
            || config.usn_enabled)),
{
    config.mode != RawEvidenceMode::ManualDeep && (config.i30_enabled || config.usn_enabled)
}

/// Puts records that were looked up one by one in the order in which they are shown.
pub fn inspect_deleted_records(found: Vec<ArtifactRecord>) -> (r: Vec<ArtifactRecord>)
    ensures
        exists|named: Seq<ArtifactRecord>|
            {
                &&& #[trigger] stable_sorted(named, r@, result_order())
                &&& named.len() == found@.len()
                &&& forall|i: int|
                    0 <= i < named.len() ==> (#[trigger] named[i])@ == recycle_applied(
                        found@[i]@,
                        told(record_views(found@)),
                    )
            },
{
    let mut results = found;
    apply_recycle_bin_metadata(&mut results);
    sort_results(results)
}

} // verus!
