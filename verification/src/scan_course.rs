//! The order of a scan's stages: what is done next, and what follows from how it went.

use crate::model::{ArtifactRecord, FileSystemKind, ScanMode, ScanOptions, ScanSource, ScanStatus};
use crate::records::record_views;
use crate::results::{counters_of, merged, shown_order, visible};
use crate::scan_run::{
    begun, bitmap_warning, budget_of, cancelled_progress, carve_warning, carves, carving,
    entries_warning, enumerating, finished_progress, held_against, last_stage_name,
    late_bitmap_warning, loading_bitmap, no_carve_warning, pass_of, reach_kept, should_carve,
    warned, warned_of, MetadataPass, RunView, ScanExecution, ScanRun,
};
use crate::seqs::kept;
use crate::sort::stable_sorted;
use crate::text::views;
use crate::volume::VolumeBitmap;
use vstd::prelude::*;

verus! {

/// How far a scan has come.
#[derive(Debug, Clone, Copy, PartialEq, Eq, Structural)]
pub enum ScanStage {
    /// It has begun.
    Prepared,
    /// The free space is about to be read.
    LoadingBitmap,
    /// The free space is being read.
    ReadingBitmap,
    /// The deleted entries are about to be read.
    EnumeratingEntries,
    /// The deleted entries are being read.
    ReadingEntries(MetadataPass),
    /// The free space is being read, for it is about to be carved.
    ReadingLateBitmap,
    /// Free space is about to be carved.
    CarvingFreeSpace,
    /// Free space is being carved.
    ReadingFreeSpace,
    /// Everything has been read.
    Closing,
    /// It went to its end.
    Finished,
    /// It was stopped.
    Cancelled,
}

/// What is done next.
#[derive(Debug)]
pub enum ScanAction {
    /// The progress is told.
    Report,
    /// The progress is told, and whether the scan is to stop is asked.
    ReportAndAsk,
    /// The free space is read; where it is late, only for the sake of carving.
    ReadBitmap { late: bool },
    /// The deleted entries are read.
    ReadEntries { pass: MetadataPass },
    /// Free space is carved, up to so many bytes.
    Carve { budget: Option<u64> },
    /// Whether the scan is to stop is asked.
    Ask,
    /// The scan ends.
    End,
}

/// How it went.
#[derive(Debug)]
pub enum ScanEvent {
    /// The progress was told.
    Told,
    /// Whether the scan is to stop.
    Answer { stop: bool },
    BitmapLoaded { bitmap: VolumeBitmap },
    BitmapFailed { error: String },
    /// The deleted entries were read, or as many as came before the scan was stopped.
    EntriesRead { found: Vec<ArtifactRecord>, stopped: bool },
    EntriesFailed { error: String, stopped: bool },
    /// Free space was carved, or as much of it as came before the scan was stopped.
    Carved { found: Vec<ArtifactRecord>, stopped: bool },
    CarveFailed { error: String, stopped: bool },
}

/// A scan from its beginning to its end.
#[derive(Debug)]
pub struct ScanCourse {
    pub run: ScanRun,
    pub stage: ScanStage,
    pub bitmap: Option<VolumeBitmap>,
    pub results: Vec<ArtifactRecord>,
}

/// What a scan knows.
pub struct CourseView {
    pub run: RunView,
    pub stage: ScanStage,
    pub bitmap: Option<VolumeBitmap>,
    pub results: Seq<ArtifactRecord>,
}

impl View for ScanCourse {
    type V = CourseView;

    open spec fn view(&self) -> CourseView {
        CourseView {
            run: self.run@,
            stage: self.stage,
            bitmap: self.bitmap,
            results: self.results@,
        }
    }
}

/// What a scan is about, and when something happened to it.
pub struct CourseInput {
    pub source: ScanSource,
    pub options: ScanOptions,
    pub millis: u64,
    pub now: Seq<char>,
}

/// What is done at a stage.
pub open spec fn action_at(c: CourseView, options: ScanOptions) -> ScanAction {
    match c.stage {
        ScanStage::Prepared | ScanStage::EnumeratingEntries | ScanStage::CarvingFreeSpace =>
            ScanAction::Report,
        ScanStage::LoadingBitmap => ScanAction::ReportAndAsk,
        ScanStage::ReadingBitmap => ScanAction::ReadBitmap { late: false },
        ScanStage::ReadingEntries(pass) => ScanAction::ReadEntries { pass },
        ScanStage::ReadingLateBitmap => ScanAction::ReadBitmap { late: true },
        ScanStage::ReadingFreeSpace => ScanAction::Carve { budget: budget_of(c.run, options) },
        ScanStage::Closing => ScanAction::Ask,
        ScanStage::Finished | ScanStage::Cancelled => ScanAction::End,
    }
}

/// An event is the outcome of what is done at a stage.
pub open spec fn fits(stage: ScanStage, event: ScanEvent) -> bool {
    match stage {
        ScanStage::Prepared | ScanStage::EnumeratingEntries | ScanStage::CarvingFreeSpace =>
            event is Told,
        ScanStage::LoadingBitmap | ScanStage::Closing => event is Answer,
        ScanStage::ReadingBitmap | ScanStage::ReadingLateBitmap => event is BitmapLoaded
            || event is BitmapFailed,
        ScanStage::ReadingEntries(_) => event is EntriesRead || event is EntriesFailed,
        ScanStage::ReadingFreeSpace => event is Carved || event is CarveFailed,
        ScanStage::Finished | ScanStage::Cancelled => false,
    }
}

/// The scan on its way to the deleted entries.
pub open spec fn to_entries(c: CourseView, x: CourseInput) -> CourseView {
    CourseView {
        run: enumerating(c.run, x.millis, x.now),
        stage: ScanStage::EnumeratingEntries,
        ..c
    }
}

/// The scan on its way to the free space that is carved.
pub open spec fn to_carving(c: CourseView, x: CourseInput) -> CourseView {
    CourseView {
        run: carving(c.run, x.options.mode, x.millis, x.now),
        stage: ScanStage::CarvingFreeSpace,
        ..c
    }
}

/// The stage at which a scan that has read everything stands, unless it was stopped.
pub open spec fn closing(stopped: bool) -> ScanStage {
    if stopped {
        ScanStage::Cancelled
    } else {
        ScanStage::Closing
    }
}

/// The scan with the deleted entries that were found: those that are shown are kept. Where free
/// space is carved, it is read first if it is not known yet.
pub open spec fn with_entries(
    c: CourseView,
    found: Seq<ArtifactRecord>,
    stopped: bool,
    x: CourseInput,
) -> CourseView {
    let next = CourseView {
        run: reach_kept(c.run),
        results: kept(found, visible(c.run.include_low_confidence)),
        ..c
    };
    if stopped || !carves(x.source, x.options) {
        CourseView { stage: closing(stopped), ..next }
    } else if c.bitmap is None {
        CourseView { stage: ScanStage::ReadingLateBitmap, ..next }
    } else {
        to_carving(next, x)
    }
}

/// The scan after an event; one that does not belong to its stage changes nothing.
pub open spec fn step_after(c: CourseView, event: ScanEvent, x: CourseInput) -> CourseView {
    match (c.stage, event) {
        (ScanStage::Prepared, ScanEvent::Told) => CourseView {
            run: loading_bitmap(c.run, x.millis, x.now),
            stage: ScanStage::LoadingBitmap,
            ..c
        },
        (ScanStage::LoadingBitmap, ScanEvent::Answer { stop }) => if stop {
            CourseView { stage: ScanStage::Cancelled, ..c }
        } else if x.source.filesystem == FileSystemKind::Ntfs {
            CourseView { stage: ScanStage::ReadingBitmap, ..c }
        } else {
            to_entries(c, x)
        },
        (ScanStage::ReadingBitmap, ScanEvent::BitmapLoaded { bitmap }) => to_entries(
            CourseView { bitmap: Some(bitmap), ..c },
            x,
        ),
        (ScanStage::ReadingBitmap, ScanEvent::BitmapFailed { error }) => to_entries(
            CourseView { run: warned(c.run, bitmap_warning(error@)), ..c },
            x,
        ),
        (ScanStage::EnumeratingEntries, ScanEvent::Told) => {
            let pass = pass_of(x.source.filesystem);
            let told = CourseView { run: warned_of(c.run, x.source.filesystem), ..c };
            if pass == MetadataPass::Nothing {
                with_entries(told, seq![], false, x)
            } else {
                CourseView { stage: ScanStage::ReadingEntries(pass), ..told }
            }
        },
        (ScanStage::ReadingEntries(pass), ScanEvent::EntriesRead { found, stopped }) =>
            with_entries(c, found@, stopped, x),
        (ScanStage::ReadingEntries(pass), ScanEvent::EntriesFailed { error, stopped }) =>
            with_entries(
            CourseView { run: warned(c.run, entries_warning(pass, error@)), ..c },
            seq![],
            stopped,
            x,
        ),
        (ScanStage::ReadingLateBitmap, ScanEvent::BitmapLoaded { bitmap }) => to_carving(
            CourseView {
                bitmap: Some(bitmap),
                results: held_against(bitmap, x.source.filesystem, c.results),
                ..c
            },
            x,
        ),
        (ScanStage::ReadingLateBitmap, ScanEvent::BitmapFailed { error }) => CourseView {
            run: warned(warned(c.run, late_bitmap_warning(error@)), no_carve_warning()),
            stage: ScanStage::Closing,
            ..c
        },
        (ScanStage::CarvingFreeSpace, ScanEvent::Told) => CourseView {
            stage: ScanStage::ReadingFreeSpace,
            ..c
        },
        (ScanStage::ReadingFreeSpace, ScanEvent::Carved { found, stopped }) => CourseView {
            results: kept(merged(c.results, found@), visible(c.run.include_low_confidence)),
            stage: closing(stopped),
            ..c
        },
        (ScanStage::ReadingFreeSpace, ScanEvent::CarveFailed { error, stopped }) => CourseView {
            run: warned(c.run, carve_warning(error@)),
            stage: closing(stopped),
            ..c
        },
        (ScanStage::Closing, ScanEvent::Answer { stop }) => CourseView {
            stage: if stop {
                ScanStage::Cancelled
            } else {
                ScanStage::Finished
            },
            ..c
        },
        _ => c,
    }
}

/// At these stages the time of the stage before has just been noted.
pub open spec fn begins(stage: ScanStage) -> bool {
    stage == ScanStage::LoadingBitmap || stage == ScanStage::EnumeratingEntries || stage
        == ScanStage::CarvingFreeSpace
}

/// The free space that an event brings comes in order.
pub open spec fn event_ok(event: ScanEvent) -> bool {
    event matches ScanEvent::BitmapLoaded { bitmap } ==> bitmap.wf()
}

/// What a scan knows fits its stage: free space that is carved is known, and comes in order.
pub open spec fn course_ok(c: CourseView) -> bool {
    &&& c.bitmap matches Some(bitmap) ==> bitmap.wf()
    &&& c.stage == ScanStage::CarvingFreeSpace || c.stage == ScanStage::ReadingFreeSpace
        ==> c.bitmap is Some
}

/// A scan that begins.
pub fn run_scan(scan_id: &str, source: &ScanSource, options: &ScanOptions, now: &str) -> (r:
    ScanCourse)
    ensures
        course_ok(r@),
        r@ == (CourseView {
            run: begun(scan_id@, *source, *options, now@),
            stage: ScanStage::Prepared,
            bitmap: None,
            results: seq![],
        }),
{
    let r = ScanCourse {
        run: ScanRun::begin(scan_id, source, options, now),
        stage: ScanStage::Prepared,
        bitmap: None,
        results: Vec::new(),
    };
    assert(r.results@ =~= seq![]);
    r
}

impl ScanCourse {
    /// What is done next.
    pub fn action(&self, options: &ScanOptions) -> (r: ScanAction)
        ensures
            r == action_at(self@, *options),
    {
        match self.stage {
            ScanStage::Prepared | ScanStage::EnumeratingEntries | ScanStage::CarvingFreeSpace => {
                ScanAction::Report
            },
            ScanStage::LoadingBitmap => ScanAction::ReportAndAsk,
            ScanStage::ReadingBitmap => ScanAction::ReadBitmap { late: false },
            ScanStage::ReadingEntries(pass) => ScanAction::ReadEntries { pass },
            ScanStage::ReadingLateBitmap => ScanAction::ReadBitmap { late: true },
            ScanStage::ReadingFreeSpace => {
                ScanAction::Carve { budget: self.run.carve_budget(options) }
            },
            ScanStage::Closing => ScanAction::Ask,
            ScanStage::Finished | ScanStage::Cancelled => ScanAction::End,
        }
    }

    fn go_to_entries(&mut self, millis: u64, now: &str)
        ensures
            forall|x: CourseInput|
                x.millis == millis && x.now == now@ ==> final(self)@ == #[trigger] to_entries(
                    old(self)@,
                    x,
                ),
    {
        self.run.enumerate_stage(millis, now);
        self.stage = ScanStage::EnumeratingEntries;
    }

    fn go_to_carving(&mut self, mode: ScanMode, millis: u64, now: &str)
        ensures
            forall|x: CourseInput|
                x.options.mode == mode && x.millis == millis && x.now == now@ ==> final(self)@
                    == #[trigger] to_carving(old(self)@, x),
    {
        self.run.carve_stage(mode, millis, now);
        self.stage = ScanStage::CarvingFreeSpace;
    }

    fn close(&mut self, stopped: bool)
        ensures
            final(self)@ == (CourseView { stage: closing(stopped), ..old(self)@ }),
    {
        self.stage =
        if stopped {
            ScanStage::Cancelled
        } else {
            ScanStage::Closing
        };
    }

    fn take_entries(
        &mut self,
        found: Vec<ArtifactRecord>,
        stopped: bool,
        source: &ScanSource,
        options: &ScanOptions,
        millis: u64,
        now: &str,
    )
        ensures
            final(self)@ == with_entries(
                old(self)@,
                found@,
                stopped,
                (CourseInput { source: *source, options: *options, millis, now: now@ }),
            ),
    {
        self.results = self.run.metadata_finished(found);
        if stopped || !should_carve(source, options) {
            self.close(stopped);
        } else if self.bitmap.is_none() {
            self.stage = ScanStage::ReadingLateBitmap;
        } else {
            self.go_to_carving(options.mode, millis, now);
        }
    }

    /// The free space was read before it is carved: what was found is held against it.
    fn take_late_bitmap(
        &mut self,
        bitmap: VolumeBitmap,
        filesystem: FileSystemKind,
    )
        requires
            bitmap.wf(),
        ensures
            final(self)@ == (CourseView {
                bitmap: Some(bitmap),
                results: held_against(bitmap, filesystem, old(self)@.results),
                ..old(self)@
            }),
    {
        let mut found: Vec<ArtifactRecord> = Vec::new();
        std::mem::swap(&mut found, &mut self.results);
        self.results = self.run.late_bitmap(filesystem, &bitmap, found);
        self.bitmap = Some(bitmap);
    }

    fn take_carved(&mut self, carved: Vec<ArtifactRecord>)
        ensures
            final(self)@ == (CourseView {
                results: kept(
                    merged(old(self)@.results, carved@),
                    visible(old(self)@.run.include_low_confidence),
                ),
                ..old(self)@
            }),
    {
        let mut found: Vec<ArtifactRecord> = Vec::new();
        std::mem::swap(&mut found, &mut self.results);
        self.results = self.run.carve_finished(found, carved);
    }

    /// Takes how it went, with the milliseconds since the last stage began; tells whether a new
    /// stage has begun.
    pub fn next_step(
        &mut self,
        event: ScanEvent,
        source: &ScanSource,
        options: &ScanOptions,
        millis: u64,
        now: &str,
    ) -> (r: bool)
        requires
            event_ok(event),
        ensures
            final(self)@ == step_after(
                old(self)@,
                event,
                (CourseInput { source: *source, options: *options, millis, now: now@ }),
            ),
            r == (fits(old(self)@.stage, event) && begins(final(self)@.stage)),
            course_ok(old(self)@) ==> course_ok(final(self)@),
    {
        let ghost x = CourseInput { source: *source, options: *options, millis, now: now@ };
        proof {
            if course_ok(self@) {
                lemma_steps_keep_course(self@, event, x);
            }
        }
        match (self.stage, event) {
            (ScanStage::Prepared, ScanEvent::Told) => {
                self.run.load_bitmap_stage(millis, now);
                self.stage = ScanStage::LoadingBitmap;
            },
            (ScanStage::LoadingBitmap, ScanEvent::Answer { stop }) => {
                if stop {
                    self.stage = ScanStage::Cancelled;
                } else if source.filesystem == FileSystemKind::Ntfs {
                    self.stage = ScanStage::ReadingBitmap;
                } else {
                    self.go_to_entries(millis, now);
                    assert(self@ == to_entries(old(self)@, x));
                }
            },
            (ScanStage::ReadingBitmap, ScanEvent::BitmapLoaded { bitmap }) => {
                self.bitmap = Some(bitmap);
                let ghost before = self@;
                self.go_to_entries(millis, now);
                assert(self@ == to_entries(before, x));
            },
            (ScanStage::ReadingBitmap, ScanEvent::BitmapFailed { error }) => {
                self.run.bitmap_unavailable(error.as_str());
                let ghost before = self@;
                self.go_to_entries(millis, now);
                assert(self@ == to_entries(before, x));
            },
            (ScanStage::EnumeratingEntries, ScanEvent::Told) => {
                let pass = self.run.metadata_pass(source.filesystem);
                if pass == MetadataPass::Nothing {
                    let none: Vec<ArtifactRecord> = Vec::new();
                    assert(none@ =~= seq![]);
                    self.take_entries(none, false, source, options, millis, now);
                } else {
                    self.stage = ScanStage::ReadingEntries(pass);
                }
            },
            (ScanStage::ReadingEntries(_), ScanEvent::EntriesRead { found, stopped }) => {
                self.take_entries(found, stopped, source, options, millis, now);
            },
            (ScanStage::ReadingEntries(pass), ScanEvent::EntriesFailed { error, stopped }) => {
                self.run.metadata_failed(pass, error.as_str());
                let none: Vec<ArtifactRecord> = Vec::new();
                assert(none@ =~= seq![]);
                self.take_entries(none, stopped, source, options, millis, now);
            },
            (ScanStage::ReadingLateBitmap, ScanEvent::BitmapLoaded { bitmap }) => {
                self.take_late_bitmap(bitmap, source.filesystem);
                let ghost before = self@;
                self.go_to_carving(options.mode, millis, now);
                assert(self@ == to_carving(before, x));
            },
            (ScanStage::ReadingLateBitmap, ScanEvent::BitmapFailed { error }) => {
                self.run.late_bitmap_unavailable(error.as_str());
                self.run.carve_skipped();
                self.stage = ScanStage::Closing;
            },
            (ScanStage::CarvingFreeSpace, ScanEvent::Told) => {
                self.stage = ScanStage::ReadingFreeSpace;
            },
            (ScanStage::ReadingFreeSpace, ScanEvent::Carved { found, stopped }) => {
                self.take_carved(found);
                self.close(stopped);
            },
            (ScanStage::ReadingFreeSpace, ScanEvent::CarveFailed { error, stopped }) => {
                self.run.carve_failed(error.as_str());
                self.close(stopped);
            },
            (ScanStage::Closing, ScanEvent::Answer { stop }) => {
                self.stage =
                if stop {
                    ScanStage::Cancelled
                } else {
                    ScanStage::Finished
                };
            },
            _ => {
                return false;
            },
        }
        self.stage == ScanStage::LoadingBitmap || self.stage == ScanStage::EnumeratingEntries
            || self.stage == ScanStage::CarvingFreeSpace
    }

    /// What a scan that has ended found.
    pub fn end(
        self,
        source: &ScanSource,
        options: &ScanOptions,
        millis: u64,
        whole: u64,
        now: &str,
    ) -> (r: ScanExecution)
        requires
            self.stage == ScanStage::Finished || self.stage == ScanStage::Cancelled,
        ensures
            stable_sorted(self@.results, r.results@, shown_order()),
            r.progress@ == if self.stage == ScanStage::Finished {
                finished_progress(
                    self@.run,
                    record_views(r.results@),
                    last_stage_name(carves(*source, *options)),
                    millis,
                    whole,
                    now@,
                )
            } else {
                cancelled_progress(self@.run.progress, record_views(r.results@), now@)
            },
            views(r.warnings@) == self@.run.warnings,
            r.counters == counters_of(record_views(r.results@)),
            r.progress@.status == if self.stage == ScanStage::Cancelled {
                ScanStatus::Cancelled
            } else if r.warnings@.len() == 0 {
                ScanStatus::Completed
            } else {
                ScanStatus::CompletedWithWarnings
            },
    {
        if self.stage == ScanStage::Finished {
            self.run.finish(self.results, should_carve(source, options), millis, whole, now)
        } else {
            self.run.cancel(self.results, now)
        }
    }
}

// ---------------------------------------------------------------------------
// Laws.

/// An event that tells that the scan was stopped.
pub open spec fn stops(event: ScanEvent) -> bool {
    match event {
        ScanEvent::Answer { stop } => stop,
        ScanEvent::EntriesRead { stopped, .. } => stopped,
        ScanEvent::EntriesFailed { stopped, .. } => stopped,
        ScanEvent::Carved { stopped, .. } => stopped,
        ScanEvent::CarveFailed { stopped, .. } => stopped,
        _ => false,
    }
}

/// A scan is cancelled exactly where it is stopped, at whatever stage that happens.
pub proof fn lemma_stop_cancels(c: CourseView, event: ScanEvent, x: CourseInput)
    requires
        fits(c.stage, event),
    ensures
        step_after(c, event, x).stage == ScanStage::Cancelled <==> stops(event),
{
}

/// A stop that comes with what was found keeps it, and all that was found before.
pub proof fn lemma_stop_keeps_what_was_found(c: CourseView, event: ScanEvent, x: CourseInput)
    requires
        fits(c.stage, event),
        stops(event),
    ensures
        match event {
            ScanEvent::EntriesRead { found, .. } => step_after(c, event, x).results == kept(
                found@,
                visible(c.run.include_low_confidence),
            ),
            ScanEvent::EntriesFailed { .. } => step_after(c, event, x).results == Seq::<
                ArtifactRecord,
            >::empty(),
            ScanEvent::Carved { found, .. } => step_after(c, event, x).results == kept(
                merged(c.results, found@),
                visible(c.run.include_low_confidence),
            ),
            _ => step_after(c, event, x).results == c.results,
        },
{
}

/// A scan that could not read the deleted entries goes on as one that found none, with a warning
/// more.
pub proof fn lemma_failed_entries_only_warn(
    c: CourseView,
    pass: MetadataPass,
    error: String,
    none: Vec<ArtifactRecord>,
    stopped: bool,
    x: CourseInput,
)
    requires
        c.stage == ScanStage::ReadingEntries(pass),
        none@.len() == 0,
    ensures
        step_after(c, ScanEvent::EntriesFailed { error, stopped }, x) == step_after(
            CourseView { run: warned(c.run, entries_warning(pass, error@)), ..c },
            ScanEvent::EntriesRead { found: none, stopped },
            x,
        ),
{
    assert(none@ =~= seq![]);
}

/// A scan that could not read the free space in front, or could not carve it, goes on with a
/// warning more and with all that it found. Without free space nothing is carved.
pub proof fn lemma_failed_passes_only_warn(
    c: CourseView,
    error: String,
    stopped: bool,
    x: CourseInput,
)
    ensures
        c.stage == ScanStage::ReadingBitmap ==> step_after(
            c,
            ScanEvent::BitmapFailed { error },
            x,
        ) == to_entries(CourseView { run: warned(c.run, bitmap_warning(error@)), ..c }, x),
        c.stage == ScanStage::ReadingLateBitmap ==> step_after(
            c,
            ScanEvent::BitmapFailed { error },
            x,
        ) == (CourseView {
            run: warned(warned(c.run, late_bitmap_warning(error@)), no_carve_warning()),
            stage: ScanStage::Closing,
            ..c
        }),
        c.stage == ScanStage::ReadingFreeSpace ==> step_after(
            c,
            ScanEvent::CarveFailed { error, stopped },
            x,
        ) == (CourseView {
            run: warned(c.run, carve_warning(error@)),
            stage: closing(stopped),
            ..c
        }),
{
}

/// No step takes a warning back.
pub proof fn lemma_steps_keep_warnings(c: CourseView, event: ScanEvent, x: CourseInput)
    ensures
        c.run.warnings.is_prefix_of(step_after(c, event, x).run.warnings),
        step_after(c, event, x).run.include_low_confidence == c.run.include_low_confidence,
{
}

/// Every step keeps what a scan knows fit for its stage: free space is carved only where it is
/// known.
pub proof fn lemma_steps_keep_course(c: CourseView, event: ScanEvent, x: CourseInput)
    requires
        course_ok(c),
        event_ok(event),
    ensures
        course_ok(step_after(c, event, x)),
{
}

/// How many stages lie behind a stage.
pub open spec fn stages_behind(stage: ScanStage) -> nat {
    match stage {
        ScanStage::Prepared => 0,
        ScanStage::LoadingBitmap => 1,
        ScanStage::ReadingBitmap => 2,
        ScanStage::EnumeratingEntries => 3,
        ScanStage::ReadingEntries(_) => 4,
        ScanStage::ReadingLateBitmap => 5,
        ScanStage::CarvingFreeSpace => 6,
        ScanStage::ReadingFreeSpace => 7,
        ScanStage::Closing => 8,
        ScanStage::Finished | ScanStage::Cancelled => 9,
    }
}

/// Every step goes on to a later stage.
pub proof fn lemma_steps_go_on(c: CourseView, event: ScanEvent, x: CourseInput)
    requires
        fits(c.stage, event),
    ensures
        stages_behind(c.stage) < stages_behind(step_after(c, event, x).stage) <= 9,
{
}

/// The scan after a number of events, each the outcome of the step before.
pub open spec fn course_after(
    c: CourseView,
    events: Seq<ScanEvent>,
    xs: Seq<CourseInput>,
) -> CourseView
    decreases events.len(),
{
    if events.len() == 0 {
        c
    } else {
        step_after(
            course_after(c, events.drop_last(), xs.drop_last()),
            events.last(),
            xs.last(),
        )
    }
}

/// Each event belongs to the stage at which it comes.
pub open spec fn all_fit(c: CourseView, events: Seq<ScanEvent>, xs: Seq<CourseInput>) -> bool
    decreases events.len(),
{
    events.len() == 0 || all_fit(c, events.drop_last(), xs.drop_last()) && fits(
        course_after(c, events.drop_last(), xs.drop_last()).stage,
        events.last(),
    )
}

/// A scan ends after nine steps at most.
pub proof fn lemma_scan_ends(c: CourseView, events: Seq<ScanEvent>, xs: Seq<CourseInput>)
    requires
        events.len() == xs.len(),
        all_fit(c, events, xs),
    ensures
        stages_behind(c.stage) + events.len() <= stages_behind(course_after(c, events, xs).stage),
        events.len() <= 9,
    decreases events.len(),
{
    if events.len() > 0 {
        let before = course_after(c, events.drop_last(), xs.drop_last());
        lemma_scan_ends(c, events.drop_last(), xs.drop_last());
        lemma_steps_go_on(before, events.last(), xs.last());
        assert(course_after(c, events, xs) == step_after(before, events.last(), xs.last()));
    }
}

/// A scan of a volume that is not NTFS never reads the free space before the deleted entries.
pub proof fn lemma_only_ntfs_reads_bitmap_first(c: CourseView, event: ScanEvent, x: CourseInput)
    requires
        c.stage != ScanStage::ReadingBitmap,
        step_after(c, event, x).stage == ScanStage::ReadingBitmap,
    ensures
        x.source.filesystem == FileSystemKind::Ntfs,
{
}

/// A scan that carves nothing never reads free space for it.
pub proof fn lemma_no_carving_unless_wanted(c: CourseView, event: ScanEvent, x: CourseInput)
    requires
        !carves(x.source, x.options),
        stages_behind(c.stage) < 5,
        fits(c.stage, event),
    ensures
        stages_behind(step_after(c, event, x).stage) < 5 || stages_behind(
            step_after(c, event, x).stage,
        ) >= 8,
{
}

} // verus!
