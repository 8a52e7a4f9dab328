//! Previews of deleted files and of live entries, as text, as hexadecimal rows, or as the
//! members of an archive.

use crate::archive::{
    archive_listing, archive_warnings, build_archive_preview_from_bytes, member_views, ListingView,
    MemberView, PreviewArchiveListing,
};
use crate::model::{
    clone_preview_facts, message_of, ArchivePreviewEntry, ArtifactKind, ArtifactPreviewMode,
    ArtifactPreviewRequest, ArtifactPreviewResponse, ArtifactRecord, ContentPreviewRequest,
    ContentPreviewResponse, HexPreviewRow, PreviewFact, RssError, SourceEntry,
};
use crate::numbers::{decimal, push_decimal};
use crate::preview_reads::{
    bytes_result, describe_live_entry_read_error, entry_facts, entry_kind, entry_kind_of,
    large_or_protected, over_budget, over_budget_of, read_error, should_force_chunked_hex_preview,
    source_entry_summary,
};
use crate::preview_text::{
    build_hex_rows, decode_text_excerpt, hex_row_views, hex_rows, text_of, HexRowView,
};
use crate::records::{fact_views, FactView};
use crate::text::{concat3, opt_view, owned, views};
use vstd::prelude::*;
use vstd::string::*;

verus! {

/// The largest archive that is listed.
pub const MAX_ARCHIVE_PREVIEW_BYTES: u64 = 67108864;

/// The most members that a preview lists.
pub const MAX_ARCHIVE_ENTRIES: usize = 4096;

/// How a kind of file is shown where no mode is asked for.
pub open spec fn preferred_mode(kind: ArtifactKind) -> ArtifactPreviewMode {
    match kind {
        ArtifactKind::Txt
        | ArtifactKind::Log
        | ArtifactKind::Ini
        | ArtifactKind::Cfg
        | ArtifactKind::Json
        | ArtifactKind::Yml
        | ArtifactKind::Yaml
        | ArtifactKind::Bat
        | ArtifactKind::Cmd
        | ArtifactKind::Ps1
        | ArtifactKind::Vbs
        | ArtifactKind::Js => ArtifactPreviewMode::Text,
        ArtifactKind::Zip
        | ArtifactKind::Jar
        | ArtifactKind::Apk
        | ArtifactKind::Tar
        | ArtifactKind::Gzip
        | ArtifactKind::Bzip2
        | ArtifactKind::Xz
        | ArtifactKind::Msi
        | ArtifactKind::OleCompound
        | ArtifactKind::Rar
        | ArtifactKind::SevenZip
        | ArtifactKind::Cab
        | ArtifactKind::Iso => ArtifactPreviewMode::Archive,
        _ => ArtifactPreviewMode::Hex,
    }
}

pub fn preferred_preview_mode(kind: ArtifactKind) -> (r: ArtifactPreviewMode)
    ensures
        r == preferred_mode(kind),
{
    match kind {
        ArtifactKind::Txt
        | ArtifactKind::Log
        | ArtifactKind::Ini
        | ArtifactKind::Cfg
        | ArtifactKind::Json
        | ArtifactKind::Yml
        | ArtifactKind::Yaml
        | ArtifactKind::Bat
        | ArtifactKind::Cmd
        | ArtifactKind::Ps1
        | ArtifactKind::Vbs
        | ArtifactKind::Js => ArtifactPreviewMode::Text,
        ArtifactKind::Zip
        | ArtifactKind::Jar
        | ArtifactKind::Apk
        | ArtifactKind::Tar
        | ArtifactKind::Gzip
        | ArtifactKind::Bzip2
        | ArtifactKind::Xz
        | ArtifactKind::Msi
        | ArtifactKind::OleCompound
        | ArtifactKind::Rar
        | ArtifactKind::SevenZip
        | ArtifactKind::Cab
        | ArtifactKind::Iso => ArtifactPreviewMode::Archive,
        _ => ArtifactPreviewMode::Hex,
    }
}

// ---------------------------------------------------------------------------
// What a preview shows.

/// A preview, whatever it is of.
#[derive(Debug)]
pub struct Preview {
    pub requested_mode: ArtifactPreviewMode,
    pub resolved_mode: ArtifactPreviewMode,
    pub offset: u64,
    pub length: u64,
    pub total_size: u64,
    pub has_more: bool,
    pub warnings: Vec<String>,
    pub summary: Vec<PreviewFact>,
    pub text_excerpt: Option<String>,
    pub hex_rows: Vec<HexPreviewRow>,
    pub archive_entry_count: Option<usize>,
    pub archive_entries_truncated: bool,
    pub archive_entries: Vec<ArchivePreviewEntry>,
}

/// What a preview says.
#[verifier::ext_equal]
pub ghost struct PreviewView {
    pub requested_mode: ArtifactPreviewMode,
    pub resolved_mode: ArtifactPreviewMode,
    pub offset: u64,
    pub length: u64,
    pub total_size: u64,
    pub has_more: bool,
    pub warnings: Seq<Seq<char>>,
    pub summary: Seq<FactView>,
    pub text: Option<Seq<char>>,
    pub rows: Seq<HexRowView>,
    pub entry_count: Option<usize>,
    pub truncated: bool,
    pub entries: Seq<MemberView>,
}

impl View for Preview {
    type V = PreviewView;

    open spec fn view(&self) -> PreviewView {
        PreviewView {
            requested_mode: self.requested_mode,
            resolved_mode: self.resolved_mode,
            offset: self.offset,
            length: self.length,
            total_size: self.total_size,
            has_more: self.has_more,
            warnings: views(self.warnings@),
            summary: fact_views(self.summary@),
            text: opt_view(self.text_excerpt),
            rows: hex_row_views(self.hex_rows@),
            entry_count: self.archive_entry_count,
            truncated: self.archive_entries_truncated,
            entries: member_views(self.archive_entries@),
        }
    }
}

/// What the preview of a deleted file says.
pub open spec fn artifact_response(r: ArtifactPreviewResponse) -> (Seq<char>, PreviewView) {
    (
        r.artifact_id@,
        PreviewView {
            requested_mode: r.requested_mode,
            resolved_mode: r.resolved_mode,
            offset: r.offset,
            length: r.length,
            total_size: r.total_size,
            has_more: r.has_more,
            warnings: views(r.warnings@),
            summary: fact_views(r.summary@),
            text: opt_view(r.text_excerpt),
            rows: hex_row_views(r.hex_rows@),
            entry_count: r.archive_entry_count,
            truncated: r.archive_entries_truncated,
            entries: member_views(r.archive_entries@),
        },
    )
}

/// What the preview of a live entry says.
pub open spec fn content_response(r: ContentPreviewResponse) -> (Seq<char>, PreviewView) {
    (
        r.target_key@,
        PreviewView {
            requested_mode: r.requested_mode,
            resolved_mode: r.resolved_mode,
            offset: r.offset,
            length: r.length,
            total_size: r.total_size,
            has_more: r.has_more,
            warnings: views(r.warnings@),
            summary: fact_views(r.summary@),
            text: opt_view(r.text_excerpt),
            rows: hex_row_views(r.hex_rows@),
            entry_count: r.archive_entry_count,
            truncated: r.archive_entries_truncated,
            entries: member_views(r.archive_entries@),
        },
    )
}

impl Preview {
    /// The preview of a deleted file.
    pub fn of_artifact(self, artifact_id: &str) -> (r: ArtifactPreviewResponse)
        ensures
            artifact_response(r) == (artifact_id@, self@),
    {
        ArtifactPreviewResponse {
            artifact_id: owned(artifact_id),
            requested_mode: self.requested_mode,
            resolved_mode: self.resolved_mode,
            offset: self.offset,
            length: self.length,
            total_size: self.total_size,
            has_more: self.has_more,
            warnings: self.warnings,
            summary: self.summary,
            text_excerpt: self.text_excerpt,
            hex_rows: self.hex_rows,
            archive_entry_count: self.archive_entry_count,
            archive_entries_truncated: self.archive_entries_truncated,
            archive_entries: self.archive_entries,
        }
    }

    /// The preview of a live entry.
    pub fn of_entry(self, target_key: &str) -> (r: ContentPreviewResponse)
        ensures
            content_response(r) == (target_key@, self@),
    {
        ContentPreviewResponse {
            target_key: owned(target_key),
            requested_mode: self.requested_mode,
            resolved_mode: self.resolved_mode,
            offset: self.offset,
            length: self.length,
            total_size: self.total_size,
            has_more: self.has_more,
            warnings: self.warnings,
            summary: self.summary,
            text_excerpt: self.text_excerpt,
            hex_rows: self.hex_rows,
            archive_entry_count: self.archive_entry_count,
            archive_entries_truncated: self.archive_entries_truncated,
            archive_entries: self.archive_entries,
        }
    }
}

// ---------------------------------------------------------------------------
// What is to be read for a preview.

/// What the bytes of the next read are for: the members of an archive, a text, hexadecimal
/// rows, or rows in place of what could not be shown.
#[derive(Debug, Clone, Copy, PartialEq, Eq, Structural)]
pub enum PreviewStage {
    Archive,
    Text,
    Hex,
    Fallback,
}

/// A preview that waits for bytes.
#[derive(Debug)]
pub struct PreviewPlan {
    pub requested_mode: ArtifactPreviewMode,
    pub stage: PreviewStage,
    pub offset: u64,
    pub length: u64,
    pub total_size: u64,
    pub max_entries: usize,
    pub warnings: Vec<String>,
    pub summary: Vec<PreviewFact>,
}

/// What a plan says.
#[verifier::ext_equal]
pub ghost struct PlannedPreview {
    pub requested_mode: ArtifactPreviewMode,
    pub stage: PreviewStage,
    pub offset: u64,
    pub length: u64,
    pub total_size: u64,
    pub max_entries: usize,
    pub warnings: Seq<Seq<char>>,
    pub summary: Seq<FactView>,
}

impl View for PreviewPlan {
    type V = PlannedPreview;

    open spec fn view(&self) -> PlannedPreview {
        PlannedPreview {
            requested_mode: self.requested_mode,
            stage: self.stage,
            offset: self.offset,
            length: self.length,
            total_size: self.total_size,
            max_entries: self.max_entries,
            warnings: views(self.warnings@),
            summary: fact_views(self.summary@),
        }
    }
}

/// The range that the next read is to give.
pub open spec fn next_range(plan: PlannedPreview) -> (u64, u64) {
    if plan.stage == PreviewStage::Archive {
        (0, plan.total_size)
    } else {
        (plan.offset, plan.length)
    }
}

/// A window within a file.
pub open spec fn in_file(plan: PlannedPreview) -> bool {
    plan.offset + plan.length <= plan.total_size
}

/// A read that gave no more than was asked for.
pub open spec fn fits_plan(plan: PlannedPreview, read: Result<Seq<u8>, Seq<char>>) -> bool {
    match read {
        Ok(bytes) => bytes.len() <= next_range(plan).1,
        Err(_) => true,
    }
}

impl PreviewPlan {
    /// The range that the next read is to give: its offset and its length.
    pub fn next_read(&self) -> (r: (u64, u64))
        ensures
            r == next_range(self@),
    {
        if self.stage == PreviewStage::Archive {
            (0, self.total_size)
        } else {
            (self.offset, self.length)
        }
    }
}

/// How many bytes a window has.
pub open spec fn window_length(length: Option<u64>) -> u64 {
    match length {
        Some(n) => if n < 256 {
            256
        } else if n > 65536 {
            65536
        } else {
            n
        },
        None => 4096,
    }
}

pub open spec fn smaller(a: u64, b: u64) -> u64 {
    if a < b {
        a
    } else {
        b
    }
}

/// A window of a file: where it starts, and how many bytes of it lie within the file.
pub open spec fn window_of(offset: u64, length: u64, total: u64) -> (u64, u64) {
    let start = smaller(offset, total);
    (start, smaller(length, (total - start) as u64))
}

pub open spec fn entry_limit(max_entries: Option<usize>) -> usize {
    match max_entries {
        Some(n) => if n < 1 {
            1
        } else if n > MAX_ARCHIVE_ENTRIES {
            MAX_ARCHIVE_ENTRIES
        } else {
            n
        },
        None => MAX_ARCHIVE_ENTRIES,
    }
}

/// Where a requested window starts in a file, and how long it is.
pub fn clamp_window(offset: u64, length: u64, total_size: u64) -> (r: (u64, u64))
    ensures
        r == window_of(offset, length, total_size),
        r.0 + r.1 <= total_size,
{
    let start: u64 = if offset < total_size {
        offset
    } else {
        total_size
    };
    let left: u64 = total_size - start;
    (
        start,
        if length < left {
            length
        } else {
            left
        },
    )
}

fn window_length_of(length: Option<u64>) -> (r: u64)
    ensures
        r == window_length(length),
{
    match length {
        Some(n) => if n < 256 {
            256
        } else if n > 65536 {
            65536
        } else {
            n
        },
        None => 4096,
    }
}

fn entry_limit_of(max_entries: Option<usize>) -> (r: usize)
    ensures
        r == entry_limit(max_entries),
{
    match max_entries {
        Some(n) => if n < 1 {
            1
        } else if n > MAX_ARCHIVE_ENTRIES {
            MAX_ARCHIVE_ENTRIES
        } else {
            n
        },
        None => MAX_ARCHIVE_ENTRIES,
    }
}

pub open spec fn zero_if_none(n: Option<u64>) -> u64 {
    match n {
        Some(v) => v,
        None => 0,
    }
}

/// The mode that a request resolves to.
pub open spec fn mode_or(mode: ArtifactPreviewMode, preferred: ArtifactPreviewMode) -> ArtifactPreviewMode {
    if mode == ArtifactPreviewMode::Auto {
        preferred
    } else {
        mode
    }
}

/// The stage for a mode.
pub open spec fn stage_of(mode: ArtifactPreviewMode) -> PreviewStage {
    match mode {
        ArtifactPreviewMode::Archive => PreviewStage::Archive,
        ArtifactPreviewMode::Text => PreviewStage::Text,
        _ => PreviewStage::Hex,
    }
}

fn stage_for(mode: ArtifactPreviewMode) -> (r: PreviewStage)
    ensures
        r == stage_of(mode),
{
    match mode {
        ArtifactPreviewMode::Archive => PreviewStage::Archive,
        ArtifactPreviewMode::Text => PreviewStage::Text,
        _ => PreviewStage::Hex,
    }
}

/// That an archive is too large to be listed unasked.
pub open spec fn auto_limit_warning() -> Seq<char> {
    "Archive auto-preview is limited to "@ + decimal(MAX_ARCHIVE_PREVIEW_BYTES as nat)
        + " bytes; falling back to hex view."@
}

fn auto_limit_warning_of() -> (r: String)
    ensures
        r@ == auto_limit_warning(),
{
    let mut message = owned("Archive auto-preview is limited to ");
    push_decimal(&mut message, MAX_ARCHIVE_PREVIEW_BYTES);
    message.append(" bytes; falling back to hex view.");
    message
}

/// The preview of a deleted file before any read: an archive that is too large is shown in
/// rows.
pub open spec fn artifact_plan(
    kind: ArtifactKind,
    size: u64,
    facts: Seq<FactView>,
    mode: ArtifactPreviewMode,
    offset: Option<u64>,
    length: Option<u64>,
    max_entries: Option<usize>,
) -> PlannedPreview {
    let w = window_of(zero_if_none(offset), window_length(length), size);
    let stage = stage_of(mode_or(mode, preferred_mode(kind)));
    let too_large = stage == PreviewStage::Archive && size > MAX_ARCHIVE_PREVIEW_BYTES;
    PlannedPreview {
        requested_mode: mode,
        stage: if too_large {
            PreviewStage::Hex
        } else {
            stage
        },
        offset: w.0,
        length: w.1,
        total_size: size,
        max_entries: entry_limit(max_entries),
        warnings: if !too_large {
            seq![]
        } else if mode == ArtifactPreviewMode::Auto {
            seq![auto_limit_warning()]
        } else {
            seq![
                over_budget("Artifact is "@, size, "preview"@, MAX_ARCHIVE_PREVIEW_BYTES),
            ]
        },
        summary: facts,
    }
}

/// How the preview of a deleted file starts.
pub fn plan_preview(artifact: &ArtifactRecord, request: &ArtifactPreviewRequest) -> (r: PreviewPlan)
    ensures
        r@ == artifact_plan(
            artifact.kind,
            artifact.size,
            fact_views(artifact.preview@),
            request.mode,
            request.offset,
            request.length,
            request.max_entries,
        ),
        in_file(r@),
{
    let offset: u64 = match request.offset {
        Some(n) => n,
        None => 0,
    };
    let (start, length) = clamp_window(offset, window_length_of(request.length), artifact.size);
    let mode = if request.mode == ArtifactPreviewMode::Auto {
        preferred_preview_mode(artifact.kind)
    } else {
        request.mode
    };
    let mut stage = stage_for(mode);
    let mut warnings: Vec<String> = Vec::new();
    assert(views(warnings@) =~= seq![]);
    if stage == PreviewStage::Archive && artifact.size > MAX_ARCHIVE_PREVIEW_BYTES {
        stage = PreviewStage::Hex;
        let warning = if request.mode == ArtifactPreviewMode::Auto {
            auto_limit_warning_of()
        } else {
            over_budget_of("Artifact is ", artifact.size, "preview", MAX_ARCHIVE_PREVIEW_BYTES)
        };
        let ghost said = warning@;
        warnings.push(warning);
        assert(views(warnings@) =~= seq![said]);
    }
    let summary = clone_preview_facts(&artifact.preview);
    assert(fact_views(summary@) =~= fact_views(artifact.preview@));
    PreviewPlan {
        requested_mode: request.mode,
        stage,
        offset: start,
        length,
        total_size: artifact.size,
        max_entries: entry_limit_of(request.max_entries),
        warnings,
        summary,
    }
}

// ---------------------------------------------------------------------------
// What a read makes of a plan.

/// What follows from a read: a preview, a refusal, or another read.
#[derive(Debug)]
pub enum PreviewStep {
    Done(Result<Preview, RssError>),
    Read(PreviewPlan),
}

/// What a step says.
pub ghost enum StepView {
    Shown(PreviewView),
    Refused(Seq<char>),
    Read(PlannedPreview),
}

pub open spec fn step_view(step: PreviewStep) -> StepView {
    match step {
        PreviewStep::Done(Ok(preview)) => StepView::Shown(preview@),
        PreviewStep::Done(Err(e)) => StepView::Refused(message_of(e)),
        PreviewStep::Read(plan) => StepView::Read(plan@),
    }
}

/// More of the file lies behind what a read gave.
pub open spec fn more_behind(plan: PlannedPreview, n: int) -> bool {
    plan.offset + n < plan.total_size
}

/// The window of a plan, shown in a mode.
pub open spec fn window_shown(
    plan: PlannedPreview,
    mode: ArtifactPreviewMode,
    bytes: Seq<u8>,
    text: Option<Seq<char>>,
    rows: Seq<HexRowView>,
) -> PreviewView {
    PreviewView {
        requested_mode: plan.requested_mode,
        resolved_mode: mode,
        offset: plan.offset,
        length: bytes.len() as u64,
        total_size: plan.total_size,
        has_more: more_behind(plan, bytes.len() as int),
        warnings: plan.warnings,
        summary: plan.summary,
        text,
        rows,
        entry_count: None,
        truncated: false,
        entries: seq![],
    }
}

pub open spec fn text_shown(plan: PlannedPreview, bytes: Seq<u8>, text: Seq<char>) -> PreviewView {
    window_shown(plan, ArtifactPreviewMode::Text, bytes, Some(text), seq![])
}

pub open spec fn rows_shown(plan: PlannedPreview, bytes: Seq<u8>) -> PreviewView {
    window_shown(plan, ArtifactPreviewMode::Hex, bytes, None, hex_rows(plan.offset, bytes))
}

/// That a listing does not show all members.
pub open spec fn truncation_warning(listing: ListingView) -> Seq<Seq<char>> {
    if !listing.truncated {
        seq![]
    } else {
        seq![
            match listing.total_entries {
                Some(total) => "Showing the first "@ + decimal(listing.entries.len()) + " of "@
                    + decimal(total as nat) + " archive entries."@,
                None => "Showing the first "@ + decimal(listing.entries.len())
                    + " recovered archive entries."@,
            },
        ]
    }
}

/// The members of an archive, shown.
pub open spec fn members_shown(
    plan: PlannedPreview,
    listing: ListingView,
    warnings: Seq<Seq<char>>,
) -> PreviewView {
    PreviewView {
        requested_mode: plan.requested_mode,
        resolved_mode: ArtifactPreviewMode::Archive,
        offset: 0,
        length: smaller(plan.total_size, MAX_ARCHIVE_PREVIEW_BYTES),
        total_size: plan.total_size,
        has_more: false,
        warnings: plan.warnings + warnings + truncation_warning(listing),
        summary: plan.summary,
        text: None,
        rows: seq![],
        entry_count: listing.total_entries,
        truncated: listing.truncated,
        entries: listing.entries,
    }
}

/// The plan goes on with rows, and says why.
pub open spec fn rows_instead(
    plan: PlannedPreview,
    stage: PreviewStage,
    warnings: Seq<Seq<char>>,
) -> PlannedPreview {
    PlannedPreview { stage, warnings: plan.warnings + warnings, ..plan }
}

/// What the bytes of an archive make of a plan.
pub open spec fn archive_step(
    plan: PlannedPreview,
    name: Seq<char>,
    kind: ArtifactKind,
    bytes: Seq<u8>,
    stage: PreviewStage,
) -> StepView {
    let max = plan.max_entries as int;
    let warned = archive_warnings(kind, bytes, max);
    match archive_listing(name, kind, plan.total_size, bytes, max) {
        Ok(listing) => if listing.entries.len() > 0 {
            StepView::Shown(members_shown(plan, listing, warned))
        } else {
            StepView::Read(rows_instead(plan, stage, warned))
        },
        Err(m) => StepView::Read(rows_instead(plan, stage, warned.push(m))),
    }
}

pub open spec fn not_text_warning() -> Seq<char> {
    "Text decoding confidence was too low; falling back to hex view."@
}

/// What a read makes of the preview of a deleted file.
pub open spec fn artifact_step(
    plan: PlannedPreview,
    name: Seq<char>,
    kind: ArtifactKind,
    read: Result<Seq<u8>, Seq<char>>,
) -> StepView {
    match plan.stage {
        PreviewStage::Archive => match read {
            Ok(bytes) => archive_step(plan, name, kind, bytes, PreviewStage::Hex),
            Err(m) => StepView::Read(rows_instead(plan, PreviewStage::Hex, seq![m])),
        },
        PreviewStage::Text => match read {
            Ok(bytes) => match text_of(bytes) {
                Some(text) => StepView::Shown(text_shown(plan, bytes, text)),
                None => StepView::Read(
                    rows_instead(plan, PreviewStage::Hex, seq![not_text_warning()]),
                ),
            },
            Err(m) => StepView::Refused(m),
        },
        _ => match read {
            Ok(bytes) => StepView::Shown(rows_shown(plan, bytes)),
            Err(m) => StepView::Refused(m),
        },
    }
}

fn show_window(
    plan: PreviewPlan,
    mode: ArtifactPreviewMode,
    length: usize,
    text: Option<String>,
    rows: Vec<HexPreviewRow>,
) -> (r: Preview)
    ensures
        r@ == (PreviewView {
            requested_mode: plan.requested_mode,
            resolved_mode: mode,
            offset: plan.offset,
            length: length as u64,
            total_size: plan.total_size,
            has_more: more_behind(plan@, length as int),
            warnings: views(plan.warnings@),
            summary: fact_views(plan.summary@),
            text: opt_view(text),
            rows: hex_row_views(rows@),
            entry_count: None,
            truncated: false,
            entries: seq![],
        }),
{
    let end: u64 = plan.offset.saturating_add(length as u64);
    let none: Vec<ArchivePreviewEntry> = Vec::new();
    assert(member_views(none@) =~= seq![]);
    Preview {
        requested_mode: plan.requested_mode,
        resolved_mode: mode,
        offset: plan.offset,
        length: length as u64,
        total_size: plan.total_size,
        has_more: end < plan.total_size,
        warnings: plan.warnings,
        summary: plan.summary,
        text_excerpt: text,
        hex_rows: rows,
        archive_entry_count: None,
        archive_entries_truncated: false,
        archive_entries: none,
    }
}

fn show_text(plan: PreviewPlan, bytes: &Vec<u8>, text: String) -> (r: Preview)
    ensures
        r@ == text_shown(plan@, bytes@, text@),
{
    let none: Vec<HexPreviewRow> = Vec::new();
    assert(hex_row_views(none@) =~= seq![]);
    show_window(plan, ArtifactPreviewMode::Text, bytes.len(), Some(text), none)
}

fn show_rows(plan: PreviewPlan, bytes: &Vec<u8>) -> (r: Preview)
    requires
        plan.offset + bytes@.len() <= u64::MAX,
    ensures
        r@ == rows_shown(plan@, bytes@),
{
    let rows = build_hex_rows(plan.offset, bytes.as_slice());
    show_window(plan, ArtifactPreviewMode::Hex, bytes.len(), None, rows)
}

fn go_on_with_rows(plan: PreviewPlan, stage: PreviewStage, warning: Option<String>) -> (r:
    PreviewPlan)
    ensures
        r@ == rows_instead(
            plan@,
            stage,
            match warning {
                Some(w) => seq![w@],
                None => seq![],
            },
        ),
{
    let mut next = plan;
    next.stage = stage;
    match warning {
        Some(w) => {
            let ghost said = w@;
            next.warnings.push(w);
            assert(views(next.warnings@) =~= views(plan.warnings@) + seq![said]);
        },
        None => {
            assert(views(next.warnings@) =~= views(plan.warnings@) + seq![]);
        },
    }
    next
}

fn push_truncation_warning(warnings: &mut Vec<String>, listing: &PreviewArchiveListing)
    ensures
        views(final(warnings)@) == views(old(warnings)@) + truncation_warning(listing@),
{
    if listing.truncated {
        let mut message = owned("Showing the first ");
        push_decimal(&mut message, listing.entries.len() as u64);
        match listing.total_entries {
            Some(total) => {
                message.append(" of ");
                push_decimal(&mut message, total as u64);
                message.append(" archive entries.");
            },
            None => {
                message.append(" recovered archive entries.");
            },
        }
        let ghost said = message@;
        warnings.push(message);
        assert(listing@.entries.len() == listing.entries@.len());
        assert(views(warnings@) =~= views(old(warnings)@) + seq![said]);
    } else {
        assert(views(warnings@) =~= views(old(warnings)@) + seq![]);
    }
}

fn show_members(plan: PreviewPlan, listing: PreviewArchiveListing) -> (r: Preview)
    ensures
        r@ == members_shown(plan@, listing@, seq![]),
{
    let ghost said = views(plan.warnings@);
    let mut warnings = plan.warnings;
    assert(said + seq![] =~= said);
    push_truncation_warning(&mut warnings, &listing);
    let rows: Vec<HexPreviewRow> = Vec::new();
    assert(hex_row_views(rows@) =~= seq![]);
    Preview {
        requested_mode: plan.requested_mode,
        resolved_mode: ArtifactPreviewMode::Archive,
        offset: 0,
        length: if plan.total_size < MAX_ARCHIVE_PREVIEW_BYTES {
            plan.total_size
        } else {
            MAX_ARCHIVE_PREVIEW_BYTES
        },
        total_size: plan.total_size,
        has_more: false,
        warnings,
        summary: plan.summary,
        text_excerpt: None,
        hex_rows: rows,
        archive_entry_count: listing.total_entries,
        archive_entries_truncated: listing.truncated,
        archive_entries: listing.entries,
    }
}

fn take_archive(
    plan: PreviewPlan,
    name: &str,
    kind: ArtifactKind,
    bytes: &Vec<u8>,
    stage: PreviewStage,
) -> (r: PreviewStep)
    ensures
        step_view(r) == archive_step(plan@, name@, kind, bytes@, stage),
{
    let mut plan = plan;
    let ghost first = plan@;
    let ghost warned = archive_warnings(kind, bytes@, plan.max_entries as int);
    let listed = build_archive_preview_from_bytes(
        name,
        kind,
        plan.total_size,
        bytes.as_slice(),
        plan.max_entries,
        &mut plan.warnings,
    );
    assert(plan@ == (PlannedPreview { warnings: first.warnings + warned, ..first }));
    match listed {
        Ok(listing) => if listing.entries.len() > 0 {
            assert(first.warnings + warned + seq![] =~= first.warnings + warned);
            PreviewStep::Done(Ok(show_members(plan, listing)))
        } else {
            assert(first.warnings + warned + seq![] =~= first.warnings + warned);
            PreviewStep::Read(go_on_with_rows(plan, stage, None))
        },
        Err(RssError::Message(m)) => {
            assert(first.warnings + warned + seq![m@] =~= first.warnings + warned.push(m@));
            PreviewStep::Read(go_on_with_rows(plan, stage, Some(m)))
        },
    }
}

/// The preview of a deleted file after the read that its plan asked for.
pub fn build_preview(
    artifact: &ArtifactRecord,
    plan: PreviewPlan,
    read: Result<Vec<u8>, RssError>,
) -> (r: PreviewStep)
    requires
        in_file(plan@),
        fits_plan(plan@, bytes_result(read)),
    ensures
        step_view(r) == artifact_step(
            plan@,
            artifact.name@,
            artifact.kind,
            bytes_result(read),
        ),
{
    match plan.stage {
        PreviewStage::Archive => match read {
            Ok(bytes) => take_archive(
                plan,
                artifact.name.as_str(),
                artifact.kind,
                &bytes,
                PreviewStage::Hex,
            ),
            Err(RssError::Message(m)) => PreviewStep::Read(
                go_on_with_rows(plan, PreviewStage::Hex, Some(m)),
            ),
        },
        PreviewStage::Text => match read {
            Ok(bytes) => match decode_text_excerpt(bytes.as_slice()) {
                Some(text) => PreviewStep::Done(Ok(show_text(plan, &bytes, text))),
                None => {
                    let warning = owned(
                        "Text decoding confidence was too low; falling back to hex view.",
                    );
                    PreviewStep::Read(go_on_with_rows(plan, PreviewStage::Hex, Some(warning)))
                },
            },
            Err(e) => PreviewStep::Done(Err(e)),
        },
        _ => match read {
            Ok(bytes) => PreviewStep::Done(Ok(show_rows(plan, &bytes))),
            Err(e) => PreviewStep::Done(Err(e)),
        },
    }
}

// ---------------------------------------------------------------------------
// Live entries.

pub open spec fn chunked_warning(path: Seq<char>) -> Seq<char> {
    "Large or protected live file "@ + path
        + " defaults to chunked hex preview to avoid blocking the UI."@
}

pub open spec fn deferred_warning(path: Seq<char>) -> Seq<char> {
    "Live archive auto-preview is deferred for "@ + path
        + " to keep the UI responsive. Switch to Archive mode to enumerate entries."@
}

/// The mode in which a live entry is shown, and what is said of it: an archive is not listed
/// unasked, nor is a large or protected file read whole.
pub open spec fn entry_mode(entry: SourceEntry, mode: ArtifactPreviewMode) -> (
    ArtifactPreviewMode,
    Seq<Seq<char>>,
) {
    if mode != ArtifactPreviewMode::Auto {
        (mode, seq![])
    } else if entry.is_directory || entry.is_metafile {
        (ArtifactPreviewMode::Hex, seq![])
    } else if large_or_protected(entry) {
        (ArtifactPreviewMode::Hex, seq![chunked_warning(entry.path@)])
    } else {
        let preferred = preferred_mode(entry_kind_of(entry));
        if preferred == ArtifactPreviewMode::Archive {
            (ArtifactPreviewMode::Hex, seq![deferred_warning(entry.path@)])
        } else {
            (preferred, seq![])
        }
    }
}

pub(crate) fn resolve_entry_mode(entry: &SourceEntry, mode: ArtifactPreviewMode) -> (r: (
    ArtifactPreviewMode,
    Vec<String>,
))
    ensures
        (r.0, views(r.1@)) == entry_mode(*entry, mode),
        r.0 != ArtifactPreviewMode::Auto,
{
    let mut warnings: Vec<String> = Vec::new();
    assert(views(warnings@) =~= seq![]);
    if mode != ArtifactPreviewMode::Auto {
        return (mode, warnings);
    }
    if entry.is_directory || entry.is_metafile {
        return (ArtifactPreviewMode::Hex, warnings);
    }
    if should_force_chunked_hex_preview(entry) {
        warnings.push(
            concat3(
                "Large or protected live file ",
                entry.path.as_str(),
                " defaults to chunked hex preview to avoid blocking the UI.",
            ),
        );
        assert(views(warnings@) =~= seq![chunked_warning(entry.path@)]);
        return (ArtifactPreviewMode::Hex, warnings);
    }
    let preferred = preferred_preview_mode(entry_kind(entry));
    if preferred == ArtifactPreviewMode::Archive {
        warnings.push(
            concat3(
                "Live archive auto-preview is deferred for ",
                entry.path.as_str(),
                " to keep the UI responsive. Switch to Archive mode to enumerate entries.",
            ),
        );
        assert(views(warnings@) =~= seq![deferred_warning(entry.path@)]);
        return (ArtifactPreviewMode::Hex, warnings);
    }
    (preferred, warnings)
}

/// A preview without bytes.
pub open spec fn nothing_shown(
    requested: ArtifactPreviewMode,
    resolved: ArtifactPreviewMode,
    offset: u64,
    total_size: u64,
    warnings: Seq<Seq<char>>,
    summary: Seq<FactView>,
    text: Option<Seq<char>>,
) -> PreviewView {
    PreviewView {
        requested_mode: requested,
        resolved_mode: resolved,
        offset,
        length: 0,
        total_size,
        has_more: false,
        warnings,
        summary,
        text,
        rows: seq![],
        entry_count: None,
        truncated: false,
        entries: seq![],
    }
}

fn show_nothing(
    requested_mode: ArtifactPreviewMode,
    resolved_mode: ArtifactPreviewMode,
    offset: u64,
    total_size: u64,
    warnings: Vec<String>,
    summary: Vec<PreviewFact>,
    text_excerpt: Option<String>,
) -> (r: Preview)
    ensures
        r@ == nothing_shown(
            requested_mode,
            resolved_mode,
            offset,
            total_size,
            views(warnings@),
            fact_views(summary@),
            opt_view(text_excerpt),
        ),
{
    let hex_rows: Vec<HexPreviewRow> = Vec::new();
    let archive_entries: Vec<ArchivePreviewEntry> = Vec::new();
    assert(hex_row_views(hex_rows@) =~= seq![]);
    assert(member_views(archive_entries@) =~= seq![]);
    Preview {
        requested_mode,
        resolved_mode,
        offset,
        length: 0,
        total_size,
        has_more: false,
        warnings,
        summary,
        text_excerpt,
        hex_rows,
        archive_entry_count: None,
        archive_entries_truncated: false,
        archive_entries,
    }
}

/// How the preview of a live entry starts: a folder is shown without bytes, and an archive
/// that is too large is refused.
pub open spec fn entry_start(
    entry: SourceEntry,
    mode: ArtifactPreviewMode,
    offset: Option<u64>,
    length: Option<u64>,
    max_entries: Option<usize>,
) -> StepView {
    if entry.is_directory {
        StepView::Shown(
            nothing_shown(
                mode,
                ArtifactPreviewMode::Hex,
                0,
                0,
                seq!["Directories do not expose a byte preview."@],
                entry_facts(entry),
                None,
            ),
        )
    } else {
        let resolved = entry_mode(entry, mode);
        let w = window_of(zero_if_none(offset), window_length(length), entry.size);
        if stage_of(resolved.0) == PreviewStage::Archive && entry.size
            > MAX_ARCHIVE_PREVIEW_BYTES {
            StepView::Refused(
                over_budget("Item is "@, entry.size, "preview"@, MAX_ARCHIVE_PREVIEW_BYTES),
            )
        } else {
            StepView::Read(
                PlannedPreview {
                    requested_mode: mode,
                    stage: stage_of(resolved.0),
                    offset: w.0,
                    length: w.1,
                    total_size: entry.size,
                    max_entries: entry_limit(max_entries),
                    warnings: resolved.1,
                    summary: entry_facts(entry),
                },
            )
        }
    }
}

/// How the preview of a live entry starts.
pub fn plan_entry_preview(entry: &SourceEntry, request: &ContentPreviewRequest) -> (r: PreviewStep)
    ensures
        step_view(r) == entry_start(
            *entry,
            request.mode,
            request.offset,
            request.length,
            request.max_entries,
        ),
        r matches PreviewStep::Read(plan) ==> in_file(plan@),
{
    let summary = source_entry_summary(entry);
    if entry.is_directory {
        let mut warnings: Vec<String> = Vec::new();
        warnings.push(owned("Directories do not expose a byte preview."));
        assert(views(warnings@) =~= seq!["Directories do not expose a byte preview."@]);
        return PreviewStep::Done(
            Ok(show_nothing(request.mode, ArtifactPreviewMode::Hex, 0, 0, warnings, summary, None)),
        );
    }
    let (mode, warnings) = resolve_entry_mode(entry, request.mode);
    let stage = stage_for(mode);
    if stage == PreviewStage::Archive && entry.size > MAX_ARCHIVE_PREVIEW_BYTES {
        return PreviewStep::Done(
            Err(
                RssError::Message(
                    over_budget_of("Item is ", entry.size, "preview", MAX_ARCHIVE_PREVIEW_BYTES),
                ),
            ),
        );
    }
    let offset: u64 = match request.offset {
        Some(n) => n,
        None => 0,
    };
    let (start, length) = clamp_window(offset, window_length_of(request.length), entry.size);
    PreviewStep::Read(
        PreviewPlan {
            requested_mode: request.mode,
            stage,
            offset: start,
            length,
            total_size: entry.size,
            max_entries: entry_limit_of(request.max_entries),
            warnings,
            summary,
        },
    )
}

/// What is shown of a live text that has no bytes, and why.
pub open spec fn text_without_bytes(plan: PlannedPreview, warnings: Seq<Seq<char>>) -> PreviewView {
    nothing_shown(
        plan.requested_mode,
        ArtifactPreviewMode::Text,
        plan.offset,
        plan.total_size,
        warnings,
        plan.summary,
        Some(seq![]),
    )
}

/// What a read makes of the preview of a live entry.
pub open spec fn entry_step(
    plan: PlannedPreview,
    entry: SourceEntry,
    read: Result<Seq<u8>, Seq<char>>,
) -> StepView {
    match plan.stage {
        PreviewStage::Archive => match read {
            Ok(bytes) => archive_step(
                plan,
                entry.name@,
                entry_kind_of(entry),
                bytes,
                PreviewStage::Fallback,
            ),
            Err(m) => StepView::Refused(m),
        },
        PreviewStage::Text => match read {
            Ok(bytes) => if bytes.len() == 0 && plan.warnings.len() > 0 {
                StepView::Shown(text_without_bytes(plan, plan.warnings))
            } else {
                match text_of(bytes) {
                    Some(text) => StepView::Shown(text_shown(plan, bytes, text)),
                    None => StepView::Read(
                        rows_instead(plan, PreviewStage::Fallback, seq![not_text_warning()]),
                    ),
                }
            },
            Err(m) => StepView::Shown(
                text_without_bytes(plan, plan.warnings.push(read_error(entry, m))),
            ),
        },
        PreviewStage::Hex => match read {
            Ok(bytes) => StepView::Shown(rows_shown(plan, bytes)),
            Err(m) => StepView::Shown(
                nothing_shown(
                    plan.requested_mode,
                    ArtifactPreviewMode::Hex,
                    0,
                    plan.total_size,
                    plan.warnings.push(read_error(entry, m)),
                    plan.summary,
                    None,
                ),
            ),
        },
        PreviewStage::Fallback => match read {
            Ok(bytes) => StepView::Shown(rows_shown(plan, bytes)),
            Err(m) => StepView::Refused(m),
        },
    }
}

fn show_empty_text(plan: PreviewPlan) -> (r: Preview)
    ensures
        r@ == text_without_bytes(plan@, views(plan.warnings@)),
{
    let empty = String::new();
    assert(empty@ =~= seq![]);
    show_nothing(
        plan.requested_mode,
        ArtifactPreviewMode::Text,
        plan.offset,
        plan.total_size,
        plan.warnings,
        plan.summary,
        Some(empty),
    )
}

fn warn_of_read(plan: PreviewPlan, entry: &SourceEntry, e: &RssError) -> (r: PreviewPlan)
    ensures
        r@ == (PlannedPreview {
            warnings: plan@.warnings.push(read_error(*entry, message_of(*e))),
            ..plan@
        }),
{
    let mut next = plan;
    let RssError::Message(m) = e;
    let said = describe_live_entry_read_error(entry, m.as_str());
    let ghost words = said@;
    next.warnings.push(said);
    assert(views(next.warnings@) =~= views(plan.warnings@).push(words));
    next
}

/// The preview of a live entry after the read that its plan asked for.
pub fn build_entry_preview(
    entry: &SourceEntry,
    plan: PreviewPlan,
    read: Result<Vec<u8>, RssError>,
) -> (r: PreviewStep)
    requires
        in_file(plan@),
        fits_plan(plan@, bytes_result(read)),
    ensures
        step_view(r) == entry_step(plan@, *entry, bytes_result(read)),
{
    match plan.stage {
        PreviewStage::Archive => match read {
            Ok(bytes) => take_archive(
                plan,
                entry.name.as_str(),
                entry_kind(entry),
                &bytes,
                PreviewStage::Fallback,
            ),
            Err(e) => PreviewStep::Done(Err(e)),
        },
        PreviewStage::Text => match read {
            Ok(bytes) => {
                assert(views(plan.warnings@).len() == plan.warnings@.len());
                if bytes.len() == 0 && plan.warnings.len() > 0 {
                    return PreviewStep::Done(Ok(show_empty_text(plan)));
                }
                match decode_text_excerpt(bytes.as_slice()) {
                    Some(text) => PreviewStep::Done(Ok(show_text(plan, &bytes, text))),
                    None => {
                        let warning = owned(
                            "Text decoding confidence was too low; falling back to hex view.",
                        );
                        PreviewStep::Read(
                            go_on_with_rows(plan, PreviewStage::Fallback, Some(warning)),
                        )
                    },
                }
            },
            Err(e) => PreviewStep::Done(Ok(show_empty_text(warn_of_read(plan, entry, &e)))),
        },
        PreviewStage::Hex => match read {
            Ok(bytes) => PreviewStep::Done(Ok(show_rows(plan, &bytes))),
            Err(e) => {
                let warned = warn_of_read(plan, entry, &e);
                PreviewStep::Done(
                    Ok(
                        show_nothing(
                            warned.requested_mode,
                            ArtifactPreviewMode::Hex,
                            0,
                            warned.total_size,
                            warned.warnings,
                            warned.summary,
                            None,
                        ),
                    ),
                )
            },
        },
        PreviewStage::Fallback => match read {
            Ok(bytes) => PreviewStep::Done(Ok(show_rows(plan, &bytes))),
            Err(e) => PreviewStep::Done(Err(e)),
        },
    }
}

// ---------------------------------------------------------------------------
// What previews promise.

/// Whether another read follows.
pub open spec fn reads_on(step: StepView) -> bool {
    step is Read
}

/// A preview takes at most two reads, and both lie within the file: the second is always the
/// window of the plan, for rows.
pub proof fn lemma_at_most_two_reads(
    plan: PlannedPreview,
    name: Seq<char>,
    kind: ArtifactKind,
    entry: SourceEntry,
    first: Result<Seq<u8>, Seq<char>>,
    second: Result<Seq<u8>, Seq<char>>,
)
    requires
        in_file(plan),
    ensures
        next_range(plan).0 + next_range(plan).1 <= plan.total_size,
        artifact_step(plan, name, kind, first) matches StepView::Read(next) ==> {
            &&& in_file(next)
            &&& next_range(next) == (plan.offset, plan.length)
            &&& !reads_on(artifact_step(next, name, kind, second))
        },
        entry_step(plan, entry, first) matches StepView::Read(next) ==> {
            &&& in_file(next)
            &&& next_range(next) == (plan.offset, plan.length)
            &&& !reads_on(entry_step(next, entry, second))
        },
{
}

/// A preview loses no warning that its plan has.
pub proof fn lemma_warnings_stay(
    plan: PlannedPreview,
    name: Seq<char>,
    kind: ArtifactKind,
    entry: SourceEntry,
    read: Result<Seq<u8>, Seq<char>>,
)
    ensures
        artifact_step(plan, name, kind, read) matches StepView::Shown(p)
            ==> plan.warnings.is_prefix_of(p.warnings),
        artifact_step(plan, name, kind, read) matches StepView::Read(p)
            ==> plan.warnings.is_prefix_of(p.warnings),
        entry_step(plan, entry, read) matches StepView::Shown(p) ==> plan.warnings.is_prefix_of(
            p.warnings,
        ),
        entry_step(plan, entry, read) matches StepView::Read(p) ==> plan.warnings.is_prefix_of(
            p.warnings,
        ),
{
}

/// What a window shows agrees with what it says: it starts where the plan does, and more of
/// the file lies behind it exactly where its end is not the end of the file.
pub proof fn lemma_has_more_tells_of_the_rest(plan: PlannedPreview, bytes: Seq<u8>, text: Seq<char>)
    requires
        in_file(plan),
        bytes.len() <= plan.length,
    ensures
        text_shown(plan, bytes, text).has_more <==> plan.offset + bytes.len() < plan.total_size,
        rows_shown(plan, bytes).has_more <==> plan.offset + bytes.len() < plan.total_size,
        rows_shown(plan, bytes).offset == plan.offset,
        rows_shown(plan, bytes).length == bytes.len(),
{
}

} // verus!
