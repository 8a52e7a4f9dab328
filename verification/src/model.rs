//! The data that scans, listings, previews and recoveries exchange.

use crate::text::{clone_opt, clone_strings};
use vstd::prelude::*;

verus! {

/// The result of an operation that can be refused with a message.
pub type RssResult<T> = Result<T, RssError>;

/// What a refused operation reports.
#[derive(Debug)]
pub enum RssError {
    Message(String),
}

/// What an error says.
pub open spec fn message_of(e: RssError) -> Seq<char> {
    match e {
        RssError::Message(m) => m@,
    }
}

/// What kind of device a source is.
#[derive(Debug, Clone, Copy, PartialEq, Eq, Structural)]
pub enum SourceKind {
    LogicalVolume,
    PhysicalDisk,
    ImageFile,
}

/// The file system on a source.
#[derive(Debug, Clone, Copy, PartialEq, Eq, Structural)]
pub enum FileSystemKind {
    Ntfs,
    Fat32,
    ExFat,
    Unknown,
}

/// How thorough a scan is.
#[derive(Debug, Clone, Copy, PartialEq, Eq, Structural)]
pub enum ScanMode {
    Fast,
    Deep,
}

/// How much raw NTFS evidence a refinement reads.
#[derive(Debug, Clone, Copy, PartialEq, Eq, Structural)]
pub enum RawEvidenceMode {
    FastLazy,
    FullExhaustive,
    ManualDeep,
}

/// Which raw NTFS evidence a scan uses.
#[derive(Debug, Clone, Copy, PartialEq, Eq, Structural)]
pub struct RawEvidenceConfig {
    pub mode: RawEvidenceMode,
    pub i30_enabled: bool,
    pub usn_enabled: bool,
    pub raw_usn_fallback: bool,
    pub emit_initial_results_before_raw: bool,
}

/// How far the raw evidence refinement of a scan has come.
#[derive(Debug, Clone, Copy, PartialEq, Eq, Structural)]
pub enum RawEvidenceState {
    NotStarted,
    Running,
    Completed,
    CompletedWithWarnings,
}

/// How far a scan has come.
#[derive(Debug, Clone, Copy, PartialEq, Eq, Structural)]
pub enum ScanStatus {
    Idle,
    Running,
    Completed,
    CompletedWithWarnings,
    Failed,
    Cancelled,
}

/// The phase that a scan is in.
#[derive(Debug, Clone, Copy, PartialEq, Eq, Structural)]
pub enum ScanPhase {
    Preparing,
    DiscoveringMetadata,
    ScanningDeletedEntries,
    RefiningRawEvidence,
    CarvingHighPriority,
    Hashing,
    Finalizing,
}

/// Where an artifact was found.
#[derive(Debug, Clone, Copy, PartialEq, Eq, Structural)]
pub enum OriginType {
    FilesystemDeletedEntry,
    FilesystemOrphanedEntry,
    UnallocatedCarved,
    PartialFragment,
}

/// How sure the scan is of an artifact.
#[derive(Debug, Clone, Copy, PartialEq, Eq, Structural)]
pub enum Confidence {
    High,
    Medium,
    Low,
}

/// How much of an artifact can be recovered.
#[derive(Debug, Clone, Copy, PartialEq, Eq, Structural)]
pub enum Recoverability {
    Good,
    Partial,
    Poor,
    Unknown,
}

/// How an artifact was placed in the folder tree.
#[derive(Debug, Clone, Copy, PartialEq, Eq, Structural, Hash)]
pub enum PlacementKind {
    OriginalPath,
    SyntheticDeletedFolder,
    UnknownParent,
    BrokenParentChain,
    OutOfSelectedRoot,
    PathConflict,
}

/// How sure the scan is of a path.
#[derive(Debug, Clone, Copy, PartialEq, Eq, Structural, Hash)]
pub enum PathConfidence {
    Exact,
    Reconstructed,
    Partial,
    Unknown,
}

/// Where a piece of path evidence comes from.
#[derive(Debug, Clone, Copy, PartialEq, Eq, Structural, Hash)]
pub enum PathEvidenceSource {
    MftExact,
    MftDeletedDirectory,
    MftSequenceMismatch,
    PartialMftChain,
    RecycleBin,
    I30,
    UsnJournal,
}

/// One piece of evidence for the path of an artifact.
#[derive(Debug)]
pub struct PathEvidence {
    pub source: PathEvidenceSource,
    pub path: Option<String>,
    pub confidence: PathConfidence,
    pub note: String,
}

impl Clone for PathEvidence {
    fn clone(&self) -> (r: Self)
        ensures
            r == *self,
    {
        PathEvidence {
            source: self.source,
            path: clone_opt(&self.path),
            confidence: self.confidence,
            note: self.note.clone(),
        }
    }
}

/// Where the time of a deletion comes from.
#[derive(Debug, Clone, Copy, PartialEq, Eq, Structural, Hash)]
pub enum DeletedTimeSource {
    RecycleBin,
    UsnJournal,
    I30MftChange,
    MftMetadata,
}

/// How sure the scan is of the time of a deletion.
#[derive(Debug, Clone, Copy, PartialEq, Eq, Structural, Hash)]
pub enum DeletedTimeConfidence {
    Exact,
    Estimated,
    Unknown,
}

/// Where the name of an artifact comes from.
#[derive(Debug, Clone, Copy, PartialEq, Eq, Structural, Hash)]
pub enum NameSourceKind {
    LongName,
    DosName,
    Reconstructed,
    Generated,
}

/// Where the content of an artifact lies.
#[derive(Debug, Clone, Copy, PartialEq, Eq, Structural, Hash)]
pub enum ContentSourceKind {
    ResidentData,
    RawRuns,
    ContiguousCarve,
    FragmentCandidate,
    LiveFile,
    Unknown,
}

/// How far an artifact has been confirmed.
#[derive(Debug, Clone, Copy, PartialEq, Eq, Structural, Hash)]
pub enum ArtifactClass {
    NamedMetadataCandidate,
    ValidatedHit,
    Recoverable,
    CarvedHit,
    FragmentCandidate,
}

/// How the recovery of one artifact went.
#[derive(Debug, Clone, Copy, PartialEq, Eq, Structural)]
pub enum RecoveryStatus {
    Recovered,
    RecoveredWithWarnings,
    Partial,
    Unrecoverable,
    Skipped,
}

/// The family of an artifact kind.
#[derive(Debug, Clone, Copy, PartialEq, Eq, Structural, Hash)]
pub enum ArtifactFamily {
    Archive,
    Executable,
    Script,
    Container,
    Database,
    Document,
    Image,
    Config,
    Text,
    Binary,
    Unknown,
}

/// The kind of a file.
#[derive(Debug, Clone, Copy, PartialEq, Eq, Structural, Hash)]
pub enum ArtifactKind {
    Exe,
    Dll,
    Sys,
    Scr,
    Ocx,
    Cpl,
    Msi,
    Jar,
    Zip,
    Rar,
    SevenZip,
    Cab,
    Iso,
    Tar,
    Gzip,
    Bzip2,
    Xz,
    Apk,
    Pdf,
    Png,
    Jpg,
    Gif,
    Sqlite,
    Pak,
    Bin,
    Dat,
    Bat,
    Cmd,
    Ps1,
    Vbs,
    Js,
    Ini,
    Cfg,
    Json,
    Yml,
    Yaml,
    Txt,
    Log,
    OleCompound,
    Pe,
    Unknown,
}

/// A volume or disk that can be scanned.
#[derive(Debug)]
pub struct ScanSource {
    pub id: String,
    pub kind: SourceKind,
    pub device_path: String,
    pub mount_point: Option<String>,
    pub display_name: String,
    pub volume_label: Option<String>,
    pub filesystem: FileSystemKind,
    pub volume_serial: Option<u32>,
    pub total_bytes: u64,
    pub free_bytes: u64,
    pub cluster_size: Option<u64>,
    pub is_system: bool,
    pub requires_elevation: bool,
}

impl Clone for ScanSource {
    fn clone(&self) -> (r: Self)
        ensures
            r == *self,
    {
        ScanSource {
            id: self.id.clone(),
            kind: self.kind,
            device_path: self.device_path.clone(),
            mount_point: clone_opt(&self.mount_point),
            display_name: self.display_name.clone(),
            volume_label: clone_opt(&self.volume_label),
            filesystem: self.filesystem,
            volume_serial: self.volume_serial,
            total_bytes: self.total_bytes,
            free_bytes: self.free_bytes,
            cluster_size: self.cluster_size,
            is_system: self.is_system,
            requires_elevation: self.requires_elevation,
        }
    }
}

/// How far the catalog of a source is loaded.
#[derive(Debug, Clone, Copy, PartialEq, Eq, Structural)]
pub enum SourceCatalogState {
    Unloaded,
    Loading,
    Ready,
    Stale,
    Failed,
}

/// The phase that a catalog load is in.
#[derive(Debug, Clone, Copy, PartialEq, Eq, Structural)]
pub enum SourceCatalogPhase {
    OpeningVolume,
    EnumeratingFiles,
    AugmentingNtfsMetadata,
    BuildingIndexes,
    Finalizing,
}

/// How a catalog load uses the cached catalog.
#[derive(Debug, Clone, Copy, PartialEq, Eq, Structural)]
pub enum SourceCatalogCacheState {
    Cold,
    Warm,
    DeltaRefresh,
    Rebuild,
}

/// Whether an entry can be read.
#[derive(Debug, Clone, Copy, PartialEq, Eq, Structural)]
pub enum SourceAccessState {
    Readable,
    Denied,
    Unknown,
}

/// The class of a directory entry.
#[derive(Debug, Clone, Copy, PartialEq, Eq, Structural)]
pub enum SourceEntryClass {
    File,
    Directory,
    MetadataFile,
    MetadataDirectory,
}

/// One entry of a directory on a source.
#[derive(Debug)]
pub struct SourceEntry {
    pub name: String,
    pub path: String,
    pub parent_path: String,
    pub mft_reference: Option<u64>,
    pub parent_reference: Option<u64>,
    pub extension: Option<String>,
    pub is_directory: bool,
    pub has_children: Option<bool>,
    pub is_metafile: bool,
    pub entry_class: SourceEntryClass,
    pub size: u64,
    pub created_at: Option<String>,
    pub modified_at: Option<String>,
    pub accessed_at: Option<String>,
    pub hidden: bool,
    pub system: bool,
    pub read_only: bool,
    pub attr_bits: Option<u32>,
    pub attributes: Vec<String>,
    pub deleted_hits: usize,
    pub access_state: SourceAccessState,
}

/// The two values hold the same.
pub open spec fn same_source_entry(a: SourceEntry, b: SourceEntry) -> bool {
    &&& a.name == b.name
    &&& a.path == b.path
    &&& a.parent_path == b.parent_path
    &&& a.mft_reference == b.mft_reference
    &&& a.parent_reference == b.parent_reference
    &&& a.extension == b.extension
    &&& a.is_directory == b.is_directory
    &&& a.has_children == b.has_children
    &&& a.is_metafile == b.is_metafile
    &&& a.entry_class == b.entry_class
    &&& a.size == b.size
    &&& a.created_at == b.created_at
    &&& a.modified_at == b.modified_at
    &&& a.accessed_at == b.accessed_at
    &&& a.hidden == b.hidden
    &&& a.system == b.system
    &&& a.read_only == b.read_only
    &&& a.attr_bits == b.attr_bits
    &&& a.attributes@ == b.attributes@
    &&& a.deleted_hits == b.deleted_hits
    &&& a.access_state == b.access_state
}

impl Clone for SourceEntry {
    fn clone(&self) -> (r: Self)
        ensures
            same_source_entry(*self, r),
    {
        SourceEntry {
            name: self.name.clone(),
            path: self.path.clone(),
            parent_path: self.parent_path.clone(),
            mft_reference: self.mft_reference,
            parent_reference: self.parent_reference,
            extension: clone_opt(&self.extension),
            is_directory: self.is_directory,
            has_children: self.has_children,
            is_metafile: self.is_metafile,
            entry_class: self.entry_class,
            size: self.size,
            created_at: clone_opt(&self.created_at),
            modified_at: clone_opt(&self.modified_at),
            accessed_at: clone_opt(&self.accessed_at),
            hidden: self.hidden,
            system: self.system,
            read_only: self.read_only,
            attr_bits: self.attr_bits,
            attributes: clone_strings(&self.attributes),
            deleted_hits: self.deleted_hits,
            access_state: self.access_state,
        }
    }
}

/// One page of a directory.
#[derive(Debug)]
pub struct SourceDirectoryListing {
    pub source_id: String,
    pub root_path: String,
    pub path: String,
    pub parent_path: Option<String>,
    pub entries: Vec<SourceEntry>,
    pub deleted_artifacts: Vec<ArtifactSummary>,
    pub total_entry_count: usize,
    pub deleted_artifact_count: usize,
    pub next_cursor: Option<String>,
    pub deleted_artifact_next_cursor: Option<String>,
    pub indexing_complete: bool,
    pub indexed_entries: u64,
    pub total_estimated_entries: Option<u64>,
    pub index_generation: u64,
    pub deleted_subtree_count: usize,
}

/// A request for one page of a directory.
#[derive(Debug)]
pub struct BrowseSourceRequest {
    pub source_id: String,
    pub path: Option<String>,
    pub cursor: Option<String>,
    pub deleted_cursor: Option<String>,
    pub limit: Option<usize>,
    pub directories_only: Option<bool>,
    pub filter: Option<String>,
    pub sort_key: Option<String>,
    pub sort_direction: Option<String>,
}

impl Clone for BrowseSourceRequest {
    fn clone(&self) -> (r: Self)
        ensures
            r == *self,
    {
        BrowseSourceRequest {
            source_id: self.source_id.clone(),
            path: clone_opt(&self.path),
            cursor: clone_opt(&self.cursor),
            deleted_cursor: clone_opt(&self.deleted_cursor),
            limit: self.limit,
            directories_only: self.directories_only,
            filter: clone_opt(&self.filter),
            sort_key: clone_opt(&self.sort_key),
            sort_direction: clone_opt(&self.sort_direction),
        }
    }
}

/// What a scan is asked to do.
#[derive(Debug)]
pub struct ScanOptions {
    pub source_id: String,
    pub mode: ScanMode,
    pub include_low_confidence: bool,
    pub carve_budget_bytes: Option<u64>,
    pub raw_evidence: RawEvidenceConfig,
}

impl Clone for ScanOptions {
    fn clone(&self) -> (r: Self)
        ensures
            r == *self,
    {
        ScanOptions {
            source_id: self.source_id.clone(),
            mode: self.mode,
            include_low_confidence: self.include_low_confidence,
            carve_budget_bytes: self.carve_budget_bytes,
            raw_evidence: self.raw_evidence,
        }
    }
}

/// A request to refine the results of a scan.
#[derive(Debug)]
pub struct RawEvidenceRefinementRequest {
    pub scan_id: String,
    pub source_id: String,
    pub scope: Option<String>,
}

impl Clone for RawEvidenceRefinementRequest {
    fn clone(&self) -> (r: Self)
        ensures
            r == *self,
    {
        RawEvidenceRefinementRequest {
            scan_id: self.scan_id.clone(),
            source_id: self.source_id.clone(),
            scope: clone_opt(&self.scope),
        }
    }
}

/// The phase that a refinement is in.
#[derive(Debug, Clone, Copy, PartialEq, Eq, Structural)]
pub enum RawEvidenceRefinementPhase {
    Queued,
    BuildingDirectoryMap,
    ParsingI30,
    ReadingUsn,
    MergingEvidence,
    Done,
}

/// How many results of each sort a scan found.
#[derive(Debug, Clone, Copy, PartialEq, Eq, Structural)]
pub struct ScanCounters {
    pub total_results: usize,
    pub executable_results: usize,
    pub archive_results: usize,
    pub script_results: usize,
    pub carved_results: usize,
    pub partial_results: usize,
    pub recoverable_results: usize,
}

/// One labelled fact about a file.
#[derive(Debug)]
pub struct PreviewFact {
    pub label: String,
    pub value: String,
}

impl Clone for PreviewFact {
    fn clone(&self) -> (r: Self)
        ensures
            r == *self,
    {
        PreviewFact {
            label: self.label.clone(),
            value: self.value.clone(),
        }
    }
}

/// What a signature check found.
#[derive(Debug, Clone, Copy, PartialEq, Eq, Structural)]
pub enum ArtifactSignatureStatus {
    NotApplicable,
    Unsigned,
    Valid,
    Invalid,
    Indeterminate,
}

/// The result of a signature check.
#[derive(Debug)]
pub struct ArtifactSignatureSummary {
    pub status: ArtifactSignatureStatus,
    pub subject: Option<String>,
    pub issuer: Option<String>,
    pub timestamp: Option<String>,
    pub verification_source: String,
    pub note: Option<String>,
}

impl Clone for ArtifactSignatureSummary {
    fn clone(&self) -> (r: Self)
        ensures
            r == *self,
    {
        ArtifactSignatureSummary {
            status: self.status,
            subject: clone_opt(&self.subject),
            issuer: clone_opt(&self.issuer),
            timestamp: clone_opt(&self.timestamp),
            verification_source: self.verification_source.clone(),
            note: clone_opt(&self.note),
        }
    }
}

/// How a preview shows its content.
#[derive(Debug, Clone, Copy, PartialEq, Eq, Structural)]
pub enum ArtifactPreviewMode {
    Auto,
    Text,
    Hex,
    Archive,
}

/// The state of one archive entry.
#[derive(Debug, Clone, Copy, PartialEq, Eq, Structural)]
pub enum ArchivePreviewEntryStatus {
    Intact,
    Partial,
    Damaged,
    Unsupported,
}

/// One entry of an archive.
#[derive(Debug)]
pub struct ArchivePreviewEntry {
    pub path: String,
    pub kind: Option<String>,
    pub size: Option<u64>,
    pub compressed_size: Option<u64>,
    pub status: ArchivePreviewEntryStatus,
    pub note: Option<String>,
}

impl Clone for ArchivePreviewEntry {
    fn clone(&self) -> (r: Self)
        ensures
            r == *self,
    {
        ArchivePreviewEntry {
            path: self.path.clone(),
            kind: clone_opt(&self.kind),
            size: self.size,
            compressed_size: self.compressed_size,
            status: self.status,
            note: clone_opt(&self.note),
        }
    }
}

/// One row of a hex view.
#[derive(Debug)]
pub struct HexPreviewRow {
    pub offset: u64,
    pub hex: String,
    pub ascii: String,
}

impl Clone for HexPreviewRow {
    fn clone(&self) -> (r: Self)
        ensures
            r == *self,
    {
        HexPreviewRow {
            offset: self.offset,
            hex: self.hex.clone(),
            ascii: self.ascii.clone(),
        }
    }
}

/// A request for a preview of an artifact.
#[derive(Debug)]
pub struct ArtifactPreviewRequest {
    pub scan_id: String,
    pub artifact_id: String,
    pub mode: ArtifactPreviewMode,
    pub offset: Option<u64>,
    pub length: Option<u64>,
    pub max_entries: Option<usize>,
}

impl Clone for ArtifactPreviewRequest {
    fn clone(&self) -> (r: Self)
        ensures
            r == *self,
    {
        ArtifactPreviewRequest {
            scan_id: self.scan_id.clone(),
            artifact_id: self.artifact_id.clone(),
            mode: self.mode,
            offset: self.offset,
            length: self.length,
            max_entries: self.max_entries,
        }
    }
}

/// A preview of an artifact.
#[derive(Debug)]
pub struct ArtifactPreviewResponse {
    pub artifact_id: String,
    pub requested_mode: ArtifactPreviewMode,
    pub resolved_mode: ArtifactPreviewMode,
    pub offset: u64,
    pub length: u64,
    pub total_size: u64,
    pub has_more: bool,
    pub warnings: Vec<String>,
    pub summary: Vec<PreviewFact>,
    pub text_excerpt: Option<String>,
    pub hex_rows: Vec<HexPreviewRow>,
    pub archive_entry_count: Option<usize>,
    pub archive_entries_truncated: bool,
    pub archive_entries: Vec<ArchivePreviewEntry>,
}

/// The two values hold the same.
pub open spec fn same_artifact_preview_response(a: ArtifactPreviewResponse, b: ArtifactPreviewResponse) -> bool {
    &&& a.artifact_id == b.artifact_id
    &&& a.requested_mode == b.requested_mode
    &&& a.resolved_mode == b.resolved_mode
    &&& a.offset == b.offset
    &&& a.length == b.length
    &&& a.total_size == b.total_size
    &&& a.has_more == b.has_more
    &&& a.warnings@ == b.warnings@
    &&& a.summary@ == b.summary@
    &&& a.text_excerpt == b.text_excerpt
    &&& a.hex_rows@ == b.hex_rows@
    &&& a.archive_entry_count == b.archive_entry_count
    &&& a.archive_entries_truncated == b.archive_entries_truncated
    &&& a.archive_entries@ == b.archive_entries@
}

impl Clone for ArtifactPreviewResponse {
    fn clone(&self) -> (r: Self)
        ensures
            same_artifact_preview_response(*self, r),
    {
        ArtifactPreviewResponse {
            artifact_id: self.artifact_id.clone(),
            requested_mode: self.requested_mode,
            resolved_mode: self.resolved_mode,
            offset: self.offset,
            length: self.length,
            total_size: self.total_size,
            has_more: self.has_more,
            warnings: clone_strings(&self.warnings),
            summary: clone_preview_facts(&self.summary),
            text_excerpt: clone_opt(&self.text_excerpt),
            hex_rows: clone_hex_rows(&self.hex_rows),
            archive_entry_count: self.archive_entry_count,
            archive_entries_truncated: self.archive_entries_truncated,
            archive_entries: clone_archive_entries(&self.archive_entries),
        }
    }
}

/// What a preview is of.
#[derive(Debug)]
pub enum ContentTarget {
    Artifact {
        scan_id: String,
        artifact_id: String,
    },
    Entry {
        source_id: String,
        path: String,
    },
}

/// A request for a preview.
#[derive(Debug)]
pub struct ContentPreviewRequest {
    pub target: ContentTarget,
    pub entry_hint: Option<SourceEntry>,
    pub mode: ArtifactPreviewMode,
    pub offset: Option<u64>,
    pub length: Option<u64>,
    pub max_entries: Option<usize>,
}

/// A preview.
#[derive(Debug)]
pub struct ContentPreviewResponse {
    pub target_key: String,
    pub requested_mode: ArtifactPreviewMode,
    pub resolved_mode: ArtifactPreviewMode,
    pub offset: u64,
    pub length: u64,
    pub total_size: u64,
    pub has_more: bool,
    pub warnings: Vec<String>,
    pub summary: Vec<PreviewFact>,
    pub text_excerpt: Option<String>,
    pub hex_rows: Vec<HexPreviewRow>,
    pub archive_entry_count: Option<usize>,
    pub archive_entries_truncated: bool,
    pub archive_entries: Vec<ArchivePreviewEntry>,
}

/// The two values hold the same.
pub open spec fn same_content_preview_response(a: ContentPreviewResponse, b: ContentPreviewResponse) -> bool {
    &&& a.target_key == b.target_key
    &&& a.requested_mode == b.requested_mode
    &&& a.resolved_mode == b.resolved_mode
    &&& a.offset == b.offset
    &&& a.length == b.length
    &&& a.total_size == b.total_size
    &&& a.has_more == b.has_more
    &&& a.warnings@ == b.warnings@
    &&& a.summary@ == b.summary@
    &&& a.text_excerpt == b.text_excerpt
    &&& a.hex_rows@ == b.hex_rows@
    &&& a.archive_entry_count == b.archive_entry_count
    &&& a.archive_entries_truncated == b.archive_entries_truncated
    &&& a.archive_entries@ == b.archive_entries@
}

impl Clone for ContentPreviewResponse {
    fn clone(&self) -> (r: Self)
        ensures
            same_content_preview_response(*self, r),
    {
        ContentPreviewResponse {
            target_key: self.target_key.clone(),
            requested_mode: self.requested_mode,
            resolved_mode: self.resolved_mode,
            offset: self.offset,
            length: self.length,
            total_size: self.total_size,
            has_more: self.has_more,
            warnings: clone_strings(&self.warnings),
            summary: clone_preview_facts(&self.summary),
            text_excerpt: clone_opt(&self.text_excerpt),
            hex_rows: clone_hex_rows(&self.hex_rows),
            archive_entry_count: self.archive_entry_count,
            archive_entries_truncated: self.archive_entries_truncated,
            archive_entries: clone_archive_entries(&self.archive_entries),
        }
    }
}

/// A request to open a preview session.
#[derive(Debug)]
pub struct PreviewSessionOpenRequest {
    pub target: ContentTarget,
    pub entry_hint: Option<SourceEntry>,
    pub mode: ArtifactPreviewMode,
}

/// What a preview session offers.
#[derive(Debug)]
pub struct PreviewSessionInfo {
    pub session_id: String,
    pub target_key: String,
    pub requested_mode: ArtifactPreviewMode,
    pub resolved_mode: ArtifactPreviewMode,
    pub total_size: u64,
    pub summary: Vec<PreviewFact>,
    pub warnings: Vec<String>,
    pub preview_ready: bool,
    pub archive_entry_count: Option<usize>,
    pub archive_entries_truncated: bool,
}

/// The two values hold the same.
pub open spec fn same_preview_session_info(a: PreviewSessionInfo, b: PreviewSessionInfo) -> bool {
    &&& a.session_id == b.session_id
    &&& a.target_key == b.target_key
    &&& a.requested_mode == b.requested_mode
    &&& a.resolved_mode == b.resolved_mode
    &&& a.total_size == b.total_size
    &&& a.summary@ == b.summary@
    &&& a.warnings@ == b.warnings@
    &&& a.preview_ready == b.preview_ready
    &&& a.archive_entry_count == b.archive_entry_count
    &&& a.archive_entries_truncated == b.archive_entries_truncated
}

impl Clone for PreviewSessionInfo {
    fn clone(&self) -> (r: Self)
        ensures
            same_preview_session_info(*self, r),
    {
        PreviewSessionInfo {
            session_id: self.session_id.clone(),
            target_key: self.target_key.clone(),
            requested_mode: self.requested_mode,
            resolved_mode: self.resolved_mode,
            total_size: self.total_size,
            summary: clone_preview_facts(&self.summary),
            warnings: clone_strings(&self.warnings),
            preview_ready: self.preview_ready,
            archive_entry_count: self.archive_entry_count,
            archive_entries_truncated: self.archive_entries_truncated,
        }
    }
}

/// One chunk of a previewed file.
#[derive(Debug)]
pub struct PreviewChunkResponse {
    pub session_id: String,
    pub target_key: String,
    pub requested_mode: ArtifactPreviewMode,
    pub resolved_mode: ArtifactPreviewMode,
    pub offset: u64,
    pub length: u64,
    pub total_size: u64,
    pub has_more: bool,
    pub warnings: Vec<String>,
    pub text_excerpt: Option<String>,
    pub hex_rows: Vec<HexPreviewRow>,
}

/// The two values hold the same.
pub open spec fn same_preview_chunk_response(a: PreviewChunkResponse, b: PreviewChunkResponse) -> bool {
    &&& a.session_id == b.session_id
    &&& a.target_key == b.target_key
    &&& a.requested_mode == b.requested_mode
    &&& a.resolved_mode == b.resolved_mode
    &&& a.offset == b.offset
    &&& a.length == b.length
    &&& a.total_size == b.total_size
    &&& a.has_more == b.has_more
    &&& a.warnings@ == b.warnings@
    &&& a.text_excerpt == b.text_excerpt
    &&& a.hex_rows@ == b.hex_rows@
}

impl Clone for PreviewChunkResponse {
    fn clone(&self) -> (r: Self)
        ensures
            same_preview_chunk_response(*self, r),
    {
        PreviewChunkResponse {
            session_id: self.session_id.clone(),
            target_key: self.target_key.clone(),
            requested_mode: self.requested_mode,
            resolved_mode: self.resolved_mode,
            offset: self.offset,
            length: self.length,
            total_size: self.total_size,
            has_more: self.has_more,
            warnings: clone_strings(&self.warnings),
            text_excerpt: clone_opt(&self.text_excerpt),
            hex_rows: clone_hex_rows(&self.hex_rows),
        }
    }
}

/// One page of an archive listing.
#[derive(Debug)]
pub struct ArchivePreviewPage {
    pub session_id: String,
    pub target_key: String,
    pub offset: usize,
    pub count: usize,
    pub total_entries: Option<usize>,
    pub has_more: bool,
    pub warnings: Vec<String>,
    pub entries: Vec<ArchivePreviewEntry>,
}

/// The two values hold the same.
pub open spec fn same_archive_preview_page(a: ArchivePreviewPage, b: ArchivePreviewPage) -> bool {
    &&& a.session_id == b.session_id
    &&& a.target_key == b.target_key
    &&& a.offset == b.offset
    &&& a.count == b.count
    &&& a.total_entries == b.total_entries
    &&& a.has_more == b.has_more
    &&& a.warnings@ == b.warnings@
    &&& a.entries@ == b.entries@
}

impl Clone for ArchivePreviewPage {
    fn clone(&self) -> (r: Self)
        ensures
            same_archive_preview_page(*self, r),
    {
        ArchivePreviewPage {
            session_id: self.session_id.clone(),
            target_key: self.target_key.clone(),
            offset: self.offset,
            count: self.count,
            total_entries: self.total_entries,
            has_more: self.has_more,
            warnings: clone_strings(&self.warnings),
            entries: clone_archive_entries(&self.entries),
        }
    }
}

/// How far a background job has come.
#[derive(Debug, Clone, Copy, PartialEq, Eq, Structural)]
pub enum AsyncJobState {
    Pending,
    Running,
    Completed,
    Failed,
    Cancelled,
}

/// The status of a background job.
#[derive(Debug)]
pub struct AsyncJobStatus {
    pub job_id: String,
    pub state: AsyncJobState,
    pub created_at: String,
    pub updated_at: String,
    pub error: Option<String>,
}

impl Clone for AsyncJobStatus {
    fn clone(&self) -> (r: Self)
        ensures
            r == *self,
    {
        AsyncJobStatus {
            job_id: self.job_id.clone(),
            state: self.state,
            created_at: self.created_at.clone(),
            updated_at: self.updated_at.clone(),
            error: clone_opt(&self.error),
        }
    }
}

/// An entry with notes and facts.
#[derive(Debug)]
pub struct SourceEntryDetails {
    pub entry: SourceEntry,
    pub notes: Vec<String>,
    pub summary: Vec<PreviewFact>,
}

/// A run of bytes on a volume.
#[derive(Debug, Clone, Copy, PartialEq, Eq, Structural)]
pub struct ByteRun {
    pub offset: u64,
    pub length: u64,
    pub sparse: bool,
}

/// How the content of an artifact is read.
#[derive(Debug)]
pub enum RecoveryPlan {
    ResidentBase64 {
        base64: String,
        logical_size: u64,
    },
    RawRuns {
        source_path: String,
        runs: Vec<ByteRun>,
        logical_size: u64,
    },
    Unrecoverable {
        reason: String,
    },
}

/// One artifact that a scan found.
#[derive(Debug)]
pub struct ArtifactRecord {
    pub id: String,
    pub scan_id: String,
    pub source_id: String,
    pub name: String,
    pub original_path: Option<String>,
    pub probable_path: Option<String>,
    pub placement_kind: PlacementKind,
    pub path_confidence: PathConfidence,
    pub path_evidence: Vec<PathEvidence>,
    pub name_source: NameSourceKind,
    pub content_source: ContentSourceKind,
    pub artifact_class: ArtifactClass,
    pub preview_ready: bool,
    pub is_fragment: bool,
    pub fragment_id: Option<String>,
    pub extension: Option<String>,
    pub family: ArtifactFamily,
    pub kind: ArtifactKind,
    pub origin_type: OriginType,
    pub confidence: Confidence,
    pub recoverability: Recoverability,
    pub deleted_entry: bool,
    pub size: u64,
    pub priority_score: u16,
    pub filesystem_record: Option<u64>,
    pub parent_reference: Option<u64>,
    pub raw_offset: Option<u64>,
    pub raw_length: Option<u64>,
    pub created_at: Option<String>,
    pub modified_at: Option<String>,
    pub deleted_at: Option<String>,
    pub deleted_time_source: Option<DeletedTimeSource>,
    pub deleted_time_confidence: DeletedTimeConfidence,
    pub last_metadata_change_at: Option<String>,
    pub notes: Vec<String>,
    pub preview: Vec<PreviewFact>,
    pub recovery_plan: RecoveryPlan,
}

/// What a list shows of an artifact.
#[derive(Debug)]
pub struct ArtifactSummary {
    pub id: String,
    pub scan_id: String,
    pub source_id: String,
    pub name: String,
    pub original_path: Option<String>,
    pub probable_path: Option<String>,
    pub placement_kind: PlacementKind,
    pub path_confidence: PathConfidence,
    pub path_evidence: Vec<PathEvidence>,
    pub name_source: NameSourceKind,
    pub content_source: ContentSourceKind,
    pub artifact_class: ArtifactClass,
    pub preview_ready: bool,
    pub is_fragment: bool,
    pub fragment_id: Option<String>,
    pub extension: Option<String>,
    pub family: ArtifactFamily,
    pub kind: ArtifactKind,
    pub origin_type: OriginType,
    pub confidence: Confidence,
    pub recoverability: Recoverability,
    pub deleted_entry: bool,
    pub size: u64,
    pub priority_score: u16,
    pub filesystem_record: Option<u64>,
    pub parent_reference: Option<u64>,
    pub raw_offset: Option<u64>,
    pub raw_length: Option<u64>,
    pub created_at: Option<String>,
    pub modified_at: Option<String>,
    pub deleted_at: Option<String>,
    pub deleted_time_source: Option<DeletedTimeSource>,
    pub deleted_time_confidence: DeletedTimeConfidence,
    pub last_metadata_change_at: Option<String>,
}

/// The two values hold the same.
pub open spec fn same_artifact_summary(a: ArtifactSummary, b: ArtifactSummary) -> bool {
    &&& a.id == b.id
    &&& a.scan_id == b.scan_id
    &&& a.source_id == b.source_id
    &&& a.name == b.name
    &&& a.original_path == b.original_path
    &&& a.probable_path == b.probable_path
    &&& a.placement_kind == b.placement_kind
    &&& a.path_confidence == b.path_confidence
    &&& a.path_evidence@ == b.path_evidence@
    &&& a.name_source == b.name_source
    &&& a.content_source == b.content_source
    &&& a.artifact_class == b.artifact_class
    &&& a.preview_ready == b.preview_ready
    &&& a.is_fragment == b.is_fragment
    &&& a.fragment_id == b.fragment_id
    &&& a.extension == b.extension
    &&& a.family == b.family
    &&& a.kind == b.kind
    &&& a.origin_type == b.origin_type
    &&& a.confidence == b.confidence
    &&& a.recoverability == b.recoverability
    &&& a.deleted_entry == b.deleted_entry
    &&& a.size == b.size
    &&& a.priority_score == b.priority_score
    &&& a.filesystem_record == b.filesystem_record
    &&& a.parent_reference == b.parent_reference
    &&& a.raw_offset == b.raw_offset
    &&& a.raw_length == b.raw_length
    &&& a.created_at == b.created_at
    &&& a.modified_at == b.modified_at
    &&& a.deleted_at == b.deleted_at
    &&& a.deleted_time_source == b.deleted_time_source
    &&& a.deleted_time_confidence == b.deleted_time_confidence
    &&& a.last_metadata_change_at == b.last_metadata_change_at
}

impl Clone for ArtifactSummary {
    fn clone(&self) -> (r: Self)
        ensures
            same_artifact_summary(*self, r),
    {
        ArtifactSummary {
            id: self.id.clone(),
            scan_id: self.scan_id.clone(),
            source_id: self.source_id.clone(),
            name: self.name.clone(),
            original_path: clone_opt(&self.original_path),
            probable_path: clone_opt(&self.probable_path),
            placement_kind: self.placement_kind,
            path_confidence: self.path_confidence,
            path_evidence: clone_path_evidences(&self.path_evidence),
            name_source: self.name_source,
            content_source: self.content_source,
            artifact_class: self.artifact_class,
            preview_ready: self.preview_ready,
            is_fragment: self.is_fragment,
            fragment_id: clone_opt(&self.fragment_id),
            extension: clone_opt(&self.extension),
            family: self.family,
            kind: self.kind,
            origin_type: self.origin_type,
            confidence: self.confidence,
            recoverability: self.recoverability,
            deleted_entry: self.deleted_entry,
            size: self.size,
            priority_score: self.priority_score,
            filesystem_record: self.filesystem_record,
            parent_reference: self.parent_reference,
            raw_offset: self.raw_offset,
            raw_length: self.raw_length,
            created_at: clone_opt(&self.created_at),
            modified_at: clone_opt(&self.modified_at),
            deleted_at: clone_opt(&self.deleted_at),
            deleted_time_source: self.deleted_time_source,
            deleted_time_confidence: self.deleted_time_confidence,
            last_metadata_change_at: clone_opt(&self.last_metadata_change_at),
        }
    }
}

/// One batch of scan results.
#[derive(Debug)]
pub struct ScanResultsBatch {
    pub scan_id: String,
    pub offset: usize,
    pub total_known: usize,
    pub results: Vec<ArtifactSummary>,
}

/// The outcome of a scan.
#[derive(Debug)]
pub struct ScanSummary {
    pub scan_id: String,
    pub source_id: String,
    pub source_name: String,
    pub mode: ScanMode,
    pub filesystem: FileSystemKind,
    pub status: ScanStatus,
    pub started_at: String,
    pub finished_at: Option<String>,
    pub duration_seconds: Option<u64>,
    pub warnings: Vec<String>,
    pub counters: ScanCounters,
}

/// The two values hold the same.
pub open spec fn same_scan_summary(a: ScanSummary, b: ScanSummary) -> bool {
    &&& a.scan_id == b.scan_id
    &&& a.source_id == b.source_id
    &&& a.source_name == b.source_name
    &&& a.mode == b.mode
    &&& a.filesystem == b.filesystem
    &&& a.status == b.status
    &&& a.started_at == b.started_at
    &&& a.finished_at == b.finished_at
    &&& a.duration_seconds == b.duration_seconds
    &&& a.warnings@ == b.warnings@
    &&& a.counters == b.counters
}

impl Clone for ScanSummary {
    fn clone(&self) -> (r: Self)
        ensures
            same_scan_summary(*self, r),
    {
        ScanSummary {
            scan_id: self.scan_id.clone(),
            source_id: self.source_id.clone(),
            source_name: self.source_name.clone(),
            mode: self.mode,
            filesystem: self.filesystem,
            status: self.status,
            started_at: self.started_at.clone(),
            finished_at: clone_opt(&self.finished_at),
            duration_seconds: self.duration_seconds,
            warnings: clone_strings(&self.warnings),
            counters: self.counters,
        }
    }
}

/// A request to recover artifacts.
#[derive(Debug)]
pub struct RecoveryRequest {
    pub scan_id: String,
    pub artifact_ids: Vec<String>,
    pub destination: String,
}

/// The two values hold the same.
pub open spec fn same_recovery_request(a: RecoveryRequest, b: RecoveryRequest) -> bool {
    &&& a.scan_id == b.scan_id
    &&& a.artifact_ids@ == b.artifact_ids@
    &&& a.destination == b.destination
}

impl Clone for RecoveryRequest {
    fn clone(&self) -> (r: Self)
        ensures
            same_recovery_request(*self, r),
    {
        RecoveryRequest {
            scan_id: self.scan_id.clone(),
            artifact_ids: clone_strings(&self.artifact_ids),
            destination: self.destination.clone(),
        }
    }
}

/// The outcome of recovering one artifact.
#[derive(Debug)]
pub struct RecoveryItemResult {
    pub artifact_id: String,
    pub file_path: Option<String>,
    pub metadata_path: Option<String>,
    pub sha256: Option<String>,
    pub blake3: Option<String>,
    pub status: RecoveryStatus,
    pub notes: Vec<String>,
}

/// The two values hold the same.
pub open spec fn same_recovery_item_result(a: RecoveryItemResult, b: RecoveryItemResult) -> bool {
    &&& a.artifact_id == b.artifact_id
    &&& a.file_path == b.file_path
    &&& a.metadata_path == b.metadata_path
    &&& a.sha256 == b.sha256
    &&& a.blake3 == b.blake3
    &&& a.status == b.status
    &&& a.notes@ == b.notes@
}

impl Clone for RecoveryItemResult {
    fn clone(&self) -> (r: Self)
        ensures
            same_recovery_item_result(*self, r),
    {
        RecoveryItemResult {
            artifact_id: self.artifact_id.clone(),
            file_path: clone_opt(&self.file_path),
            metadata_path: clone_opt(&self.metadata_path),
            sha256: clone_opt(&self.sha256),
            blake3: clone_opt(&self.blake3),
            status: self.status,
            notes: clone_strings(&self.notes),
        }
    }
}

/// The outcome of a recovery.
#[derive(Debug)]
pub struct RecoverySummary {
    pub scan_id: String,
    pub destination: String,
    pub started_at: String,
    pub finished_at: String,
    pub items: Vec<RecoveryItemResult>,
}

/// What the application says of itself.
#[derive(Debug)]
pub struct BootstrapInfo {
    pub app_name: String,
    pub app_author: String,
    pub app_version: String,
    pub license: String,
    pub eula_path: String,
    pub is_elevated: bool,
    pub source_count: usize,
}

impl Clone for BootstrapInfo {
    fn clone(&self) -> (r: Self)
        ensures
            r == *self,
    {
        BootstrapInfo {
            app_name: self.app_name.clone(),
            app_author: self.app_author.clone(),
            app_version: self.app_version.clone(),
            license: self.license.clone(),
            eula_path: self.eula_path.clone(),
            is_elevated: self.is_elevated,
            source_count: self.source_count,
        }
    }
}

/// A copy of a list of path evidence.
pub fn clone_path_evidences(v: &Vec<PathEvidence>) -> (r: Vec<PathEvidence>)
    ensures
        r@ == v@,
{
    let mut out: Vec<PathEvidence> = Vec::new();
    let mut i: usize = 0;
    while i < v.len()
        invariant
            i <= v@.len(),
            out@ == v@.subrange(0, i as int),
        decreases v@.len() - i,
    {
        out.push(v[i].clone());
        i += 1;
    }
    assert(out@ =~= v@);
    out
}

/// A copy of a list of facts.
pub fn clone_preview_facts(v: &Vec<PreviewFact>) -> (r: Vec<PreviewFact>)
    ensures
        r@ == v@,
{
    let mut out: Vec<PreviewFact> = Vec::new();
    let mut i: usize = 0;
    while i < v.len()
        invariant
            i <= v@.len(),
            out@ == v@.subrange(0, i as int),
        decreases v@.len() - i,
    {
        out.push(v[i].clone());
        i += 1;
    }
    assert(out@ =~= v@);
    out
}

/// A copy of a list of archive entries.
pub fn clone_archive_entries(v: &Vec<ArchivePreviewEntry>) -> (r: Vec<ArchivePreviewEntry>)
    ensures
        r@ == v@,
{
    let mut out: Vec<ArchivePreviewEntry> = Vec::new();
    let mut i: usize = 0;
    while i < v.len()
        invariant
            i <= v@.len(),
            out@ == v@.subrange(0, i as int),
        decreases v@.len() - i,
    {
        out.push(v[i].clone());
        i += 1;
    }
    assert(out@ =~= v@);
    out
}

/// A copy of a list of hex rows.
pub fn clone_hex_rows(v: &Vec<HexPreviewRow>) -> (r: Vec<HexPreviewRow>)
    ensures
        r@ == v@,
{
    let mut out: Vec<HexPreviewRow> = Vec::new();
    let mut i: usize = 0;
    while i < v.len()
        invariant
            i <= v@.len(),
            out@ == v@.subrange(0, i as int),
        decreases v@.len() - i,
    {
        out.push(v[i].clone());
        i += 1;
    }
    assert(out@ =~= v@);
    out
}

/// A copy of a list of byte runs.
pub fn clone_byte_runs(v: &Vec<ByteRun>) -> (r: Vec<ByteRun>)
    ensures
        r@ == v@,
{
    let mut out: Vec<ByteRun> = Vec::new();
    let mut i: usize = 0;
    while i < v.len()
        invariant
            i <= v@.len(),
            out@ == v@.subrange(0, i as int),
        decreases v@.len() - i,
    {
        out.push(v[i]);
        i += 1;
    }
    assert(out@ =~= v@);
    out
}

/// The two plans read the same bytes.
pub open spec fn same_recovery_plan(a: RecoveryPlan, b: RecoveryPlan) -> bool {
    match (a, b) {
        (
            RecoveryPlan::RawRuns { source_path: p, runs: r, logical_size: n },
            RecoveryPlan::RawRuns { source_path: q, runs: s, logical_size: m },
        ) => p == q && r@ == s@ && n == m,
        _ => a == b,
    }
}

impl Clone for RecoveryPlan {
    fn clone(&self) -> (r: Self)
        ensures
            same_recovery_plan(*self, r),
    {
        match self {
            RecoveryPlan::ResidentBase64 { base64, logical_size } => RecoveryPlan::ResidentBase64 {
                base64: base64.clone(),
                logical_size: *logical_size,
            },
            RecoveryPlan::RawRuns { source_path, runs, logical_size } => RecoveryPlan::RawRuns {
                source_path: source_path.clone(),
                runs: clone_byte_runs(runs),
                logical_size: *logical_size,
            },
            RecoveryPlan::Unrecoverable { reason } => RecoveryPlan::Unrecoverable {
                reason: reason.clone(),
            },
        }
    }
}

/// The two records hold the same.
pub open spec fn same_artifact_record(a: ArtifactRecord, b: ArtifactRecord) -> bool {
    &&& a.id == b.id
    &&& a.scan_id == b.scan_id
    &&& a.source_id == b.source_id
    &&& a.name == b.name
    &&& a.original_path == b.original_path
    &&& a.probable_path == b.probable_path
    &&& a.placement_kind == b.placement_kind
    &&& a.path_confidence == b.path_confidence
    &&& a.path_evidence@ == b.path_evidence@
    &&& a.name_source == b.name_source
    &&& a.content_source == b.content_source
    &&& a.artifact_class == b.artifact_class
    &&& a.preview_ready == b.preview_ready
    &&& a.is_fragment == b.is_fragment
    &&& a.fragment_id == b.fragment_id
    &&& a.extension == b.extension
    &&& a.family == b.family
    &&& a.kind == b.kind
    &&& a.origin_type == b.origin_type
    &&& a.confidence == b.confidence
    &&& a.recoverability == b.recoverability
    &&& a.deleted_entry == b.deleted_entry
    &&& a.size == b.size
    &&& a.priority_score == b.priority_score
    &&& a.filesystem_record == b.filesystem_record
    &&& a.parent_reference == b.parent_reference
    &&& a.raw_offset == b.raw_offset
    &&& a.raw_length == b.raw_length
    &&& a.created_at == b.created_at
    &&& a.modified_at == b.modified_at
    &&& a.deleted_at == b.deleted_at
    &&& a.deleted_time_source == b.deleted_time_source
    &&& a.deleted_time_confidence == b.deleted_time_confidence
    &&& a.last_metadata_change_at == b.last_metadata_change_at
    &&& a.notes@ == b.notes@
    &&& a.preview@ == b.preview@
    &&& same_recovery_plan(a.recovery_plan, b.recovery_plan)
}

impl Clone for ArtifactRecord {
    fn clone(&self) -> (r: Self)
        ensures
            same_artifact_record(*self, r),
    {
        ArtifactRecord {
            id: self.id.clone(),
            scan_id: self.scan_id.clone(),
            source_id: self.source_id.clone(),
            name: self.name.clone(),
            original_path: clone_opt(&self.original_path),
            probable_path: clone_opt(&self.probable_path),
            placement_kind: self.placement_kind,
            path_confidence: self.path_confidence,
            path_evidence: clone_path_evidences(&self.path_evidence),
            name_source: self.name_source,
            content_source: self.content_source,
            artifact_class: self.artifact_class,
            preview_ready: self.preview_ready,
            is_fragment: self.is_fragment,
            fragment_id: clone_opt(&self.fragment_id),
            extension: clone_opt(&self.extension),
            family: self.family,
            kind: self.kind,
            origin_type: self.origin_type,
            confidence: self.confidence,
            recoverability: self.recoverability,
            deleted_entry: self.deleted_entry,
            size: self.size,
            priority_score: self.priority_score,
            filesystem_record: self.filesystem_record,
            parent_reference: self.parent_reference,
            raw_offset: self.raw_offset,
            raw_length: self.raw_length,
            created_at: clone_opt(&self.created_at),
            modified_at: clone_opt(&self.modified_at),
            deleted_at: clone_opt(&self.deleted_at),
            deleted_time_source: self.deleted_time_source,
            deleted_time_confidence: self.deleted_time_confidence,
            last_metadata_change_at: clone_opt(&self.last_metadata_change_at),
            notes: clone_strings(&self.notes),
            preview: clone_preview_facts(&self.preview),
            recovery_plan: self.recovery_plan.clone(),
        }
    }
}

/// `summary` shows the fields of `record` that a list needs.
pub open spec fn summarizes(summary: ArtifactSummary, record: ArtifactRecord) -> bool {
    &&& summary.id == record.id
    &&& summary.scan_id == record.scan_id
    &&& summary.source_id == record.source_id
    &&& summary.name == record.name
    &&& summary.original_path == record.original_path
    &&& summary.probable_path == record.probable_path
    &&& summary.placement_kind == record.placement_kind
    &&& summary.path_confidence == record.path_confidence
    &&& summary.path_evidence@ == record.path_evidence@
    &&& summary.name_source == record.name_source
    &&& summary.content_source == record.content_source
    &&& summary.artifact_class == record.artifact_class
    &&& summary.preview_ready == record.preview_ready
    &&& summary.is_fragment == record.is_fragment
    &&& summary.fragment_id == record.fragment_id
    &&& summary.extension == record.extension
    &&& summary.family == record.family
    &&& summary.kind == record.kind
    &&& summary.origin_type == record.origin_type
    &&& summary.confidence == record.confidence
    &&& summary.recoverability == record.recoverability
    &&& summary.deleted_entry == record.deleted_entry
    &&& summary.size == record.size
    &&& summary.priority_score == record.priority_score
    &&& summary.filesystem_record == record.filesystem_record
    &&& summary.parent_reference == record.parent_reference
    &&& summary.raw_offset == record.raw_offset
    &&& summary.raw_length == record.raw_length
    &&& summary.created_at == record.created_at
    &&& summary.modified_at == record.modified_at
    &&& summary.deleted_at == record.deleted_at
    &&& summary.deleted_time_source == record.deleted_time_source
    &&& summary.deleted_time_confidence == record.deleted_time_confidence
    &&& summary.last_metadata_change_at == record.last_metadata_change_at
}

impl ArtifactRecord {
    /// What a list shows of this record.
    pub fn to_summary(&self) -> (r: ArtifactSummary)
        ensures
            summarizes(r, *self),
    {
        ArtifactSummary {
            id: self.id.clone(),
            scan_id: self.scan_id.clone(),
            source_id: self.source_id.clone(),
            name: self.name.clone(),
            original_path: clone_opt(&self.original_path),
            probable_path: clone_opt(&self.probable_path),
            placement_kind: self.placement_kind,
            path_confidence: self.path_confidence,
            path_evidence: clone_path_evidences(&self.path_evidence),
            name_source: self.name_source,
            content_source: self.content_source,
            artifact_class: self.artifact_class,
            preview_ready: self.preview_ready,
            is_fragment: self.is_fragment,
            fragment_id: clone_opt(&self.fragment_id),
            extension: clone_opt(&self.extension),
            family: self.family,
            kind: self.kind,
            origin_type: self.origin_type,
            confidence: self.confidence,
            recoverability: self.recoverability,
            deleted_entry: self.deleted_entry,
            size: self.size,
            priority_score: self.priority_score,
            filesystem_record: self.filesystem_record,
            parent_reference: self.parent_reference,
            raw_offset: self.raw_offset,
            raw_length: self.raw_length,
            created_at: clone_opt(&self.created_at),
            modified_at: clone_opt(&self.modified_at),
            deleted_at: clone_opt(&self.deleted_at),
            deleted_time_source: self.deleted_time_source,
            deleted_time_confidence: self.deleted_time_confidence,
            last_metadata_change_at: clone_opt(&self.last_metadata_change_at),
        }
    }
}

impl ScanStatus {
    /// The scan is over.
    pub open spec fn spec_is_terminal(self) -> bool {
        match self {
            ScanStatus::Completed | ScanStatus::CompletedWithWarnings | ScanStatus::Failed
            | ScanStatus::Cancelled => true,
            _ => false,
        }
    }

    /// The scan is over and has results to offer.
    pub open spec fn spec_is_success(self) -> bool {
        match self {
            ScanStatus::Completed | ScanStatus::CompletedWithWarnings => true,
            _ => false,
        }
    }

    pub fn is_terminal(self) -> (r: bool)
        ensures
            r == self.spec_is_terminal(),
    {
        matches!(
            self,
            ScanStatus::Completed | ScanStatus::CompletedWithWarnings | ScanStatus::Failed
            | ScanStatus::Cancelled
        )
    }

    pub fn is_success(self) -> (r: bool)
        ensures
            r == self.spec_is_success(),
    {
        matches!(self, ScanStatus::Completed | ScanStatus::CompletedWithWarnings)
    }
}

/// A successful scan is a finished one.
pub proof fn lemma_success_is_terminal(status: ScanStatus)
    requires
        status.spec_is_success(),
    ensures
        status.spec_is_terminal(),
{
}

impl Default for RawEvidenceConfig {
    /// Raw evidence is read on request only.
    fn default() -> (r: Self)
        ensures
            r == (RawEvidenceConfig {
                mode: RawEvidenceMode::ManualDeep,
                i30_enabled: false,
                usn_enabled: false,
                raw_usn_fallback: false,
                emit_initial_results_before_raw: true,
            }),
    {
        RawEvidenceConfig {
            mode: RawEvidenceMode::ManualDeep,
            i30_enabled: false,
            usn_enabled: false,
            raw_usn_fallback: false,
            emit_initial_results_before_raw: true,
        }
    }
}

impl Default for RawEvidenceState {
    fn default() -> (r: Self)
        ensures
            r == RawEvidenceState::NotStarted,
    {
        RawEvidenceState::NotStarted
    }
}

impl Default for ScanCounters {
    fn default() -> (r: Self)
        ensures
            r == (ScanCounters {
                total_results: 0,
                executable_results: 0,
                archive_results: 0,
                script_results: 0,
                carved_results: 0,
                partial_results: 0,
                recoverable_results: 0,
            }),
    {
        ScanCounters {
            total_results: 0,
            executable_results: 0,
            archive_results: 0,
            script_results: 0,
            carved_results: 0,
            partial_results: 0,
            recoverable_results: 0,
        }
    }
}

/// The family of a kind.
pub open spec fn family_of(kind: ArtifactKind) -> ArtifactFamily {
    match kind {
        ArtifactKind::Exe | ArtifactKind::Dll | ArtifactKind::Sys | ArtifactKind::Scr
        | ArtifactKind::Ocx | ArtifactKind::Cpl | ArtifactKind::Msi | ArtifactKind::Jar
        | ArtifactKind::Pe => ArtifactFamily::Executable,
        ArtifactKind::Zip | ArtifactKind::Rar | ArtifactKind::SevenZip | ArtifactKind::Cab
        | ArtifactKind::Iso | ArtifactKind::Tar | ArtifactKind::Gzip | ArtifactKind::Bzip2
        | ArtifactKind::Xz => ArtifactFamily::Archive,
        ArtifactKind::Bat | ArtifactKind::Cmd | ArtifactKind::Ps1 | ArtifactKind::Vbs
        | ArtifactKind::Js => ArtifactFamily::Script,
        ArtifactKind::Apk | ArtifactKind::Pak | ArtifactKind::Bin | ArtifactKind::Dat
        | ArtifactKind::OleCompound => ArtifactFamily::Container,
        ArtifactKind::Sqlite => ArtifactFamily::Database,
        ArtifactKind::Pdf => ArtifactFamily::Document,
        ArtifactKind::Png | ArtifactKind::Jpg | ArtifactKind::Gif => ArtifactFamily::Image,
        ArtifactKind::Ini | ArtifactKind::Cfg | ArtifactKind::Json | ArtifactKind::Yml
        | ArtifactKind::Yaml => ArtifactFamily::Config,
        ArtifactKind::Txt | ArtifactKind::Log => ArtifactFamily::Text,
        ArtifactKind::Unknown => ArtifactFamily::Unknown,
    }
}

/// How early a result of a family is shown: higher is earlier.
pub open spec fn family_score(family: ArtifactFamily) -> u16 {
    match family {
        ArtifactFamily::Executable => 100,
        ArtifactFamily::Archive => 90,
        ArtifactFamily::Script => 75,
        ArtifactFamily::Database => 70,
        ArtifactFamily::Container => 60,
        ArtifactFamily::Document => 55,
        ArtifactFamily::Image => 50,
        ArtifactFamily::Config => 40,
        ArtifactFamily::Text => 30,
        ArtifactFamily::Binary => 20,
        ArtifactFamily::Unknown => 10,
    }
}

impl ArtifactKind {
    pub fn family(self) -> (r: ArtifactFamily)
        ensures
            r == family_of(self),
    {
        match self {
            ArtifactKind::Exe | ArtifactKind::Dll | ArtifactKind::Sys | ArtifactKind::Scr
            | ArtifactKind::Ocx | ArtifactKind::Cpl | ArtifactKind::Msi | ArtifactKind::Jar
            | ArtifactKind::Pe => ArtifactFamily::Executable,
            ArtifactKind::Zip | ArtifactKind::Rar | ArtifactKind::SevenZip | ArtifactKind::Cab
            | ArtifactKind::Iso | ArtifactKind::Tar | ArtifactKind::Gzip | ArtifactKind::Bzip2
            | ArtifactKind::Xz => ArtifactFamily::Archive,
            ArtifactKind::Bat | ArtifactKind::Cmd | ArtifactKind::Ps1 | ArtifactKind::Vbs
            | ArtifactKind::Js => ArtifactFamily::Script,
            ArtifactKind::Apk | ArtifactKind::Pak | ArtifactKind::Bin | ArtifactKind::Dat
            | ArtifactKind::OleCompound => ArtifactFamily::Container,
            ArtifactKind::Sqlite => ArtifactFamily::Database,
            ArtifactKind::Pdf => ArtifactFamily::Document,
            ArtifactKind::Png | ArtifactKind::Jpg | ArtifactKind::Gif => ArtifactFamily::Image,
            ArtifactKind::Ini | ArtifactKind::Cfg | ArtifactKind::Json | ArtifactKind::Yml
            | ArtifactKind::Yaml => ArtifactFamily::Config,
            ArtifactKind::Txt | ArtifactKind::Log => ArtifactFamily::Text,
            ArtifactKind::Unknown => ArtifactFamily::Unknown,
        }
    }

    pub fn priority_score(self) -> (r: u16)
        ensures
            r == family_score(family_of(self)),
    {
        match self.family() {
            ArtifactFamily::Executable => 100,
            ArtifactFamily::Archive => 90,
            ArtifactFamily::Script => 75,
            ArtifactFamily::Database => 70,
            ArtifactFamily::Container => 60,
            ArtifactFamily::Document => 55,
            ArtifactFamily::Image => 50,
            ArtifactFamily::Config => 40,
            ArtifactFamily::Text => 30,
            ArtifactFamily::Binary => 20,
            ArtifactFamily::Unknown => 10,
        }
    }
}

} // verus!
