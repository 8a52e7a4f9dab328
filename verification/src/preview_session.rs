//! Preview sessions: a file that is opened once and shown piece by piece.

use crate::archive::{
    archive_listing, archive_warnings, build_archive_preview_from_bytes, ListingView,
    PreviewArchiveListing,
};
use crate::kinds::{decode_utf8_lossy, utf8_lossy};
use crate::model::{
    clone_preview_facts, message_of, same_source_entry, ArchivePreviewEntry, ArchivePreviewPage,
    ArtifactKind, ArtifactPreviewMode, ArtifactRecord, ContentTarget, HexPreviewRow,
    PreviewChunkResponse, PreviewFact, PreviewSessionInfo, PreviewSessionOpenRequest, RssError,
    ScanSource, SourceEntry,
};
use crate::numbers::{decimal, push_decimal};
use crate::preview::{
    clamp_window, entry_mode, mode_or, preferred_mode, preferred_preview_mode, resolve_entry_mode,
    window_of, MAX_ARCHIVE_PREVIEW_BYTES,
};
use crate::preview_reads::{
    bytes_result, describe_live_entry_open_failure, describe_live_entry_read_error, entry_facts,
    entry_kind, entry_kind_of, never_read, open_failure, read_error, should_skip_live_byte_preview,
    source_entry_summary,
};
use crate::preview_text::{
    build_hex_rows, decode_text_excerpt, hex_row_views, hex_rows, text_of, HexRowView,
};
use crate::records::{fact_views, FactView};
use crate::text::{
    clone_strings, concat3, concat4, opt_view, owned, push_unique, push_unique_warning, views,
};
use vstd::prelude::*;
use vstd::string::*;

verus! {

/// The most members that a session lists.
pub const MAX_ARCHIVE_SESSION_ENTRIES: usize = 65536;

/// A session that is ready to be shown.
#[derive(Debug)]
pub struct PreparedPreviewSession {
    pub target_key: String,
    pub requested_mode: ArtifactPreviewMode,
    pub resolved_mode: ArtifactPreviewMode,
    pub total_size: u64,
    pub summary: Vec<PreviewFact>,
    pub warnings: Vec<String>,
    pub archive_listing: Option<PreviewArchiveListing>,
}

/// What a session says.
#[verifier::ext_equal]
pub ghost struct SessionView {
    pub target_key: Seq<char>,
    pub requested_mode: ArtifactPreviewMode,
    pub resolved_mode: ArtifactPreviewMode,
    pub total_size: u64,
    pub summary: Seq<FactView>,
    pub warnings: Seq<Seq<char>>,
    pub listing: Option<ListingView>,
}

pub open spec fn listing_view_opt(listing: Option<PreviewArchiveListing>) -> Option<ListingView> {
    match listing {
        Some(l) => Some(l@),
        None => None,
    }
}

impl View for PreparedPreviewSession {
    type V = SessionView;

    open spec fn view(&self) -> SessionView {
        SessionView {
            target_key: self.target_key@,
            requested_mode: self.requested_mode,
            resolved_mode: self.resolved_mode,
            total_size: self.total_size,
            summary: fact_views(self.summary@),
            warnings: views(self.warnings@),
            listing: listing_view_opt(self.archive_listing),
        }
    }
}

// ---------------------------------------------------------------------------
// Opening.

/// That an archive is too large for a session.
pub open spec fn session_limit_warning() -> Seq<char> {
    "Archive preview is limited to "@ + decimal(MAX_ARCHIVE_PREVIEW_BYTES as nat)
        + " bytes; using chunked hex view instead."@
}

pub open spec fn unavailable_warning(message: Seq<char>) -> Seq<char> {
    "Archive preview unavailable: "@ + message + ". Using chunked hex view instead."@
}

pub open spec fn structure_warning() -> Seq<char> {
    "Archive structure could not be reconstructed; using chunked hex view instead."@
}

/// A session that shows rows instead of members, and says why.
pub open spec fn chunked_instead(s: SessionView, warnings: Seq<Seq<char>>) -> SessionView {
    SessionView {
        resolved_mode: ArtifactPreviewMode::Hex,
        warnings: s.warnings + warnings,
        ..s
    }
}

/// Whether opening a session reads the whole file.
pub open spec fn reads_archive(s: SessionView) -> bool {
    s.resolved_mode == ArtifactPreviewMode::Archive && s.total_size <= MAX_ARCHIVE_PREVIEW_BYTES
}

/// The session of a file of the given kind, where reading the whole file gave `read`.
pub open spec fn prepared(
    s: SessionView,
    name: Seq<char>,
    kind: ArtifactKind,
    read: Result<Seq<u8>, Seq<char>>,
) -> SessionView {
    if s.resolved_mode != ArtifactPreviewMode::Archive {
        s
    } else if s.total_size > MAX_ARCHIVE_PREVIEW_BYTES {
        chunked_instead(s, seq![session_limit_warning()])
    } else {
        match read {
            Err(m) => chunked_instead(s, seq![unavailable_warning(m)]),
            Ok(bytes) => {
                let warned = archive_warnings(kind, bytes, MAX_ARCHIVE_SESSION_ENTRIES as int);
                match archive_listing(
                    name,
                    kind,
                    s.total_size,
                    bytes,
                    MAX_ARCHIVE_SESSION_ENTRIES as int,
                ) {
                    Ok(listing) => if listing.entries.len() > 0 {
                        SessionView {
                            warnings: s.warnings + warned,
                            listing: Some(listing),
                            ..s
                        }
                    } else {
                        chunked_instead(s, warned.push(structure_warning()))
                    },
                    Err(m) => chunked_instead(s, warned.push(unavailable_warning(m))),
                }
            },
        }
    }
}

/// The session of a deleted file before anything is read.
pub open spec fn artifact_session(artifact: ArtifactRecord, mode: ArtifactPreviewMode) -> SessionView {
    SessionView {
        target_key: "artifact:"@ + artifact.scan_id@ + ":"@ + artifact.id@,
        requested_mode: mode,
        resolved_mode: mode_or(mode, preferred_mode(artifact.kind)),
        total_size: artifact.size,
        summary: fact_views(artifact.preview@),
        warnings: seq![],
        listing: None,
    }
}

/// The session of a live entry before anything is read.
pub open spec fn entry_session(
    source: ScanSource,
    entry: SourceEntry,
    mode: ArtifactPreviewMode,
) -> SessionView {
    let resolved = entry_mode(entry, mode);
    SessionView {
        target_key: "entry:"@ + source.id@ + ":"@ + entry.path@,
        requested_mode: mode,
        resolved_mode: resolved.0,
        total_size: entry.size,
        summary: entry_facts(entry),
        warnings: resolved.1,
        listing: None,
    }
}

fn show_in_chunks(session: PreparedPreviewSession, warning: String) -> (r: PreparedPreviewSession)
    requires
        session.archive_listing is None,
    ensures
        r@ == chunked_instead(session@, seq![warning@]),
{
    let mut next = session;
    next.resolved_mode = ArtifactPreviewMode::Hex;
    let ghost said = warning@;
    next.warnings.push(warning);
    assert(views(next.warnings@) =~= views(session.warnings@) + seq![said]);
    next
}

fn prepare_session(
    session: PreparedPreviewSession,
    name: &str,
    kind: ArtifactKind,
    read: Result<Vec<u8>, RssError>,
) -> (r: PreparedPreviewSession)
    requires
        session.archive_listing is None,
    ensures
        r@ == prepared(session@, name@, kind, bytes_result(read)),
{
    if session.resolved_mode != ArtifactPreviewMode::Archive {
        return session;
    }
    if session.total_size > MAX_ARCHIVE_PREVIEW_BYTES {
        let mut warning = owned("Archive preview is limited to ");
        push_decimal(&mut warning, MAX_ARCHIVE_PREVIEW_BYTES);
        warning.append(" bytes; using chunked hex view instead.");
        return show_in_chunks(session, warning);
    }
    match read {
        Err(RssError::Message(m)) => show_in_chunks(
            session,
            concat3(
                "Archive preview unavailable: ",
                m.as_str(),
                ". Using chunked hex view instead.",
            ),
        ),
        Ok(bytes) => {
            let mut session = session;
            let ghost first = session@;
            let ghost warned = archive_warnings(kind, bytes@, MAX_ARCHIVE_SESSION_ENTRIES as int);
            let listed = build_archive_preview_from_bytes(
                name,
                kind,
                session.total_size,
                bytes.as_slice(),
                MAX_ARCHIVE_SESSION_ENTRIES,
                &mut session.warnings,
            );
            assert(session@ == (SessionView { warnings: first.warnings + warned, ..first }));
            match listed {
                Ok(listing) => if listing.entries.len() > 0 {
                    session.archive_listing = Some(listing);
                    session
                } else {
                    assert(first.warnings + warned + seq![structure_warning()] =~= first.warnings
                        + warned.push(structure_warning()));
                    show_in_chunks(
                        session,
                        owned(
                            "Archive structure could not be reconstructed; using chunked hex view instead.",
                        ),
                    )
                },
                Err(RssError::Message(m)) => {
                    assert(first.warnings + warned + seq![unavailable_warning(m@)]
                        =~= first.warnings + warned.push(unavailable_warning(m@)));
                    show_in_chunks(
                        session,
                        concat3(
                            "Archive preview unavailable: ",
                            m.as_str(),
                            ". Using chunked hex view instead.",
                        ),
                    )
                },
            }
        },
    }
}

fn start_artifact_session(artifact: &ArtifactRecord, mode: ArtifactPreviewMode) -> (r:
    PreparedPreviewSession)
    ensures
        r@ == artifact_session(*artifact, mode),
        r.archive_listing is None,
{
    let resolved = if mode == ArtifactPreviewMode::Auto {
        preferred_preview_mode(artifact.kind)
    } else {
        mode
    };
    let summary = clone_preview_facts(&artifact.preview);
    assert(fact_views(summary@) =~= fact_views(artifact.preview@));
    let warnings: Vec<String> = Vec::new();
    assert(views(warnings@) =~= seq![]);
    PreparedPreviewSession {
        target_key: concat4(
            "artifact:",
            artifact.scan_id.as_str(),
            ":",
            artifact.id.as_str(),
        ),
        requested_mode: mode,
        resolved_mode: resolved,
        total_size: artifact.size,
        summary,
        warnings,
        archive_listing: None,
    }
}

fn start_entry_session(source: &ScanSource, entry: &SourceEntry, mode: ArtifactPreviewMode) -> (r:
    PreparedPreviewSession)
    ensures
        r@ == entry_session(*source, *entry, mode),
        r.archive_listing is None,
{
    let (resolved, warnings) = resolve_entry_mode(entry, mode);
    PreparedPreviewSession {
        target_key: concat4("entry:", source.id.as_str(), ":", entry.path.as_str()),
        requested_mode: mode,
        resolved_mode: resolved,
        total_size: entry.size,
        summary: source_entry_summary(entry),
        warnings,
        archive_listing: None,
    }
}

/// Whether opening a session of a deleted file reads the whole file.
pub fn artifact_session_reads_archive(artifact: &ArtifactRecord, mode: ArtifactPreviewMode) -> (r:
    bool)
    ensures
        r == reads_archive(artifact_session(*artifact, mode)),
{
    let resolved = if mode == ArtifactPreviewMode::Auto {
        preferred_preview_mode(artifact.kind)
    } else {
        mode
    };
    resolved == ArtifactPreviewMode::Archive && artifact.size <= MAX_ARCHIVE_PREVIEW_BYTES
}

/// Whether opening a session of a live entry reads the whole file.
pub fn entry_session_reads_archive(entry: &SourceEntry, mode: ArtifactPreviewMode) -> (r: bool)
    ensures
        forall|source: ScanSource|
            r == reads_archive(#[trigger] entry_session(source, *entry, mode)),
{
    let (resolved, _) = resolve_entry_mode(entry, mode);
    resolved == ArtifactPreviewMode::Archive && entry.size <= MAX_ARCHIVE_PREVIEW_BYTES
}

/// The session of a deleted file. `read` is the whole file, where that was to be read.
pub fn prepare_artifact_preview_session(
    artifact: &ArtifactRecord,
    requested_mode: ArtifactPreviewMode,
    read: Result<Vec<u8>, RssError>,
) -> (r: PreparedPreviewSession)
    ensures
        r@ == prepared(
            artifact_session(*artifact, requested_mode),
            artifact.name@,
            artifact.kind,
            bytes_result(read),
        ),
{
    let session = start_artifact_session(artifact, requested_mode);
    prepare_session(session, artifact.name.as_str(), artifact.kind, read)
}

/// The session of a live entry. `read` is the whole file, where that was to be read.
pub fn prepare_entry_preview_session(
    source: &ScanSource,
    entry: &SourceEntry,
    requested_mode: ArtifactPreviewMode,
    read: Result<Vec<u8>, RssError>,
) -> (r: PreparedPreviewSession)
    ensures
        r@ == prepared(
            entry_session(*source, *entry, requested_mode),
            entry.name@,
            entry_kind_of(*entry),
            bytes_result(read),
        ),
{
    let session = start_entry_session(source, entry, requested_mode);
    prepare_session(session, entry.name.as_str(), entry_kind(entry), read)
}

/// What a session is of.
#[derive(Debug)]
pub enum PreviewSessionTarget {
    Artifact(ArtifactRecord),
    Entry { source: ScanSource, entry: SourceEntry },
}

/// The session of a target.
pub open spec fn target_session(
    target: PreviewSessionTarget,
    mode: ArtifactPreviewMode,
    read: Result<Seq<u8>, Seq<char>>,
) -> SessionView {
    match target {
        PreviewSessionTarget::Artifact(artifact) => prepared(
            artifact_session(artifact, mode),
            artifact.name@,
            artifact.kind,
            read,
        ),
        PreviewSessionTarget::Entry { source, entry } => prepared(
            entry_session(source, entry, mode),
            entry.name@,
            entry_kind_of(entry),
            read,
        ),
    }
}

/// Whether the session of a target reads the whole file.
pub open spec fn target_reads(target: PreviewSessionTarget, mode: ArtifactPreviewMode) -> bool {
    match target {
        PreviewSessionTarget::Artifact(artifact) => reads_archive(
            artifact_session(artifact, mode),
        ),
        PreviewSessionTarget::Entry { source, entry } => reads_archive(
            entry_session(source, entry, mode),
        ),
    }
}

/// The session of a target, with the whole file where it is to be read.
fn open_target<R: FnOnce(&PreviewSessionTarget) -> Result<Vec<u8>, RssError>>(
    target: PreviewSessionTarget,
    mode: ArtifactPreviewMode,
    read_archive: R,
) -> (r: (PreparedPreviewSession, PreviewSessionTarget))
    requires
        call_requires(read_archive, (&target,)),
    ensures
        r.1 == target,
        exists|read: Result<Vec<u8>, RssError>|
            (target_reads(target, mode) ==> call_ensures(read_archive, (&target,), read))
                && r.0@ == #[trigger] target_session(target, mode, bytes_result(read)),
{
    let reads = match &target {
        PreviewSessionTarget::Artifact(artifact) => artifact_session_reads_archive(artifact, mode),
        PreviewSessionTarget::Entry { source, entry } => {
            let reads = entry_session_reads_archive(entry, mode);
            assert(reads == reads_archive(entry_session(*source, *entry, mode)));
            reads
        },
    };
    let read: Result<Vec<u8>, RssError> = if reads {
        read_archive(&target)
    } else {
        Ok(Vec::new())
    };
    let ghost got = read;
    let session = match &target {
        PreviewSessionTarget::Artifact(artifact) => prepare_artifact_preview_session(
            artifact,
            mode,
            read,
        ),
        PreviewSessionTarget::Entry { source, entry } => prepare_entry_preview_session(
            source,
            entry,
            mode,
            read,
        ),
    };
    assert(session@ == target_session(target, mode, bytes_result(got)));
    (session, target)
}

/// The lookups gave `target` for the requested content: a deleted file by its scan and its id;
/// or a source by its id and, where the request does not bring the entry along, the entry by
/// its path.
pub open spec fn looked_up<S, E, A>(
    source_lookup: S,
    entry_lookup: E,
    artifact_lookup: A,
    request: PreviewSessionOpenRequest,
    target: PreviewSessionTarget,
) -> bool where
    S: FnOnce(&str) -> Result<ScanSource, RssError>,
    E: FnOnce(&ScanSource, &str) -> Result<SourceEntry, RssError>,
    A: FnOnce(&str, &str) -> Result<ArtifactRecord, RssError>,
 {
    match (request.target, target) {
        (
            ContentTarget::Artifact { scan_id, artifact_id },
            PreviewSessionTarget::Artifact(artifact),
        ) => exists|s: &str, a: &str| #[trigger]
            call_ensures(artifact_lookup, (s, a), Ok(artifact)) && s@ == scan_id@ && a@
                == artifact_id@,
        (
            ContentTarget::Entry { source_id, path },
            PreviewSessionTarget::Entry { source, entry },
        ) => {
            &&& exists|s: &str| #[trigger]
                call_ensures(source_lookup, (s,), Ok(source)) && s@ == source_id@
            &&& match request.entry_hint {
                Some(hint) => if hint.path@ == path@ {
                    same_source_entry(hint, entry)
                } else {
                    exists|p: &str| #[trigger]
                        call_ensures(entry_lookup, (&source, p), Ok(entry)) && p@ == path@
                },
                None => exists|p: &str| #[trigger]
                    call_ensures(entry_lookup, (&source, p), Ok(entry)) && p@ == path@,
            }
        },
        _ => false,
    }
}

/// A lookup for the requested content was refused with `e`.
pub open spec fn lookup_refused<S, E, A>(
    source_lookup: S,
    entry_lookup: E,
    artifact_lookup: A,
    request: PreviewSessionOpenRequest,
    e: RssError,
) -> bool where
    S: FnOnce(&str) -> Result<ScanSource, RssError>,
    E: FnOnce(&ScanSource, &str) -> Result<SourceEntry, RssError>,
    A: FnOnce(&str, &str) -> Result<ArtifactRecord, RssError>,
 {
    match request.target {
        ContentTarget::Artifact { scan_id, artifact_id } => exists|s: &str, a: &str| #[trigger]
            call_ensures(artifact_lookup, (s, a), Err(e)) && s@ == scan_id@ && a@
                == artifact_id@,
        ContentTarget::Entry { source_id, path } => {
            ||| exists|s: &str| #[trigger]
                call_ensures(source_lookup, (s,), Err(e)) && s@ == source_id@
            ||| !(request.entry_hint matches Some(hint) && hint.path@ == path@) && exists|
                s: &str,
                source: ScanSource,
                p: &str,
            |
                #![trigger call_ensures(source_lookup, (s,), Ok(source)), call_ensures(entry_lookup, (&source, p), Err(e))]
                call_ensures(source_lookup, (s,), Ok(source)) && call_ensures(
                    entry_lookup,
                    (&source, p),
                    Err(e),
                ) && s@ == source_id@ && p@ == path@
        },
    }
}

/// Opens a session for the requested content. The entry that a request brings along is taken
/// where it has the requested path; else it is looked up. `read_archive` gives the whole file
/// where the session lists the members of an archive.
pub fn open_preview_session_for_target<S, E, A, R>(
    source_lookup: S,
    entry_lookup: E,
    artifact_lookup: A,
    read_archive: R,
    request: &PreviewSessionOpenRequest,
) -> (r: Result<(PreparedPreviewSession, PreviewSessionTarget), RssError>) where
    S: FnOnce(&str) -> Result<ScanSource, RssError>,
    E: FnOnce(&ScanSource, &str) -> Result<SourceEntry, RssError>,
    A: FnOnce(&str, &str) -> Result<ArtifactRecord, RssError>,
    R: FnOnce(&PreviewSessionTarget) -> Result<Vec<u8>, RssError>,

    requires
        forall|s: &str| call_requires(source_lookup, (s,)),
        forall|s: &ScanSource, p: &str| call_requires(entry_lookup, (s, p)),
        forall|s: &str, a: &str| call_requires(artifact_lookup, (s, a)),
        forall|t: &PreviewSessionTarget| call_requires(read_archive, (t,)),
    ensures
        match r {
            Ok((session, target)) => {
                &&& looked_up(source_lookup, entry_lookup, artifact_lookup, *request, target)
                &&& exists|read: Result<Vec<u8>, RssError>|
                    (target_reads(target, request.mode) ==> call_ensures(
                        read_archive,
                        (&target,),
                        read,
                    )) && session@ == #[trigger] target_session(
                        target,
                        request.mode,
                        bytes_result(read),
                    )
            },
            Err(e) => lookup_refused(source_lookup, entry_lookup, artifact_lookup, *request, e),
        },
{
    match &request.target {
        ContentTarget::Artifact { scan_id, artifact_id } => {
            match artifact_lookup(scan_id.as_str(), artifact_id.as_str()) {
                Ok(artifact) => Ok(
                    open_target(
                        PreviewSessionTarget::Artifact(artifact),
                        request.mode,
                        read_archive,
                    ),
                ),
                Err(e) => Err(e),
            }
        },
        ContentTarget::Entry { source_id, path } => {
            let source = match source_lookup(source_id.as_str()) {
                Ok(source) => source,
                Err(e) => {
                    return Err(e);
                },
            };
            let hint: Option<SourceEntry> = match &request.entry_hint {
                Some(hint) => if *hint.path.as_str() == *path.as_str() {
                    Some(hint.clone())
                } else {
                    None
                },
                None => None,
            };
            let entry = match hint {
                Some(entry) => entry,
                None => match entry_lookup(&source, path.as_str()) {
                    Ok(entry) => entry,
                    Err(e) => {
                        return Err(e);
                    },
                },
            };
            Ok(
                open_target(
                    PreviewSessionTarget::Entry { source, entry },
                    request.mode,
                    read_archive,
                ),
            )
        },
    }
}

// ---------------------------------------------------------------------------
// Chunks.

/// What a chunk says.
#[verifier::ext_equal]
pub ghost struct ChunkView {
    pub session_id: Seq<char>,
    pub target_key: Seq<char>,
    pub requested_mode: ArtifactPreviewMode,
    pub resolved_mode: ArtifactPreviewMode,
    pub offset: u64,
    pub length: u64,
    pub total_size: u64,
    pub has_more: bool,
    pub warnings: Seq<Seq<char>>,
    pub text: Option<Seq<char>>,
    pub rows: Seq<HexRowView>,
}

impl View for PreviewChunkResponse {
    type V = ChunkView;

    open spec fn view(&self) -> ChunkView {
        ChunkView {
            session_id: self.session_id@,
            target_key: self.target_key@,
            requested_mode: self.requested_mode,
            resolved_mode: self.resolved_mode,
            offset: self.offset,
            length: self.length,
            total_size: self.total_size,
            has_more: self.has_more,
            warnings: views(self.warnings@),
            text: opt_view(self.text_excerpt),
            rows: hex_row_views(self.hex_rows@),
        }
    }
}

pub open spec fn chunk_length(length: u64) -> u64 {
    if length < 256 {
        256
    } else if length > 65536 {
        65536
    } else {
        length
    }
}

/// The window of a chunk.
pub open spec fn chunk_window(s: SessionView, offset: u64, length: u64) -> (u64, u64) {
    window_of(offset, chunk_length(length), s.total_size)
}

/// The window of the file that a chunk reads: its offset and its length.
pub fn chunk_range(prepared: &PreparedPreviewSession, offset: u64, length: u64) -> (r: (u64, u64))
    ensures
        r == chunk_window(prepared@, offset, length),
        r.0 + r.1 <= prepared.total_size,
{
    let wanted: u64 = if length < 256 {
        256
    } else if length > 65536 {
        65536
    } else {
        length
    };
    clamp_window(offset, wanted, prepared.total_size)
}

/// A chunk without bytes.
pub open spec fn empty_chunk(
    s: SessionView,
    id: Seq<char>,
    mode: ArtifactPreviewMode,
    offset: u64,
    warnings: Seq<Seq<char>>,
    text: Option<Seq<char>>,
) -> ChunkView {
    ChunkView {
        session_id: id,
        target_key: s.target_key,
        requested_mode: s.requested_mode,
        resolved_mode: mode,
        offset,
        length: 0,
        total_size: s.total_size,
        has_more: false,
        warnings,
        text,
        rows: seq![],
    }
}

/// A chunk with bytes.
pub open spec fn filled_chunk(
    s: SessionView,
    id: Seq<char>,
    mode: ArtifactPreviewMode,
    offset: u64,
    bytes: Seq<u8>,
    text: Option<Seq<char>>,
    rows: Seq<HexRowView>,
) -> ChunkView {
    ChunkView {
        session_id: id,
        target_key: s.target_key,
        requested_mode: s.requested_mode,
        resolved_mode: mode,
        offset,
        length: bytes.len() as u64,
        total_size: s.total_size,
        has_more: offset + bytes.len() < s.total_size,
        warnings: s.warnings,
        text,
        rows,
    }
}

/// The text of a chunk, even where the bytes do not look like text.
pub open spec fn chunk_text(bytes: Seq<u8>) -> Seq<char> {
    match text_of(bytes) {
        Some(text) => text,
        None => utf8_lossy(bytes),
    }
}

/// The chunk of a file, from the bytes at its window.
pub open spec fn chunk_of(s: SessionView, id: Seq<char>, offset: u64, bytes: Seq<u8>) -> ChunkView {
    match s.resolved_mode {
        ArtifactPreviewMode::Text => filled_chunk(
            s,
            id,
            ArtifactPreviewMode::Text,
            offset,
            bytes,
            Some(chunk_text(bytes)),
            seq![],
        ),
        ArtifactPreviewMode::Archive => empty_chunk(
            s,
            id,
            ArtifactPreviewMode::Archive,
            0,
            s.warnings,
            None,
        ),
        _ => filled_chunk(
            s,
            id,
            ArtifactPreviewMode::Hex,
            offset,
            bytes,
            None,
            hex_rows(offset, bytes),
        ),
    }
}

pub open spec fn is_archive(s: SessionView) -> bool {
    s.resolved_mode == ArtifactPreviewMode::Archive
}

/// A read that gave no more than was asked for.
pub open spec fn fits_window(read: Result<Seq<u8>, Seq<char>>, length: u64) -> bool {
    match read {
        Ok(bytes) => bytes.len() <= length,
        Err(_) => true,
    }
}

/// The mode in which a chunk that cannot be read is shown.
pub open spec fn unread_mode(s: SessionView) -> ArtifactPreviewMode {
    if s.resolved_mode == ArtifactPreviewMode::Text {
        ArtifactPreviewMode::Text
    } else {
        ArtifactPreviewMode::Hex
    }
}

/// The chunk of a live entry that cannot be read.
pub open spec fn unavailable_chunk(
    s: SessionView,
    id: Seq<char>,
    offset: u64,
    mode: ArtifactPreviewMode,
    warning: Seq<char>,
) -> ChunkView {
    empty_chunk(
        s,
        id,
        mode,
        offset,
        push_unique(s.warnings, warning),
        if mode == ArtifactPreviewMode::Text {
            Some(seq![])
        } else {
            None
        },
    )
}

/// The chunk of a deleted file.
pub open spec fn artifact_chunk(
    s: SessionView,
    id: Seq<char>,
    offset: u64,
    read: Result<Seq<u8>, Seq<char>>,
) -> Result<ChunkView, Seq<char>> {
    if is_archive(s) {
        Ok(chunk_of(s, id, offset, seq![]))
    } else {
        match read {
            Ok(bytes) => Ok(chunk_of(s, id, offset, bytes)),
            Err(m) => Err(m),
        }
    }
}

/// The chunk of a live entry, which is never refused.
pub open spec fn entry_chunk(
    s: SessionView,
    entry: SourceEntry,
    id: Seq<char>,
    offset: u64,
    read: Result<Seq<u8>, Seq<char>>,
) -> ChunkView {
    if never_read(entry) {
        unavailable_chunk(s, id, offset, unread_mode(s), open_failure(entry))
    } else if is_archive(s) {
        chunk_of(s, id, offset, seq![])
    } else {
        match read {
            Ok(bytes) => chunk_of(s, id, offset, bytes),
            Err(m) => unavailable_chunk(s, id, offset, unread_mode(s), read_error(entry, m)),
        }
    }
}

pub open spec fn chunk_result(r: Result<PreviewChunkResponse, RssError>) -> Result<
    ChunkView,
    Seq<char>,
> {
    match r {
        Ok(chunk) => Ok(chunk@),
        Err(e) => Err(message_of(e)),
    }
}

fn build_chunk(
    session_id: &str,
    prepared: &PreparedPreviewSession,
    resolved_mode: ArtifactPreviewMode,
    offset: u64,
    length: usize,
    text_excerpt: Option<String>,
    hex_rows: Vec<HexPreviewRow>,
) -> (r: PreviewChunkResponse)
    ensures
        r@ == (ChunkView {
            session_id: session_id@,
            target_key: prepared.target_key@,
            requested_mode: prepared.requested_mode,
            resolved_mode,
            offset,
            length: length as u64,
            total_size: prepared.total_size,
            has_more: offset + length < prepared.total_size,
            warnings: views(prepared.warnings@),
            text: opt_view(text_excerpt),
            rows: hex_row_views(hex_rows@),
        }),
{
    let warnings = clone_strings(&prepared.warnings);
    assert(views(warnings@) =~= views(prepared.warnings@));
    let end: u64 = offset.saturating_add(length as u64);
    PreviewChunkResponse {
        session_id: owned(session_id),
        target_key: prepared.target_key.clone(),
        requested_mode: prepared.requested_mode,
        resolved_mode,
        offset,
        length: length as u64,
        total_size: prepared.total_size,
        has_more: end < prepared.total_size,
        warnings,
        text_excerpt,
        hex_rows,
    }
}

fn fill_chunk(
    session_id: &str,
    prepared: &PreparedPreviewSession,
    offset: u64,
    bytes: &Vec<u8>,
) -> (r: PreviewChunkResponse)
    requires
        offset + bytes@.len() <= u64::MAX,
        prepared.resolved_mode != ArtifactPreviewMode::Archive,
    ensures
        r@ == chunk_of(prepared@, session_id@, offset, bytes@),
{
    if prepared.resolved_mode == ArtifactPreviewMode::Text {
        let text = match decode_text_excerpt(bytes.as_slice()) {
            Some(text) => text,
            None => decode_utf8_lossy(bytes.as_slice()),
        };
        let none: Vec<HexPreviewRow> = Vec::new();
        assert(hex_row_views(none@) =~= seq![]);
        build_chunk(
            session_id,
            prepared,
            ArtifactPreviewMode::Text,
            offset,
            bytes.len(),
            Some(text),
            none,
        )
    } else {
        let rows = build_hex_rows(offset, bytes.as_slice());
        build_chunk(
            session_id,
            prepared,
            ArtifactPreviewMode::Hex,
            offset,
            bytes.len(),
            None,
            rows,
        )
    }
}

fn archive_chunk(session_id: &str, prepared: &PreparedPreviewSession) -> (r: PreviewChunkResponse)
    requires
        prepared.resolved_mode == ArtifactPreviewMode::Archive,
    ensures
        forall|offset: u64|
            r@ == #[trigger] chunk_of(prepared@, session_id@, offset, seq![]),
{
    let rows: Vec<HexPreviewRow> = Vec::new();
    assert(hex_row_views(rows@) =~= seq![]);
    let mut chunk = build_chunk(
        session_id,
        prepared,
        ArtifactPreviewMode::Archive,
        0,
        0,
        None,
        rows,
    );
    chunk.has_more = false;
    chunk
}

/// The chunk of a live entry that cannot be read, and why.
pub fn unavailable_entry_preview_chunk(
    session_id: &str,
    prepared: &PreparedPreviewSession,
    offset: u64,
    resolved_mode: ArtifactPreviewMode,
    warning: String,
) -> (r: PreviewChunkResponse)
    ensures
        r@ == unavailable_chunk(prepared@, session_id@, offset, resolved_mode, warning@),
{
    let text: Option<String> = if resolved_mode == ArtifactPreviewMode::Text {
        let empty = String::new();
        assert(empty@ =~= seq![]);
        Some(empty)
    } else {
        None
    };
    let rows: Vec<HexPreviewRow> = Vec::new();
    assert(hex_row_views(rows@) =~= seq![]);
    let mut chunk = build_chunk(session_id, prepared, resolved_mode, offset, 0, text, rows);
    chunk.has_more = false;
    push_unique_warning(&mut chunk.warnings, warning);
    chunk
}

/// The chunk of a deleted file, from the read of its window.
pub fn read_artifact_preview_chunk(
    session_id: &str,
    prepared: &PreparedPreviewSession,
    offset: u64,
    length: u64,
    read: Result<Vec<u8>, RssError>,
) -> (r: Result<PreviewChunkResponse, RssError>)
    requires
        fits_window(bytes_result(read), chunk_window(prepared@, offset, length).1),
    ensures
        chunk_result(r) == artifact_chunk(
            prepared@,
            session_id@,
            chunk_window(prepared@, offset, length).0,
            bytes_result(read),
        ),
{
    let (start, _) = chunk_range(prepared, offset, length);
    if prepared.resolved_mode == ArtifactPreviewMode::Archive {
        let chunk = archive_chunk(session_id, prepared);
        assert(chunk@ == chunk_of(prepared@, session_id@, start, seq![]));
        return Ok(chunk);
    }
    match read {
        Ok(bytes) => Ok(fill_chunk(session_id, prepared, start, &bytes)),
        Err(e) => Err(e),
    }
}

/// The chunk of a live entry, from the read of its window.
pub fn read_entry_preview_chunk(
    session_id: &str,
    entry: &SourceEntry,
    prepared: &PreparedPreviewSession,
    offset: u64,
    length: u64,
    read: Result<Vec<u8>, RssError>,
) -> (r: PreviewChunkResponse)
    requires
        fits_window(bytes_result(read), chunk_window(prepared@, offset, length).1),
    ensures
        r@ == entry_chunk(
            prepared@,
            *entry,
            session_id@,
            chunk_window(prepared@, offset, length).0,
            bytes_result(read),
        ),
{
    let (start, _) = chunk_range(prepared, offset, length);
    let mode = if prepared.resolved_mode == ArtifactPreviewMode::Text {
        ArtifactPreviewMode::Text
    } else {
        ArtifactPreviewMode::Hex
    };
    if should_skip_live_byte_preview(entry) {
        let warning = describe_live_entry_open_failure(entry);
        return unavailable_entry_preview_chunk(session_id, prepared, start, mode, warning);
    }
    if prepared.resolved_mode == ArtifactPreviewMode::Archive {
        let chunk = archive_chunk(session_id, prepared);
        assert(chunk@ == chunk_of(prepared@, session_id@, start, seq![]));
        return chunk;
    }
    match read {
        Ok(bytes) => fill_chunk(session_id, prepared, start, &bytes),
        Err(RssError::Message(m)) => {
            let warning = describe_live_entry_read_error(entry, m.as_str());
            unavailable_entry_preview_chunk(session_id, prepared, start, mode, warning)
        },
    }
}

/// The chunk of the target of a session.
pub open spec fn target_chunk(
    target: PreviewSessionTarget,
    s: SessionView,
    id: Seq<char>,
    offset: u64,
    read: Result<Seq<u8>, Seq<char>>,
) -> Result<ChunkView, Seq<char>> {
    match target {
        PreviewSessionTarget::Artifact(_) => artifact_chunk(s, id, offset, read),
        PreviewSessionTarget::Entry { source, entry } => Ok(
            entry_chunk(s, entry, id, offset, read),
        ),
    }
}

/// Whether a chunk of a session needs its window: the members of an archive are known already,
/// and some live entries are never read.
pub open spec fn chunk_needs_read(target: PreviewSessionTarget, s: SessionView) -> bool {
    !is_archive(s) && (target matches PreviewSessionTarget::Entry { entry, .. }
        ==> !never_read(entry))
}

/// Whether a chunk of a session needs its window.
pub fn needs_chunk_read(target: &PreviewSessionTarget, prepared: &PreparedPreviewSession) -> (r:
    bool)
    ensures
        r == chunk_needs_read(*target, prepared@),
{
    if prepared.resolved_mode == ArtifactPreviewMode::Archive {
        return false;
    }
    match target {
        PreviewSessionTarget::Artifact(_) => true,
        PreviewSessionTarget::Entry { source: _, entry } => !should_skip_live_byte_preview(entry),
    }
}

/// A chunk that does not need its window is the same whatever was read.
pub proof fn lemma_unneeded_reads_change_nothing(
    target: PreviewSessionTarget,
    s: SessionView,
    id: Seq<char>,
    offset: u64,
    a: Result<Seq<u8>, Seq<char>>,
    b: Result<Seq<u8>, Seq<char>>,
)
    requires
        !chunk_needs_read(target, s),
    ensures
        target_chunk(target, s, id, offset, a) == target_chunk(target, s, id, offset, b),
{
}

/// The chunk of the target of a session, from the read of its window.
pub fn read_preview_chunk(
    session_id: &str,
    target: &PreviewSessionTarget,
    prepared: &PreparedPreviewSession,
    offset: u64,
    length: u64,
    read: Result<Vec<u8>, RssError>,
) -> (r: Result<PreviewChunkResponse, RssError>)
    requires
        fits_window(bytes_result(read), chunk_window(prepared@, offset, length).1),
    ensures
        chunk_result(r) == target_chunk(
            *target,
            prepared@,
            session_id@,
            chunk_window(prepared@, offset, length).0,
            bytes_result(read),
        ),
{
    match target {
        PreviewSessionTarget::Artifact(_) => read_artifact_preview_chunk(
            session_id,
            prepared,
            offset,
            length,
            read,
        ),
        PreviewSessionTarget::Entry { source: _, entry } => Ok(
            read_entry_preview_chunk(session_id, entry, prepared, offset, length, read),
        ),
    }
}

// ---------------------------------------------------------------------------
// Pages of members, and what a session offers.

pub open spec fn page_limit(limit: usize) -> int {
    if limit < 1 {
        1
    } else if limit > 2048 {
        2048
    } else {
        limit as int
    }
}

pub open spec fn lesser(a: int, b: int) -> int {
    if a < b {
        a
    } else {
        b
    }
}

fn copy_members(entries: &Vec<ArchivePreviewEntry>, from: usize, to: usize) -> (r: Vec<
    ArchivePreviewEntry,
>)
    requires
        from <= to <= entries@.len(),
    ensures
        r@ == entries@.subrange(from as int, to as int),
{
    let mut out: Vec<ArchivePreviewEntry> = Vec::new();
    let mut i: usize = from;
    while i < to
        invariant
            from <= i <= to <= entries@.len(),
            out@ == entries@.subrange(from as int, i as int),
        decreases to - i,
    {
        out.push(entries[i].clone());
        assert(out@ =~= entries@.subrange(from as int, i + 1));
        i += 1;
    }
    out
}

/// One page of the members of an archive: at most so many as are asked for, from the offset on.
pub open spec fn is_archive_page(
    r: ArchivePreviewPage,
    session_id: Seq<char>,
    target_key: Seq<char>,
    listing: PreviewArchiveListing,
    offset: usize,
    limit: usize,
    warnings: Seq<Seq<char>>,
) -> bool {
    let n = listing.entries@.len() as int;
    let start = lesser(offset as int, n);
    let end = lesser(start + page_limit(limit), n);
    &&& r.session_id@ == session_id
    &&& r.target_key@ == target_key
    &&& r.offset == start
    &&& r.count == end - start
    &&& r.total_entries == listing.total_entries
    &&& r.has_more == (end < n || (listing.total_entries matches Some(total) && end < total))
    &&& views(r.warnings@) == warnings
    &&& r.entries@ == listing.entries@.subrange(start, end)
}

/// One page of the members of an archive.
pub fn read_archive_page(
    session_id: &str,
    target_key: &str,
    listing: &PreviewArchiveListing,
    offset: usize,
    limit: usize,
    warnings: &Vec<String>,
) -> (r: ArchivePreviewPage)
    ensures
        is_archive_page(
            r,
            session_id@,
            target_key@,
            *listing,
            offset,
            limit,
            views(warnings@),
        ),
{
    let n: usize = listing.entries.len();
    let start: usize = if offset < n {
        offset
    } else {
        n
    };
    let wanted: usize = if limit < 1 {
        1
    } else if limit > 2048 {
        2048
    } else {
        limit
    };
    let end: usize = if n - start <= wanted {
        n
    } else {
        start + wanted
    };
    let more = end < n || (match listing.total_entries {
        Some(total) => end < total,
        None => false,
    });
    let said = clone_strings(warnings);
    assert(views(said@) =~= views(warnings@));
    ArchivePreviewPage {
        session_id: owned(session_id),
        target_key: owned(target_key),
        offset: start,
        count: end - start,
        total_entries: listing.total_entries,
        has_more: more,
        warnings: said,
        entries: copy_members(&listing.entries, start, end),
    }
}

/// What a session offers.
pub open spec fn is_session_info(
    r: PreviewSessionInfo,
    session_id: Seq<char>,
    prepared: PreparedPreviewSession,
) -> bool {
    &&& r.session_id@ == session_id
    &&& r.target_key@ == prepared.target_key@
    &&& r.requested_mode == prepared.requested_mode
    &&& r.resolved_mode == prepared.resolved_mode
    &&& r.total_size == prepared.total_size
    &&& fact_views(r.summary@) == fact_views(prepared.summary@)
    &&& views(r.warnings@) == views(prepared.warnings@)
    &&& r.preview_ready == (prepared.resolved_mode != ArtifactPreviewMode::Archive
        || prepared.archive_listing is Some)
    &&& r.archive_entry_count == match prepared.archive_listing {
        Some(listing) => listing.total_entries,
        None => None,
    }
    &&& r.archive_entries_truncated == (prepared.archive_listing matches Some(listing)
        && listing.truncated)
}

pub fn session_info(session_id: &str, prepared: &PreparedPreviewSession) -> (r: PreviewSessionInfo)
    ensures
        is_session_info(r, session_id@, *prepared),
{
    let summary = clone_preview_facts(&prepared.summary);
    let warnings = clone_strings(&prepared.warnings);
    assert(fact_views(summary@) =~= fact_views(prepared.summary@));
    assert(views(warnings@) =~= views(prepared.warnings@));
    PreviewSessionInfo {
        session_id: owned(session_id),
        target_key: prepared.target_key.clone(),
        requested_mode: prepared.requested_mode,
        resolved_mode: prepared.resolved_mode,
        total_size: prepared.total_size,
        summary,
        warnings,
        preview_ready: prepared.resolved_mode != ArtifactPreviewMode::Archive
            || prepared.archive_listing.is_some(),
        archive_entry_count: match &prepared.archive_listing {
            Some(listing) => listing.total_entries,
            None => None,
        },
        archive_entries_truncated: match &prepared.archive_listing {
            Some(listing) => listing.truncated,
            None => false,
        },
    }
}

// ---------------------------------------------------------------------------
// What sessions promise.

/// A session that shows members has a listing, and one that shows anything else has none; a
/// listing is never empty.
pub proof fn lemma_members_need_a_listing(
    s: SessionView,
    name: Seq<char>,
    kind: ArtifactKind,
    read: Result<Seq<u8>, Seq<char>>,
)
    requires
        s.listing is None,
    ensures
        ({
            let r = prepared(s, name, kind, read);
            &&& r.listing is Some <==> r.resolved_mode == ArtifactPreviewMode::Archive
            &&& r.listing matches Some(listing) ==> listing.entries.len() > 0
        }),
{
}

/// Chunk after chunk leads through the whole file: a chunk that is not the last ends where
/// the next one starts, and moves on by at least one byte where it read its window.
pub proof fn lemma_chunks_follow_each_other(
    s: SessionView,
    id: Seq<char>,
    offset: u64,
    length: u64,
    bytes: Seq<u8>,
)
    requires
        !is_archive(s),
        bytes.len() == chunk_window(s, offset, length).1,
    ensures
        ({
            let w = chunk_window(s, offset, length);
            let chunk = chunk_of(s, id, w.0, bytes);
            &&& chunk.offset + chunk.length <= s.total_size
            &&& chunk.has_more ==> {
                &&& chunk.length > 0
                &&& chunk_window(s, (chunk.offset + chunk.length) as u64, length).0 == chunk.offset
                    + chunk.length
            }
            &&& !chunk.has_more ==> chunk.offset + chunk.length == s.total_size
        }),
{
}

/// A protected entry is never read: its chunk is empty and says why, whatever a read gave.
pub proof fn lemma_protected_entries_are_not_read(
    s: SessionView,
    entry: SourceEntry,
    id: Seq<char>,
    offset: u64,
    read: Result<Seq<u8>, Seq<char>>,
)
    requires
        never_read(entry),
    ensures
        ({
            let chunk = entry_chunk(s, entry, id, offset, read);
            &&& chunk.length == 0
            &&& chunk.rows.len() == 0
            &&& !chunk.has_more
            &&& chunk.warnings.contains(open_failure(entry))
        }),
{
    let warning = open_failure(entry);
    if !s.warnings.contains(warning) {
        let after = push_unique(s.warnings, warning);
        assert(after[after.len() - 1] == warning);
    }
}

} // verus!
