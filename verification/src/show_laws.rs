//! What previews show of a file: which part, in which way, and what they say of it.

use crate::archive::ListingView;
use crate::kinds::utf8_lossy;
use crate::model::{
    ArchivePreviewPage, ArtifactKind, ArtifactPreviewMode, ArtifactPreviewResponse, ArtifactRecord,
    ContentPreviewResponse, PreviewChunkResponse, ScanSource, SourceEntry,
};
use crate::preview::{
    artifact_plan, artifact_response, artifact_step, content_response, entry_limit, entry_mode,
    entry_start, entry_step, members_shown, next_range, preferred_mode, rows_shown, text_shown,
    window_length, window_of, PlannedPreview, StepView,
};
use crate::preview_reads::{
    entry_kind_of, large_or_protected, never_read, prefers_record, swap_name, system_extension,
};
use crate::preview_session::{
    artifact_chunk, artifact_session, chunk_of, chunk_window, entry_chunk, entry_session,
    is_archive_page, prepared, ChunkView, SessionView,
};
use crate::preview_text::{excerpt, hex_row_views, is_nul, is_replacement, is_shown, text_of};
use crate::records::{fact_views, FactView};
use crate::text::{ascii_lower, count_if, opt_view, views};
use vstd::prelude::*;
use vstd::string::*;

verus! {

/// What is said of a preview is what its fields hold.
pub proof fn lemma_previews_say_their_fields(
    a: ArtifactPreviewResponse,
    c: ContentPreviewResponse,
)
    ensures
        artifact_response(a).0 == a.artifact_id@,
        artifact_response(a).1.requested_mode == a.requested_mode,
        artifact_response(a).1.resolved_mode == a.resolved_mode,
        artifact_response(a).1.offset == a.offset,
        artifact_response(a).1.length == a.length,
        artifact_response(a).1.total_size == a.total_size,
        artifact_response(a).1.has_more == a.has_more,
        artifact_response(a).1.warnings == views(a.warnings@),
        artifact_response(a).1.text == opt_view(a.text_excerpt),
        artifact_response(a).1.rows == hex_row_views(a.hex_rows@),
        artifact_response(a).1.entry_count == a.archive_entry_count,
        artifact_response(a).1.truncated == a.archive_entries_truncated,
        content_response(c).0 == c.target_key@,
        content_response(c).1.requested_mode == c.requested_mode,
        content_response(c).1.resolved_mode == c.resolved_mode,
        content_response(c).1.offset == c.offset,
        content_response(c).1.length == c.length,
        content_response(c).1.total_size == c.total_size,
        content_response(c).1.has_more == c.has_more,
        content_response(c).1.warnings == views(c.warnings@),
        content_response(c).1.text == opt_view(c.text_excerpt),
        content_response(c).1.rows == hex_row_views(c.hex_rows@),
        content_response(c).1.entry_count == c.archive_entry_count,
        content_response(c).1.truncated == c.archive_entries_truncated,
{
}

/// Written files are shown as text, packed ones by their members, all others by their bytes.
pub proof fn lemma_kinds_are_shown_their_way(kind: ArtifactKind)
    ensures
        preferred_mode(kind) is Text <==> kind is Txt || kind is Log || kind is Ini || kind is Cfg
            || kind is Json || kind is Yml || kind is Yaml || kind is Bat || kind is Cmd
            || kind is Ps1 || kind is Vbs || kind is Js,
        preferred_mode(kind) is Archive <==> kind is Zip || kind is Jar || kind is Apk || kind is Tar
            || kind is Gzip || kind is Bzip2 || kind is Xz || kind is Msi || kind is OleCompound
            || kind is Rar || kind is SevenZip || kind is Cab || kind is Iso,
        preferred_mode(kind) is Hex <==> !(preferred_mode(kind) is Text) && !(preferred_mode(
            kind,
        ) is Archive),
{
}

/// A window starts where it was asked for, stays within the file, and is as long as it was asked
/// for unless the file ends: from 256 bytes to 64 kilobytes, and 4 kilobytes where nothing else
/// was asked for.
pub proof fn lemma_windows_stay_in_the_file(
    offset: u64,
    length: Option<u64>,
    total: u64,
)
    ensures
        ({
            let n = window_length(length);
            let (start, size) = window_of(offset, n, total);
            &&& offset <= total ==> start == offset
            &&& offset > total ==> start == total
            &&& start + size <= total
            &&& start + n <= total ==> size == n
            &&& start + n > total ==> start + size == total
        }),
        length is None ==> window_length(length) == 4096,
        length matches Some(n) ==> {
            &&& 256 <= n <= 65536 ==> window_length(length) == n
            &&& n < 256 ==> window_length(length) == 256
            &&& n > 65536 ==> window_length(length) == 65536
        },
{
}

/// A preview of a recovered file plans to read the window that was asked for in the way that was
/// asked for; a large archive is shown by its bytes, with a warning.
pub proof fn lemma_plans_read_what_was_asked_for(
    kind: ArtifactKind,
    size: u64,
    facts: Seq<FactView>,
    mode: ArtifactPreviewMode,
    offset: u64,
    length: u64,
    max_entries: Option<usize>,
)
    requires
        256 <= length <= 65536,
        offset + length <= size,
    ensures
        ({
            let plan = artifact_plan(
                kind,
                size,
                facts,
                mode,
                Some(offset),
                Some(length),
                max_entries,
            );
            &&& plan.requested_mode == mode
            &&& plan.offset == offset
            &&& plan.length == length
            &&& plan.total_size == size
            &&& plan.summary == facts
            &&& mode is Text || mode is Auto && preferred_mode(kind) is Text
                <==> plan.stage is Text
            &&& (mode is Archive || mode is Auto && preferred_mode(kind) is Archive) && size <= 64
                * 1024 * 1024 <==> plan.stage is Archive
            &&& plan.warnings.len() > 0 <==> (mode is Archive || mode is Auto && preferred_mode(
                kind,
            ) is Archive) && size > 64 * 1024 * 1024
            &&& plan.stage is Archive ==> next_range(plan) == (0u64, size)
            &&& !(plan.stage is Archive) ==> next_range(plan) == (offset, length)
        }),
        ({
            let plan = artifact_plan(kind, size, facts, mode, None, Some(length), max_entries);
            plan.offset == 0 && plan.length == length
        }),
{
}

/// As many members are listed as were asked for, one at least and no more than the limit.
pub proof fn lemma_members_are_limited(a: usize, b: usize)
    ensures
        entry_limit(Some(0)) == 1,
        1 <= entry_limit(Some(a)) <= entry_limit(None),
        1 <= a <= entry_limit(None) ==> entry_limit(Some(a)) == a,
        a <= b ==> entry_limit(Some(a)) <= entry_limit(Some(b)),
{
}

/// A text or the bytes of a file are shown for the window that was read: where it starts, how
/// much was read, and whether the file goes on behind it.
pub proof fn lemma_shown_windows_tell_where_they_are(
    plan: PlannedPreview,
    bytes: Seq<u8>,
    text: Seq<char>,
)
    requires
        bytes.len() <= u64::MAX,
    ensures
        ({
            let t = text_shown(plan, bytes, text);
            let h = rows_shown(plan, bytes);
            &&& t.resolved_mode is Text && h.resolved_mode is Hex
            &&& t.text == Some(text) && h.text is None
            &&& t.rows.len() == 0
            &&& t.offset == plan.offset && h.offset == plan.offset
            &&& t.length == bytes.len() && h.length == bytes.len()
            &&& t.total_size == plan.total_size && h.total_size == plan.total_size
            &&& t.has_more <==> plan.offset + bytes.len() < plan.total_size
            &&& h.has_more <==> plan.offset + bytes.len() < plan.total_size
            &&& t.warnings == plan.warnings && h.warnings == plan.warnings
            &&& t.summary == plan.summary && h.summary == plan.summary
            &&& t.requested_mode == plan.requested_mode && h.requested_mode == plan.requested_mode
            &&& t.entries.len() == 0 && h.entries.len() == 0
        }),
{
}

/// The members of an archive are shown as they are listed, with a warning more where the list is
/// cut.
pub proof fn lemma_shown_members_are_those_listed(
    plan: PlannedPreview,
    listing: ListingView,
    warnings: Seq<Seq<char>>,
)
    ensures
        ({
            let p = members_shown(plan, listing, warnings);
            &&& p.resolved_mode is Archive
            &&& p.requested_mode == plan.requested_mode
            &&& p.entries == listing.entries
            &&& p.entry_count == listing.total_entries
            &&& p.truncated == listing.truncated
            &&& p.offset == 0 && !p.has_more
            &&& p.length <= p.total_size
            &&& p.total_size == plan.total_size
            &&& p.text is None && p.rows.len() == 0
            &&& (plan.warnings + warnings).is_prefix_of(p.warnings)
            &&& p.warnings.len() == plan.warnings.len() + warnings.len() + if listing.truncated {
                1int
            } else {
                0
            }
        }),
{
    let p = members_shown(plan, listing, warnings);
    let front = plan.warnings + warnings;
    assert(front =~= p.warnings.subrange(0, front.len() as int));
}

/// What was read is shown: text as text and bytes as bytes. Text that cannot be read as such is
/// read again as bytes, with a warning; what could not be read is refused.
pub proof fn lemma_reads_are_shown(
    plan: PlannedPreview,
    name: Seq<char>,
    kind: ArtifactKind,
    bytes: Seq<u8>,
    message: Seq<char>,
)
    requires
        bytes.len() <= u64::MAX,
    ensures
        plan.stage is Hex ==> artifact_step(plan, name, kind, Ok(bytes)) == StepView::Shown(
            rows_shown(plan, bytes),
        ),
        plan.stage is Hex || plan.stage is Text ==> artifact_step(plan, name, kind, Err(message))
            == StepView::Refused(message),
        plan.stage is Text ==> match artifact_step(plan, name, kind, Ok(bytes)) {
            StepView::Shown(p) => text_of(bytes) matches Some(t) && p.text == Some(t) && p.offset
                == plan.offset && p.length == bytes.len() && p.resolved_mode is Text,
            StepView::Read(next) => text_of(bytes) is None && next.stage is Hex && next.offset
                == plan.offset && next.length == plan.length && next.warnings.len()
                == plan.warnings.len() + 1,
            StepView::Refused(_) => false,
        },
        plan.stage is Archive ==> match artifact_step(plan, name, kind, Err(message)) {
            StepView::Read(next) => next.stage is Hex && next.offset == plan.offset && next.length
                == plan.length && next.warnings == plan.warnings.push(message),
            _ => false,
        },
        plan.stage is Archive ==> match artifact_step(plan, name, kind, Ok(bytes)) {
            StepView::Shown(p) => p.resolved_mode is Archive && p.entries.len() > 0,
            StepView::Read(next) => next.stage is Hex && next.offset == plan.offset && next.length
                == plan.length,
            StepView::Refused(_) => false,
        },
{
    assert(plan.warnings + seq![message] =~= plan.warnings.push(message));
}

/// A live file is shown in the way that was asked for. Where the way is left open, archives and
/// large or protected files are shown by their bytes with a warning, and folders and metafiles
/// without one.
pub proof fn lemma_live_files_are_shown_their_way(entry: SourceEntry, mode: ArtifactPreviewMode)
    ensures
        !(mode is Auto) ==> entry_mode(entry, mode).0 == mode && entry_mode(entry, mode).1.len()
            == 0,
        mode is Auto && (entry.is_directory || entry.is_metafile) ==> entry_mode(
            entry,
            mode,
        ).0 is Hex && entry_mode(entry, mode).1.len() == 0,
        mode is Auto && !entry.is_directory && !entry.is_metafile ==> {
            let preferred = preferred_mode(entry_kind_of(entry));
            &&& large_or_protected(entry) || preferred is Archive ==> entry_mode(
                entry,
                mode,
            ).0 is Hex && entry_mode(entry, mode).1.len() == 1
            &&& !large_or_protected(entry) && !(preferred is Archive) ==> entry_mode(entry, mode).0
                == preferred && entry_mode(entry, mode).1.len() == 0
        },
{
}

/// A file that the system keeps its memory in, and one that may not be read, are never read; one
/// of four gigabytes or more is large.
pub proof fn lemma_protected_files_are_known(entry: SourceEntry)
    ensures
        never_read(entry) <==> swap_name(entry.name@) || entry.access_state is Denied,
        never_read(entry) ==> large_or_protected(entry),
        entry.size >= 4 * 1024 * 1024 * 1024 ==> large_or_protected(entry),
        entry.size < 4 * 1024 * 1024 * 1024 && !never_read(entry) ==> !large_or_protected(entry),
{
}

/// The record of a file is read before its path where the file may not be read or belongs to the
/// system, on an NTFS volume that tells its record.
pub proof fn lemma_records_are_read_first(source: ScanSource, entry: SourceEntry)
    ensures
        prefers_record(source, entry) ==> source.filesystem is Ntfs && entry.mft_reference is Some,
        source.filesystem is Ntfs && entry.mft_reference is Some ==> {
            &&& entry.access_state is Denied ==> prefers_record(source, entry)
            &&& entry.system ==> prefers_record(source, entry)
            &&& !entry.system && !(entry.access_state is Denied) ==> (prefers_record(source, entry)
                <==> system_extension(opt_view(entry.extension)))
        },
        system_extension(Some("sys"@)),
        system_extension(Some("dll"@)),
        system_extension(Some("exe"@)),
        !system_extension(Some("txt"@)),
        !system_extension(None),
{
    reveal_strlit("sys");
    reveal_strlit("dll");
    reveal_strlit("exe");
    reveal_strlit("txt");
    reveal_strlit("mui");
    reveal_strlit("cat");
    reveal_strlit("ocx");
    reveal_strlit("cpl");
    assert(ascii_lower("sys"@) =~= "sys"@);
    assert(ascii_lower("dll"@) =~= "dll"@);
    assert(ascii_lower("exe"@) =~= "exe"@);
    assert(ascii_lower("txt"@)[0] == 't');
}

/// The preview of a live file starts with the window that was asked for; a folder has nothing to
/// show.
pub proof fn lemma_live_previews_start_with_the_window(
    entry: SourceEntry,
    mode: ArtifactPreviewMode,
    offset: u64,
    length: u64,
    max_entries: Option<usize>,
)
    requires
        256 <= length <= 65536,
        offset + length <= entry.size,
    ensures
        entry.is_directory ==> match entry_start(
            entry,
            mode,
            Some(offset),
            Some(length),
            max_entries,
        ) {
            StepView::Shown(p) => p.length == 0 && p.total_size == 0 && p.rows.len() == 0
                && p.text is None && !p.has_more && p.warnings.len() == 1,
            _ => false,
        },
        !entry.is_directory ==> match entry_start(
            entry,
            mode,
            Some(offset),
            Some(length),
            max_entries,
        ) {
            StepView::Read(plan) => plan.offset == offset && plan.length == length
                && plan.total_size == entry.size && plan.requested_mode == mode && (
            plan.stage is Archive ==> mode is Archive && entry.size <= 64 * 1024 * 1024) && (
            mode is Text ==> plan.stage is Text) && (mode is Hex ==> plan.stage is Hex),
            StepView::Refused(_) => mode is Archive && entry.size > 64 * 1024 * 1024,
            StepView::Shown(_) => false,
        },
{
}

/// A live file that could not be read shows nothing of its content and says why.
pub proof fn lemma_unread_live_files_say_why(
    plan: PlannedPreview,
    entry: SourceEntry,
    message: Seq<char>,
)
    ensures
        plan.stage is Hex || plan.stage is Text ==> match entry_step(plan, entry, Err(message)) {
            StepView::Shown(p) => p.length == 0 && !p.has_more && p.rows.len() == 0
                && p.warnings.len() == plan.warnings.len() + 1 && plan.warnings.is_prefix_of(
                p.warnings,
            ) && p.total_size == plan.total_size && (p.resolved_mode is Text
                <==> plan.stage is Text),
            _ => false,
        },
        plan.stage is Archive || plan.stage is Fallback ==> entry_step(plan, entry, Err(message))
            == StepView::Refused(message),
{
    if let StepView::Shown(p) = entry_step(plan, entry, Err(message)) {
        assert(plan.warnings =~= p.warnings.subrange(0, plan.warnings.len() as int));
    }
}

// ---------------------------------------------------------------------------
// Sessions.

/// What is said of a chunk is what its fields hold.
pub proof fn lemma_chunks_say_their_fields(r: PreviewChunkResponse)
    ensures
        r@.session_id == r.session_id@,
        r@.target_key == r.target_key@,
        r@.requested_mode == r.requested_mode,
        r@.resolved_mode == r.resolved_mode,
        r@.offset == r.offset,
        r@.length == r.length,
        r@.total_size == r.total_size,
        r@.has_more == r.has_more,
        r@.warnings == views(r.warnings@),
        r@.text == opt_view(r.text_excerpt),
        r@.rows == hex_row_views(r.hex_rows@),
{
}

/// A session is about the file that it was opened for.
pub proof fn lemma_sessions_are_about_their_file(
    artifact: ArtifactRecord,
    source: ScanSource,
    entry: SourceEntry,
    mode: ArtifactPreviewMode,
)
    ensures
        ({
            let s = artifact_session(artifact, mode);
            &&& s.total_size == artifact.size
            &&& s.requested_mode == mode
            &&& !(mode is Auto) ==> s.resolved_mode == mode
            &&& mode is Auto ==> s.resolved_mode == preferred_mode(artifact.kind)
            &&& s.summary == fact_views(artifact.preview@)
            &&& s.warnings.len() == 0 && s.listing is None
            &&& artifact.id@.is_suffix_of(s.target_key)
        }),
        ({
            let s = entry_session(source, entry, mode);
            &&& s.total_size == entry.size
            &&& s.requested_mode == mode
            &&& !(mode is Auto) ==> s.resolved_mode == mode
            &&& s.listing is None
            &&& entry.path@.is_suffix_of(s.target_key)
        }),
{
    let a = artifact_session(artifact, mode).target_key;
    assert(artifact.id@ =~= a.subrange(a.len() - artifact.id@.len(), a.len() as int));
    let e = entry_session(source, entry, mode).target_key;
    assert(entry.path@ =~= e.subrange(e.len() - entry.path@.len(), e.len() as int));
}

/// Preparing a session keeps its file; only an archive changes the way that it is shown, and only
/// where its members cannot be listed.
pub proof fn lemma_preparing_keeps_the_file(
    s: SessionView,
    name: Seq<char>,
    kind: ArtifactKind,
    read: Result<Seq<u8>, Seq<char>>,
)
    ensures
        ({
            let p = prepared(s, name, kind, read);
            &&& p.target_key == s.target_key
            &&& p.requested_mode == s.requested_mode
            &&& p.total_size == s.total_size
            &&& p.summary == s.summary
            &&& s.warnings.is_prefix_of(p.warnings)
            &&& !(s.resolved_mode is Archive) ==> p == s
            &&& s.resolved_mode is Archive ==> p.resolved_mode is Archive || p.resolved_mode is Hex
                && p.warnings.len() > s.warnings.len()
            &&& s.resolved_mode is Archive && (s.total_size > 64 * 1024 * 1024 || read is Err)
                ==> p.resolved_mode is Hex && p.warnings.len() == s.warnings.len() + 1
        }),
{
    let p = prepared(s, name, kind, read);
    assert(s.warnings =~= p.warnings.subrange(0, s.warnings.len() as int));
}

/// A chunk shows what was read where it was read: as text in a session of text, else by its
/// bytes. In a session of members it shows nothing.
pub proof fn lemma_chunks_show_what_was_read(
    s: SessionView,
    id: Seq<char>,
    offset: u64,
    bytes: Seq<u8>,
)
    requires
        bytes.len() <= u64::MAX,
    ensures
        ({
            let c = chunk_of(s, id, offset, bytes);
            &&& c.session_id == id
            &&& c.target_key == s.target_key
            &&& c.requested_mode == s.requested_mode
            &&& c.total_size == s.total_size
            &&& c.warnings == s.warnings
            &&& s.resolved_mode is Text ==> c.resolved_mode is Text && c.rows.len() == 0
                && match text_of(bytes) {
                Some(t) => c.text == Some(t),
                None => c.text == Some(utf8_lossy(bytes)),
            }
            &&& s.resolved_mode is Hex || s.resolved_mode is Auto ==> c.resolved_mode is Hex
                && c.text is None
            &&& s.resolved_mode is Archive ==> c.resolved_mode is Archive && c.length == 0
                && !c.has_more && c.text is None && c.rows.len() == 0
            &&& !(s.resolved_mode is Archive) ==> c.offset == offset && c.length == bytes.len() && (
            c.has_more <==> offset + bytes.len() < s.total_size)
        }),
{
}

/// The window of a chunk stays within its file, and is as long as it was asked for unless the
/// file ends.
pub proof fn lemma_chunk_windows_stay_in_the_file(s: SessionView, offset: u64, length: u64)
    requires
        256 <= length <= 65536,
    ensures
        ({
            let (start, size) = chunk_window(s, offset, length);
            &&& offset <= s.total_size ==> start == offset
            &&& start + size <= s.total_size
            &&& start + length <= s.total_size ==> size == length
            &&& start + length > s.total_size ==> start + size == s.total_size
        }),
{
}

/// A chunk of a recovered file that could not be read is refused; one of a live file says why it
/// is empty.
pub proof fn lemma_unread_chunks_say_why(
    s: SessionView,
    entry: SourceEntry,
    id: Seq<char>,
    offset: u64,
    message: Seq<char>,
)
    requires
        !(s.resolved_mode is Archive),
    ensures
        artifact_chunk(s, id, offset, Err(message)) == Err::<ChunkView, Seq<char>>(message),
        ({
            let c = entry_chunk(s, entry, id, offset, Err(message));
            &&& c.length == 0 && !c.has_more && c.rows.len() == 0
            &&& c.offset == offset && c.total_size == s.total_size
            &&& s.resolved_mode is Text <==> c.resolved_mode is Text
            &&& c.warnings.len() > 0
        }),
{
}

/// A page of members holds those that follow its start, and tells whether more follow.
pub proof fn lemma_member_pages_follow_the_list(
    r: ArchivePreviewPage,
    session_id: Seq<char>,
    target_key: Seq<char>,
    listing: crate::archive::PreviewArchiveListing,
    offset: usize,
    limit: usize,
    warnings: Seq<Seq<char>>,
    k: int,
)
    requires
        is_archive_page(r, session_id, target_key, listing, offset, limit, warnings),
        0 <= k < r.entries@.len(),
    ensures
        offset <= listing.entries@.len() ==> r.offset == offset,
        r.offset + r.count <= listing.entries@.len(),
        r.count == r.entries@.len(),
        r.entries@[k] == listing.entries@[r.offset + k],
        1 <= limit <= 2048 ==> r.count == limit || r.offset + r.count == listing.entries@.len()
            && r.count < limit,
        r.total_entries == listing.total_entries,
        listing.total_entries is None ==> (r.has_more <==> r.offset + r.count
            < listing.entries@.len()),
        r.offset + r.count < listing.entries@.len() ==> r.has_more,
{
}

// ---------------------------------------------------------------------------
// Text.

/// Text without zeros, whose characters were all decoded by a sure guess, is shown as it is; what
/// is mostly zeros is not text unless it is of two bytes a character; and without a decoding
/// there is no text.
pub proof fn lemma_clean_text_is_shown(
    bytes: Seq<u8>,
    encoding: Seq<char>,
    confident: bool,
    decoded: Option<Seq<char>>,
)
    ensures
        excerpt(bytes, encoding, confident, decoded) is Some && bytes.len() > 0 ==> excerpt(
            bytes,
            encoding,
            confident,
            decoded,
        ) == decoded,
        bytes.len() == 0 ==> excerpt(bytes, encoding, confident, decoded) == Some(Seq::<char>::empty()),
        bytes.len() > 0 && decoded is None ==> excerpt(bytes, encoding, confident, decoded) is None,
        bytes.len() > 0 && count_if(bytes, is_nul()) == bytes.len() && encoding != "UTF-16LE"@
            && encoding != "UTF-16BE"@ ==> excerpt(bytes, encoding, confident, decoded) is None,
        bytes.len() > 0 && count_if(bytes, is_nul()) == 0 && confident ==> (decoded matches Some(t)
            ==> count_if(t, is_replacement()) == 0 ==> excerpt(bytes, encoding, confident, decoded)
            == Some(t)),
        decoded matches Some(t) ==> bytes.len() > 0 ==> t.len() > 0 ==> count_if(
            t,
            is_replacement(),
        ) == t.len() ==> excerpt(bytes, encoding, confident, decoded) is None,
        decoded matches Some(t) ==> bytes.len() > 0 ==> t.len() > 0 ==> !confident ==> count_if(
            t,
            is_shown(),
        ) == 0 ==> excerpt(bytes, encoding, confident, decoded) is None,
        bytes.len() > 0 && !confident && decoded == Some(Seq::<char>::empty()) ==> excerpt(
            bytes,
            encoding,
            confident,
            decoded,
        ) is None,
        forall|b: u8| #[trigger] is_nul()(b) <==> b == 0,
        forall|c: char| #[trigger] is_replacement()(c) <==> c as int == 0xfffd,
{
}

/// A character is shown unless it controls; ends of lines and tabs are shown too.
pub proof fn lemma_shown_characters(c: char)
    ensures
        c as int >= 0xa0 ==> is_shown()(c),
        0x20 <= (c as int) && (c as int) < 0x7f ==> is_shown()(c),
        c == '\r' || c == '\n' || c == '\t' ==> is_shown()(c),
        c as int == 0 || c as int == 0x7f || c as int == 0x1b || c as int == 0x80 ==> !is_shown()(c),
{
}

} // verus!
