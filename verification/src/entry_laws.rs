//! What listings of folders, catalogs and archives show, told of the files in them.

use crate::archive::{
    archive_family, compound_entry, first_members, header_end, salvaged_member, zip_entry,
    MemberView,
};
use crate::bytes::{laid_at, le_bytes, lemma_le16_reads_back, lemma_le32_reads_back};
use crate::catalog::{pending_of, placed_row, NtfsFileFacts, PendingNtfsEntry, PendingView};
use crate::catalog_rows::{
    file_row, prefers, row_entry, second_text, stores, CatalogEntryRow, RowView, StoredRow,
};
use crate::clock::{rfc3339_text, time_text};
use crate::entries::{
    child_path, compare_key, display_path, entry_order, label_if, labels_of, lemma_entry_order,
    readable_entry, shown_entries, shows_entries, FileMetadata, MetadataReply,
};
use crate::kinds::utf8_lossy;
use crate::model::{
    ArchivePreviewEntry, ArchivePreviewEntryStatus, ArtifactKind, SourceAccessState,
    SourceDirectoryListing, SourceEntry, SourceEntryClass,
};
use crate::ntfs_records::logical_size;
use crate::pages::{page_end, page_offset, page_size, page_start};
use crate::sort::{lemma_stable_sorted_keeps_items, stable_sorted, text_before};
use crate::text::{ascii_lower, opt_view, views};
use vstd::prelude::*;
use vstd::string::*;

verus! {

// ---------------------------------------------------------------------------
// Fields.

/// What is told of an entry is what its fields hold.
pub proof fn lemma_entry_shows_its_fields(r: SourceEntry)
    ensures
        r@.name == r.name@,
        r@.path == r.path@,
        r@.parent_path == r.parent_path@,
        r@.mft_reference == r.mft_reference,
        r@.parent_reference == r.parent_reference,
        r@.extension == opt_view(r.extension),
        r@.is_directory == r.is_directory,
        r@.has_children == r.has_children,
        r@.is_metafile == r.is_metafile,
        r@.entry_class == r.entry_class,
        r@.size == r.size,
        r@.created_at == opt_view(r.created_at),
        r@.modified_at == opt_view(r.modified_at),
        r@.accessed_at == opt_view(r.accessed_at),
        r@.hidden == r.hidden,
        r@.system == r.system,
        r@.read_only == r.read_only,
        r@.attr_bits == r.attr_bits,
        r@.attributes == views(r.attributes@),
        r@.deleted_hits == r.deleted_hits,
        r@.access_state == r.access_state,
{
}

/// What is told of a row of the catalog is what its fields hold.
pub proof fn lemma_row_shows_its_fields(r: CatalogEntryRow)
    ensures
        r@.object_key == r.object_key@,
        r@.record == r.record,
        r@.parent_record == r.parent_record,
        r@.parent_path_key == r.parent_path_key@,
        r@.path == r.path@,
        r@.path_key == r.path_key@,
        r@.name == r.name@,
        r@.extension == opt_view(r.extension),
        r@.is_directory == r.is_directory,
        r@.is_metafile == r.is_metafile,
        r@.entry_class == r.entry_class,
        r@.size == r.size,
        r@.created_at == opt_view(r.created_at),
        r@.modified_at == opt_view(r.modified_at),
        r@.accessed_at == opt_view(r.accessed_at),
        r@.hidden == r.hidden,
        r@.system == r.system,
        r@.read_only == r.read_only,
        r@.attr_bits == r.attr_bits,
        r@.access_state == r.access_state,
{
}

/// What is told of an entry that is not placed yet is what its fields hold.
pub proof fn lemma_pending_entry_shows_its_fields(r: PendingNtfsEntry)
    ensures
        r@.record == r.record,
        r@.parent_record == r.parent_record,
        r@.name == r.name@,
        r@.extension == opt_view(r.extension),
        r@.is_directory == r.is_directory,
        r@.is_metafile == r.is_metafile,
        r@.size == r.size,
        r@.created_at == opt_view(r.created_at),
        r@.modified_at == opt_view(r.modified_at),
        r@.accessed_at == opt_view(r.accessed_at),
        r@.hidden == r.hidden,
        r@.system == r.system,
        r@.read_only == r.read_only,
        r@.attr_bits == r.attr_bits,
        r@.access_state == r.access_state,
{
}

/// What is told of a member of an archive is what its fields hold.
pub proof fn lemma_member_shows_its_fields(r: ArchivePreviewEntry)
    ensures
        r@.path == r.path@,
        r@.kind == opt_view(r.kind),
        r@.size == r.size,
        r@.compressed_size == r.compressed_size,
        r@.status == r.status,
        r@.note == opt_view(r.note),
{
}

// ---------------------------------------------------------------------------
// Attributes.

/// Each attribute is a bit of its own.
pub proof fn lemma_attribute_bits(a: u32)
    ensures
        a & 0x0001u32 != 0 <==> a % 2 == 1,
        a & 0x0002u32 != 0 <==> a / 2 % 2 == 1,
        a & 0x0004u32 != 0 <==> a / 4 % 2 == 1,
        a & 0x0400u32 != 0 <==> a / 0x400 % 2 == 1,
        a & 0x0200u32 != 0 <==> a / 0x200 % 2 == 1,
        a & 0x0800u32 != 0 <==> a / 0x800 % 2 == 1,
        a & 0x4000u32 != 0 <==> a / 0x4000 % 2 == 1,
{
    assert((a & 0x0001u32 != 0 <==> a % 2 == 1) && (a & 0x0002u32 != 0 <==> a / 2 % 2 == 1) && (a
        & 0x0004u32 != 0 <==> a / 4 % 2 == 1) && (a & 0x0400u32 != 0 <==> a / 0x400 % 2 == 1) && (a
        & 0x0200u32 != 0 <==> a / 0x200 % 2 == 1) && (a & 0x0800u32 != 0 <==> a / 0x800 % 2 == 1)
        && (a & 0x4000u32 != 0 <==> a / 0x4000 % 2 == 1)) by (bit_vector);
}

/// The entry of a file that can be read shows its size, its times and its attributes, each of its
/// own kind.
pub proof fn lemma_entries_show_the_file(
    name: Seq<char>,
    path: Seq<char>,
    parent: Seq<char>,
    extension: Option<Seq<char>>,
    m: FileMetadata,
)
    ensures
        ({
            let e = readable_entry(name, path, parent, extension, m);
            &&& e.name == name && e.path == path && e.parent_path == parent
            &&& e.is_directory == m.is_directory
            &&& e.size == if m.is_directory {
                0u64
            } else {
                m.length
            }
            &&& e.created_at == time_text(m.created)
            &&& e.modified_at == time_text(m.modified)
            &&& e.accessed_at == time_text(m.accessed)
            &&& e.hidden <==> m.attributes / 2 % 2 == 1
            &&& e.system <==> m.attributes / 4 % 2 == 1
            &&& e.read_only <==> m.attributes % 2 == 1 || m.readonly
            &&& e.attr_bits == Some(m.attributes)
            &&& e.has_children == Some(m.is_directory && m.attributes / 0x400 % 2 == 0)
            &&& e.access_state == SourceAccessState::Readable && e.deleted_hits == 0
            &&& m.is_directory ==> e.extension is None
            &&& !m.is_directory ==> e.extension == extension
            &&& name.len() > 0 && name[0] == '$' ==> e.is_metafile && (e.entry_class
                == SourceEntryClass::MetadataFile || e.entry_class
                == SourceEntryClass::MetadataDirectory)
        }),
{
    lemma_attribute_bits(m.attributes);
}

/// A label of the front stays when more is put behind.
proof fn lemma_label_stays(front: Seq<Seq<char>>, more: Seq<Seq<char>>, label: Seq<char>)
    ensures
        front.contains(label) ==> (front + more).contains(label),
        more.contains(label) ==> (front + more).contains(label),
{
    if front.contains(label) {
        let i = choose|i: int| 0 <= i < front.len() && front[i] == label;
        assert((front + more)[i] == label);
    }
    if more.contains(label) {
        let i = choose|i: int| 0 <= i < more.len() && more[i] == label;
        assert((front + more)[front.len() + i] == label);
    }
}

/// The labels of attributes begin with those that hide a file or guard it, where they are set.
pub proof fn lemma_labels_name_the_attributes(attributes: u32, read_only: bool)
    ensures
        attributes / 2 % 2 == 1 ==> labels_of(attributes, read_only).contains("hidden"@),
        attributes / 4 % 2 == 1 ==> labels_of(attributes, read_only).contains("system"@),
        read_only ==> labels_of(attributes, read_only).contains("read_only"@),
{
    lemma_attribute_bits(attributes);
    let hidden = label_if(attributes & 0x0002u32 != 0, "hidden"@);
    let system = label_if(attributes & 0x0004u32 != 0, "system"@);
    let guarded = label_if(read_only, "read_only"@);
    let l1 = label_if(attributes & 0x0400u32 != 0, "reparse_point"@);
    let l2 = label_if(attributes & 0x0200u32 != 0, "sparse"@);
    let l3 = label_if(attributes & 0x0800u32 != 0, "compressed"@);
    let l4 = label_if(attributes & 0x4000u32 != 0, "encrypted"@);
    let l5 = label_if(attributes & 0x1000u32 != 0, "offline"@);
    let l6 = label_if(attributes & 0x0100u32 != 0, "temporary"@);
    let l7 = label_if(attributes & 0x2000u32 != 0, "not_content_indexed"@);
    let front = hidden + system + guarded;
    assert forall|label: Seq<char>| front.contains(label) implies labels_of(
        attributes,
        read_only,
    ).contains(label) by {
        lemma_label_stays(front, l1, label);
        lemma_label_stays(front + l1, l2, label);
        lemma_label_stays(front + l1 + l2, l3, label);
        lemma_label_stays(front + l1 + l2 + l3, l4, label);
        lemma_label_stays(front + l1 + l2 + l3 + l4, l5, label);
        lemma_label_stays(front + l1 + l2 + l3 + l4 + l5, l6, label);
        lemma_label_stays(front + l1 + l2 + l3 + l4 + l5 + l6, l7, label);
    }
    lemma_label_stays(hidden, system, "hidden"@);
    lemma_label_stays(hidden, system, "system"@);
    lemma_label_stays(hidden + system, guarded, "hidden"@);
    lemma_label_stays(hidden + system, guarded, "system"@);
    lemma_label_stays(hidden + system, guarded, "read_only"@);
    if attributes / 2 % 2 == 1 {
        assert(hidden[0] == "hidden"@);
    }
    if attributes / 4 % 2 == 1 {
        assert(system[0] == "system"@);
    }
    if read_only {
        assert(guarded[0] == "read_only"@);
    }
}

// ---------------------------------------------------------------------------
// Folders.

/// The entries of a folder go by name, upper and lower case alike, folders before files.
pub proof fn lemma_entries_go_by_name(
    r: SourceDirectoryListing,
    entries: Seq<SourceEntry>,
    cursor: Option<Seq<char>>,
    limit: Option<usize>,
    directories_only: bool,
    i: int,
    j: int,
)
    requires
        shows_entries(r, entries, cursor, limit, directories_only),
        0 <= i < j < r.entries@.len(),
    ensures
        r.entries@[j].is_directory ==> r.entries@[i].is_directory,
        r.entries@[i].is_directory == r.entries@[j].is_directory ==> !text_before(
            ascii_lower(r.entries@[j].name@),
            ascii_lower(r.entries@[i].name@),
        ),
{
    let shown = shown_entries(entries, directories_only);
    let total = shown.len() as int;
    let start = page_start(total, page_offset(cursor) as int);
    let sorted = choose|sorted: Seq<SourceEntry>| #[trigger]
        stable_sorted(shown, sorted, entry_order()) && r.entries@ == sorted.subrange(
            start,
            page_end(total, page_offset(cursor) as int, page_size(limit) as int),
        );
    lemma_entry_order();
    lemma_stable_sorted_keeps_items(shown, sorted, entry_order());
    assert(sorted[start + i] == r.entries@[i]);
    assert(sorted[start + j] == r.entries@[j]);
    assert(!entry_order()(sorted[start + j], sorted[start + i]));
}

/// A path is shown with backslashes, and a drive with one behind it; a file in a folder has the
/// path of the folder, one backslash and its name.
pub proof fn lemma_paths_are_shown_alike(parent: Seq<char>, child: Seq<char>, drive: char)
    requires
        drive != '/',
    ensures
        display_path(seq![drive, ':']) == seq![drive, ':', '\\'],
        display_path(seq![drive, ':', '/']) == seq![drive, ':', '\\'],
        parent.len() > 0 && parent.last() == '\\' ==> child_path(parent, child) == parent + child,
        parent.len() == 0 || parent.last() != '\\' ==> child_path(parent, child) == parent
            + seq!['\\'] + child,
{
    reveal_strlit("\\");
    assert(display_path(seq![drive, ':']) =~= seq![drive, ':', '\\']);
    assert(display_path(seq![drive, ':', '/']) =~= seq![drive, ':', '\\']);
    assert("\\"@ =~= seq!['\\']);
}

// ---------------------------------------------------------------------------
// The catalog.

/// A record of the file table is pending with its own name, directory, size, times and attributes,
/// each of its own kind; free records, the root and records without a name are not.
pub proof fn lemma_pending_entries_show_the_record(f: NtfsFileFacts, mounted: bool)
    ensures
        !f.used || f.best_name is None ==> pending_of(f, mounted) is None,
        pending_of(f, mounted) matches Some(e) ==> {
            let best = f.best_name->0;
            &&& e.record == f.record && e.parent_record == best.parent_record
            &&& f.info_name@.len() > 0 ==> e.name == f.info_name@
            &&& f.info_name@.len() == 0 ==> e.name == best.name@
            &&& e.is_directory == f.is_directory
            &&& e.size >= f.info_size && e.size >= logical_size(f.data@) && (e.size == f.info_size
                || e.size == logical_size(f.data@))
            &&& e.created_at == time_text(f.created) && e.modified_at == time_text(f.modified)
                && e.accessed_at == time_text(f.accessed)
            &&& e.hidden <==> best.attributes / 2 % 2 == 1
            &&& e.system <==> best.attributes / 4 % 2 == 1
            &&& e.read_only <==> best.attributes % 2 == 1
            &&& e.attr_bits == best.attributes
            &&& mounted ==> e.access_state == SourceAccessState::Readable
            &&& !mounted ==> e.access_state == SourceAccessState::Unknown
        },
{
    if let Some(best) = f.best_name {
        lemma_attribute_bits(best.attributes);
    }
}

/// The row of a file in a folder holds what was pending, under the path of the folder and its name.
pub proof fn lemma_placed_rows_hold_what_was_pending(e: PendingView, parent: Seq<char>)
    ensures
        ({
            let row = placed_row(e, parent);
            &&& row.record == Some(e.record) && row.parent_record == Some(e.parent_record)
            &&& row.path == child_path(parent, e.name) && row.path_key == compare_key(
                child_path(parent, e.name),
            ) && row.parent_path_key == compare_key(parent)
            &&& row.name == e.name && row.extension == e.extension
            &&& row.is_directory == e.is_directory && row.is_metafile == e.is_metafile
            &&& row.size == e.size
            &&& row.created_at == e.created_at && row.modified_at == e.modified_at
                && row.accessed_at == e.accessed_at
            &&& row.hidden == e.hidden && row.system == e.system && row.read_only == e.read_only
            &&& row.attr_bits == e.attr_bits && row.access_state == e.access_state
        }),
{
}

/// The row of a file of a mounted volume shows its size and its times, to the second.
pub proof fn lemma_file_rows_show_the_file(
    file_name: Option<Seq<char>>,
    path: Seq<char>,
    parent_key: Seq<char>,
    m: FileMetadata,
)
    ensures
        ({
            let row = file_row(file_name, path, parent_key, MetadataReply::Found(m));
            &&& row.path == display_path(path) && row.path_key == compare_key(display_path(path))
                && row.parent_path_key == parent_key
            &&& row.is_directory == m.is_directory
            &&& row.size == if m.is_directory {
                0u64
            } else {
                m.length
            }
            &&& row.created_at == second_text(m.created) && row.modified_at == second_text(
                m.modified,
            ) && row.accessed_at == second_text(m.accessed)
            &&& row.hidden <==> m.attributes / 2 % 2 == 1
            &&& row.system <==> m.attributes / 4 % 2 == 1
            &&& row.attr_bits == m.attributes && row.access_state == SourceAccessState::Readable
        }),
        m.created matches Some(n) ==> n >= 0 ==> second_text(m.created) == rfc3339_text(
            (n / 1_000_000_000 * 1_000_000_000) as i128,
        ),
{
    lemma_attribute_bits(m.attributes);
    if let Some(n) = m.created {
        if n >= 0 {
            assert(n - n % 1_000_000_000 == n / 1_000_000_000 * 1_000_000_000);
        }
    }
}

/// An entry of a catalog shows its row.
pub proof fn lemma_catalog_entries_show_the_row(row: RowView, parent: Seq<char>)
    ensures
        ({
            let e = row_entry(row, parent);
            &&& e.name == row.name && e.path == row.path && e.parent_path == parent
            &&& e.mft_reference == row.record && e.parent_reference == row.parent_record
            &&& e.extension == row.extension && e.is_directory == row.is_directory
            &&& !row.is_directory ==> e.size == row.size
            &&& row.is_directory ==> e.size == 0
            &&& e.created_at == row.created_at && e.modified_at == row.modified_at && e.accessed_at
                == row.accessed_at
            &&& e.hidden == row.hidden && e.system == row.system && e.read_only == row.read_only
            &&& e.attr_bits == Some(row.attr_bits) && e.access_state == row.access_state
            &&& e.entry_class == row.entry_class
        }),
{
}

/// A row is stored under the names of its columns.
pub proof fn lemma_rows_are_stored_by_column(s: StoredRow, row: RowView)
    requires
        stores(s, row),
    ensures
        s.path@ == row.path && s.path_key@ == row.path_key && s.parent_path_key@
            == row.parent_path_key,
        s.name@ == row.name && s.lower_name@ == ascii_lower(row.name),
        opt_view(s.created_at) == row.created_at,
        opt_view(s.modified_at) == row.modified_at,
        opt_view(s.accessed_at) == row.accessed_at,
        s.is_directory == 1 <==> row.is_directory,
        s.hidden == 1 <==> row.hidden,
        s.system == 1 <==> row.system,
        s.read_only == 1 <==> row.read_only,
        s.attr_bits == row.attr_bits,
        row.size <= i64::MAX ==> s.size == row.size,
{
}

/// Of two rows with one path the readable one is kept, folders go before files, and a row that
/// knows its times before one that does not.
pub proof fn lemma_better_rows_are_kept(a: RowView, b: RowView)
    ensures
        a.entry_class == SourceEntryClass::Directory && b.entry_class == SourceEntryClass::File
            ==> prefers(a, b) && !prefers(b, a),
        a.entry_class == b.entry_class && a.access_state == SourceAccessState::Readable
            && b.access_state == SourceAccessState::Denied ==> prefers(a, b) && !prefers(b, a),
        a.entry_class == b.entry_class && a.access_state == b.access_state && a.created_at is Some
            && a.modified_at is Some && a.accessed_at is Some && b.modified_at is None ==> prefers(
            a,
            b,
        ) && !prefers(b, a),
        prefers(a, b) ==> !prefers(b, a),
{
}

// ---------------------------------------------------------------------------
// Archives.

/// A list of members is cut at its limit, and says how many there are.
pub proof fn lemma_lists_are_cut_at_the_limit(members: Seq<MemberView>, max: int)
    requires
        0 <= max,
        members.len() <= usize::MAX,
    ensures
        ({
            let listing = first_members(members, max);
            &&& listing.total_entries == Some(members.len() as usize)
            &&& listing.truncated <==> members.len() > max
            &&& members.len() <= max ==> listing.entries == members
            &&& members.len() > max ==> listing.entries.len() == max && forall|i: int|
                0 <= i < max ==> #[trigger] listing.entries[i] == members[i]
        }),
{
}

/// A member of a ZIP or TAR archive or of a compound file shows its name, its kind and its sizes.
pub proof fn lemma_members_show_their_sizes(
    name: Seq<char>,
    folder: bool,
    size: u64,
    packed: u64,
    has_size: bool,
)
    ensures
        zip_entry((name, folder, size, packed)).path == name,
        zip_entry((name, folder, size, packed)).size == Some(size),
        zip_entry((name, folder, size, packed)).compressed_size == Some(packed),
        zip_entry((name, folder, size, packed)).status == ArchivePreviewEntryStatus::Intact,
        folder ==> zip_entry((name, folder, size, packed)).kind == Some("directory"@),
        !folder ==> zip_entry((name, folder, size, packed)).kind == Some("file"@),
        has_size ==> compound_entry((name, folder, has_size, size)).size == Some(size),
        !has_size ==> compound_entry((name, folder, has_size, size)).size is None,
        folder ==> compound_entry((name, folder, has_size, size)).kind == Some("storage"@),
{
}

/// A local header of a ZIP file gives the name that follows it and its sizes: what the file packs
/// to at byte 18, what it unpacks to at byte 22.
pub proof fn lemma_local_headers_are_salvaged(
    s: Seq<u8>,
    at: int,
    flags: u8,
    packed: u32,
    size: u32,
    name: Seq<u8>,
    extra: u16,
)
    requires
        0 <= at,
        name.len() <= 0xffff,
        laid_at(s, at, seq![0x50u8, 0x4b, 0x03, 0x04]),
        laid_at(s, at + 6, seq![flags]),
        laid_at(s, at + 18, le_bytes(packed as int, 4)),
        laid_at(s, at + 22, le_bytes(size as int, 4)),
        laid_at(s, at + 26, le_bytes(name.len() as int, 2)),
        laid_at(s, at + 28, le_bytes(extra as int, 2)),
        laid_at(s, at + 30, name),
    ensures
        ({
            let m = salvaged_member(s, at);
            &&& m.path == utf8_lossy(name)
            &&& size > 0 ==> m.size == Some(size as u64)
            &&& size == 0 ==> m.size is None
            &&& packed > 0 ==> m.compressed_size == Some(packed as u64)
            &&& packed == 0 ==> m.compressed_size is None
            &&& flags / 8 % 2 == 1 ==> m.status == ArchivePreviewEntryStatus::Partial
            &&& flags / 8 % 2 == 0 ==> m.status == ArchivePreviewEntryStatus::Damaged
        }),
        header_end(s, at) == at + 30 + name.len() + extra,
{
    lemma_le32_reads_back(s, at + 18, packed as int);
    lemma_le32_reads_back(s, at + 22, size as int);
    lemma_le16_reads_back(s, at + 26, name.len() as int);
    lemma_le16_reads_back(s, at + 28, extra as int);
    assert(s[at + 6 + 0] == seq![flags][0]);
    assert(flags & 0x08u8 != 0 <==> flags / 8 % 2 == 1) by (bit_vector);
    assert(s.subrange(at + 30, at + 30 + name.len()) =~= name);
}

/// Each kind of archive is listed in its own way.
pub proof fn lemma_archives_are_listed_by_kind()
    ensures
        archive_family(ArtifactKind::Zip) is Zip && archive_family(ArtifactKind::Jar) is Zip
            && archive_family(ArtifactKind::Apk) is Zip,
        archive_family(ArtifactKind::Tar) is Tar,
        archive_family(ArtifactKind::Msi) is Compound && archive_family(ArtifactKind::OleCompound)
            is Compound,
        archive_family(ArtifactKind::Rar) is Container && archive_family(ArtifactKind::SevenZip)
            is Container && archive_family(ArtifactKind::Cab) is Container && archive_family(
            ArtifactKind::Iso,
        ) is Container,
        archive_family(ArtifactKind::Gzip) is Stream && archive_family(ArtifactKind::Bzip2)
            is Stream && archive_family(ArtifactKind::Xz) is Stream,
        archive_family(ArtifactKind::Pdf) is Other && archive_family(ArtifactKind::Unknown) is Other,
{
}

} // verus!
