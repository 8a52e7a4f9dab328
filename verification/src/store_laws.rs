//! What index buffers and attributes store, how files and catalogs are named, and how the state of
//! jobs and scans is kept.

use crate::bridge_jobs::{answered, changed};
use crate::browse_listing::{is_bucket_listing, is_synthetic_listing};
use crate::bytes::{laid_at, le_bytes, lemma_le16_reads_back, lemma_le32_reads_back};
use crate::catalog::{fingerprint_of, is_catalog_listing, CatalogPage, CatalogQuery};
use crate::catalog_rows::row_entry;
use crate::evidence::entry_in_use;
use crate::fat::{entry_meaning, front_meaning, past_entry, popped, WalkView};
use crate::i30::{
    aligned, buffer_entries, fixup_refusal, lemma_stored_text_reads_back, node_at, root_buffer_size,
    root_entries, slack_start, stored_text, window_entries, DirectoryView, I30View,
};
use crate::jobs::JobView;
use crate::model::{
    PreviewSessionInfo, RssError, ScanOptions, ScanPhase, ScanSource, SourceDirectoryListing,
};
use crate::ntfs_browse::{
    empty_index, folder_answer, found_entry, found_path, found_record, BrowseIndexView,
};
use crate::ntfs_names::path_name;
use crate::ntfs_paths::{lemma_record_number_is_low_part, MftRecord};
use crate::numbers::{decimal, lemma_decimal_round_trip, parsed_u64};
use crate::preview_session::{is_session_info, PreparedPreviewSession};
use crate::recovery::{file_part, numbered_name};
use crate::scan_run::{begun, staged, ProgressView};
use crate::text::{lemma_last_index, trimmed};
use crate::usn::{stored_attribute_name, tail_bytes};
use crate::volume::is_best_of;
use crate::volume::DataAttribute;
use vstd::prelude::*;
use vstd::string::*;

verus! {

// ---------------------------------------------------------------------------
// Index buffers.

/// The root of a directory index tells the size of its buffers, and its entries lie behind its
/// header; an index of anything but names tells neither.
pub proof fn lemma_index_roots_tell_their_buffers(
    bytes: Seq<u8>,
    indexed: u32,
    size: u32,
    dir: Option<DirectoryView>,
)
    requires
        32 <= bytes.len(),
        laid_at(bytes, 0, le_bytes(indexed as int, 4)),
        laid_at(bytes, 8, le_bytes(size as int, 4)),
    ensures
        indexed == 0x30 ==> root_buffer_size(bytes) == Some(size) && root_entries(bytes, dir)
            == node_at(bytes, 16, dir, false),
        indexed != 0x30 ==> root_buffer_size(bytes) is None && root_entries(bytes, dir).len() == 0,
{
    lemma_le32_reads_back(bytes, 0, indexed as int);
    lemma_le32_reads_back(bytes, 8, size as int);
}

/// Entries in the slack are looked for behind the used part of a buffer, at every eighth byte.
pub proof fn lemma_slack_begins_behind_the_used_part(bytes: Seq<u8>, used: u32, n: int)
    requires
        40 <= 24 + used <= bytes.len(),
        laid_at(bytes, 28, le_bytes(used as int, 4)),
    ensures
        slack_start(bytes) == 24 + used,
        aligned(n) >= n,
        aligned(n) < n + 8,
        aligned(n) % 8 == 0,
{
    lemma_le32_reads_back(bytes, 28, used as int);
}

/// An index buffer is read that begins with its mark and whose list of saved sector ends lies in
/// it, with one place for each sector; any other is refused.
pub proof fn lemma_index_buffers_begin_with_their_mark(
    buffer: Seq<u8>,
    usa: u16,
    words: u16,
    dir: Option<DirectoryView>,
)
    requires
        24 <= buffer.len(),
        laid_at(buffer, 4, le_bytes(usa as int, 2)),
        laid_at(buffer, 6, le_bytes(words as int, 2)),
    ensures
        fixup_refusal(buffer) is None <==> laid_at(
            buffer,
            0,
            seq![0x49u8, 0x4eu8, 0x44u8, 0x58u8],
        ) && words >= 2 && usa + 2 * words <= buffer.len() && (words - 1) * 512 <= buffer.len(),
        fixup_refusal(buffer) is Some ==> buffer_entries(buffer, dir).len() == 0,
{
    lemma_le16_reads_back(buffer, 4, usa as int);
    lemma_le16_reads_back(buffer, 6, words as int);
    let mark = seq![0x49u8, 0x4eu8, 0x44u8, 0x58u8];
    if laid_at(buffer, 0, mark) {
        assert forall|k: int| 0 <= k < 4 implies buffer.subrange(0, 4)[k] == mark[k] by {
            assert(buffer[0 + k] == mark[k]);
        }
        assert(buffer.subrange(0, 4) =~= mark);
    }
    if crate::bytes::occurs_at(buffer, mark, 0) {
        assert forall|k: int| 0 <= k < mark.len() implies buffer[0 + k] == #[trigger] mark[k] by {
            assert(buffer.subrange(0, 4)[k] == mark[k]);
        }
    }
    let n = buffer.len() as int;
    assert(words - 1 > n / 512 <==> (words - 1) * 512 > n) by {
        assert(n == 512 * (n / 512) + n % 512);
    }
}

/// Buffer after buffer is read; what is left behind the last whole one is not.
pub proof fn lemma_index_buffers_follow_each_other(
    buffer: Seq<u8>,
    rest: Seq<u8>,
    size: int,
    dir: Option<DirectoryView>,
)
    requires
        0 < size == buffer.len(),
    ensures
        window_entries(buffer + rest, size, dir) == buffer_entries(buffer, dir) + window_entries(
            rest,
            size,
            dir,
        ),
        rest.len() < size ==> window_entries(rest, size, dir).len() == 0,
{
    let whole = buffer + rest;
    assert(whole.subrange(0, size) =~= buffer);
    assert(whole.subrange(size, whole.len() as int) =~= rest);
}

/// An entry is in use whose record still belongs to the same file and is used.
pub proof fn lemma_entries_in_use_belong_to_their_record(
    records: Seq<Option<MftRecord>>,
    e: I30View,
)
    ensures
        entry_in_use(records, e) <==> {
            let n = (e.file_reference % 0x1_0000_0000_0000) as int;
            n < records.len() && (records[n] matches Some(r) && r.reference == e.file_reference
                && r.used)
        },
{
    lemma_record_number_is_low_part(e.file_reference);
}

/// The name of an attribute is read where its header says: as many characters as its ninth byte
/// tells, from the place that the two bytes behind tell.
pub proof fn lemma_attribute_names_read_back(bytes: Seq<u8>, at: u16, name: Seq<char>)
    requires
        16 <= bytes.len(),
        0 < stored_text(name).len() <= 510,
        bytes[9] == stored_text(name).len() / 2,
        laid_at(bytes, 10, le_bytes(at as int, 2)),
        laid_at(bytes, at as int, stored_text(name)),
    ensures
        stored_attribute_name(bytes) == Some(name),
{
    lemma_le16_reads_back(bytes, 10, at as int);
    lemma_stored_text_reads_back(name);
    let text = stored_text(name);
    assert(text.len() % 2 == 0);
    assert(2 * bytes[9] == text.len());
    assert(bytes.subrange(at as int, at + text.len()) =~= text);
}

/// An attribute whose header tells no length has no name.
pub proof fn lemma_attributes_without_length_have_no_name(bytes: Seq<u8>)
    requires
        bytes[9] == 0,
    ensures
        stored_attribute_name(bytes) is None,
{
}

/// The tail of some bytes are the last ones, and all of them where there are no more.
pub proof fn lemma_tails_are_the_last_bytes(bytes: Seq<u8>, n: int)
    requires
        0 <= n,
    ensures
        tail_bytes(bytes, n).is_suffix_of(bytes),
        bytes.len() >= n ==> tail_bytes(bytes, n).len() == n,
        bytes.len() <= n ==> tail_bytes(bytes, n) == bytes,
{
    let t = tail_bytes(bytes, n);
    assert(t =~= bytes.subrange(bytes.len() - t.len(), bytes.len() as int));
    if bytes.len() <= n {
        assert(t =~= bytes);
    }
}

/// The best stream of a file is the largest of its sort, and of equals the first.
pub proof fn lemma_best_streams_are_the_largest(
    attributes: Seq<DataAttribute>,
    named: bool,
    i: int,
    j: int,
)
    requires
        is_best_of(attributes, named, i),
        0 <= j < attributes.len(),
        attributes[j].named == named,
        attributes[j].stream is Some,
    ensures
        0 <= i < attributes.len(),
        attributes[i].named == named,
        attributes[i].stream is Some,
        attributes[i].size >= attributes[j].size,
        attributes[i].size == attributes[j].size ==> i <= j,
{
    assert(crate::volume::stream_candidate(attributes, named, j));
}

// ---------------------------------------------------------------------------
// Directories of a FAT volume.

/// A walk takes the entries of a folder one by one, 32 bytes each, and ends where fewer are left.
pub proof fn lemma_walks_take_entries_one_by_one(w: WalkView)
    requires
        w.stack.len() > 0,
    ensures
        w.stack.last().rest.len() < 32 ==> front_meaning(w) is End,
        w.stack.last().rest.len() >= 32 ==> {
            let next = past_entry(w);
            &&& front_meaning(w) == entry_meaning(w.stack.last().rest.subrange(0, 32))
            &&& next.stack.len() == w.stack.len()
            &&& next.stack.last().path == w.stack.last().path
            &&& next.stack.last().rest.len() == w.stack.last().rest.len() - 32
            &&& next.stack.last().rest.is_suffix_of(w.stack.last().rest)
            &&& next.visited == w.visited && next.layout == w.layout
        },
        popped(w).stack == w.stack.drop_last(),
        popped(w).visited == w.visited,
{
    if w.stack.last().rest.len() >= 32 {
        let rest = w.stack.last().rest;
        let left = past_entry(w).stack.last().rest;
        assert(left =~= rest.subrange(rest.len() - left.len(), rest.len() as int));
    }
}

// ---------------------------------------------------------------------------
// Names of files and catalogs.

proof fn lemma_numbers_differ(n: nat, m: nat)
    requires
        decimal(n) == decimal(m),
    ensures
        n == m,
{
    lemma_decimal_round_trip(n);
    lemma_decimal_round_trip(m);
}

proof fn lemma_middle_is_told(front: Seq<char>, a: Seq<char>, b: Seq<char>, back: Seq<char>)
    requires
        front + a + back == front + b + back,
    ensures
        a == b,
{
    let x = front + a + back;
    let y = front + b + back;
    assert(x.len() == y.len());
    assert(a =~= x.subrange(front.len() as int, (front.len() + a.len()) as int));
    assert(b =~= y.subrange(front.len() as int, (front.len() + b.len()) as int));
}

/// Numbered names differ where their numbers do, begin with the name and end with its extension.
pub proof fn lemma_numbered_names_differ(stem: Seq<char>, e: &str, i: u32, j: u32)
    requires
        e@.len() > 0,
    ensures
        numbered_name(stem, Some(e), i) == numbered_name(stem, Some(e), j) ==> i == j,
        numbered_name(stem, None, i) == numbered_name(stem, None, j) ==> i == j,
        stem.is_prefix_of(numbered_name(stem, Some(e), i)),
        e@.is_suffix_of(numbered_name(stem, Some(e), i)),
        numbered_name(stem, Some(e), i).len() == stem.len() + 1 + decimal(i as nat).len() + 1
            + e@.len(),
{
    reveal_strlit("_");
    reveal_strlit(".");
    let front = stem + "_"@;
    let full = numbered_name(stem, Some(e), i);
    assert(stem =~= full.subrange(0, stem.len() as int));
    assert(e@ =~= full.subrange(full.len() - e@.len(), full.len() as int));
    if full == numbered_name(stem, Some(e), j) {
        let back = "."@ + e@;
        assert(full =~= front + decimal(i as nat) + back);
        assert(numbered_name(stem, Some(e), j) =~= front + decimal(j as nat) + back);
        lemma_middle_is_told(front, decimal(i as nat), decimal(j as nat), back);
        lemma_numbers_differ(i as nat, j as nat);
    }
    if numbered_name(stem, None, i) == numbered_name(stem, None, j) {
        let none: Seq<char> = seq![];
        assert(front + decimal(i as nat) + none =~= front + decimal(i as nat));
        assert(front + decimal(j as nat) + none =~= front + decimal(j as nat));
        lemma_middle_is_told(front, decimal(i as nat), decimal(j as nat), none);
        lemma_numbers_differ(i as nat, j as nat);
    }
}

/// A file holds the bytes that were stored for it, no more than it is long.
pub proof fn lemma_files_hold_the_front_of_what_was_stored(bytes: Seq<u8>, size: u64)
    ensures
        file_part(bytes, size).is_prefix_of(bytes),
        bytes.len() <= size ==> file_part(bytes, size) == bytes,
        bytes.len() >= size ==> file_part(bytes, size).len() == size,
{
    let p = file_part(bytes, size);
    assert(p =~= bytes.subrange(0, p.len() as int));
}

/// The name of a file is what follows the last separator of its path.
pub proof fn lemma_names_follow_the_last_separator(folder: Seq<char>, name: Seq<char>)
    requires
        name.len() > 0,
        trimmed(name) == name,
        forall|i: int| 0 <= i < name.len() ==> #[trigger] name[i] != '\\' && name[i] != '/',
    ensures
        path_name(folder + seq!['\\'] + name) == Some(name),
        path_name(folder + seq!['/'] + name) == Some(name),
        path_name(name) == Some(name),
{
    let a = folder + seq!['\\'] + name;
    let b = folder + seq!['/'] + name;
    let shown_a = crate::text::replaced(a, '/', '\\');
    let shown_b = crate::text::replaced(b, '/', '\\');
    assert(shown_a[folder.len() as int] == '\\');
    assert(shown_b[folder.len() as int] == '\\');
    assert forall|j: int| folder.len() < j < shown_a.len() implies shown_a[j] != '\\' by {
        assert(a[j] == name[j - folder.len() - 1]);
    }
    assert forall|j: int| folder.len() < j < shown_b.len() implies shown_b[j] != '\\' by {
        assert(b[j] == name[j - folder.len() - 1]);
    }
    lemma_last_index(shown_a, '\\', folder.len() as int);
    lemma_last_index(shown_b, '\\', folder.len() as int);
    assert(shown_a.subrange(1int + folder.len(), shown_a.len() as int) =~= name);
    assert(shown_b.subrange(1int + folder.len(), shown_b.len() as int) =~= name);
    let shown = crate::text::replaced(name, '/', '\\');
    assert(shown =~= name);
    lemma_last_index(shown, '\\', -1);
}

proof fn lemma_joined_alike(x: Seq<char>, y: Seq<char>, z: Seq<char>)
    ensures
        x + y + z == x + (y + z),
{
    assert(x + y + z =~= x + (y + z));
}

/// What stands in the fingerprint of a source in front of its serial number.
pub open spec fn fingerprint_front(s: ScanSource) -> Seq<char> {
    s.id@ + "|"@ + s.device_path@ + "|"@ + crate::catalog::text_or_empty(
        crate::text::opt_view(s.mount_point),
    ) + "|"@ + crate::catalog::filesystem_name(s.filesystem) + "|"@
}

/// A source of another size has another fingerprint, all else being equal.
pub proof fn lemma_fingerprints_tell_the_size(a: ScanSource, b: ScanSource)
    requires
        fingerprint_front(a) == fingerprint_front(b),
        a.volume_serial == b.volume_serial,
        a.cluster_size == b.cluster_size,
    ensures
        fingerprint_of(a) == fingerprint_of(b) <==> a.total_bytes == b.total_bytes,
{
    let cluster = decimal(
        match a.cluster_size {
            Some(n) => n as nat,
            None => 0,
        },
    );
    let serial = decimal(
        match a.volume_serial {
            Some(n) => n as nat,
            None => 0,
        },
    );
    let more = fingerprint_front(a) + serial + "|"@;
    let (x, y) = (decimal(a.total_bytes as nat), decimal(b.total_bytes as nat));
    assert(fingerprint_of(a) == more + x + "|"@ + cluster);
    assert(fingerprint_of(b) == more + y + "|"@ + cluster);
    lemma_joined_alike(more + x, "|"@, cluster);
    lemma_joined_alike(more + y, "|"@, cluster);
    if fingerprint_of(a) == fingerprint_of(b) {
        lemma_middle_is_told(more, x, y, "|"@ + cluster);
        lemma_numbers_differ(a.total_bytes as nat, b.total_bytes as nat);
    }
}

/// A source with another serial number has another fingerprint, all else being equal.
pub proof fn lemma_fingerprints_tell_the_serial_number(a: ScanSource, b: ScanSource)
    requires
        fingerprint_front(a) == fingerprint_front(b),
        a.total_bytes == b.total_bytes,
        a.cluster_size == b.cluster_size,
        a.volume_serial is Some,
        b.volume_serial is Some,
    ensures
        fingerprint_of(a) == fingerprint_of(b) <==> a.volume_serial == b.volume_serial,
{
    let cluster = decimal(
        match a.cluster_size {
            Some(n) => n as nat,
            None => 0,
        },
    );
    let front = fingerprint_front(a);
    let total = decimal(a.total_bytes as nat);
    let (n, m) = (a.volume_serial->0 as nat, b.volume_serial->0 as nat);
    let (x, y) = (decimal(n), decimal(m));
    let back = "|"@ + total + "|"@ + cluster;
    assert(fingerprint_of(a) == front + x + "|"@ + total + "|"@ + cluster);
    assert(fingerprint_of(b) == front + y + "|"@ + total + "|"@ + cluster);
    lemma_joined_alike(front + x, "|"@, total);
    lemma_joined_alike(front + x, "|"@ + total, "|"@);
    lemma_joined_alike(front + x, "|"@ + total + "|"@, cluster);
    lemma_joined_alike(front + y, "|"@, total);
    lemma_joined_alike(front + y, "|"@ + total, "|"@);
    lemma_joined_alike(front + y, "|"@ + total + "|"@, cluster);
    if fingerprint_of(a) == fingerprint_of(b) {
        lemma_middle_is_told(front, x, y, back);
        lemma_numbers_differ(n, m);
    }
}

/// A number that was written is read back, as far as it can be held.
pub proof fn lemma_written_numbers_are_read_back(n: u64)
    ensures
        parsed_u64(decimal(n as nat)) == Some(n),
{
    lemma_decimal_round_trip(n as nat);
}

// ---------------------------------------------------------------------------
// Listings.

/// A page of a catalog shows its rows one by one, and where the next page begins.
pub proof fn lemma_catalog_pages_show_their_rows(
    r: SourceDirectoryListing,
    source: ScanSource,
    query: CatalogQuery,
    page: CatalogPage,
    parent: Option<Seq<char>>,
    k: int,
)
    requires
        is_catalog_listing(r, source, query, page, parent),
        0 <= k < page.rows@.len(),
        query.start + page.rows@.len() <= usize::MAX,
    ensures
        r.entries@.len() == page.rows@.len(),
        r.entries@[k]@ == row_entry(page.rows@[k]@, query.path@),
        r.source_id@ == source.id@,
        r.path@ == query.path@,
        r.total_entry_count == page.total,
        r.indexing_complete,
        r.next_cursor is None <==> query.start + page.rows@.len() >= page.total,
        r.next_cursor matches Some(c) ==> c@ == decimal((query.start + page.rows@.len()) as nat),
        r.deleted_artifacts@.len() == 0 && r.deleted_artifact_count == 0,
{
    let shown = crate::catalog::entry_views(r.entries@);
    let told = crate::catalog::rows_as_entries(page.rows@, query.path@);
    assert(shown.len() == told.len());
    assert(shown[k] == told[k]);
    assert(shown[k] == r.entries@[k]@);
}

/// A folder that collects files without a place shows deleted files alone, and counts them.
pub proof fn lemma_collecting_folders_show_deleted_files_alone(
    r: SourceDirectoryListing,
    source: ScanSource,
    cache: crate::browse_cache::DeletedBrowseCache,
    path: Seq<char>,
    results: Seq<crate::model::ArtifactRecord>,
    chosen: Seq<usize>,
    request: crate::model::BrowseSourceRequest,
)
    requires
        is_bucket_listing(r, source, cache, path, results, chosen, request),
    ensures
        r.entries@.len() == 0 && r.total_entry_count == 0 && r.next_cursor is None,
        r.path@ == path,
        r.source_id@ == source.id@,
        r.root_path@ == cache.root_path@,
        r.parent_path matches Some(p) && p@ == cache.root_path@,
        r.deleted_artifact_count == chosen.len(),
        r.deleted_subtree_count == chosen.len(),
{
}

/// A folder that is gone shows the folders that lie in it and its deleted files.
pub proof fn lemma_gone_folders_show_what_lies_in_them(
    r: SourceDirectoryListing,
    source: ScanSource,
    cache: crate::browse_cache::DeletedBrowseCache,
    folder: crate::browse_cache::DeletedFolderNode,
    key: Seq<char>,
    results: Seq<crate::model::ArtifactRecord>,
    chosen: Seq<usize>,
    request: crate::model::BrowseSourceRequest,
    k: int,
)
    requires
        is_synthetic_listing(r, source, cache, folder, key, results, chosen, request),
        0 <= k < r.entries@.len(),
    ensures
        r.path@ == folder.path@,
        r.parent_path == folder.parent_path,
        r.entries@.len() == crate::table::list_at(cache.route_folders_by_parent@, key).len(),
        r.entries@[k].path@ == crate::table::list_at(cache.route_folders_by_parent@, key)[k].path@,
        r.entries@[k].name@ == crate::table::list_at(cache.route_folders_by_parent@, key)[k].name@,
        r.entries@[k].is_directory,
        r.total_entry_count == r.entries@.len(),
        r.deleted_artifact_count == chosen.len(),
        r.deleted_subtree_count == crate::table::count_at(cache.subtree_deleted_counts@, key),
{
}

/// What is told of a preview session is what was prepared; it is ready unless it waits for the
/// members of an archive.
pub proof fn lemma_session_tells_what_was_prepared(
    r: PreviewSessionInfo,
    session_id: Seq<char>,
    p: PreparedPreviewSession,
)
    requires
        is_session_info(r, session_id, p),
    ensures
        r.session_id@ == session_id,
        r.target_key@ == p.target_key@,
        r.requested_mode == p.requested_mode && r.resolved_mode == p.resolved_mode,
        r.total_size == p.total_size,
        p.archive_listing is Some || !(p.resolved_mode is Archive) <==> r.preview_ready,
        p.archive_listing is None ==> r.archive_entry_count is None && !r.archive_entries_truncated,
        p.archive_listing matches Some(l) ==> r.archive_entry_count == l.total_entries
            && r.archive_entries_truncated == l.truncated,
{
}

// ---------------------------------------------------------------------------
// The index of a mounted volume.

/// An index starts with the root alone: under the path of the volume, and with nothing read.
pub proof fn lemma_indexes_start_with_the_root(source_id: Seq<char>, root: Seq<char>)
    ensures
        ({
            let v = empty_index(source_id, root);
            &&& v.source_id == source_id
            &&& v.root == crate::entries::display_path(root)
            &&& v.entries.dom() =~= Set::<u64>::empty() && v.children.dom() =~= Set::<u64>::empty()
            &&& v.paths.contains_key(5) && v.paths[5] == v.root
            &&& v.indexed_entries == 0 && v.generation == 0 && !v.complete && v.error is None
            &&& found_path(v, 5).0 == Ok::<Seq<char>, Seq<char>>(v.root)
        }),
{
}

/// A file that is known is shown under its own name, at its path, in the folder that is asked
/// about; an unknown record shows nothing.
pub proof fn lemma_known_files_are_shown(v: BrowseIndexView, record: u64, parent: Seq<char>)
    ensures
        !v.entries.contains_key(record) ==> found_entry(v, record, parent).0 is Ok && found_entry(
            v,
            record,
            parent,
        ).0->Ok_0 is None,
        v.entries.contains_key(record) ==> match found_entry(v, record, parent).0 {
            Ok(Some(e)) => found_path(v, record).0 == Ok::<Seq<char>, Seq<char>>(e.path) && e.name
                == v.entries[record].name && e.parent_path == parent && e.mft_reference == Some(
                v.entries[record].record,
            ),
            Ok(None) => false,
            Err(m) => found_path(v, record).0 == Err::<Seq<char>, Seq<char>>(m),
        },
{
}

/// A folder that is not found is an error once the index is complete, and empty as long as it is
/// not.
pub proof fn lemma_missing_folders_are_errors_in_the_end(v: BrowseIndexView, path: Seq<char>)
    requires
        found_record(v, path).0 is Err,
    ensures
        v.complete ==> folder_answer(v, path).0 is Err,
        !v.complete ==> folder_answer(v, path).0 is Ok && folder_answer(v, path).0->Ok_0.len() == 0,
{
}

// ---------------------------------------------------------------------------
// Jobs and scans.

/// A change of one job leaves the others as they are, and a job that is not known stays unknown.
pub proof fn lemma_jobs_change_alone<T>(
    jobs: Map<Seq<char>, JobView<T>>,
    id: Seq<char>,
    job: JobView<T>,
    other: Seq<char>,
)
    requires
        other != id,
    ensures
        changed(jobs, id, job).contains_key(other) <==> jobs.contains_key(other),
        jobs.contains_key(other) ==> changed(jobs, id, job)[other] == jobs[other],
        changed(jobs, id, job).contains_key(id) <==> jobs.contains_key(id),
        jobs.contains_key(id) ==> changed(jobs, id, job)[id] == job,
{
}

/// Nobody is answered about a job that is not known.
pub proof fn lemma_unknown_jobs_are_not_answered<T>(
    jobs: Map<Seq<char>, JobView<T>>,
    kind: Seq<char>,
    id: Seq<char>,
    r: Result<&T, RssError>,
)
    requires
        answered(jobs, kind, id, r),
        !jobs.contains_key(id),
    ensures
        r is Err,
{
}

/// A scan begins with nothing found and nothing read, and knows whether little sure results are
/// asked for.
pub proof fn lemma_runs_begin_with_nothing(
    scan_id: Seq<char>,
    source: ScanSource,
    options: ScanOptions,
    now: Seq<char>,
)
    ensures
        ({
            let r = begun(scan_id, source, options, now);
            &&& r.progress.scan_id == scan_id
            &&& r.progress.started_at == now
            &&& r.warnings.len() == 0
            &&& r.include_low_confidence == options.include_low_confidence
            &&& r.files_examined == 0 && r.metadata_bytes == 0 && r.carve_bytes == 0
            &&& r.hits.visible == 0 && r.hits.named == 0 && r.hits.recoverable == 0
        }),
{
}

/// A stage that begins shows itself, and keeps all that was counted.
pub proof fn lemma_stages_keep_the_counts(
    p: ProgressView,
    phase: ScanPhase,
    stage: Seq<char>,
    message: Seq<char>,
    finished: Seq<char>,
    millis: u64,
    now: Seq<char>,
)
    ensures
        ({
            let r = staged(p, phase, stage, message, finished, millis, now);
            &&& r.phase == phase && r.stage == stage && r.message == message
            &&& r.updated_at == now && r.last_progress_at == now && r.started_at == p.started_at
            &&& r.scan_id == p.scan_id && r.status == p.status
            &&& r.files_examined == p.files_examined && r.artifacts_found == p.artifacts_found
                && r.bytes_scanned == p.bytes_scanned
        }),
{
}

} // verus!
