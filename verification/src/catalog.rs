//! The catalog of a volume: all its files and folders under their full paths.

use crate::catalog_rows::{
    best_row, build_row_from_filesystem_path, catalog_entry_is_traversable_directory, file_row,
    keyed_by_path, lemma_best_row_keeps_keys, mark_directory_access_state, marked, push_best_row,
    row_entry, rows_view, CatalogEntryRow, RowView,
};
use crate::browse_listing::ref_view;
use crate::clock::{format_time, time_text};
use crate::codec::{sha256_hex, sha256_text};
use crate::entries::{
    can_navigate, child_path, class_of, classify_source_entry, compare_key, display_path,
    file_extension, file_extension_of, join_display_path, normalize_compare_string,
    normalize_display_string, normalize_parent_path, parent_shown, requested_path,
    requested_path_of, starts_with_dollar, EntryView, MetadataReply,
};
use crate::model::{
    message_of, BrowseSourceRequest, FileSystemKind, RssError, ScanSource, SourceAccessState,
    SourceDirectoryListing, SourceEntry, SourceEntryClass, SourceKind,
};
use crate::ntfs_paths::ROOT_RECORD;
use crate::ntfs_records::{logical_size, ntfs_primary_logical_size};
use crate::numbers::{decimal, parse_u64, parsed_u64, push_decimal};
use crate::pages::{cursor_behind, page_offset, page_offset_of, page_size, page_size_of};
use crate::seqs::turn_around;
use crate::table::{lemma_pairs_len, Table};
use crate::text::{
    ascii_lower, chars_of, clone_opt, concat2, count_if, opt_is, opt_view, owned, starts_with_char,
    to_ascii_lowercase,
};
use crate::volume::DataAttribute;
use std::collections::HashMap;
use vstd::prelude::*;
use vstd::string::*;
use vstd::utf8::encode_utf8;

verus! {

broadcast use vstd::std_specs::hash::group_hash_axioms;

// ---------------------------------------------------------------------------
// Files of the master file table under their paths.

/// A file of the master file table whose path is not known yet.
#[derive(Debug)]
pub struct PendingNtfsEntry {
    pub record: u64,
    pub parent_record: u64,
    pub name: String,
    pub extension: Option<String>,
    pub is_directory: bool,
    pub is_metafile: bool,
    pub size: u64,
    pub created_at: Option<String>,
    pub modified_at: Option<String>,
    pub accessed_at: Option<String>,
    pub hidden: bool,
    pub system: bool,
    pub read_only: bool,
    pub attr_bits: u32,
    pub access_state: SourceAccessState,
}

/// What a pending file says.
pub ghost struct PendingView {
    pub record: u64,
    pub parent_record: u64,
    pub name: Seq<char>,
    pub extension: Option<Seq<char>>,
    pub is_directory: bool,
    pub is_metafile: bool,
    pub size: u64,
    pub created_at: Option<Seq<char>>,
    pub modified_at: Option<Seq<char>>,
    pub accessed_at: Option<Seq<char>>,
    pub hidden: bool,
    pub system: bool,
    pub read_only: bool,
    pub attr_bits: u32,
    pub access_state: SourceAccessState,
}

impl View for PendingNtfsEntry {
    type V = PendingView;

    open spec fn view(&self) -> PendingView {
        PendingView {
            record: self.record,
            parent_record: self.parent_record,
            name: self.name@,
            extension: opt_view(self.extension),
            is_directory: self.is_directory,
            is_metafile: self.is_metafile,
            size: self.size,
            created_at: opt_view(self.created_at),
            modified_at: opt_view(self.modified_at),
            accessed_at: opt_view(self.accessed_at),
            hidden: self.hidden,
            system: self.system,
            read_only: self.read_only,
            attr_bits: self.attr_bits,
            access_state: self.access_state,
        }
    }
}

/// The row of the root of a volume.
pub open spec fn root_row(root: Seq<char>) -> RowView {
    RowView {
        object_key: "ntfs:record:"@ + decimal(ROOT_RECORD as nat),
        record: Some(ROOT_RECORD),
        parent_record: None,
        parent_path_key: seq![],
        path: root,
        path_key: compare_key(root),
        name: root,
        extension: None,
        is_directory: true,
        is_metafile: false,
        entry_class: SourceEntryClass::Directory,
        size: 0,
        created_at: None,
        modified_at: None,
        accessed_at: None,
        hidden: false,
        system: false,
        read_only: false,
        attr_bits: 0,
        access_state: SourceAccessState::Readable,
    }
}

/// The row of a file in the folder with the given path.
pub open spec fn placed_row(e: PendingView, parent: Seq<char>) -> RowView {
    RowView {
        object_key: "ntfs:record:"@ + decimal(e.record as nat),
        record: Some(e.record),
        parent_record: Some(e.parent_record),
        parent_path_key: compare_key(parent),
        path: child_path(parent, e.name),
        path_key: compare_key(child_path(parent, e.name)),
        name: e.name,
        extension: e.extension,
        is_directory: e.is_directory,
        is_metafile: e.is_metafile,
        entry_class: class_of(e.is_directory, e.is_metafile),
        size: e.size,
        created_at: e.created_at,
        modified_at: e.modified_at,
        accessed_at: e.accessed_at,
        hidden: e.hidden,
        system: e.system,
        read_only: e.read_only,
        attr_bits: e.attr_bits,
        access_state: e.access_state,
    }
}

fn record_key(record: u64) -> (r: String)
    ensures
        r@ == "ntfs:record:"@ + decimal(record as nat),
{
    let mut key = owned("ntfs:record:");
    push_decimal(&mut key, record);
    key
}

fn build_root_row(root: &str) -> (r: CatalogEntryRow)
    ensures
        r@ == root_row(root@),
{
    let row = CatalogEntryRow {
        object_key: record_key(ROOT_RECORD),
        record: Some(ROOT_RECORD),
        parent_record: None,
        parent_path_key: String::new(),
        path: owned(root),
        path_key: normalize_compare_string(root),
        name: owned(root),
        extension: None,
        is_directory: true,
        is_metafile: false,
        entry_class: SourceEntryClass::Directory,
        size: 0,
        created_at: None,
        modified_at: None,
        accessed_at: None,
        hidden: false,
        system: false,
        read_only: false,
        attr_bits: 0,
        access_state: SourceAccessState::Readable,
    };
    assert(row.parent_path_key@ =~= seq![]);
    row
}

fn build_placed_row(e: &PendingNtfsEntry, parent: &str, path: &str) -> (r: CatalogEntryRow)
    requires
        path@ == child_path(parent@, e.name@),
    ensures
        r@ == placed_row(e@, parent@),
{
    CatalogEntryRow {
        object_key: record_key(e.record),
        record: Some(e.record),
        parent_record: Some(e.parent_record),
        parent_path_key: normalize_compare_string(parent),
        path: owned(path),
        path_key: normalize_compare_string(path),
        name: e.name.clone(),
        extension: clone_opt(&e.extension),
        is_directory: e.is_directory,
        is_metafile: e.is_metafile,
        entry_class: classify_source_entry(e.is_directory, e.is_metafile),
        size: e.size,
        created_at: clone_opt(&e.created_at),
        modified_at: clone_opt(&e.modified_at),
        accessed_at: clone_opt(&e.accessed_at),
        hidden: e.hidden,
        system: e.system,
        read_only: e.read_only,
        attr_bits: e.attr_bits,
        access_state: e.access_state,
    }
}

/// The rows so far, the paths of the records that have one, and the folders whose files have
/// been placed.
#[verifier::ext_equal]
pub ghost struct Placement {
    pub rows: Map<Seq<char>, RowView>,
    pub paths: Map<u64, Seq<char>>,
    pub done: Set<u64>,
}

/// The path of a folder: that of the root where it has none.
pub open spec fn folder_path(paths: Map<u64, Seq<char>>, record: u64, root: Seq<char>) -> Seq<
    char,
> {
    if paths.contains_key(record) {
        paths[record]
    } else {
        root
    }
}

/// One file placed in a folder.
pub open spec fn placed(s: Placement, e: PendingView, parent: Seq<char>) -> Placement {
    Placement {
        rows: best_row(s.rows, placed_row(e, parent)),
        paths: s.paths.insert(e.record, child_path(parent, e.name)),
        done: s.done,
    }
}

/// The first `n` of the chosen files placed in a folder.
pub open spec fn all_placed(
    s: Placement,
    entries: Seq<PendingView>,
    chosen: Seq<usize>,
    parent: Seq<char>,
    n: int,
) -> Placement
    decreases n,
{
    if n <= 0 {
        s
    } else {
        placed(
            all_placed(s, entries, chosen, parent, n - 1),
            entries[chosen[n - 1] as int],
            parent,
        )
    }
}

/// The places, among the first `n` files, of those in a folder.
pub open spec fn files_in(entries: Seq<PendingView>, folder: u64, n: int) -> Seq<usize>
    decreases n,
{
    if n <= 0 {
        seq![]
    } else if entries[n - 1].parent_record == folder {
        files_in(entries, folder, n - 1).push((n - 1) as usize)
    } else {
        files_in(entries, folder, n - 1)
    }
}

pub open spec fn all_files_in(entries: Seq<PendingView>, folder: u64) -> Seq<usize> {
    files_in(entries, folder, entries.len() as int)
}

/// The records of the first `n` of the chosen files.
pub open spec fn records_of(entries: Seq<PendingView>, chosen: Seq<usize>, n: int) -> Seq<u64> {
    Seq::new(n as nat, |i: int| entries[chosen[i] as int].record)
}

pub open spec fn waits(done: Set<u64>) -> spec_fn(PendingView) -> bool {
    |e: PendingView| !done.contains(e.parent_record)
}

/// The files of one folder after another, from the front of the queue; the records of the
/// placed files join the queue at its back.
pub open spec fn walked(
    s: Placement,
    entries: Seq<PendingView>,
    queue: Seq<u64>,
    root: Seq<char>,
) -> Placement
    decreases count_if(entries, waits(s.done)), queue.len(),
    via walked_decreases
{
    if queue.len() == 0 {
        s
    } else {
        let folder = queue[0];
        let chosen = all_files_in(entries, folder);
        if s.done.contains(folder) || chosen.len() == 0 {
            walked(s, entries, queue.drop_first(), root)
        } else {
            walked(
                all_placed(
                    Placement { done: s.done.insert(folder), ..s },
                    entries,
                    chosen,
                    folder_path(s.paths, folder, root),
                    chosen.len() as int,
                ),
                entries,
                queue.drop_first() + records_of(entries, chosen, chosen.len() as int),
                root,
            )
        }
    }
}

#[via_fn]
proof fn walked_decreases(
    s: Placement,
    entries: Seq<PendingView>,
    queue: Seq<u64>,
    root: Seq<char>,
) {
    if queue.len() > 0 {
        let folder = queue[0];
        let chosen = all_files_in(entries, folder);
        if !s.done.contains(folder) && chosen.len() > 0 {
            lemma_fewer_wait(entries, s.done, folder);
            lemma_all_placed_done(
                Placement { done: s.done.insert(folder), ..s },
                entries,
                chosen,
                folder_path(s.paths, folder, root),
                chosen.len() as int,
            );
        }
    }
}

/// The files among the first `n` that no walk from the root reaches, in the order of their
/// records: in the folder with their parent's path, else in the root.
pub open spec fn rest_placed(
    s: Placement,
    entries: Seq<PendingView>,
    root: Seq<char>,
    n: int,
) -> Placement
    decreases n,
{
    if n <= 0 {
        s
    } else {
        let before = rest_placed(s, entries, root, n - 1);
        let e = entries[n - 1];
        if s.done.contains(e.parent_record) {
            before
        } else {
            placed(before, e, folder_path(before.paths, e.parent_record, root))
        }
    }
}

/// The catalog with only the root.
pub open spec fn root_placed(root: Seq<char>) -> Placement {
    Placement {
        rows: best_row(Map::empty(), root_row(root)),
        paths: Map::empty().insert(ROOT_RECORD, root),
        done: Set::empty(),
    }
}

/// The whole catalog of a volume.
pub open spec fn catalog_of(root_path: Seq<char>, entries: Seq<PendingView>) -> Placement {
    let root = display_path(root_path);
    let reached = walked(root_placed(root), entries, seq![ROOT_RECORD], root);
    rest_placed(reached, entries, root, entries.len() as int)
}

pub open spec fn pending_views(entries: Seq<PendingNtfsEntry>) -> Seq<PendingView> {
    entries.map_values(|e: PendingNtfsEntry| e@)
}

/// Where a folder has files, there are places for them.
proof fn lemma_files_in(entries: Seq<PendingView>, folder: u64, n: int)
    requires
        0 <= n <= entries.len(),
        n <= usize::MAX,
    ensures
        forall|k: int|
            0 <= k < files_in(entries, folder, n).len() ==> (#[trigger] files_in(
                entries,
                folder,
                n,
            )[k]) < n && entries[files_in(entries, folder, n)[k] as int].parent_record == folder,
        forall|i: int|
            0 <= i < n && (#[trigger] entries[i]).parent_record == folder ==> files_in(
                entries,
                folder,
                n,
            ).contains(i as usize),
    decreases n,
{
    if n > 0 {
        lemma_files_in(entries, folder, n - 1);
        let front = files_in(entries, folder, n - 1);
        let all = files_in(entries, folder, n);
        assert forall|i: int|
            0 <= i < n && (#[trigger] entries[i]).parent_record == folder implies all.contains(
            i as usize,
        ) by {
            if i == n - 1 {
                assert(all[all.len() - 1] == i as usize);
            } else {
                assert(front.contains(i as usize));
                let k = choose|k: int| 0 <= k < front.len() && front[k] == i as usize;
                assert(all[k] == i as usize);
            }
        }
    }
}

proof fn lemma_files_in_nonempty(entries: Seq<PendingView>, folder: u64, n: int)
    requires
        files_in(entries, folder, n).len() > 0,
        n <= entries.len(),
    ensures
        exists|i: int| 0 <= i < n && (#[trigger] entries[i]).parent_record == folder,
    decreases n,
{
    if n > 0 {
        if entries[n - 1].parent_record == folder {
        } else {
            lemma_files_in_nonempty(entries, folder, n - 1);
        }
    }
}

proof fn lemma_count_monotone(entries: Seq<PendingView>, done: Set<u64>, folder: u64)
    ensures
        count_if(entries, waits(done.insert(folder))) <= count_if(entries, waits(done)),
    decreases entries.len(),
{
    if entries.len() > 0 {
        lemma_count_monotone(entries.drop_last(), done, folder);
    }
}

/// Placing the files of one more folder leaves fewer that wait.
proof fn lemma_fewer_wait(entries: Seq<PendingView>, done: Set<u64>, folder: u64)
    requires
        !done.contains(folder),
        all_files_in(entries, folder).len() > 0,
    ensures
        count_if(entries, waits(done.insert(folder))) < count_if(entries, waits(done)),
{
    lemma_files_in_nonempty(entries, folder, entries.len() as int);
    lemma_fewer_wait_from(entries, done, folder);
}

proof fn lemma_fewer_wait_from(entries: Seq<PendingView>, done: Set<u64>, folder: u64)
    requires
        !done.contains(folder),
        exists|i: int| 0 <= i < entries.len() && (#[trigger] entries[i]).parent_record == folder,
    ensures
        count_if(entries, waits(done.insert(folder))) < count_if(entries, waits(done)),
    decreases entries.len(),
{
    let i = choose|i: int|
        0 <= i < entries.len() && (#[trigger] entries[i]).parent_record == folder;
    let front = entries.drop_last();
    if i < front.len() {
        assert(front[i].parent_record == folder);
        lemma_fewer_wait_from(front, done, folder);
    } else {
        lemma_count_monotone(front, done, folder);
    }
}

proof fn lemma_all_placed_done(
    s: Placement,
    entries: Seq<PendingView>,
    chosen: Seq<usize>,
    parent: Seq<char>,
    n: int,
)
    ensures
        all_placed(s, entries, chosen, parent, n).done == s.done,
    decreases n,
{
    if n > 0 {
        lemma_all_placed_done(s, entries, chosen, parent, n - 1);
    }
}

/// What the strings of a map of paths hold.
pub open spec fn path_views(paths: Map<u64, String>) -> Map<u64, Seq<char>> {
    paths.map_values(|s: String| s@)
}

/// The map holds the files of each folder that is not done.
spec fn holds_files(
    files: Map<u64, Vec<usize>>,
    entries: Seq<PendingView>,
    done: Set<u64>,
    n: int,
) -> bool {
    forall|f: u64|
        {
            &&& #[trigger] files.contains_key(f) <==> !done.contains(f) && files_in(
                entries,
                f,
                n,
            ).len() > 0
            &&& files.contains_key(f) ==> files[f]@ == files_in(entries, f, n)
        }
}

/// The files of each folder, by their places in the list.
fn files_by_folder(entries: &Vec<PendingNtfsEntry>) -> (r: HashMap<u64, Vec<usize>>)
    ensures
        holds_files(
            r@,
            pending_views(entries@),
            Set::empty(),
            pending_views(entries@).len() as int,
        ),
{
    let mut files: HashMap<u64, Vec<usize>> = HashMap::new();
    let ghost all = pending_views(entries@);
    let ghost none = Set::<u64>::empty();
    let n: usize = entries.len();
    let mut i: usize = 0;
    while i < n
        invariant
            i <= n,
            n == entries@.len(),
            all == pending_views(entries@),
            none == Set::<u64>::empty(),
            holds_files(files@, all, none, i as int),
        decreases n - i,
    {
        let folder: u64 = entries[i].parent_record;
        let ghost before = files@;
        assert(all[i as int].parent_record == folder);
        let mut list: Vec<usize> = match files.remove(&folder) {
            Some(list) => list,
            None => Vec::new(),
        };
        assert(list@ =~= files_in(all, folder, i as int)) by {
            assert(before.contains_key(folder) <==> files_in(all, folder, i as int).len() > 0);
        }
        list.push(i);
        files.insert(folder, list);
        assert forall|f: u64|
            {
                &&& #[trigger] files@.contains_key(f) <==> !none.contains(f) && files_in(
                    all,
                    f,
                    i + 1,
                ).len() > 0
                &&& files@.contains_key(f) ==> files@[f]@ == files_in(all, f, i + 1)
            } by {
            assert(before.contains_key(f) <==> files_in(all, f, i as int).len() > 0);
        }
        i += 1;
    }
    files
}

/// Places one file in a folder, and notes its path.
fn place_file(
    rows: &mut Table<CatalogEntryRow>,
    paths: &mut HashMap<u64, String>,
    e: &PendingNtfsEntry,
    parent: &str,
)
    requires
        old(rows).wf(),
    ensures
        final(rows).wf(),
        rows_view(final(rows)@) == best_row(rows_view(old(rows)@), placed_row(e@, parent@)),
        path_views(final(paths)@) == path_views(old(paths)@).insert(
            e.record,
            child_path(parent@, e.name@),
        ),
{
    let path = join_display_path(parent, e.name.as_str());
    push_best_row(rows, build_placed_row(e, parent, path.as_str()));
    paths.insert(e.record, path);
    assert(path_views(paths@) =~= path_views(old(paths)@).insert(
        e.record,
        child_path(parent@, e.name@),
    ));
}

/// The path of a folder; that of the root where it has none.
fn path_of_folder(paths: &HashMap<u64, String>, record: u64, root: &str) -> (r: String)
    ensures
        r@ == folder_path(path_views(paths@), record, root@),
{
    match paths.get(&record) {
        Some(path) => path.clone(),
        None => owned(root),
    }
}

/// The rows of a volume whose files are given in the order of their records.
pub fn resolve_ntfs_catalog_rows(root_path: &str, entries: &Vec<PendingNtfsEntry>) -> (r: Table<
    CatalogEntryRow,
>)
    ensures
        r.wf(),
        rows_view(r@) == catalog_of(root_path@, pending_views(entries@)).rows,
{
    let ghost all = pending_views(entries@);
    let n: usize = entries.len();
    let root = normalize_display_string(root_path);
    let mut rows: Table<CatalogEntryRow> = Table::new();
    assert(rows_view(rows@) =~= Map::empty());
    push_best_row(&mut rows, build_root_row(root.as_str()));
    let mut paths: HashMap<u64, String> = HashMap::new();
    paths.insert(ROOT_RECORD, root.clone());
    assert(path_views(paths@) =~= root_placed(root@).paths);
    let mut files = files_by_folder(entries);
    let mut queue: Vec<u64> = Vec::new();
    queue.push(ROOT_RECORD);
    let mut head: usize = 0;
    let ghost mut done: Set<u64> = Set::empty();
    let ghost reached = walked(root_placed(root@), all, seq![ROOT_RECORD], root@);
    assert(queue@.subrange(0, 1) =~= seq![ROOT_RECORD]);
    while head < queue.len()
        invariant
            head <= queue@.len(),
            n == entries@.len(),
            all == pending_views(entries@),
            rows.wf(),
            holds_files(files@, all, done, n as int),
            reached == walked(
                Placement { rows: rows_view(rows@), paths: path_views(paths@), done },
                all,
                queue@.subrange(head as int, queue@.len() as int),
                root@,
            ),
        decreases count_if(all, waits(done)), queue@.len() - head,
    {
        let folder: u64 = queue[head];
        let ghost now = Placement { rows: rows_view(rows@), paths: path_views(paths@), done };
        let ghost waiting = queue@.subrange(head as int, queue@.len() as int);
        let ghost chosen = all_files_in(all, folder);
        head += 1;
        let ghost rest = queue@.subrange(head as int, queue@.len() as int);
        assert(waiting.drop_first() =~= rest);
        assert(waiting[0] == folder);
        match files.remove(&folder) {
            None => {
                assert(!files@.contains_key(folder));
            },
            Some(list) => {
                let parent = path_of_folder(&paths, folder, root.as_str());
                proof {
                    lemma_fewer_wait(all, done, folder);
                    lemma_files_in(all, folder, n as int);
                    done = done.insert(folder);
                }
                let ghost start = Placement { done, ..now };
                let ghost lead = queue@;
                assert(chosen == list@);
                assert(records_of(all, chosen, 0) =~= seq![]);
                let mut k: usize = 0;
                while k < list.len()
                    invariant
                        k <= list@.len(),
                        n == entries@.len(),
                        all == pending_views(entries@),
                        rows.wf(),
                        chosen == list@,
                        forall|j: int| 0 <= j < chosen.len() ==> (#[trigger] chosen[j]) < n,
                        start.done == done,
                        all_placed(start, all, chosen, parent@, k as int) == (Placement {
                            rows: rows_view(rows@),
                            paths: path_views(paths@),
                            done,
                        }),
                        queue@ == lead + records_of(all, chosen, k as int),
                    decreases list@.len() - k,
                {
                    let e = &entries[list[k]];
                    assert(all[chosen[k as int] as int] == e@);
                    place_file(&mut rows, &mut paths, e, parent.as_str());
                    queue.push(e.record);
                    assert(queue@ =~= lead + records_of(all, chosen, k + 1));
                    k += 1;
                }
                assert(queue@.subrange(head as int, queue@.len() as int) =~= rest + records_of(
                    all,
                    chosen,
                    chosen.len() as int,
                ));
            },
        }
    }
    assert(queue@.subrange(head as int, queue@.len() as int) =~= seq![]);
    assert(reached == (Placement { rows: rows_view(rows@), paths: path_views(paths@), done }));
    place_the_rest(&mut rows, &mut paths, &files, entries, root.as_str(), Ghost(reached));
    rows
}

/// Places the files that no walk from the root reaches.
fn place_the_rest(
    rows: &mut Table<CatalogEntryRow>,
    paths: &mut HashMap<u64, String>,
    files: &HashMap<u64, Vec<usize>>,
    entries: &Vec<PendingNtfsEntry>,
    root: &str,
    Ghost(reached): Ghost<Placement>,
)
    requires
        old(rows).wf(),
        rows_view(old(rows)@) == reached.rows,
        path_views(old(paths)@) == reached.paths,
        holds_files(
            files@,
            pending_views(entries@),
            reached.done,
            pending_views(entries@).len() as int,
        ),
    ensures
        final(rows).wf(),
        rows_view(final(rows)@) == rest_placed(
            reached,
            pending_views(entries@),
            root@,
            entries@.len() as int,
        ).rows,
{
    let ghost all = pending_views(entries@);
    let n: usize = entries.len();
    let mut i: usize = 0;
    while i < n
        invariant
            i <= n,
            n == entries@.len(),
            all == pending_views(entries@),
            rows.wf(),
            holds_files(files@, all, reached.done, n as int),
            rows_view(rows@) == rest_placed(reached, all, root@, i as int).rows,
            path_views(paths@) == rest_placed(reached, all, root@, i as int).paths,
        decreases n - i,
    {
        let e = &entries[i];
        proof {
            lemma_files_in(all, e.parent_record, n as int);
            assert(all[i as int] == e@);
            assert(files_in(all, e.parent_record, n as int).contains(i as usize));
            assert(files@.contains_key(e.parent_record) <==> !reached.done.contains(
                e.parent_record,
            ));
        }
        if files.contains_key(&e.parent_record) {
            let parent = path_of_folder(paths, e.parent_record, root);
            place_file(rows, paths, e, parent.as_str());
        }
        i += 1;
    }
}

// ---------------------------------------------------------------------------
// What the catalog promises.

/// Rows stand under their own paths, and each known path has a row.
pub open spec fn paths_have_rows(s: Placement) -> bool {
    &&& keyed_by_path(s.rows)
    &&& forall|record: u64| #[trigger]
        s.paths.contains_key(record) ==> s.rows.contains_key(compare_key(s.paths[record]))
}

/// The files of folders that are done have a path.
pub open spec fn done_files_have_paths(s: Placement, entries: Seq<PendingView>) -> bool {
    forall|i: int|
        0 <= i < entries.len() && s.done.contains((#[trigger] entries[i]).parent_record)
            ==> s.paths.contains_key(entries[i].record)
}

proof fn lemma_placed(s: Placement, e: PendingView, parent: Seq<char>)
    requires
        paths_have_rows(s),
    ensures
        paths_have_rows(placed(s, e, parent)),
        placed(s, e, parent).paths.contains_key(e.record),
        forall|r: u64| #[trigger]
            s.paths.contains_key(r) ==> placed(s, e, parent).paths.contains_key(r),
{
    lemma_best_row_keeps_keys(s.rows, placed_row(e, parent));
    let t = placed(s, e, parent);
    assert forall|record: u64| #[trigger] t.paths.contains_key(record) implies t.rows.contains_key(
        compare_key(t.paths[record]),
    ) by {
        if record != e.record {
            assert(s.paths.contains_key(record));
        }
    }
}

proof fn lemma_all_placed(
    s: Placement,
    entries: Seq<PendingView>,
    chosen: Seq<usize>,
    parent: Seq<char>,
    n: int,
)
    requires
        paths_have_rows(s),
        0 <= n <= chosen.len(),
    ensures
        paths_have_rows(all_placed(s, entries, chosen, parent, n)),
        all_placed(s, entries, chosen, parent, n).done == s.done,
        forall|r: u64| #[trigger]
            s.paths.contains_key(r) ==> all_placed(
                s,
                entries,
                chosen,
                parent,
                n,
            ).paths.contains_key(r),
        forall|k: int|
            0 <= k < n ==> all_placed(s, entries, chosen, parent, n).paths.contains_key(
                entries[#[trigger] chosen[k] as int].record,
            ),
    decreases n,
{
    if n > 0 {
        lemma_all_placed(s, entries, chosen, parent, n - 1);
        lemma_placed(
            all_placed(s, entries, chosen, parent, n - 1),
            entries[chosen[n - 1] as int],
            parent,
        );
    }
}

proof fn lemma_walked(s: Placement, entries: Seq<PendingView>, queue: Seq<u64>, root: Seq<char>)
    requires
        paths_have_rows(s),
        done_files_have_paths(s, entries),
        entries.len() <= usize::MAX,
    ensures
        paths_have_rows(walked(s, entries, queue, root)),
        done_files_have_paths(walked(s, entries, queue, root), entries),
        forall|r: u64| #[trigger]
            s.paths.contains_key(r) ==> walked(s, entries, queue, root).paths.contains_key(r),
    decreases count_if(entries, waits(s.done)), queue.len(),
{
    if queue.len() > 0 {
        let folder = queue[0];
        let chosen = all_files_in(entries, folder);
        if s.done.contains(folder) || chosen.len() == 0 {
            lemma_walked(s, entries, queue.drop_first(), root);
        } else {
            let start = Placement { done: s.done.insert(folder), ..s };
            let parent = folder_path(s.paths, folder, root);
            let next = all_placed(start, entries, chosen, parent, chosen.len() as int);
            lemma_fewer_wait(entries, s.done, folder);
            lemma_all_placed(start, entries, chosen, parent, chosen.len() as int);
            lemma_files_in(entries, folder, entries.len() as int);
            assert forall|i: int|
                0 <= i < entries.len() && next.done.contains(
                    (#[trigger] entries[i]).parent_record,
                ) implies next.paths.contains_key(entries[i].record) by {
                if entries[i].parent_record == folder {
                    assert(chosen.contains(i as usize));
                    let k = choose|k: int| 0 <= k < chosen.len() && chosen[k] == i as usize;
                    assert(entries[chosen[k] as int].record == entries[i].record);
                } else {
                    assert(s.done.contains(entries[i].parent_record));
                    assert(s.paths.contains_key(entries[i].record));
                    assert(start.paths.contains_key(entries[i].record));
                }
            }
            assert forall|r: u64| #[trigger] s.paths.contains_key(r) implies next.paths.contains_key(
                r,
            ) by {
                assert(start.paths.contains_key(r));
            }
            lemma_walked(
                next,
                entries,
                queue.drop_first() + records_of(entries, chosen, chosen.len() as int),
                root,
            );
        }
    }
}

proof fn lemma_rest_placed(s: Placement, entries: Seq<PendingView>, root: Seq<char>, n: int)
    requires
        paths_have_rows(s),
        done_files_have_paths(s, entries),
        0 <= n <= entries.len(),
    ensures
        paths_have_rows(rest_placed(s, entries, root, n)),
        forall|r: u64| #[trigger]
            s.paths.contains_key(r) ==> rest_placed(s, entries, root, n).paths.contains_key(r),
        forall|i: int|
            0 <= i < n ==> rest_placed(s, entries, root, n).paths.contains_key(
                (#[trigger] entries[i]).record,
            ),
    decreases n,
{
    if n > 0 {
        lemma_rest_placed(s, entries, root, n - 1);
        let before = rest_placed(s, entries, root, n - 1);
        let e = entries[n - 1];
        if !s.done.contains(e.parent_record) {
            lemma_placed(before, e, folder_path(before.paths, e.parent_record, root));
        }
    }
}

/// The catalog loses no file: each has a path, and under each path there is a row. The root
/// has one too, and every row stands under its own path.
pub proof fn lemma_catalog_holds_every_file(root_path: Seq<char>, entries: Seq<PendingView>)
    requires
        entries.len() <= usize::MAX,
    ensures
        ({
            let catalog = catalog_of(root_path, entries);
            &&& keyed_by_path(catalog.rows)
            &&& catalog.paths.contains_key(ROOT_RECORD)
            &&& forall|i: int|
                0 <= i < entries.len() ==> catalog.paths.contains_key(
                    (#[trigger] entries[i]).record,
                )
            &&& forall|r: u64| #[trigger]
                catalog.paths.contains_key(r) ==> catalog.rows.contains_key(
                    compare_key(catalog.paths[r]),
                )
        }),
{
    let root = display_path(root_path);
    let start = root_placed(root);
    lemma_best_row_keeps_keys(Map::empty(), root_row(root));
    lemma_walked(start, entries, seq![ROOT_RECORD], root);
    let reached = walked(start, entries, seq![ROOT_RECORD], root);
    assert(start.paths.contains_key(ROOT_RECORD));
    lemma_rest_placed(reached, entries, root, entries.len() as int);
}

// The catalog has a row at most for each file, and one for the root.

spec fn lies_in(folder: u64) -> spec_fn(PendingView) -> bool {
    |e: PendingView| e.parent_record == folder
}

proof fn lemma_files_in_count(entries: Seq<PendingView>, folder: u64, n: int)
    requires
        0 <= n <= entries.len(),
    ensures
        files_in(entries, folder, n).len() == count_if(entries.subrange(0, n), lies_in(folder)),
    decreases n,
{
    if n > 0 {
        lemma_files_in_count(entries, folder, n - 1);
        assert(entries.subrange(0, n).drop_last() =~= entries.subrange(0, n - 1));
    }
}

/// The files that wait are those of a folder and those that wait behind it.
proof fn lemma_waiting_parts(entries: Seq<PendingView>, done: Set<u64>, folder: u64)
    requires
        !done.contains(folder),
    ensures
        count_if(entries, waits(done)) == count_if(entries, waits(done.insert(folder))) + count_if(
            entries,
            lies_in(folder),
        ),
    decreases entries.len(),
{
    if entries.len() > 0 {
        lemma_waiting_parts(entries.drop_last(), done, folder);
    }
}

proof fn lemma_all_placed_adds(
    s: Placement,
    entries: Seq<PendingView>,
    chosen: Seq<usize>,
    parent: Seq<char>,
    n: int,
)
    requires
        s.rows.dom().finite(),
        0 <= n,
    ensures
        all_placed(s, entries, chosen, parent, n).rows.dom().finite(),
        all_placed(s, entries, chosen, parent, n).rows.len() <= s.rows.len() + n,
    decreases n,
{
    if n > 0 {
        lemma_all_placed_adds(s, entries, chosen, parent, n - 1);
    }
}

proof fn lemma_walked_adds(
    s: Placement,
    entries: Seq<PendingView>,
    queue: Seq<u64>,
    root: Seq<char>,
)
    requires
        s.rows.dom().finite(),
    ensures
        walked(s, entries, queue, root).rows.dom().finite(),
        walked(s, entries, queue, root).rows.len() + count_if(
            entries,
            waits(walked(s, entries, queue, root).done),
        ) <= s.rows.len() + count_if(entries, waits(s.done)),
    decreases count_if(entries, waits(s.done)), queue.len(),
{
    if queue.len() > 0 {
        let folder = queue[0];
        let chosen = all_files_in(entries, folder);
        if s.done.contains(folder) || chosen.len() == 0 {
            lemma_walked_adds(s, entries, queue.drop_first(), root);
        } else {
            let n = chosen.len() as int;
            let start = Placement { done: s.done.insert(folder), ..s };
            let parent = folder_path(s.paths, folder, root);
            lemma_fewer_wait(entries, s.done, folder);
            lemma_all_placed_done(start, entries, chosen, parent, n);
            lemma_all_placed_adds(start, entries, chosen, parent, n);
            lemma_files_in_count(entries, folder, entries.len() as int);
            assert(entries.subrange(0, entries.len() as int) =~= entries);
            lemma_waiting_parts(entries, s.done, folder);
            lemma_walked_adds(
                all_placed(start, entries, chosen, parent, n),
                entries,
                queue.drop_first() + records_of(entries, chosen, n),
                root,
            );
        }
    }
}

proof fn lemma_rest_adds(s: Placement, entries: Seq<PendingView>, root: Seq<char>, n: int)
    requires
        s.rows.dom().finite(),
        0 <= n <= entries.len(),
    ensures
        rest_placed(s, entries, root, n).rows.dom().finite(),
        rest_placed(s, entries, root, n).rows.len() <= s.rows.len() + count_if(
            entries.subrange(0, n),
            waits(s.done),
        ),
    decreases n,
{
    if n > 0 {
        lemma_rest_adds(s, entries, root, n - 1);
        assert(entries.subrange(0, n).drop_last() =~= entries.subrange(0, n - 1));
    }
}

/// The catalog has at most one row for each file, and one for the root.
pub proof fn lemma_catalog_has_no_row_too_many(root_path: Seq<char>, entries: Seq<PendingView>)
    ensures
        catalog_of(root_path, entries).rows.dom().finite(),
        catalog_of(root_path, entries).rows.len() <= entries.len() + 1,
{
    let root = display_path(root_path);
    let start = root_placed(root);
    let reached = walked(start, entries, seq![ROOT_RECORD], root);
    lemma_walked_adds(start, entries, seq![ROOT_RECORD], root);
    lemma_rest_adds(reached, entries, root, entries.len() as int);
    assert(entries.subrange(0, entries.len() as int) =~= entries);
    lemma_count_bound(entries, waits(start.done));
}

proof fn lemma_count_bound(entries: Seq<PendingView>, f: spec_fn(PendingView) -> bool)
    ensures
        count_if(entries, f) <= entries.len(),
    decreases entries.len(),
{
    if entries.len() > 0 {
        lemma_count_bound(entries.drop_last(), f);
    }
}

// Files with records of their own.

/// Every file has a record of its own, and none has that of the root.
pub open spec fn records_differ(entries: Seq<PendingView>) -> bool {
    &&& forall|i: int| 0 <= i < entries.len() ==> (#[trigger] entries[i]).record != ROOT_RECORD
    &&& forall|i: int, j: int|
        0 <= i < j < entries.len() ==> (#[trigger] entries[i]).record != (
        #[trigger] entries[j]).record
}

/// A record that a file may lie in: that of the root or of another file.
pub open spec fn is_known(entries: Seq<PendingView>, record: u64) -> bool {
    record == ROOT_RECORD || exists|i: int|
        0 <= i < entries.len() && (#[trigger] entries[i]).record == record
}

/// Each row stands under the path of a record.
spec fn rows_have_paths(s: Placement) -> bool {
    forall|k: Seq<char>| #[trigger]
        s.rows.contains_key(k) ==> exists|r: u64| #[trigger]
            s.paths.contains_key(r) && compare_key(s.paths[r]) == k
}

/// Only the root and the files of folders that are done have a path.
spec fn paths_of_done(s: Placement, entries: Seq<PendingView>) -> bool {
    forall|r: u64| #[trigger]
        s.paths.contains_key(r) ==> r == ROOT_RECORD || exists|i: int|
            0 <= i < entries.len() && (#[trigger] entries[i]).record == r && s.done.contains(
                entries[i].parent_record,
            )
}

/// What is done are the root and folders among the files.
spec fn done_is_known(s: Placement, entries: Seq<PendingView>) -> bool {
    forall|f: u64| #[trigger] s.done.contains(f) ==> is_known(entries, f)
}

spec fn keeps_paths(s: Placement, t: Placement) -> bool {
    forall|r: u64| #[trigger]
        s.paths.contains_key(r) ==> t.paths.contains_key(r) && t.paths[r] == s.paths[r]
}

proof fn lemma_placed_anew(s: Placement, e: PendingView, parent: Seq<char>)
    requires
        rows_have_paths(s),
        !s.paths.contains_key(e.record),
    ensures
        rows_have_paths(placed(s, e, parent)),
        keeps_paths(s, placed(s, e, parent)),
{
    let t = placed(s, e, parent);
    assert forall|k: Seq<char>| #[trigger] t.rows.contains_key(k) implies exists|r: u64| #[trigger]
        t.paths.contains_key(r) && compare_key(t.paths[r]) == k by {
        if s.rows.contains_key(k) {
            let r = choose|r: u64| #[trigger]
                s.paths.contains_key(r) && compare_key(s.paths[r]) == k;
            assert(t.paths.contains_key(r) && t.paths[r] == s.paths[r]);
        } else {
            assert(t.paths.contains_key(e.record));
        }
    }
}

/// The places of the files in a folder rise.
proof fn lemma_files_in_rise(entries: Seq<PendingView>, folder: u64, n: int)
    requires
        0 <= n <= entries.len(),
        n <= usize::MAX,
    ensures
        forall|a: int, b: int|
            0 <= a < b < files_in(entries, folder, n).len() ==> (#[trigger] files_in(
                entries,
                folder,
                n,
            )[a]) < (#[trigger] files_in(entries, folder, n)[b]),
    decreases n,
{
    if n > 0 {
        lemma_files_in_rise(entries, folder, n - 1);
        lemma_files_in(entries, folder, n - 1);
    }
}

proof fn lemma_all_placed_anew(
    s: Placement,
    entries: Seq<PendingView>,
    chosen: Seq<usize>,
    parent: Seq<char>,
    n: int,
)
    requires
        records_differ(entries),
        rows_have_paths(s),
        0 <= n <= chosen.len(),
        forall|k: int|
            0 <= k < chosen.len() ==> #[trigger] chosen[k] < entries.len()
                && !s.paths.contains_key(entries[chosen[k] as int].record),
        forall|a: int, b: int|
            0 <= a < b < chosen.len() ==> #[trigger] chosen[a] < #[trigger] chosen[b],
    ensures
        ({
            let t = all_placed(s, entries, chosen, parent, n);
            &&& rows_have_paths(t)
            &&& keeps_paths(s, t)
            &&& forall|r: u64| #[trigger]
                t.paths.contains_key(r) ==> s.paths.contains_key(r) || exists|k: int|
                    0 <= k < n && entries[#[trigger] chosen[k] as int].record == r
            &&& forall|k: int|
                0 <= k < n ==> t.paths.contains_key(entries[#[trigger] chosen[k] as int].record)
                    && t.paths[entries[chosen[k] as int].record] == child_path(
                    parent,
                    entries[chosen[k] as int].name,
                )
        }),
    decreases n,
{
    if n > 0 {
        lemma_all_placed_anew(s, entries, chosen, parent, n - 1);
        let before = all_placed(s, entries, chosen, parent, n - 1);
        let at = chosen[n - 1] as int;
        let e = entries[at];
        if before.paths.contains_key(e.record) {
            let k = choose|k: int|
                0 <= k < n - 1 && entries[#[trigger] chosen[k] as int].record == e.record;
            assert(chosen[k] < chosen[n - 1]);
            assert(entries[chosen[k] as int].record != entries[at].record);
        }
        lemma_placed_anew(before, e, parent);
        let t = all_placed(s, entries, chosen, parent, n);
        assert forall|r: u64| #[trigger] t.paths.contains_key(r) implies s.paths.contains_key(r)
            || exists|k: int|
            0 <= k < n && entries[#[trigger] chosen[k] as int].record == r by {
            if r == e.record {
                assert(entries[chosen[n - 1] as int].record == r);
            } else {
                assert(before.paths.contains_key(r));
            }
        }
        assert forall|r: u64| #[trigger] s.paths.contains_key(r) implies t.paths.contains_key(r)
            && t.paths[r] == s.paths[r] by {
            assert(before.paths.contains_key(r));
        }
        assert forall|k: int| 0 <= k < n implies t.paths.contains_key(
            entries[#[trigger] chosen[k] as int].record,
        ) && t.paths[entries[chosen[k] as int].record] == child_path(
            parent,
            entries[chosen[k] as int].name,
        ) by {
            if k < n - 1 {
                assert(chosen[k] < chosen[n - 1]);
                assert(entries[chosen[k] as int].record != entries[at].record);
                assert(before.paths.contains_key(entries[chosen[k] as int].record));
            }
        }
    }
}

/// The files of folders that are done stand below the path of their folder.
spec fn stands_below(s: Placement, entries: Seq<PendingView>) -> bool {
    forall|i: int|
        0 <= i < entries.len() && s.done.contains((#[trigger] entries[i]).parent_record)
            ==> s.paths.contains_key(entries[i].record) && s.paths.contains_key(
            entries[i].parent_record,
        ) && s.paths[entries[i].record] == child_path(
            s.paths[entries[i].parent_record],
            entries[i].name,
        )
}

/// What has a path waits for its turn, is done, or has no files.
spec fn none_forgotten(s: Placement, entries: Seq<PendingView>, queue: Seq<u64>) -> bool {
    forall|r: u64| #[trigger]
        s.paths.contains_key(r) ==> queue.contains(r) || s.done.contains(r) || all_files_in(
            entries,
            r,
        ).len() == 0
}

proof fn lemma_walked_anew(
    s: Placement,
    entries: Seq<PendingView>,
    queue: Seq<u64>,
    root: Seq<char>,
)
    requires
        records_differ(entries),
        entries.len() <= usize::MAX,
        rows_have_paths(s),
        paths_of_done(s, entries),
        done_is_known(s, entries),
        forall|k: int| 0 <= k < queue.len() ==> is_known(entries, #[trigger] queue[k]),
        forall|k: int| 0 <= k < queue.len() ==> s.paths.contains_key(#[trigger] queue[k]),
        stands_below(s, entries),
        none_forgotten(s, entries, queue),
    ensures
        stands_below(walked(s, entries, queue, root), entries),
        none_forgotten(walked(s, entries, queue, root), entries, seq![]),
        rows_have_paths(walked(s, entries, queue, root)),
        paths_of_done(walked(s, entries, queue, root), entries),
        done_is_known(walked(s, entries, queue, root), entries),
        keeps_paths(s, walked(s, entries, queue, root)),
    decreases count_if(entries, waits(s.done)), queue.len(),
{
    if queue.len() > 0 {
        let folder = queue[0];
        let chosen = all_files_in(entries, folder);
        let rest = queue.drop_first();
        assert forall|k: int| 0 <= k < rest.len() implies is_known(
            entries,
            #[trigger] rest[k],
        ) by {
            assert(rest[k] == queue[k + 1]);
        }
        assert forall|k: int| 0 <= k < rest.len() implies s.paths.contains_key(
            #[trigger] rest[k],
        ) by {
            assert(rest[k] == queue[k + 1]);
        }
        assert forall|r: u64| queue.contains(r) && r != folder implies #[trigger] rest.contains(
            r,
        ) by {
            let k = choose|k: int| 0 <= k < queue.len() && queue[k] == r;
            assert(rest[k - 1] == r);
        }
        if s.done.contains(folder) || chosen.len() == 0 {
            assert forall|r: u64| #[trigger] s.paths.contains_key(r) implies rest.contains(r)
                || s.done.contains(r) || all_files_in(entries, r).len() == 0 by {
                if queue.contains(r) && r != folder {
                    assert(rest.contains(r));
                }
            }
            lemma_walked_anew(s, entries, rest, root);
        } else {
            let n = chosen.len() as int;
            let start = Placement { done: s.done.insert(folder), ..s };
            let parent = folder_path(s.paths, folder, root);
            lemma_fewer_wait(entries, s.done, folder);
            lemma_all_placed_done(start, entries, chosen, parent, n);
            lemma_files_in(entries, folder, entries.len() as int);
            lemma_files_in_rise(entries, folder, entries.len() as int);
            assert forall|k: int| 0 <= k < chosen.len() implies #[trigger] chosen[k]
                < entries.len() && !start.paths.contains_key(
                entries[chosen[k] as int].record,
            ) by {
                let e = entries[chosen[k] as int];
                if s.paths.contains_key(e.record) {
                    let i = choose|i: int|
                        0 <= i < entries.len() && (#[trigger] entries[i]).record == e.record
                            && s.done.contains(entries[i].parent_record);
                    if i < chosen[k] {
                        assert(entries[i].record != entries[chosen[k] as int].record);
                    } else if chosen[k] < i {
                        assert(entries[chosen[k] as int].record != entries[i].record);
                    }
                }
            }
            lemma_all_placed_anew(start, entries, chosen, parent, n);
            let next = all_placed(start, entries, chosen, parent, n);
            assert forall|r: u64| #[trigger] next.paths.contains_key(r) implies r == ROOT_RECORD
                || exists|i: int|
                0 <= i < entries.len() && (#[trigger] entries[i]).record == r
                    && next.done.contains(entries[i].parent_record) by {
                if start.paths.contains_key(r) {
                    assert(s.paths.contains_key(r));
                } else {
                    let k = choose|k: int|
                        0 <= k < n && entries[#[trigger] chosen[k] as int].record == r;
                    assert(entries[chosen[k] as int].parent_record == folder);
                }
            }
            let more = rest + records_of(entries, chosen, n);
            assert forall|k: int| 0 <= k < more.len() implies is_known(
                entries,
                #[trigger] more[k],
            ) by {
                if k >= rest.len() {
                    let at = chosen[k - rest.len()] as int;
                    assert(more[k] == entries[at].record);
                }
            }
            assert(keeps_paths(s, next)) by {
                assert forall|r: u64| #[trigger] s.paths.contains_key(
                    r,
                ) implies next.paths.contains_key(r) && next.paths[r] == s.paths[r] by {
                    assert(start.paths.contains_key(r));
                }
            }
            assert(parent == s.paths[folder]);
            assert(next.done == start.done);
            assert forall|k: int| 0 <= k < more.len() implies next.paths.contains_key(
                #[trigger] more[k],
            ) by {
                if k < rest.len() {
                    assert(more[k] == rest[k]);
                    assert(s.paths.contains_key(rest[k]));
                } else {
                    let at = chosen[k - rest.len()] as int;
                    assert(more[k] == entries[at].record);
                }
            }
            assert forall|i: int|
                0 <= i < entries.len() && next.done.contains(
                    (#[trigger] entries[i]).parent_record,
                ) implies next.paths.contains_key(entries[i].record) && next.paths.contains_key(
                entries[i].parent_record,
            ) && next.paths[entries[i].record] == child_path(
                next.paths[entries[i].parent_record],
                entries[i].name,
            ) by {
                if entries[i].parent_record == folder {
                    assert(chosen.contains(i as usize));
                    let k = choose|k: int| 0 <= k < chosen.len() && chosen[k] == i as usize;
                    assert(chosen[k] == i);
                    assert(s.paths.contains_key(folder));
                } else {
                    assert(s.done.contains(entries[i].parent_record));
                    assert(s.paths.contains_key(entries[i].record));
                    assert(s.paths.contains_key(entries[i].parent_record));
                }
            }
            assert forall|r: u64| #[trigger] next.paths.contains_key(r) implies more.contains(r)
                || next.done.contains(r) || all_files_in(entries, r).len() == 0 by {
                if s.paths.contains_key(r) {
                    if queue.contains(r) && r != folder {
                        assert(rest.contains(r));
                        let k = choose|k: int| 0 <= k < rest.len() && rest[k] == r;
                        assert(more[k] == r);
                    }
                } else {
                    assert(!start.paths.contains_key(r));
                    let k = choose|k: int|
                        0 <= k < n && entries[#[trigger] chosen[k] as int].record == r;
                    assert(more[rest.len() + k] == r);
                }
            }
            lemma_walked_anew(next, entries, more, root);
            let end = walked(next, entries, more, root);
            assert forall|r: u64| #[trigger] s.paths.contains_key(r) implies end.paths.contains_key(
                r,
            ) && end.paths[r] == s.paths[r] by {
                assert(next.paths.contains_key(r));
            }
        }
    }
}

proof fn lemma_rest_anew(s: Placement, entries: Seq<PendingView>, root: Seq<char>, n: int)
    requires
        records_differ(entries),
        rows_have_paths(s),
        paths_of_done(s, entries),
        done_is_known(s, entries),
        0 <= n <= entries.len(),
    ensures
        ({
            let t = rest_placed(s, entries, root, n);
            &&& rows_have_paths(t)
            &&& keeps_paths(s, t)
            &&& forall|r: u64| #[trigger]
                t.paths.contains_key(r) ==> s.paths.contains_key(r) || exists|i: int|
                    0 <= i < n && (#[trigger] entries[i]).record == r && !s.done.contains(
                        entries[i].parent_record,
                    )
            &&& forall|i: int|
                0 <= i < n && !is_known(entries, (#[trigger] entries[i]).parent_record)
                    ==> t.paths.contains_key(entries[i].record) && t.paths[entries[i].record]
                    == child_path(root, entries[i].name)
        }),
    decreases n,
{
    if n > 0 {
        lemma_rest_anew(s, entries, root, n - 1);
        let before = rest_placed(s, entries, root, n - 1);
        let t = rest_placed(s, entries, root, n);
        let e = entries[n - 1];
        if !s.done.contains(e.parent_record) {
            let parent = folder_path(before.paths, e.parent_record, root);
            if before.paths.contains_key(e.record) {
                if s.paths.contains_key(e.record) {
                    let i = choose|i: int|
                        0 <= i < entries.len() && (#[trigger] entries[i]).record == e.record
                            && s.done.contains(entries[i].parent_record);
                    if i < n - 1 {
                        assert(entries[i].record != entries[n - 1].record);
                    } else if n - 1 < i {
                        assert(entries[n - 1].record != entries[i].record);
                    }
                } else {
                    let i = choose|i: int|
                        0 <= i < n - 1 && (#[trigger] entries[i]).record == e.record
                            && !s.done.contains(entries[i].parent_record);
                    assert(entries[i].record != entries[n - 1].record);
                }
            }
            lemma_placed_anew(before, e, parent);
            if !is_known(entries, e.parent_record) {
                assert(!before.paths.contains_key(e.parent_record));
            }
            assert forall|r: u64| #[trigger] s.paths.contains_key(r) implies t.paths.contains_key(r)
                && t.paths[r] == s.paths[r] by {
                assert(before.paths.contains_key(r));
            }
            assert forall|r: u64| #[trigger] t.paths.contains_key(r) implies s.paths.contains_key(r)
                || exists|i: int|
                0 <= i < n && (#[trigger] entries[i]).record == r && !s.done.contains(
                    entries[i].parent_record,
                ) by {
                if r == e.record {
                    assert(entries[n - 1].record == r);
                } else {
                    assert(before.paths.contains_key(r));
                }
            }
        }
        assert forall|i: int|
            0 <= i < n && !is_known(
                entries,
                (#[trigger] entries[i]).parent_record,
            ) implies t.paths.contains_key(entries[i].record) && t.paths[entries[i].record]
            == child_path(root, entries[i].name) by {
            assert(!s.done.contains(entries[i].parent_record));
            if i < n - 1 {
                assert(before.paths.contains_key(entries[i].record));
                assert(entries[i].record != entries[n - 1].record);
            }
        }
    }
}

/// The keys of the paths in a catalog: that of the root, then those of the files.
pub open spec fn catalog_keys(root_path: Seq<char>, entries: Seq<PendingView>) -> Seq<Seq<char>> {
    let paths = catalog_of(root_path, entries).paths;
    Seq::new(
        entries.len() + 1,
        |i: int|
            if i == 0 {
                compare_key(display_path(root_path))
            } else {
                compare_key(paths[entries[i - 1].record])
            },
    )
}

proof fn lemma_root_waits(entries: Seq<PendingView>, root: Seq<char>)
    ensures
        stands_below(root_placed(root), entries),
        none_forgotten(root_placed(root), entries, seq![ROOT_RECORD]),
        root_placed(root).paths.contains_key(ROOT_RECORD),
{
    assert(seq![ROOT_RECORD][0] == ROOT_RECORD);
    assert(seq![ROOT_RECORD].contains(ROOT_RECORD));
}

/// What holds of the paths of a catalog: nothing but the root and the files has one.
proof fn lemma_catalog_paths(root_path: Seq<char>, entries: Seq<PendingView>)
    requires
        records_differ(entries),
        entries.len() <= usize::MAX,
    ensures
        ({
            let catalog = catalog_of(root_path, entries);
            &&& rows_have_paths(catalog)
            &&& catalog.paths.contains_key(ROOT_RECORD) && catalog.paths[ROOT_RECORD]
                == display_path(root_path)
            &&& forall|r: u64| #[trigger]
                catalog.paths.contains_key(r) ==> is_known(entries, r)
            &&& forall|i: int|
                0 <= i < entries.len() && !is_known(
                    entries,
                    (#[trigger] entries[i]).parent_record,
                ) ==> catalog.paths.contains_key(entries[i].record)
                    && catalog.paths[entries[i].record] == child_path(
                    display_path(root_path),
                    entries[i].name,
                )
        }),
{
    let root = display_path(root_path);
    let start = root_placed(root);
    let reached = walked(start, entries, seq![ROOT_RECORD], root);
    assert(start.paths.contains_key(ROOT_RECORD));
    assert forall|k: Seq<char>| #[trigger] start.rows.contains_key(k) implies exists|r: u64|
        #[trigger]
        start.paths.contains_key(r) && compare_key(start.paths[r]) == k by {
        assert(compare_key(start.paths[ROOT_RECORD]) == k);
    }
    lemma_root_waits(entries, root);
    lemma_walked_anew(start, entries, seq![ROOT_RECORD], root);
    assert(reached.paths.contains_key(ROOT_RECORD) && reached.paths[ROOT_RECORD] == root);
    lemma_rest_anew(reached, entries, root, entries.len() as int);
    let catalog = catalog_of(root_path, entries);
    assert forall|r: u64| #[trigger] catalog.paths.contains_key(r) implies is_known(
        entries,
        r,
    ) by {
        if reached.paths.contains_key(r) {
        }
    }
}

/// Where every file has a record of its own, the catalog has a row for each of them and for the
/// root exactly where no two of their paths agree, whatever the case of their letters.
pub proof fn lemma_rows_of_distinct_paths(root_path: Seq<char>, entries: Seq<PendingView>)
    requires
        records_differ(entries),
        entries.len() <= usize::MAX,
    ensures
        catalog_of(root_path, entries).rows.dom() == catalog_keys(root_path, entries).to_set(),
        catalog_of(root_path, entries).rows.len() == entries.len() + 1 <==> catalog_keys(
            root_path,
            entries,
        ).no_duplicates(),
{
    let catalog = catalog_of(root_path, entries);
    let keys = catalog_keys(root_path, entries);
    lemma_catalog_paths(root_path, entries);
    lemma_catalog_holds_every_file(root_path, entries);
    assert forall|k: Seq<char>| #[trigger] catalog.rows.contains_key(k) <==> keys.contains(k) by {
        if catalog.rows.contains_key(k) {
            let r = choose|r: u64| #[trigger]
                catalog.paths.contains_key(r) && compare_key(catalog.paths[r]) == k;
            if r == ROOT_RECORD {
                assert(keys[0] == k);
            } else {
                let i = choose|i: int|
                    0 <= i < entries.len() && (#[trigger] entries[i]).record == r;
                assert(keys[i + 1] == k);
            }
        }
        if keys.contains(k) {
            let i = choose|i: int| 0 <= i < keys.len() && keys[i] == k;
            if i > 0 {
                assert(catalog.paths.contains_key(entries[i - 1].record));
            }
        }
    }
    assert(catalog.rows.dom() =~= keys.to_set());
    if keys.no_duplicates() {
        keys.unique_seq_to_set();
    }
    if catalog.rows.len() == entries.len() + 1 {
        keys.lemma_no_dup_set_cardinality();
    }
}

/// A way of at most `n` folders leads up from a record to the root.
pub open spec fn leads_to_root(entries: Seq<PendingView>, record: u64, n: nat) -> bool
    decreases n,
{
    record == ROOT_RECORD || n > 0 && exists|i: int|
        0 <= i < entries.len() && (#[trigger] entries[i]).record == record && leads_to_root(
            entries,
            entries[i].parent_record,
            (n - 1) as nat,
        )
}

proof fn lemma_way_is_walked(s: Placement, entries: Seq<PendingView>, record: u64, n: nat)
    requires
        stands_below(s, entries),
        none_forgotten(s, entries, seq![]),
        s.paths.contains_key(ROOT_RECORD),
        entries.len() <= usize::MAX,
        leads_to_root(entries, record, n),
    ensures
        s.paths.contains_key(record),
    decreases n,
{
    if record != ROOT_RECORD {
        let i = choose|i: int|
            0 <= i < entries.len() && (#[trigger] entries[i]).record == record && leads_to_root(
                entries,
                entries[i].parent_record,
                (n - 1) as nat,
            );
        lemma_way_is_walked(s, entries, entries[i].parent_record, (n - 1) as nat);
        lemma_files_in(entries, entries[i].parent_record, entries.len() as int);
        assert(all_files_in(entries, entries[i].parent_record).contains(i as usize));
    }
}

/// The path of a file from which a way leads to the root is the path of the folder that it lies
/// in, with its name behind it.
pub proof fn lemma_files_stand_below_their_folder(
    root_path: Seq<char>,
    entries: Seq<PendingView>,
    i: int,
    n: nat,
)
    requires
        records_differ(entries),
        entries.len() <= usize::MAX,
        0 <= i < entries.len(),
        leads_to_root(entries, entries[i].parent_record, n),
    ensures
        ({
            let paths = catalog_of(root_path, entries).paths;
            &&& paths.contains_key(entries[i].record)
            &&& paths.contains_key(entries[i].parent_record)
            &&& paths[entries[i].record] == child_path(
                paths[entries[i].parent_record],
                entries[i].name,
            )
            &&& entries[i].parent_record == ROOT_RECORD ==> paths[entries[i].record] == child_path(
                display_path(root_path),
                entries[i].name,
            )
        }),
{
    let root = display_path(root_path);
    let start = root_placed(root);
    let reached = walked(start, entries, seq![ROOT_RECORD], root);
    lemma_catalog_paths(root_path, entries);
    lemma_root_waits(entries, root);
    assert forall|k: Seq<char>| #[trigger] start.rows.contains_key(k) implies exists|r: u64|
        #[trigger]
        start.paths.contains_key(r) && compare_key(start.paths[r]) == k by {
        assert(compare_key(start.paths[ROOT_RECORD]) == k);
    }
    lemma_walked_anew(start, entries, seq![ROOT_RECORD], root);
    lemma_rest_anew(reached, entries, root, entries.len() as int);
    let folder = entries[i].parent_record;
    lemma_way_is_walked(reached, entries, folder, n);
    lemma_files_in(entries, folder, entries.len() as int);
    assert(all_files_in(entries, folder).contains(i as usize));
    assert(reached.done.contains(folder));
    assert(reached.paths.contains_key(entries[i].record));
}

/// A file whose parent has no record in the catalog stands in the root.
pub proof fn lemma_orphans_stand_in_the_root(root_path: Seq<char>, entries: Seq<PendingView>, i: int)
    requires
        records_differ(entries),
        entries.len() <= usize::MAX,
        0 <= i < entries.len(),
        !is_known(entries, entries[i].parent_record),
    ensures
        ({
            let catalog = catalog_of(root_path, entries);
            let path = child_path(display_path(root_path), entries[i].name);
            &&& catalog.paths.contains_key(entries[i].record)
            &&& catalog.paths[entries[i].record] == path
            &&& catalog.rows.contains_key(compare_key(path))
        }),
{
    lemma_catalog_paths(root_path, entries);
    lemma_catalog_holds_every_file(root_path, entries);
    assert(entries[i].parent_record == entries[i].parent_record);
}

// ---------------------------------------------------------------------------
// Files of the master file table.

/// What the catalog reads of a record of the master file table; times in nanoseconds from the
/// start of 1970.
#[derive(Debug)]
pub struct NtfsFileFacts {
    pub record: u64,
    pub used: bool,
    pub is_directory: bool,
    pub best_name: Option<NtfsNameFacts>,
    pub info_name: String,
    pub info_path: String,
    pub info_size: u64,
    pub data: Vec<DataAttribute>,
    pub created: Option<i128>,
    pub modified: Option<i128>,
    pub accessed: Option<i128>,
}

/// The name of a record that the file system prefers.
#[derive(Debug)]
pub struct NtfsNameFacts {
    pub name: String,
    pub parent_record: u64,
    pub attributes: u32,
}

/// A component of the path starts with a dollar sign.
pub open spec fn dollar_component(path: Seq<char>) -> bool {
    exists|i: int|
        0 <= i < path.len() && #[trigger] path[i] == '$' && (i == 0 || path[i - 1] == '\\' || path[i
            - 1] == '/')
}

pub fn has_dollar_component(path: &str) -> (r: bool)
    ensures
        r == dollar_component(path@),
{
    let chars = chars_of(path);
    let mut i: usize = 0;
    while i < chars.len()
        invariant
            i <= chars@.len(),
            chars@ == path@,
            forall|j: int|
                0 <= j < i && #[trigger] path@[j] == '$' ==> j > 0 && path@[j - 1] != '\\'
                    && path@[j - 1] != '/',
        decreases chars@.len() - i,
    {
        if chars[i] == '$' && (i == 0 || chars[i - 1] == '\\' || chars[i - 1] == '/') {
            assert(path@[i as int] == '$');
            return true;
        }
        i += 1;
    }
    false
}

/// The name under which a record is catalogued.
pub open spec fn fact_name(f: NtfsFileFacts) -> Seq<char> {
    if f.info_name@.len() == 0 {
        match f.best_name {
            Some(n) => n.name@,
            None => seq![],
        }
    } else {
        f.info_name@
    }
}

pub open spec fn larger(a: u64, b: u64) -> u64 {
    if a > b {
        a
    } else {
        b
    }
}

/// The pending file of a record: none for the root, for an unused record and for one without
/// a name.
pub open spec fn pending_of(f: NtfsFileFacts, mounted: bool) -> Option<PendingView> {
    let name = fact_name(f);
    match f.best_name {
        Some(best) => if f.record == ROOT_RECORD || !f.used || name.len() == 0 {
            None
        } else {
            Some(
                PendingView {
                    record: f.record,
                    parent_record: best.parent_record,
                    name,
                    extension: if f.is_directory {
                        None
                    } else {
                        match file_extension(name) {
                            Some(e) => Some(ascii_lower(e)),
                            None => None,
                        }
                    },
                    is_directory: f.is_directory,
                    is_metafile: f.record < ROOT_RECORD || starts_with_dollar(name)
                        || dollar_component(f.info_path@),
                    size: larger(logical_size(f.data@), f.info_size),
                    created_at: time_text(f.created),
                    modified_at: time_text(f.modified),
                    accessed_at: time_text(f.accessed),
                    hidden: best.attributes & 0x0002u32 != 0,
                    system: best.attributes & 0x0004u32 != 0,
                    read_only: best.attributes & 0x0001u32 != 0,
                    attr_bits: best.attributes,
                    access_state: if mounted {
                        SourceAccessState::Readable
                    } else {
                        SourceAccessState::Unknown
                    },
                },
            )
        },
        None => None,
    }
}

pub open spec fn pending_opt(e: Option<PendingNtfsEntry>) -> Option<PendingView> {
    match e {
        Some(entry) => Some(entry@),
        None => None,
    }
}

pub fn lower_extension(name: &str, is_directory: bool) -> (r: Option<String>)
    ensures
        opt_view(r) == if is_directory {
            None
        } else {
            match file_extension(name@) {
                Some(e) => Some(ascii_lower(e)),
                None => None,
            }
        },
{
    if is_directory {
        return None;
    }
    match file_extension_of(name) {
        Some(e) => Some(to_ascii_lowercase(e.as_str())),
        None => None,
    }
}

/// What the catalog keeps of one record of the master file table.
pub fn collect_pending_ntfs_entry(facts: &NtfsFileFacts, mounted: bool) -> (r: Option<
    PendingNtfsEntry,
>)
    ensures
        pending_opt(r) == pending_of(*facts, mounted),
{
    if facts.record == ROOT_RECORD || !facts.used {
        return None;
    }
    let best = match &facts.best_name {
        Some(best) => best,
        None => {
            return None;
        },
    };
    let name = if facts.info_name.as_str().is_empty() {
        best.name.clone()
    } else {
        facts.info_name.clone()
    };
    if name.as_str().is_empty() {
        return None;
    }
    let data_size: u64 = ntfs_primary_logical_size(&facts.data);
    Some(
        PendingNtfsEntry {
            record: facts.record,
            parent_record: best.parent_record,
            extension: lower_extension(name.as_str(), facts.is_directory),
            is_directory: facts.is_directory,
            is_metafile: facts.record < ROOT_RECORD || starts_with_char(name.as_str(), '$')
                || has_dollar_component(facts.info_path.as_str()),
            name,
            size: if data_size > facts.info_size {
                data_size
            } else {
                facts.info_size
            },
            created_at: format_time(facts.created),
            modified_at: format_time(facts.modified),
            accessed_at: format_time(facts.accessed),
            hidden: best.attributes & 0x0002 != 0,
            system: best.attributes & 0x0004 != 0,
            read_only: best.attributes & 0x0001 != 0,
            attr_bits: best.attributes,
            access_state: if mounted {
                SourceAccessState::Readable
            } else {
                SourceAccessState::Unknown
            },
        },
    )
}

// ---------------------------------------------------------------------------
// Walking a mounted file system.

/// The walk through the folders of a mounted volume: the rows so far and the folders that are
/// still to be read.
pub struct FilesystemWalk {
    rows: Table<CatalogEntryRow>,
    queue: Vec<String>,
    head: usize,
    enumerated: u64,
}

/// What a walk holds.
#[verifier::ext_equal]
pub ghost struct FolderWalk {
    pub rows: Map<Seq<char>, RowView>,
    pub waiting: Seq<Seq<char>>,
    pub enumerated: u64,
}

pub open spec fn capped_next(n: u64) -> u64 {
    if n == u64::MAX {
        n
    } else {
        (n + 1) as u64
    }
}

/// The walk after one more entry of the folder with the given path.
pub open spec fn entry_met(
    w: FolderWalk,
    file_name: Option<Seq<char>>,
    path: Seq<char>,
    folder: Seq<char>,
    reply: MetadataReply,
) -> FolderWalk {
    let row = file_row(file_name, path, compare_key(display_path(folder)), reply);
    FolderWalk {
        rows: best_row(w.rows, row),
        waiting: if can_navigate(row.is_directory, row.attr_bits, row.access_state) {
            w.waiting.push(path)
        } else {
            w.waiting
        },
        enumerated: capped_next(w.enumerated),
    }
}

impl FilesystemWalk {
    pub closed spec fn wf(&self) -> bool {
        self.rows.wf() && self.head <= self.queue@.len()
    }

    pub closed spec fn view(&self) -> FolderWalk {
        FolderWalk {
            rows: rows_view(self.rows@),
            waiting: crate::text::views(
                self.queue@.subrange(self.head as int, self.queue@.len() as int),
            ),
            enumerated: self.enumerated,
        }
    }

    /// A walk from the root.
    pub fn new(file_name: Option<&str>, root: &str, reply: &MetadataReply) -> (r: Self)
        ensures
            r.wf(),
            r@ == (FolderWalk {
                rows: Map::empty().insert(
                    compare_key(display_path(root@)),
                    file_row(ref_view(file_name), root@, seq![], *reply),
                ),
                waiting: seq![root@],
                enumerated: 0,
            }),
    {
        let mut rows: Table<CatalogEntryRow> = Table::new();
        assert(rows_view(rows@) =~= Map::empty());
        let row = build_row_from_filesystem_path(file_name, root, "", reply);
        proof {
            reveal_strlit("");
            assert(""@ =~= seq![]);
        }
        push_best_row(&mut rows, row);
        let mut queue: Vec<String> = Vec::new();
        queue.push(owned(root));
        let walk = FilesystemWalk { rows, queue, head: 0, enumerated: 0 };
        assert(walk@.waiting =~= seq![root@]);
        walk
    }

    /// The next folder to read, if there is one.
    pub fn next_directory(&mut self) -> (r: Option<String>)
        requires
            old(self).wf(),
        ensures
            final(self).wf(),
            match r {
                Some(path) => {
                    &&& old(self)@.waiting.len() > 0
                    &&& path@ == old(self)@.waiting[0]
                    &&& final(self)@ == (FolderWalk {
                        waiting: old(self)@.waiting.drop_first(),
                        ..old(self)@
                    })
                },
                None => old(self)@.waiting.len() == 0 && final(self)@ == old(self)@,
            },
    {
        if self.head < self.queue.len() {
            let path = self.queue[self.head].clone();
            self.head += 1;
            assert(self@.waiting =~= old(self)@.waiting.drop_first());
            Some(path)
        } else {
            None
        }
    }

    /// Whether the walk is to report how far it has come.
    pub fn report_due(&self) -> (r: bool)
        ensures
            r == (self@.enumerated % 256 == 0),
    {
        self.enumerated % 256 == 0
    }

    /// How many paths have a row.
    pub fn indexed_entries(&self) -> (r: u64)
        requires
            self.wf(),
        ensures
            r == self@.rows.len(),
            self@.rows.dom().finite(),
    {
        proof {
            lemma_table_len(self.rows);
        }
        self.rows.len() as u64
    }

    /// Notes that a folder could not be read.
    pub fn directory_failed(&mut self, path: &str, denied: bool)
        requires
            old(self).wf(),
        ensures
            final(self).wf(),
            final(self)@ == (FolderWalk {
                rows: marked(old(self)@.rows, compare_key(display_path(path@)), denied),
                ..old(self)@
            }),
    {
        let shown = normalize_display_string(path);
        let key = normalize_compare_string(shown.as_str());
        mark_directory_access_state(&mut self.rows, key.as_str(), denied);
    }

    /// Takes in one entry of a folder.
    pub fn entry(
        &mut self,
        file_name: Option<&str>,
        path: &str,
        folder: &str,
        reply: &MetadataReply,
    )
        requires
            old(self).wf(),
        ensures
            final(self).wf(),
            final(self)@ == entry_met(
                old(self)@,
                ref_view(file_name),
                path@,
                folder@,
                *reply,
            ),
    {
        let shown = normalize_display_string(folder);
        let key = normalize_compare_string(shown.as_str());
        let row = build_row_from_filesystem_path(file_name, path, key.as_str(), reply);
        if catalog_entry_is_traversable_directory(&row) {
            self.queue.push(owned(path));
            assert(self@.waiting =~= old(self)@.waiting.push(path@));
        }
        push_best_row(&mut self.rows, row);
        self.enumerated = self.enumerated.saturating_add(1);
    }

    /// The rows of the walk.
    pub fn finish(self) -> (r: Table<CatalogEntryRow>)
        requires
            self.wf(),
        ensures
            r.wf(),
            rows_view(r@) == self@.rows,
    {
        self.rows
    }
}

/// A table has as many pairs as keys.
proof fn lemma_table_len(t: Table<CatalogEntryRow>)
    requires
        t.wf(),
    ensures
        rows_view(t@).dom().finite(),
        rows_view(t@).len() == t.entries@.len(),
{
    lemma_pairs_len(t.entries@);
    assert(rows_view(t@).dom() =~= t@.dom());
}

/// Reading on loses no path: the row of the root and those of all entries so far stay.
pub proof fn lemma_walk_keeps_paths(
    w: FolderWalk,
    file_name: Option<Seq<char>>,
    path: Seq<char>,
    folder: Seq<char>,
    reply: MetadataReply,
    key: Seq<char>,
    denied: bool,
)
    ensures
        forall|k: Seq<char>| #[trigger]
            w.rows.contains_key(k) ==> entry_met(
                w,
                file_name,
                path,
                folder,
                reply,
            ).rows.contains_key(k) && marked(w.rows, key, denied).contains_key(k),
        entry_met(w, file_name, path, folder, reply).rows.contains_key(compare_key(display_path(path))),
{
}

// ---------------------------------------------------------------------------
// The stored catalog.

/// What building a catalog is doing.
#[derive(Debug, Clone, Copy, PartialEq, Eq, Structural)]
pub enum CatalogPhase {
    OpeningVolume,
    EnumeratingFiles,
    AugmentingNtfsMetadata,
    BuildingIndexes,
    Finalizing,
}

/// Where a catalog comes from.
#[derive(Debug, Clone, Copy, PartialEq, Eq, Structural)]
pub enum CatalogCacheState {
    Cold,
    Warm,
    DeltaRefresh,
    Rebuild,
}

/// How far loading a catalog has come.
#[derive(Debug, Clone, Copy, PartialEq, Eq, Structural)]
pub struct CatalogProgress {
    pub phase: CatalogPhase,
    pub indexed_entries: u64,
    pub total_estimated_entries: Option<u64>,
    pub cache_state: CatalogCacheState,
}

/// What tells the catalog of a source from all others, and the files that hold it.
#[derive(Debug)]
pub struct CatalogIdentity {
    pub fingerprint: String,
    pub signature: String,
    pub db_name: String,
    pub temp_name: String,
}

pub open spec fn filesystem_name(filesystem: FileSystemKind) -> Seq<char> {
    match filesystem {
        FileSystemKind::Ntfs => "Ntfs"@,
        FileSystemKind::Fat32 => "Fat32"@,
        FileSystemKind::ExFat => "ExFat"@,
        FileSystemKind::Unknown => "Unknown"@,
    }
}

fn filesystem_name_of(filesystem: FileSystemKind) -> (r: &'static str)
    ensures
        r@ == filesystem_name(filesystem),
{
    match filesystem {
        FileSystemKind::Ntfs => "Ntfs",
        FileSystemKind::Fat32 => "Fat32",
        FileSystemKind::ExFat => "ExFat",
        FileSystemKind::Unknown => "Unknown",
    }
}

pub open spec fn text_or_empty(s: Option<Seq<char>>) -> Seq<char> {
    match s {
        Some(text) => text,
        None => ""@,
    }
}

fn push_opt(out: &mut String, s: &Option<String>)
    ensures
        final(out)@ == old(out)@ + text_or_empty(opt_view(*s)),
{
    match s {
        Some(text) => {
            out.append(text.as_str());
        },
        None => {
            out.append("");
        },
    }
}

pub open spec fn bool_text(b: bool) -> Seq<char> {
    if b {
        "true"@
    } else {
        "false"@
    }
}

fn bool_text_of(b: bool) -> (r: &'static str)
    ensures
        r@ == bool_text(b),
{
    if b {
        "true"
    } else {
        "false"
    }
}

/// The volume that a source is on.
pub open spec fn fingerprint_of(source: ScanSource) -> Seq<char> {
    source.id@ + "|"@ + source.device_path@ + "|"@ + text_or_empty(opt_view(source.mount_point))
        + "|"@ + filesystem_name(source.filesystem) + "|"@ + decimal(
        match source.volume_serial {
            Some(n) => n as nat,
            None => 0,
        },
    ) + "|"@ + decimal(source.total_bytes as nat) + "|"@ + decimal(
        match source.cluster_size {
            Some(n) => n as nat,
            None => 0,
        },
    )
}

/// The state of a source for which a catalog is good.
pub open spec fn signature_of(source: ScanSource) -> Seq<char> {
    fingerprint_of(source) + "|"@ + text_or_empty(opt_view(source.volume_label)) + "|"@ + bool_text(
        source.is_system,
    ) + "|"@ + bool_text(source.requires_elevation) + "|"@ + "5"@
}

fn fingerprint(source: &ScanSource) -> (r: String)
    ensures
        r@ == fingerprint_of(*source),
{
    let mut out = source.id.clone();
    out.append("|");
    out.append(source.device_path.as_str());
    out.append("|");
    push_opt(&mut out, &source.mount_point);
    out.append("|");
    out.append(filesystem_name_of(source.filesystem));
    out.append("|");
    let serial: u64 = match source.volume_serial {
        Some(n) => n as u64,
        None => 0,
    };
    push_decimal(&mut out, serial);
    out.append("|");
    push_decimal(&mut out, source.total_bytes);
    out.append("|");
    let cluster: u64 = match source.cluster_size {
        Some(n) => n,
        None => 0,
    };
    push_decimal(&mut out, cluster);
    out
}

fn signature(source: &ScanSource) -> (r: String)
    ensures
        r@ == signature_of(*source),
{
    let mut out = fingerprint(source);
    out.append("|");
    push_opt(&mut out, &source.volume_label);
    out.append("|");
    out.append(bool_text_of(source.is_system));
    out.append("|");
    out.append(bool_text_of(source.requires_elevation));
    out.append("|");
    out.append("5");
    out
}

/// The version of the stored form of a catalog.
pub fn catalog_schema_version() -> (r: &'static str)
    ensures
        r@ == "5"@,
{
    "5"
}

/// What tells the catalog of a source from all others.
pub fn catalog_identity(source: &ScanSource) -> (r: CatalogIdentity)
    ensures
        r.fingerprint@ == fingerprint_of(*source),
        r.signature@ == signature_of(*source),
        r.db_name@ == sha256_text(encode_utf8(fingerprint_of(*source))) + ".sqlite3"@,
        r.temp_name@ == sha256_text(encode_utf8(fingerprint_of(*source))) + ".tmp.sqlite3"@,
{
    let fingerprint = fingerprint(source);
    let hash = sha256_hex(fingerprint.as_str().as_bytes());
    CatalogIdentity {
        signature: signature(source),
        db_name: concat2(hash.as_str(), ".sqlite3"),
        temp_name: concat2(hash.as_str(), ".tmp.sqlite3"),
        fingerprint,
    }
}

/// Whether a stored catalog is complete, of this version and of the source as it is now.
pub fn catalog_matches(
    identity: &CatalogIdentity,
    ready: &Option<String>,
    schema: &Option<String>,
    signature: &Option<String>,
) -> (r: bool)
    ensures
        r == (opt_view(*ready) == Some("1"@) && opt_view(*schema) == Some("5"@) && opt_view(
            *signature,
        ) == Some(identity.signature@)),
{
    opt_is(ready, "1") && opt_is(schema, catalog_schema_version()) && opt_is(
        signature,
        identity.signature.as_str(),
    )
}

/// Why a source has no catalog.
pub open spec fn unsupported(source: ScanSource) -> Option<Seq<char>> {
    if source.kind != SourceKind::LogicalVolume {
        Some("Catalog loading is available only for mounted logical volumes"@)
    } else if source.mount_point is None {
        Some("Mounted source path is unavailable"@)
    } else {
        None
    }
}

pub fn ensure_catalog_supported(source: &ScanSource) -> (r: Result<(), RssError>)
    ensures
        match r {
            Ok(_) => unsupported(*source) is None,
            Err(e) => unsupported(*source) == Some(message_of(e)),
        },
{
    if source.kind != SourceKind::LogicalVolume {
        return Err(
            RssError::Message(
                owned("Catalog loading is available only for mounted logical volumes"),
            ),
        );
    }
    if source.mount_point.is_none() {
        return Err(RssError::Message(owned("Mounted source path is unavailable")));
    }
    Ok(())
}

/// How a catalog is to be had.
#[derive(Debug, Clone, Copy, PartialEq, Eq, Structural)]
pub enum CatalogLoad {
    Keep,
    Build(CatalogCacheState),
}

/// What to do for a catalog: a stored one that matches is kept unless a rebuild is asked for.
pub fn plan_load(force_rebuild: bool, stored: bool, fits: bool) -> (r: CatalogLoad)
    ensures
        r == if !force_rebuild && stored && fits {
            CatalogLoad::Keep
        } else if force_rebuild {
            CatalogLoad::Build(CatalogCacheState::Rebuild)
        } else {
            CatalogLoad::Build(CatalogCacheState::Cold)
        },
{
    if !force_rebuild && stored && fits {
        CatalogLoad::Keep
    } else if force_rebuild {
        CatalogLoad::Build(CatalogCacheState::Rebuild)
    } else {
        CatalogLoad::Build(CatalogCacheState::Cold)
    }
}

/// How many entries a kept catalog has: as noted, else as counted.
pub fn kept_entries(noted: &Option<String>, counted: Option<u64>) -> (r: u64)
    ensures
        r == match opt_view(*noted) {
            Some(text) => match parsed_u64(text) {
                Some(n) => n,
                None => match counted {
                    Some(n) => n,
                    None => 0,
                },
            },
            None => match counted {
                Some(n) => n,
                None => 0,
            },
        },
{
    if let Some(text) = noted {
        if let Some(n) = parse_u64(text.as_str()) {
            return n;
        }
    }
    match counted {
        Some(n) => n,
        None => 0,
    }
}

/// The page of the catalog that answers a request.
#[derive(Debug)]
pub struct CatalogQuery {
    pub root_path: String,
    pub path: String,
    pub path_key: String,
    pub start: usize,
    pub page_size: usize,
    pub directories_only: bool,
}

/// What the catalog has on a page: how many entries the folder has, and those of the page.
#[derive(Debug)]
pub struct CatalogPage {
    pub total: usize,
    pub rows: Vec<CatalogEntryRow>,
}

/// The catalogs of sources, in one folder.
#[derive(Debug)]
pub struct CatalogStore {
    pub root: String,
}

pub open spec fn rows_as_entries(rows: Seq<CatalogEntryRow>, parent: Seq<char>) -> Seq<EntryView> {
    rows.map_values(|row: CatalogEntryRow| row_entry(row@, parent))
}

pub open spec fn entry_views(entries: Seq<SourceEntry>) -> Seq<EntryView> {
    entries.map_values(|e: SourceEntry| e@)
}

pub open spec fn capped(n: int) -> int {
    if n > usize::MAX {
        usize::MAX as int
    } else {
        n
    }
}

/// The listing that a page of the catalog answers with.
pub open spec fn is_catalog_listing(
    r: SourceDirectoryListing,
    source: ScanSource,
    query: CatalogQuery,
    page: CatalogPage,
    parent: Option<Seq<char>>,
) -> bool {
    let end = capped(query.start + page.rows@.len());
    &&& r.source_id@ == source.id@
    &&& r.root_path@ == display_path(query.root_path@)
    &&& r.path@ == query.path@
    &&& opt_view(r.parent_path) == parent_shown(query.path@, query.root_path@, parent)
    &&& entry_views(r.entries@) == rows_as_entries(page.rows@, query.path@)
    &&& r.deleted_artifacts@.len() == 0
    &&& r.total_entry_count == page.total
    &&& r.deleted_artifact_count == 0
    &&& opt_view(r.next_cursor) == if end < page.total {
        Some(decimal(end as nat))
    } else {
        None
    }
    &&& r.deleted_artifact_next_cursor is None
    &&& r.indexing_complete
    &&& r.indexed_entries == page.total
    &&& r.total_estimated_entries == Some(page.total as u64)
    &&& r.index_generation == 1
    &&& r.deleted_subtree_count == 0
}

fn entries_of(rows: Vec<CatalogEntryRow>, parent: &str) -> (r: Vec<SourceEntry>)
    ensures
        entry_views(r@) == rows_as_entries(rows@, parent@),
{
    let ghost given = rows@;
    let mut turned = turn_around(rows);
    let mut out: Vec<SourceEntry> = Vec::new();
    while turned.len() > 0
        invariant
            out@.len() + turned@.len() == given.len(),
            forall|k: int|
                0 <= k < turned@.len() ==> #[trigger] turned@[k] == given[given.len() - 1 - k],
            forall|k: int| 0 <= k < out@.len() ==> (#[trigger] out@[k])@ == row_entry(
                given[k]@,
                parent@,
            ),
        decreases turned@.len(),
    {
        let ghost i = out@.len() as int;
        if let Some(row) = turned.pop() {
            assert(row == given[i]);
            out.push(row.entry_in(owned(parent)));
        }
    }
    assert(entry_views(out@) =~= rows_as_entries(given, parent@));
    out
}

impl CatalogStore {
    pub fn new(root: String) -> (r: Self)
        ensures
            r.root == root,
    {
        CatalogStore { root }
    }

    /// The page that a request asks for, where the source has a catalog that is ready.
    pub fn browse_query(
        &self,
        source: &ScanSource,
        request: &BrowseSourceRequest,
        ready: bool,
    ) -> (r: Result<CatalogQuery, RssError>)
        ensures
            match r {
                Ok(query) => {
                    &&& unsupported(*source) is None
                    &&& ready
                    &&& source.mount_point matches Some(root) && query.root_path@ == root@
                    &&& query.path@ == requested_path(
                        opt_view(request.path),
                        display_path(query.root_path@),
                    )
                    &&& query.path_key@ == compare_key(query.path@)
                    &&& query.start == page_offset(opt_view(request.cursor))
                    &&& query.page_size == page_size(request.limit)
                    &&& query.directories_only == (request.directories_only == Some(true))
                },
                Err(e) => match unsupported(*source) {
                    Some(m) => message_of(e) == m,
                    None => !ready && message_of(e) == "catalog_not_ready"@,
                },
            },
    {
        if let Err(e) = ensure_catalog_supported(source) {
            return Err(e);
        }
        if !ready {
            return Err(RssError::Message(owned("catalog_not_ready")));
        }
        match &source.mount_point {
            Some(root) => {
                let shown = normalize_display_string(root.as_str());
                let asked: Option<&str> = match &request.path {
                    Some(path) => Some(path.as_str()),
                    None => None,
                };
                let path = requested_path_of(asked, shown.as_str());
                Ok(
                    CatalogQuery {
                        root_path: root.clone(),
                        path_key: normalize_compare_string(path.as_str()),
                        path,
                        start: page_offset_of(&request.cursor),
                        page_size: page_size_of(request.limit),
                        directories_only: match request.directories_only {
                            Some(b) => b,
                            None => false,
                        },
                    },
                )
            },
            None => Err(RssError::Message(owned("Mounted source path is unavailable"))),
        }
    }

    /// The answer to a request, from what the catalog has on the page; `parent` is the parent
    /// of the path by the system's rules.
    pub fn browse_source(
        &self,
        source: &ScanSource,
        query: &CatalogQuery,
        page: Option<CatalogPage>,
        parent: Option<&str>,
    ) -> (r: Result<SourceDirectoryListing, RssError>)
        ensures
            match (r, page) {
                (Ok(listing), Some(page)) => is_catalog_listing(
                    listing,
                    *source,
                    *query,
                    page,
                    ref_view(parent),
                ),
                (Err(e), None) => message_of(e) == "Requested path was not found"@,
                _ => false,
            },
    {
        let page = match page {
            Some(page) => page,
            None => {
                return Err(RssError::Message(owned("Requested path was not found")));
            },
        };
        let count: usize = page.rows.len();
        let end: usize = query.start.saturating_add(count);
        let entries = entries_of(page.rows, query.path.as_str());
        Ok(
            SourceDirectoryListing {
                source_id: source.id.clone(),
                root_path: normalize_display_string(query.root_path.as_str()),
                path: query.path.clone(),
                parent_path: normalize_parent_path(
                    query.path.as_str(),
                    query.root_path.as_str(),
                    parent,
                ),
                entries,
                deleted_artifacts: Vec::new(),
                total_entry_count: page.total,
                deleted_artifact_count: 0,
                next_cursor: cursor_behind(end, page.total),
                deleted_artifact_next_cursor: None,
                indexing_complete: true,
                indexed_entries: page.total as u64,
                total_estimated_entries: Some(page.total as u64),
                index_generation: 1,
                deleted_subtree_count: 0,
            },
        )
    }

    /// The entry at a path, from the row that the catalog has for it; `parent` is the parent
    /// of the row's path by the system's rules.
    pub fn entry_details(
        &self,
        source: &ScanSource,
        ready: bool,
        row: Option<CatalogEntryRow>,
        parent: Option<&str>,
    ) -> (r: Result<SourceEntry, RssError>)
        ensures
            match r {
                Ok(entry) => {
                    &&& unsupported(*source) is None
                    &&& ready
                    &&& row matches Some(found) && entry@ == row_entry(
                        found@,
                        match parent {
                            Some(p) => display_path(p@),
                            None => found.path@,
                        },
                    )
                },
                Err(e) => match unsupported(*source) {
                    Some(m) => message_of(e) == m,
                    None => if !ready {
                        message_of(e) == "catalog_not_ready"@
                    } else {
                        row is None && message_of(e) == "Source entry was not found"@
                    },
                },
            },
    {
        if let Err(e) = ensure_catalog_supported(source) {
            return Err(e);
        }
        if !ready {
            return Err(RssError::Message(owned("catalog_not_ready")));
        }
        match row {
            Some(found) => Ok(found.into_source_entry(parent)),
            None => Err(RssError::Message(owned("Source entry was not found"))),
        }
    }
}

} // verus!
