//! Browsing a mounted NTFS volume by its master file table, while the table is being read.

use crate::bridge::{lemma_seen, seen};
use crate::catalog::{
    dollar_component, has_dollar_component, lower_extension, NtfsFileFacts, PendingNtfsEntry,
    PendingView,
};
use crate::clock::{format_time, time_text};
use crate::entries::{
    attribute_labels, child_path, class_of, classify_source_entry, compare_key, display_path,
    file_extension, is_listing, join_display_path, labels_of, list_entries,
    normalize_compare_string, normalize_display_string, normalize_parent_path, parent_shown,
    requested_path, requested_path_of, shows_entries, starts_with_dollar, EntryView, IndexState,
    ListingPlace, PageRequest,
};
use crate::browse_listing::ref_view;
use crate::model::{
    message_of, RssError, ScanSource, SourceAccessState, SourceDirectoryListing, SourceEntry,
};
use crate::ntfs_paths::ROOT_RECORD;
use crate::numbers::{decimal, decimal_string};
use crate::seqs::turn_around;
use crate::table::Table;
use crate::text::{
    ascii_lower, chars_of, clone_opt, concat2, concat3, eq_ignore_ascii_case, first_index,
    has_prefix, index_of_from, lemma_first_index_props, opt_view, owned, starts_with_char,
    string_of, strip_back, strip_front, trim_end_char, trim_start_char,
};
use std::collections::HashMap;
use vstd::prelude::*;
use vstd::string::*;

verus! {

broadcast use vstd::std_specs::hash::group_hash_axioms;

/// How many entries the index takes in at once.
pub const BROWSE_BATCH: usize = 256;

// ---------------------------------------------------------------------------
// What is read of a record.

/// The name of a record.
pub open spec fn browse_name(f: NtfsFileFacts) -> Seq<char> {
    if f.info_name@.len() == 0 {
        (f.best_name->0).name@
    } else {
        f.info_name@
    }
}

/// What the index keeps of a record: nothing where it is not in use or has no name.
pub open spec fn browse_entry(f: NtfsFileFacts) -> Option<PendingView> {
    match f.best_name {
        Some(best) => if !f.used || browse_name(f).len() == 0 {
            None
        } else {
            let name = browse_name(f);
            Some(
                PendingView {
                    record: f.record,
                    parent_record: best.parent_record,
                    name,
                    extension: if f.is_directory {
                        None
                    } else {
                        match file_extension(name) {
                            Some(e) => Some(ascii_lower(e)),
                            None => None,
                        }
                    },
                    is_directory: f.is_directory,
                    is_metafile: starts_with_dollar(name) || dollar_component(f.info_path@),
                    size: f.info_size,
                    created_at: time_text(f.created),
                    modified_at: time_text(f.modified),
                    accessed_at: time_text(f.accessed),
                    hidden: best.attributes & 0x0002u32 != 0,
                    system: best.attributes & 0x0004u32 != 0,
                    read_only: best.attributes & 0x0001u32 != 0,
                    attr_bits: best.attributes,
                    access_state: SourceAccessState::Readable,
                },
            )
        },
        None => None,
    }
}

/// What the index keeps of a record.
pub fn ntfs_browse_entry(facts: &NtfsFileFacts) -> (r: Option<PendingNtfsEntry>)
    ensures
        match browse_entry(*facts) {
            Some(entry) => r matches Some(e) && e@ == entry,
            None => r is None,
        },
{
    let best = match &facts.best_name {
        Some(best) => best,
        None => {
            return None;
        },
    };
    let name = if facts.info_name.as_str().is_empty() {
        best.name.clone()
    } else {
        facts.info_name.clone()
    };
    if !facts.used || name.as_str().is_empty() {
        return None;
    }
    Some(
        PendingNtfsEntry {
            record: facts.record,
            parent_record: best.parent_record,
            extension: lower_extension(name.as_str(), facts.is_directory),
            is_directory: facts.is_directory,
            is_metafile: starts_with_char(name.as_str(), '$') || has_dollar_component(
                facts.info_path.as_str(),
            ),
            name,
            size: facts.info_size,
            created_at: format_time(facts.created),
            modified_at: format_time(facts.modified),
            accessed_at: format_time(facts.accessed),
            hidden: best.attributes & 0x0002 != 0,
            system: best.attributes & 0x0004 != 0,
            read_only: best.attributes & 0x0001 != 0,
            attr_bits: best.attributes,
            access_state: SourceAccessState::Readable,
        },
    )
}

// ---------------------------------------------------------------------------
// The index.

/// The files of a volume by record, which files are in which folder, and the paths that have
/// been found.
pub struct NtfsBrowseIndex {
    source_id: String,
    root_path: String,
    entries: HashMap<u64, PendingNtfsEntry>,
    children: HashMap<u64, Vec<u64>>,
    path_cache: HashMap<u64, String>,
    reverse_path_cache: Table<u64>,
    indexed_entries: u64,
    total_estimated_entries: u64,
    index_generation: u64,
    indexing_complete: bool,
    indexing_error: Option<String>,
}

/// What the index holds.
#[verifier::ext_equal]
pub ghost struct BrowseIndexView {
    pub source_id: Seq<char>,
    pub root: Seq<char>,
    pub entries: Map<u64, PendingView>,
    pub children: Map<u64, Seq<u64>>,
    pub paths: Map<u64, Seq<char>>,
    pub records: Map<Seq<char>, u64>,
    pub indexed_entries: u64,
    pub total: u64,
    pub generation: u64,
    pub complete: bool,
    pub error: Option<Seq<char>>,
}

pub open spec fn entry_views_of(m: Map<u64, PendingNtfsEntry>) -> Map<u64, PendingView> {
    m.map_values(|e: PendingNtfsEntry| e@)
}

pub open spec fn list_views(m: Map<u64, Vec<u64>>) -> Map<u64, Seq<u64>> {
    m.map_values(|v: Vec<u64>| v@)
}

pub open spec fn text_views(m: Map<u64, String>) -> Map<u64, Seq<char>> {
    m.map_values(|s: String| s@)
}

impl View for NtfsBrowseIndex {
    type V = BrowseIndexView;

    closed spec fn view(&self) -> BrowseIndexView {
        BrowseIndexView {
            source_id: self.source_id@,
            root: self.root_path@,
            entries: entry_views_of(self.entries@),
            children: list_views(self.children@),
            paths: text_views(self.path_cache@),
            records: self.reverse_path_cache@,
            indexed_entries: self.indexed_entries,
            total: self.total_estimated_entries,
            generation: self.index_generation,
            complete: self.indexing_complete,
            error: opt_view(self.indexing_error),
        }
    }
}

/// The index of a volume of which nothing has been read yet.
pub open spec fn empty_index(source_id: Seq<char>, root: Seq<char>) -> BrowseIndexView {
    BrowseIndexView {
        source_id,
        root: display_path(root),
        entries: Map::empty(),
        children: Map::empty(),
        paths: Map::empty().insert(ROOT_RECORD, display_path(root)),
        records: Map::empty().insert(compare_key(root), ROOT_RECORD),
        indexed_entries: 0,
        total: 0,
        generation: 0,
        complete: false,
        error: None,
    }
}

/// The files in a folder.
pub open spec fn files_in(children: Map<u64, Seq<u64>>, record: u64) -> Seq<u64> {
    if children.contains_key(record) {
        children[record]
    } else {
        seq![]
    }
}

/// The index with more files, in their order.
pub open spec fn with_files(v: BrowseIndexView, files: Seq<PendingView>) -> BrowseIndexView
    decreases files.len(),
{
    if files.len() == 0 {
        v
    } else {
        let before = with_files(v, files.drop_last());
        let file = files.last();
        BrowseIndexView {
            entries: before.entries.insert(file.record, file),
            children: before.children.insert(
                file.parent_record,
                files_in(before.children, file.parent_record).push(file.record),
            ),
            ..before
        }
    }
}

proof fn lemma_files_keep_counts(v: BrowseIndexView, files: Seq<PendingView>)
    ensures
        with_files(v, files).indexed_entries == v.indexed_entries,
        with_files(v, files).generation == v.generation,
    decreases files.len(),
{
    if files.len() > 0 {
        lemma_files_keep_counts(v, files.drop_last());
    }
}

/// The views of entries.
pub open spec fn pending_views(list: Seq<PendingNtfsEntry>) -> Seq<PendingView> {
    list.map_values(|e: PendingNtfsEntry| e@)
}

/// The index after a batch of files; an empty batch changes nothing.
pub open spec fn with_batch_of_files(v: BrowseIndexView, files: Seq<PendingView>) -> BrowseIndexView {
    if files.len() == 0 {
        v
    } else {
        BrowseIndexView {
            indexed_entries: ((v.indexed_entries + files.len()) % 0x1_0000_0000_0000_0000) as u64,
            generation: ((v.generation + 1) % 0x1_0000_0000_0000_0000) as u64,
            ..with_files(v, files)
        }
    }
}

/// The index with a path that was found.
pub open spec fn with_path(v: BrowseIndexView, record: u64, path: Seq<char>) -> BrowseIndexView {
    BrowseIndexView {
        paths: v.paths.insert(record, path),
        records: v.records.insert(compare_key(path), record),
        ..v
    }
}

// ---------------------------------------------------------------------------
// From paths to records.

/// Without leading copies of `front`.
pub open spec fn without_front(s: Seq<char>, front: Seq<char>) -> Seq<char>
    decreases s.len(),
{
    if front.len() > 0 && front.is_prefix_of(s) {
        without_front(s.subrange(front.len() as int, s.len() as int), front)
    } else {
        s
    }
}

fn strip_prefix_copies(s: &str, front: &str) -> (r: String)
    ensures
        r@ == without_front(s@, front@),
{
    let mut rest = owned(s);
    let pattern = chars_of(front);
    let n: usize = pattern.len();
    while n > 0 && has_prefix(rest.as_str(), front)
        invariant
            n == front@.len(),
            without_front(rest@, front@) == without_front(s@, front@),
        decreases rest@.len(),
    {
        let chars = chars_of(rest.as_str());
        let ghost before = rest@;
        rest = string_of(&chars, n, chars.len());
        assert(rest@ =~= before.subrange(n as int, before.len() as int));
    }
    rest
}

/// The parts of a path between backslashes, without empty ones.
pub open spec fn segments(s: Seq<char>) -> Seq<Seq<char>>
    decreases s.len(),
    via segments_shrink
{
    if s.len() == 0 {
        seq![]
    } else {
        let i = first_index(s, '\\');
        let rest = if i >= s.len() {
            seq![]
        } else {
            segments(s.subrange(i + 1, s.len() as int))
        };
        if i == 0 {
            rest
        } else {
            seq![s.subrange(0, i)] + rest
        }
    }
}

#[via_fn]
proof fn segments_shrink(s: Seq<char>) {
    lemma_first_index_props(s, '\\');
}

fn split_segments(s: &str) -> (r: Vec<String>)
    ensures
        crate::text::views(r@) == segments(s@),
{
    let chars = chars_of(s);
    let n: usize = chars.len();
    let mut out: Vec<String> = Vec::new();
    let mut at: usize = 0;
    proof {
        assert(s@.subrange(0, n as int) =~= s@);
        assert(crate::text::views(out@) =~= seq![]);
        assert(seq![] + segments(s@) =~= segments(s@));
    }
    while at < n
        invariant
            chars@ == s@,
            n == chars@.len(),
            at <= n,
            segments(s@) == crate::text::views(out@) + segments(
                s@.subrange(at as int, n as int),
            ),
        decreases n - at,
    {
        let end: usize = index_of_from(&chars, '\\', at);
        let ghost rest = s@.subrange(at as int, n as int);
        let ghost before = crate::text::views(out@);
        if end > at {
            let part = string_of(&chars, at, end);
            proof {
                assert(part@ =~= rest.subrange(0, end - at));
            }
            out.push(part);
            assert(crate::text::views(out@) =~= before.push(rest.subrange(0, end - at)));
        }
        proof {
            let tail = if end >= n {
                seq![]
            } else {
                segments(rest.subrange(end - at + 1, rest.len() as int))
            };
            if end < n {
                assert(rest.subrange(end - at + 1, rest.len() as int) =~= s@.subrange(
                    end + 1,
                    n as int,
                ));
            }
            if end > at {
                assert(before + (seq![rest.subrange(0, end - at)] + tail) =~= before.push(
                    rest.subrange(0, end - at),
                ) + tail);
            }
            if end >= n {
                assert(s@.subrange(n as int, n as int) =~= seq![]);
                assert(crate::text::views(out@) + seq![] =~= crate::text::views(out@));
            }
        }
        if end >= n {
            at = n;
        } else {
            at = end + 1;
        }
    }
    proof {
        assert(s@.subrange(n as int, n as int) =~= seq![]);
        assert(crate::text::views(out@) + seq![] =~= crate::text::views(out@));
    }
    out
}

/// The first of the given files whose name is `name`, letter case aside.
pub open spec fn first_named(
    entries: Map<u64, PendingView>,
    files: Seq<u64>,
    name: Seq<char>,
    i: int,
) -> Option<u64>
    decreases files.len() - i,
{
    if i < 0 || i >= files.len() {
        None
    } else if entries.contains_key(files[i]) && ascii_lower(entries[files[i]].name)
        == ascii_lower(name) {
        Some(files[i])
    } else {
        first_named(entries, files, name, i + 1)
    }
}

/// Follows the parts of a path from a folder down; every folder on the way is remembered.
pub open spec fn walk_down(
    v: BrowseIndexView,
    record: u64,
    path: Seq<char>,
    parts: Seq<Seq<char>>,
) -> (Option<u64>, BrowseIndexView)
    decreases parts.len(),
{
    if parts.len() == 0 {
        (Some(record), v)
    } else {
        match first_named(v.entries, files_in(v.children, record), parts[0], 0) {
            Some(next) => {
                let below = child_path(path, parts[0]);
                walk_down(with_path(v, next, below), next, below, parts.drop_first())
            },
            None => (None, v),
        }
    }
}

/// The record of a path, and the index with what was found on the way.
pub open spec fn found_record(v: BrowseIndexView, path: Seq<char>) -> (
    Result<u64, Seq<char>>,
    BrowseIndexView,
) {
    let key = compare_key(path);
    if key == compare_key(v.root) {
        (Ok(ROOT_RECORD), v)
    } else if v.records.contains_key(key) {
        (Ok(v.records[key]), v)
    } else if !compare_key(v.root).is_prefix_of(key) {
        (Err("Requested path is outside the selected source"@), v)
    } else {
        let below = without_front(path, strip_back(v.root, '\\'));
        let parts = segments(strip_back(strip_front(below, '\\'), '\\'));
        match walk_down(v, ROOT_RECORD, v.root, parts) {
            (Some(record), after) => (Ok(record), after),
            (None, after) => (Err("Requested path was not found in NTFS metadata"@), after),
        }
    }
}

// ---------------------------------------------------------------------------
// From records to paths.

/// Why the path of a record is not found.
pub enum ClimbFailure {
    Missing,
    Loop,
}

/// The files from a record up to the root, the deepest first.
pub open spec fn climb(
    entries: Map<u64, PendingView>,
    current: u64,
    done: Seq<u64>,
    limit: nat,
) -> Result<Seq<u64>, ClimbFailure>
    decreases limit + 1 - done.len(),
{
    if current == ROOT_RECORD {
        Ok(done)
    } else if !entries.contains_key(current) {
        Err(ClimbFailure::Missing)
    } else if done.len() + 1 > limit {
        Err(ClimbFailure::Loop)
    } else {
        climb(entries, entries[current].parent_record, done.push(current), limit)
    }
}

/// How many files a way to the root can have.
pub open spec fn climb_limit(entries: Map<u64, PendingView>) -> nat {
    if entries.len() < 1 {
        1
    } else {
        entries.len()
    }
}

/// The path of files below a folder, the deepest first; all of them are remembered.
pub open spec fn laid_out(v: BrowseIndexView, files: Seq<u64>, path: Seq<char>) -> (
    Seq<char>,
    BrowseIndexView,
)
    decreases files.len(),
{
    if files.len() == 0 {
        (path, v)
    } else {
        let below = child_path(path, v.entries[files.last()].name);
        laid_out(with_path(v, files.last(), below), files.drop_last(), below)
    }
}

/// The path of a record, and the index with what was found on the way.
pub open spec fn found_path(v: BrowseIndexView, record: u64) -> (
    Result<Seq<char>, Seq<char>>,
    BrowseIndexView,
) {
    if v.paths.contains_key(record) {
        (Ok(v.paths[record]), v)
    } else {
        match climb(v.entries, record, seq![], climb_limit(v.entries)) {
            Ok(files) => {
                let laid = laid_out(v, files, v.root);
                (Ok(laid.0), laid.1)
            },
            Err(ClimbFailure::Missing) => (
                Err("Failed to resolve NTFS path for record "@ + decimal(record as nat)),
                v,
            ),
            Err(ClimbFailure::Loop) => (
                Err("Detected a loop while resolving NTFS path"@),
                v,
            ),
        }
    }
}

/// What a listing shows of a file.
pub open spec fn shown_file(
    file: PendingView,
    path: Seq<char>,
    parent: Seq<char>,
    has_files: bool,
) -> EntryView {
    EntryView {
        name: file.name,
        path,
        parent_path: parent,
        mft_reference: Some(file.record),
        parent_reference: Some(file.parent_record),
        extension: file.extension,
        is_directory: file.is_directory,
        has_children: Some(file.is_directory && has_files),
        is_metafile: file.is_metafile,
        entry_class: class_of(file.is_directory, file.is_metafile),
        size: if file.is_directory {
            0
        } else {
            file.size
        },
        created_at: file.created_at,
        modified_at: file.modified_at,
        accessed_at: file.accessed_at,
        hidden: file.hidden,
        system: file.system,
        read_only: file.read_only,
        attr_bits: Some(file.attr_bits),
        attributes: labels_of(file.attr_bits, file.read_only),
        deleted_hits: 0,
        access_state: file.access_state,
    }
}

/// What a listing shows of a record; nothing of one that is not in the index.
pub open spec fn found_entry(v: BrowseIndexView, record: u64, parent: Seq<char>) -> (
    Result<Option<EntryView>, Seq<char>>,
    BrowseIndexView,
) {
    if !v.entries.contains_key(record) {
        (Ok(None), v)
    } else {
        match found_path(v, record) {
            (Ok(path), after) => (
                Ok(
                    Some(
                        shown_file(
                            v.entries[record],
                            path,
                            parent,
                            files_in(v.children, record).len() > 0,
                        ),
                    ),
                ),
                after,
            ),
            (Err(e), after) => (Err(e), after),
        }
    }
}

/// What a listing shows of records, in their order; the first that has no path ends it.
pub open spec fn found_entries(v: BrowseIndexView, records: Seq<u64>, parent: Seq<char>) -> (
    Result<Seq<EntryView>, Seq<char>>,
    BrowseIndexView,
)
    decreases records.len(),
{
    if records.len() == 0 {
        (Ok(seq![]), v)
    } else {
        match found_entries(v, records.drop_last(), parent) {
            (Err(e), after) => (Err(e), after),
            (Ok(list), mid) => match found_entry(mid, records.last(), parent) {
                (Err(e), after) => (Err(e), after),
                (Ok(None), after) => (Ok(list), after),
                (Ok(Some(entry)), after) => (Ok(list.push(entry)), after),
            },
        }
    }
}

proof fn lemma_first_error_stays(v: BrowseIndexView, records: Seq<u64>, parent: Seq<char>, i: int)
    requires
        0 <= i <= records.len(),
        found_entries(v, records.subrange(0, i), parent).0 is Err,
    ensures
        found_entries(v, records, parent) == found_entries(v, records.subrange(0, i), parent),
    decreases records.len() - i,
{
    if i < records.len() {
        let longer = records.subrange(0, i + 1);
        assert(longer.drop_last() =~= records.subrange(0, i));
        lemma_first_error_stays(v, records, parent, i + 1);
    } else {
        assert(records.subrange(0, i) =~= records);
    }
}

/// How far the index has come.
pub open spec fn index_state(v: BrowseIndexView) -> IndexState {
    IndexState {
        complete: v.complete,
        indexed_entries: v.indexed_entries,
        total_estimated_entries: if v.total == 0 {
            None
        } else {
            Some(v.total)
        },
        generation: v.generation,
    }
}

pub open spec fn listed_views(list: Seq<SourceEntry>) -> Seq<EntryView> {
    list.map_values(|e: SourceEntry| e@)
}

/// A page of a folder.
pub open spec fn shows_folder(
    r: SourceDirectoryListing,
    v: BrowseIndexView,
    path: Seq<char>,
    parent: Option<Seq<char>>,
    files: Seq<EntryView>,
    request: PageRequest,
) -> bool {
    &&& is_listing(
        r,
        v.source_id,
        v.root,
        path,
        parent_shown(path, v.root, parent),
        index_state(v),
    )
    &&& exists|entries: Seq<SourceEntry>|
        listed_views(entries) == files && #[trigger] shows_entries(
            r,
            entries,
            opt_view(request.cursor),
            request.limit,
            request.directories_only,
        )
}

/// The answer to a request for a folder, and the index with what was found on the way. While the
/// table is being read, a folder that is not found is shown as empty.
pub open spec fn folder_answer(v: BrowseIndexView, path: Seq<char>) -> (
    Result<Seq<EntryView>, Seq<char>>,
    BrowseIndexView,
) {
    match found_record(v, path) {
        (Ok(record), after) => found_entries(after, files_in(after.children, record), path),
        (Err(e), after) => if v.complete {
            (Err(e), after)
        } else {
            (Ok(seq![]), after)
        },
    }
}

impl NtfsBrowseIndex {
    pub closed spec fn wf(&self) -> bool {
        self.reverse_path_cache.wf()
    }

    /// The index of a mounted volume of which nothing has been read yet.
    pub fn new(source_id: &str, mount_point: Option<&str>) -> (r: Result<Self, RssError>)
        ensures
            match mount_point {
                Some(root) => r matches Ok(index) && index.wf() && index@ == empty_index(
                    source_id@,
                    root@,
                ),
                None => r matches Err(e) && message_of(e)
                    == "NTFS directory browsing requires a mounted volume"@,
            },
    {
        let root = match mount_point {
            Some(root) => root,
            None => {
                return Err(
                    RssError::Message(owned("NTFS directory browsing requires a mounted volume")),
                );
            },
        };
        let mut path_cache: HashMap<u64, String> = HashMap::new();
        path_cache.insert(ROOT_RECORD, normalize_display_string(root));
        let mut reverse_path_cache: Table<u64> = Table::new();
        let key = normalize_compare_string(root);
        reverse_path_cache.insert(key.as_str(), ROOT_RECORD);
        let index = NtfsBrowseIndex {
            source_id: owned(source_id),
            root_path: normalize_display_string(root),
            entries: HashMap::new(),
            children: HashMap::new(),
            path_cache,
            reverse_path_cache,
            indexed_entries: 0,
            total_estimated_entries: 0,
            index_generation: 0,
            indexing_complete: false,
            indexing_error: None,
        };
        assert(index@ =~= empty_index(source_id@, root@));
        Ok(index)
    }

    /// Takes in how many files the table has about.
    pub fn expect_entries(&mut self, total: u64)
        requires
            old(self).wf(),
        ensures
            final(self).wf(),
            final(self)@ == (BrowseIndexView { total, ..old(self)@ }),
    {
        self.total_estimated_entries = total;
    }

    fn add_entry(&mut self, entry: PendingNtfsEntry)
        requires
            old(self).wf(),
        ensures
            final(self).wf(),
            final(self)@ == with_files(old(self)@, seq![entry@]),
    {
        let ghost before = self@;
        let ghost file = entry@;
        let record: u64 = entry.record;
        let parent: u64 = entry.parent_record;
        let ghost old_entries = self.entries@;
        let ghost old_children = self.children@;
        self.entries.insert(record, entry);
        let mut files: Vec<u64> = match self.children.remove(&parent) {
            Some(files) => files,
            None => Vec::new(),
        };
        proof {
            if old_children.contains_key(parent) {
                assert(files@ == before.children[parent]);
            } else {
                assert(files@ =~= files_in(before.children, parent));
            }
        }
        files.push(record);
        let ghost list = files@;
        self.children.insert(parent, files);
        proof {
            reveal_with_fuel(with_files, 2);
            assert(seq![file].drop_last() =~= seq![]);
            assert(self@.entries =~= before.entries.insert(record, file));
            assert(self@.children =~= before.children.insert(parent, list));
        }
    }

    /// Takes in a batch of files.
    pub fn flush_ntfs_browse_batch(&mut self, batch: Vec<PendingNtfsEntry>)
        requires
            old(self).wf(),
        ensures
            final(self).wf(),
            final(self)@ == with_batch_of_files(old(self)@, pending_views(batch@)),
    {
        let n: usize = batch.len();
        if n == 0 {
            return;
        }
        let ghost given = pending_views(batch@);
        let ghost before = self@;
        let ghost items = batch@;
        let mut rest = turn_around(batch);
        proof {
            assert(given.subrange(0, 0) =~= seq![]);
        }
        while rest.len() > 0
            invariant
                self.wf(),
                n == items.len(),
                given == pending_views(items),
                rest@.len() <= n,
                forall|k: int|
                    0 <= k < rest@.len() ==> #[trigger] rest@[k] == items[n - 1 - k],
                self@ == with_files(before, given.subrange(0, n - rest@.len())),
            decreases rest@.len(),
        {
            let ghost i = n - rest@.len();
            if let Some(entry) = rest.pop() {
                proof {
                    assert(entry == items[i]);
                    let longer = given.subrange(0, i + 1);
                    assert(longer.drop_last() =~= given.subrange(0, i));
                    assert(longer.last() == entry@);
                }
                let ghost file = entry@;
                self.add_entry(entry);
                proof {
                    reveal_with_fuel(with_files, 2);
                    assert(seq![file].drop_last() =~= seq![]);
                }
            }
        }
        proof {
            assert(given.subrange(0, n as int) =~= given);
            lemma_files_keep_counts(before, given);
        }
        self.indexed_entries = self.indexed_entries.wrapping_add(n as u64);
        self.index_generation = self.index_generation.wrapping_add(1);
    }

    /// The table has been read.
    pub fn finish(&mut self)
        requires
            old(self).wf(),
        ensures
            final(self).wf(),
            final(self)@ == (BrowseIndexView {
                complete: true,
                generation: ((old(self)@.generation + 1) % 0x1_0000_0000_0000_0000) as u64,
                ..old(self)@
            }),
    {
        self.indexing_complete = true;
        self.index_generation = self.index_generation.wrapping_add(1);
    }

    /// The table could not be read to its end.
    pub fn fail(&mut self, error: &str)
        requires
            old(self).wf(),
        ensures
            final(self).wf(),
            final(self)@ == (BrowseIndexView {
                complete: true,
                generation: ((old(self)@.generation + 1) % 0x1_0000_0000_0000_0000) as u64,
                error: Some(error@),
                ..old(self)@
            }),
    {
        self.indexing_error = Some(owned(error));
        self.indexing_complete = true;
        self.index_generation = self.index_generation.wrapping_add(1);
    }

    fn cache_ntfs_path(&mut self, record: u64, path: &str)
        requires
            old(self).wf(),
        ensures
            final(self).wf(),
            final(self)@ == with_path(old(self)@, record, path@),
    {
        let ghost before = self@;
        self.path_cache.insert(record, owned(path));
        let key = normalize_compare_string(path);
        self.reverse_path_cache.insert(key.as_str(), record);
        assert(self@ =~= with_path(before, record, path@));
    }

    fn named_child(&self, record: u64, name: &str) -> (r: Option<u64>)
        ensures
            r == first_named(self@.entries, files_in(self@.children, record), name@, 0),
    {
        let files = match self.children.get(&record) {
            Some(files) => files,
            None => {
                return None;
            },
        };
        let ghost all = files@;
        let mut i: usize = 0;
        while i < files.len()
            invariant
                i <= files@.len(),
                all == files@,
                all == files_in(self@.children, record),
                first_named(self@.entries, all, name@, 0) == first_named(
                    self@.entries,
                    all,
                    name@,
                    i as int,
                ),
            decreases files@.len() - i,
        {
            let file: u64 = files[i];
            if let Some(entry) = self.entries.get(&file) {
                assert(self@.entries[file] == entry@);
                if eq_ignore_ascii_case(entry.name.as_str(), name) {
                    return Some(file);
                }
            }
            i += 1;
        }
        None
    }

    /// The record of a path.
    pub fn resolve_ntfs_record(&mut self, path: &str) -> (r: Result<u64, RssError>)
        requires
            old(self).wf(),
        ensures
            final(self).wf(),
            final(self)@ == found_record(old(self)@, path@).1,
            match (r, found_record(old(self)@, path@).0) {
                (Ok(record), Ok(found)) => record == found,
                (Err(e), Err(told)) => message_of(e) == told,
                _ => false,
            },
    {
        let key = normalize_compare_string(path);
        let root_key = normalize_compare_string(self.root_path.as_str());
        if *key.as_str() == *root_key.as_str() {
            return Ok(ROOT_RECORD);
        }
        if let Some(record) = self.reverse_path_cache.get(key.as_str()) {
            return Ok(*record);
        }
        if !has_prefix(key.as_str(), root_key.as_str()) {
            return Err(
                RssError::Message(owned("Requested path is outside the selected source")),
            );
        }
        let front = trim_end_char(self.root_path.as_str(), '\\');
        let below = strip_prefix_copies(path, front.as_str());
        let inner = trim_start_char(below.as_str(), '\\');
        let inner = trim_end_char(inner.as_str(), '\\');
        let parts = split_segments(inner.as_str());
        let ghost all = crate::text::views(parts@);
        let ghost first = self@;
        let mut record: u64 = ROOT_RECORD;
        let mut current = self.root_path.clone();
        let mut i: usize = 0;
        proof {
            assert(all.subrange(0, all.len() as int) =~= all);
        }
        while i < parts.len()
            invariant
                self.wf(),
                all == crate::text::views(parts@),
                i <= parts@.len(),
                walk_down(first, ROOT_RECORD, first.root, all) == walk_down(
                    self@,
                    record,
                    current@,
                    all.subrange(i as int, all.len() as int),
                ),
                found_record(first, path@) == match walk_down(
                    first,
                    ROOT_RECORD,
                    first.root,
                    all,
                ) {
                    (Some(record), after) => (Ok::<u64, Seq<char>>(record), after),
                    (None, after) => (
                        Err("Requested path was not found in NTFS metadata"@),
                        after,
                    ),
                },
                first == old(self)@,
            decreases parts@.len() - i,
        {
            let ghost rest = all.subrange(i as int, all.len() as int);
            proof {
                assert(rest[0] == parts@[i as int]@);
                assert(rest.drop_first() =~= all.subrange(i + 1, all.len() as int));
            }
            match self.named_child(record, parts[i].as_str()) {
                Some(next) => {
                    current = join_display_path(current.as_str(), parts[i].as_str());
                    record = next;
                    self.cache_ntfs_path(record, current.as_str());
                },
                None => {
                    return Err(
                        RssError::Message(
                            owned("Requested path was not found in NTFS metadata"),
                        ),
                    );
                },
            }
            i += 1;
        }
        assert(all.subrange(i as int, all.len() as int) =~= seq![]);
        Ok(record)
    }

    /// The files from a record up to the root.
    fn climb_up(&self, record: u64) -> (r: Result<Vec<u64>, ClimbFailure>)
        ensures
            match (r, climb(self@.entries, record, seq![], climb_limit(self@.entries))) {
                (Ok(files), Ok(found)) => files@ == found && forall|i: int|
                    0 <= i < files@.len() ==> self@.entries.contains_key(#[trigger] files@[i]),
                (Err(e), Err(told)) => e == told,
                _ => false,
            },
    {
        let ghost entries = self@.entries;
        let count: usize = self.entries.len();
        proof {
            assert(entries.dom() =~= self.entries@.dom());
        }
        let limit: usize = if count < 1 {
            1
        } else {
            count
        };
        let mut files: Vec<u64> = Vec::new();
        let mut current: u64 = record;
        assert(files@ =~= seq![]);
        while current != ROOT_RECORD
            invariant
                entries == self@.entries,
                limit == climb_limit(entries),
                files@.len() <= limit,
                forall|i: int| 0 <= i < files@.len() ==> entries.contains_key(#[trigger] files@[i]),
                climb(entries, record, seq![], limit as nat) == climb(
                    entries,
                    current,
                    files@,
                    limit as nat,
                ),
            decreases limit + 1 - files@.len(),
        {
            match self.entries.get(&current) {
                Some(entry) => {
                    assert(entries[current] == entry@);
                    if files.len() >= limit {
                        return Err(ClimbFailure::Loop);
                    }
                    files.push(current);
                    current = entry.parent_record;
                },
                None => {
                    return Err(ClimbFailure::Missing);
                },
            }
        }
        Ok(files)
    }

    /// The path of a record.
    pub fn resolve_ntfs_path(&mut self, record: u64) -> (r: Result<String, RssError>)
        requires
            old(self).wf(),
        ensures
            final(self).wf(),
            final(self)@ == found_path(old(self)@, record).1,
            match (r, found_path(old(self)@, record).0) {
                (Ok(path), Ok(found)) => path@ == found,
                (Err(e), Err(told)) => message_of(e) == told,
                _ => false,
            },
    {
        if let Some(path) = self.path_cache.get(&record) {
            assert(self@.paths[record] == path@);
            return Ok(path.clone());
        }
        let mut files = match self.climb_up(record) {
            Ok(files) => files,
            Err(ClimbFailure::Missing) => {
                let number = decimal_string(record);
                return Err(
                    RssError::Message(
                        concat2("Failed to resolve NTFS path for record ", number.as_str()),
                    ),
                );
            },
            Err(ClimbFailure::Loop) => {
                return Err(
                    RssError::Message(owned("Detected a loop while resolving NTFS path")),
                );
            },
        };
        let ghost first = self@;
        let ghost all = files@;
        let mut path = self.root_path.clone();
        while files.len() > 0
            invariant
                self.wf(),
                self@.entries == first.entries,
                forall|i: int|
                    0 <= i < files@.len() ==> first.entries.contains_key(#[trigger] files@[i]),
                laid_out(first, all, first.root) == laid_out(self@, files@, path@),
            decreases files@.len(),
        {
            let ghost before = files@;
            let count: usize = files.len();
            let file: u64 = files[count - 1];
            let ghost held = self@;
            assert(first.entries.contains_key(before[before.len() - 1]));
            if let Some(entry) = self.entries.get(&file) {
                assert(self@.entries[file] == entry@);
                path = join_display_path(path.as_str(), entry.name.as_str());
            }
            self.cache_ntfs_path(file, path.as_str());
            let _ = files.pop();
            assert(files@ =~= before.drop_last());
            assert forall|i: int| 0 <= i < files@.len() implies first.entries.contains_key(
                #[trigger] files@[i],
            ) by {
                assert(files@[i] == before[i]);
            }
        }
        Ok(path)
    }

    /// What a listing shows of a record.
    pub fn build_ntfs_source_entry(&mut self, record: u64, parent_path: &str) -> (r: Result<
        Option<SourceEntry>,
        RssError,
    >)
        requires
            old(self).wf(),
        ensures
            final(self).wf(),
            final(self)@ == found_entry(old(self)@, record, parent_path@).1,
            match (r, found_entry(old(self)@, record, parent_path@).0) {
                (Ok(Some(entry)), Ok(Some(found))) => entry@ == found,
                (Ok(None), Ok(None)) => true,
                (Err(e), Err(told)) => message_of(e) == told,
                _ => false,
            },
    {
        if !self.entries.contains_key(&record) {
            return Ok(None);
        }
        let ghost before = self@;
        let path = match self.resolve_ntfs_path(record) {
            Ok(path) => path,
            Err(e) => {
                return Err(e);
            },
        };
        proof {
            lemma_found_path_keeps_files(before, record);
        }
        let has_files: bool = match self.children.get(&record) {
            Some(files) => files.len() > 0,
            None => false,
        };
        proof {
            assert(has_files == (files_in(before.children, record).len() > 0));
        }
        match self.entries.get(&record) {
            Some(file) => {
                assert(before.entries[record] == file@);
                Ok(
                    Some(
                        SourceEntry {
                            name: file.name.clone(),
                            path,
                            parent_path: owned(parent_path),
                            mft_reference: Some(file.record),
                            parent_reference: Some(file.parent_record),
                            extension: clone_opt(&file.extension),
                            is_directory: file.is_directory,
                            has_children: Some(file.is_directory && has_files),
                            is_metafile: file.is_metafile,
                            entry_class: classify_source_entry(
                                file.is_directory,
                                file.is_metafile,
                            ),
                            size: if file.is_directory {
                                0
                            } else {
                                file.size
                            },
                            created_at: clone_opt(&file.created_at),
                            modified_at: clone_opt(&file.modified_at),
                            accessed_at: clone_opt(&file.accessed_at),
                            hidden: file.hidden,
                            system: file.system,
                            read_only: file.read_only,
                            attr_bits: Some(file.attr_bits),
                            attributes: attribute_labels(file.attr_bits, file.read_only),
                            deleted_hits: 0,
                            access_state: file.access_state,
                        },
                    ),
                )
            },
            None => Ok(None),
        }
    }

    fn folder_entries(&mut self, record: u64, path: &str) -> (r: Result<Vec<SourceEntry>, RssError>)
        requires
            old(self).wf(),
        ensures
            final(self).wf(),
            final(self)@ == found_entries(
                old(self)@,
                files_in(old(self)@.children, record),
                path@,
            ).1,
            match (
                r,
                found_entries(old(self)@, files_in(old(self)@.children, record), path@).0,
            ) {
                (Ok(list), Ok(found)) => listed_views(list@) == found,
                (Err(e), Err(told)) => message_of(e) == told,
                _ => false,
            },
    {
        let ghost first = self@;
        let ghost all = files_in(first.children, record);
        let mut files: Vec<u64> = Vec::new();
        if let Some(list) = self.children.get(&record) {
            let mut i: usize = 0;
            while i < list.len()
                invariant
                    i <= list@.len(),
                    files@ == list@.subrange(0, i as int),
                decreases list@.len() - i,
            {
                files.push(list[i]);
                assert(files@ =~= list@.subrange(0, i + 1));
                i += 1;
            }
            assert(files@ =~= list@);
        }
        assert(files@ =~= all);
        let mut entries: Vec<SourceEntry> = Vec::new();
        let mut i: usize = 0;
        proof {
            assert(all.subrange(0, 0) =~= seq![]);
            assert(listed_views(entries@) =~= seq![]);
        }
        while i < files.len()
            invariant
                self.wf(),
                files@ == all,
                i <= all.len(),
                found_entries(first, all.subrange(0, i as int), path@) == (
                    Ok::<Seq<EntryView>, Seq<char>>(listed_views(entries@)),
                    self@,
                ),
                first == old(self)@,
                all == files_in(first.children, record),
            decreases all.len() - i,
        {
            proof {
                let longer = all.subrange(0, i + 1);
                assert(longer.drop_last() =~= all.subrange(0, i as int));
                assert(longer.last() == all[i as int]);
            }
            match self.build_ntfs_source_entry(files[i], path) {
                Ok(Some(entry)) => {
                    let ghost had = listed_views(entries@);
                    entries.push(entry);
                    assert(listed_views(entries@) =~= had.push(entry@));
                },
                Ok(None) => {},
                Err(e) => {
                    proof {
                        lemma_first_error_stays(first, all, path@, i + 1);
                    }
                    return Err(e);
                },
            }
            i += 1;
        }
        assert(all.subrange(0, i as int) =~= all);
        Ok(entries)
    }

    fn state(&self) -> (r: IndexState)
        ensures
            r == index_state(self@),
    {
        IndexState {
            complete: self.indexing_complete,
            indexed_entries: self.indexed_entries,
            total_estimated_entries: if self.total_estimated_entries == 0 {
                None
            } else {
                Some(self.total_estimated_entries)
            },
            generation: self.index_generation,
        }
    }

    /// The path that a request names, as it is shown.
    pub fn requested_path(&self, path: Option<&str>) -> (r: String)
        ensures
            r@ == requested_path(ref_view(path), self@.root),
    {
        requested_path_of(path, self.root_path.as_str())
    }

    /// One page of a folder; `parent` is the folder above `path` by the system's path rules.
    pub fn browse_ntfs_directory(
        &mut self,
        path: &str,
        parent: Option<&str>,
        request: &PageRequest,
    ) -> (r: Result<SourceDirectoryListing, RssError>)
        requires
            old(self).wf(),
        ensures
            final(self).wf(),
            final(self)@ == folder_answer(old(self)@, path@).1,
            match (r, folder_answer(old(self)@, path@).0) {
                (Ok(listing), Ok(files)) => shows_folder(
                    listing,
                    final(self)@,
                    path@,
                    ref_view(parent),
                    files,
                    *request,
                ),
                (Err(e), Err(told)) => message_of(e) == told,
                _ => false,
            },
    {
        let ghost first = self@;
        let entries: Vec<SourceEntry> = match self.resolve_ntfs_record(path) {
            Ok(record) => match self.folder_entries(record, path) {
                Ok(entries) => entries,
                Err(e) => {
                    return Err(e);
                },
            },
            Err(e) => {
                proof {
                    lemma_found_record_keeps_files(first, path@);
                }
                if self.indexing_complete {
                    return Err(e);
                }
                let none: Vec<SourceEntry> = Vec::new();
                assert(listed_views(none@) =~= seq![]);
                none
            },
        };
        let place = ListingPlace {
            source_id: self.source_id.clone(),
            root_path: self.root_path.clone(),
            path: owned(path),
            parent_path: normalize_parent_path(path, self.root_path.as_str(), parent),
        };
        let ghost files = listed_views(entries@);
        let listing = list_entries(place, entries, request, Some(self.state()));
        Ok(listing)
    }

    /// What is shown of one path; `parent` is the folder above it by the system's path rules.
    pub fn inspect_source_entry(&mut self, path: &str, parent: Option<&str>) -> (r: Result<
        SourceEntry,
        RssError,
    >)
        requires
            old(self).wf(),
        ensures
            final(self).wf(),
            final(self)@ == inspected(old(self)@, path@, ref_view(parent)).1,
            match (r, inspected(old(self)@, path@, ref_view(parent)).0) {
                (Ok(entry), Ok(found)) => entry@ == found,
                (Err(e), Err(told)) => message_of(e) == told,
                _ => false,
            },
    {
        let ghost first = self@;
        let shown = normalize_display_string(path);
        let record = match self.resolve_ntfs_record(shown.as_str()) {
            Ok(record) => record,
            Err(e) => {
                return Err(e);
            },
        };
        proof {
            lemma_found_record_keeps_files(first, shown@);
        }
        let above = match normalize_parent_path(shown.as_str(), self.root_path.as_str(), parent) {
            Some(above) => above,
            None => self.root_path.clone(),
        };
        match self.build_ntfs_source_entry(record, above.as_str()) {
            Ok(Some(entry)) => Ok(entry),
            Ok(None) => Err(
                RssError::Message(concat3("Source entry ", shown.as_str(), " was not found")),
            ),
            Err(e) => Err(e),
        }
    }
}

/// What is shown of one path.
pub open spec fn inspected(v: BrowseIndexView, path: Seq<char>, parent: Option<Seq<char>>) -> (
    Result<EntryView, Seq<char>>,
    BrowseIndexView,
) {
    let shown = display_path(path);
    match found_record(v, shown) {
        (Err(e), after) => (Err(e), after),
        (Ok(record), mid) => {
            let above = match parent_shown(shown, v.root, parent) {
                Some(above) => above,
                None => v.root,
            };
            match found_entry(mid, record, above) {
                (Ok(Some(entry)), after) => (Ok(entry), after),
                (Ok(None), after) => (
                    Err("Source entry "@ + shown + " was not found"@),
                    after,
                ),
                (Err(e), after) => (Err(e), after),
            }
        },
    }
}

// ---------------------------------------------------------------------------
// Laws.

/// The files of an index, apart from the paths that have been found.
pub open spec fn same_files(a: BrowseIndexView, b: BrowseIndexView) -> bool {
    &&& a.source_id == b.source_id
    &&& a.root == b.root
    &&& a.entries == b.entries
    &&& a.children == b.children
    &&& index_state(a) == index_state(b)
    &&& a.error == b.error
    &&& a.complete == b.complete
}

proof fn lemma_walk_keeps_files(
    v: BrowseIndexView,
    record: u64,
    path: Seq<char>,
    parts: Seq<Seq<char>>,
)
    ensures
        same_files(walk_down(v, record, path, parts).1, v),
    decreases parts.len(),
{
    if parts.len() > 0 {
        if let Some(next) = first_named(v.entries, files_in(v.children, record), parts[0], 0) {
            let below = child_path(path, parts[0]);
            lemma_walk_keeps_files(with_path(v, next, below), next, below, parts.drop_first());
        }
    }
}

/// To look for a record remembers paths and changes nothing else.
pub proof fn lemma_found_record_keeps_files(v: BrowseIndexView, path: Seq<char>)
    ensures
        same_files(found_record(v, path).1, v),
{
    let below = without_front(path, strip_back(v.root, '\\'));
    let parts = segments(strip_back(strip_front(below, '\\'), '\\'));
    lemma_walk_keeps_files(v, ROOT_RECORD, v.root, parts);
}

proof fn lemma_laid_keeps_files(v: BrowseIndexView, files: Seq<u64>, path: Seq<char>)
    ensures
        same_files(laid_out(v, files, path).1, v),
    decreases files.len(),
{
    if files.len() > 0 {
        let below = child_path(path, v.entries[files.last()].name);
        lemma_laid_keeps_files(with_path(v, files.last(), below), files.drop_last(), below);
    }
}

/// To look for a path remembers paths and changes nothing else.
pub proof fn lemma_found_path_keeps_files(v: BrowseIndexView, record: u64)
    ensures
        same_files(found_path(v, record).1, v),
{
    if let Ok(files) = climb(v.entries, record, seq![], climb_limit(v.entries)) {
        lemma_laid_keeps_files(v, files, v.root);
    }
}

/// The root is always found, under its own path.
pub proof fn lemma_root_is_found(v: BrowseIndexView, path: Seq<char>)
    requires
        compare_key(path) == compare_key(v.root),
    ensures
        found_record(v, path) == (Ok::<u64, Seq<char>>(ROOT_RECORD), v),
{
}

proof fn lemma_climb_starts_at(
    entries: Map<u64, PendingView>,
    current: u64,
    done: Seq<u64>,
    limit: nat,
)
    ensures
        climb(entries, current, done, limit) matches Ok(files) ==> done.is_prefix_of(files) && (
        current != ROOT_RECORD ==> files.len() > done.len() && files[done.len() as int] == current),
    decreases limit + 1 - done.len(),
{
    if current != ROOT_RECORD && entries.contains_key(current) && done.len() + 1 <= limit {
        let next = done.push(current);
        lemma_climb_starts_at(entries, entries[current].parent_record, next, limit);
        if let Ok(files) = climb(entries, current, done, limit) {
            assert(next.is_prefix_of(files));
            assert(files.subrange(0, next.len() as int) =~= next);
            assert(files.subrange(0, done.len() as int) =~= done);
            assert(files[done.len() as int] == next[done.len() as int]);
        }
    }
}

proof fn lemma_laid_ends_at(v: BrowseIndexView, files: Seq<u64>, path: Seq<char>)
    requires
        files.len() > 0,
    ensures
        ({
            let laid = laid_out(v, files, path);
            &&& laid.1.records.contains_key(compare_key(laid.0))
            &&& laid.1.records[compare_key(laid.0)] == files[0]
        }),
    decreases files.len(),
{
    let below = child_path(path, v.entries[files.last()].name);
    let front = files.drop_last();
    if front.len() > 0 {
        lemma_laid_ends_at(with_path(v, files.last(), below), front, below);
        assert(front[0] == files[0]);
    } else {
        reveal_with_fuel(laid_out, 2);
        assert(files.last() == files[0]);
    }
}

/// Where the path of a file is found by the table, the file is found under that path from then
/// on, unless that path is taken for the root.
pub proof fn lemma_found_paths_lead_back(v: BrowseIndexView, record: u64, path: Seq<char>)
    requires
        !v.paths.contains_key(record),
        record != ROOT_RECORD,
        found_path(v, record).0 == Ok::<Seq<char>, Seq<char>>(path),
        compare_key(path) != compare_key(v.root),
    ensures
        found_record(found_path(v, record).1, path).0 == Ok::<u64, Seq<char>>(record),
{
    let limit = climb_limit(v.entries);
    lemma_climb_starts_at(v.entries, record, seq![], limit);
    if let Ok(files) = climb(v.entries, record, seq![], limit) {
        lemma_laid_ends_at(v, files, v.root);
        lemma_laid_keeps_files(v, files, v.root);
    }
}

// ---------------------------------------------------------------------------
// The indexes of all volumes.

/// The indexes of the volumes that have been browsed.
pub struct NtfsBrowseCache {
    indexes: Table<NtfsBrowseIndex>,
}

impl View for NtfsBrowseCache {
    type V = Map<Seq<char>, BrowseIndexView>;

    closed spec fn view(&self) -> Map<Seq<char>, BrowseIndexView> {
        seen(self.indexes@)
    }
}

impl NtfsBrowseCache {
    pub closed spec fn wf(&self) -> bool {
        &&& self.indexes.wf()
        &&& forall|k: Seq<char>| #[trigger] self.indexes@.contains_key(k) ==> self.indexes@[k].wf()
    }

    pub fn new() -> (r: Self)
        ensures
            r.wf(),
            r@ == Map::<Seq<char>, BrowseIndexView>::empty(),
    {
        let r = NtfsBrowseCache { indexes: Table::new() };
        assert(r@ =~= Map::empty());
        r
    }

    /// Makes sure that there is an index for a source, and tells whether it is a new one, whose
    /// table is still to be read.
    pub fn ntfs_browse_index(&mut self, source: &ScanSource) -> (r: Result<bool, RssError>)
        requires
            old(self).wf(),
        ensures
            final(self).wf(),
            if old(self)@.contains_key(source.id@) {
                r matches Ok(false) && final(self)@ == old(self)@
            } else {
                match source.mount_point {
                    Some(root) => r matches Ok(true) && final(self)@ == old(self)@.insert(
                        source.id@,
                        empty_index(source.id@, root@),
                    ),
                    None => final(self)@ == old(self)@ && (r matches Err(e) && message_of(e)
                        == "NTFS directory browsing requires a mounted volume"@),
                }
            },
    {
        if self.indexes.contains_key(source.id.as_str()) {
            return Ok(false);
        }
        let mount: Option<&str> = match &source.mount_point {
            Some(root) => Some(root.as_str()),
            None => None,
        };
        match NtfsBrowseIndex::new(source.id.as_str(), mount) {
            Ok(index) => {
                self.put(source.id.as_str(), index);
                Ok(true)
            },
            Err(e) => Err(e),
        }
    }

    /// Takes the index of a source out, to work with it.
    pub fn take(&mut self, source_id: &str) -> (r: Option<NtfsBrowseIndex>)
        requires
            old(self).wf(),
        ensures
            final(self).wf(),
            final(self)@ == old(self)@.remove(source_id@),
            match r {
                Some(index) => old(self)@.contains_key(source_id@) && index.wf() && index@ == old(
                    self)@[source_id@],
                None => !old(self)@.contains_key(source_id@),
            },
    {
        let ghost before = self.indexes@;
        let taken = self.indexes.remove(source_id);
        proof {
            lemma_seen(before, source_id@, before[source_id@]);
            assert forall|k: Seq<char>| #[trigger] self.indexes@.contains_key(k) implies
                self.indexes@[k].wf() by {
                assert(before.contains_key(k));
            }
        }
        taken
    }

    /// Puts the index of a source back.
    pub fn put(&mut self, source_id: &str, index: NtfsBrowseIndex)
        requires
            old(self).wf(),
            index.wf(),
        ensures
            final(self).wf(),
            final(self)@ == old(self)@.insert(source_id@, index@),
    {
        let ghost before = self.indexes@;
        proof {
            lemma_seen(before, source_id@, index);
        }
        self.indexes.insert(source_id, index);
        proof {
            assert forall|k: Seq<char>| #[trigger] self.indexes@.contains_key(k) implies
                self.indexes@[k].wf() by {
                if k != source_id@ {
                    assert(before.contains_key(k));
                }
            }
        }
    }

    /// Forgets all indexes.
    pub fn clear_browse_cache(&mut self)
        ensures
            final(self).wf(),
            final(self)@ == Map::<Seq<char>, BrowseIndexView>::empty(),
    {
        self.indexes = Table::new();
        assert(self@ =~= Map::empty());
    }
}

} // verus!
