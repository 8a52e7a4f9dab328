//! Rows of the catalog of a volume: how they are ranked, stored and shown.

use crate::browse_listing::ref_view;
use crate::browse_paths::{byte_len, byte_length};
use crate::clock::{format_rfc3339, rfc3339_text};
use crate::entries::{
    attribute_labels, can_navigate, class_of, classify_source_entry, compare_key, display_path,
    entry_name, entry_name_of, extension_if, extension_if_named, failed_access, is_read_only,
    labels_of, normalize_compare_string, normalize_display_string, source_entry_can_navigate,
    starts_with_dollar, EntryView, MetadataReply,
};
use crate::model::{SourceAccessState, SourceEntry, SourceEntryClass};
use crate::table::Table;
use crate::text::{ascii_lower, concat2, opt_view, owned, starts_with_char, to_ascii_lowercase};
use vstd::prelude::*;
use vstd::string::*;

verus! {

/// One entry of a volume, as the catalog holds it.
#[derive(Debug)]
pub struct CatalogEntryRow {
    pub object_key: String,
    pub record: Option<u64>,
    pub parent_record: Option<u64>,
    pub parent_path_key: String,
    pub path: String,
    pub path_key: String,
    pub name: String,
    pub extension: Option<String>,
    pub is_directory: bool,
    pub is_metafile: bool,
    pub entry_class: SourceEntryClass,
    pub size: u64,
    pub created_at: Option<String>,
    pub modified_at: Option<String>,
    pub accessed_at: Option<String>,
    pub hidden: bool,
    pub system: bool,
    pub read_only: bool,
    pub attr_bits: u32,
    pub access_state: SourceAccessState,
}

/// What a row says.
pub ghost struct RowView {
    pub object_key: Seq<char>,
    pub record: Option<u64>,
    pub parent_record: Option<u64>,
    pub parent_path_key: Seq<char>,
    pub path: Seq<char>,
    pub path_key: Seq<char>,
    pub name: Seq<char>,
    pub extension: Option<Seq<char>>,
    pub is_directory: bool,
    pub is_metafile: bool,
    pub entry_class: SourceEntryClass,
    pub size: u64,
    pub created_at: Option<Seq<char>>,
    pub modified_at: Option<Seq<char>>,
    pub accessed_at: Option<Seq<char>>,
    pub hidden: bool,
    pub system: bool,
    pub read_only: bool,
    pub attr_bits: u32,
    pub access_state: SourceAccessState,
}

impl View for CatalogEntryRow {
    type V = RowView;

    open spec fn view(&self) -> RowView {
        RowView {
            object_key: self.object_key@,
            record: self.record,
            parent_record: self.parent_record,
            parent_path_key: self.parent_path_key@,
            path: self.path@,
            path_key: self.path_key@,
            name: self.name@,
            extension: opt_view(self.extension),
            is_directory: self.is_directory,
            is_metafile: self.is_metafile,
            entry_class: self.entry_class,
            size: self.size,
            created_at: opt_view(self.created_at),
            modified_at: opt_view(self.modified_at),
            accessed_at: opt_view(self.accessed_at),
            hidden: self.hidden,
            system: self.system,
            read_only: self.read_only,
            attr_bits: self.attr_bits,
            access_state: self.access_state,
        }
    }
}

// ---------------------------------------------------------------------------
// The better of two rows.

pub open spec fn class_rank(class: SourceEntryClass) -> int {
    match class {
        SourceEntryClass::MetadataDirectory => 0,
        SourceEntryClass::Directory => 1,
        SourceEntryClass::MetadataFile => 2,
        SourceEntryClass::File => 3,
    }
}

pub open spec fn access_rank(state: SourceAccessState) -> int {
    match state {
        SourceAccessState::Readable => 0,
        SourceAccessState::Unknown => 1,
        SourceAccessState::Denied => 2,
    }
}

pub open spec fn one_if(b: bool) -> int {
    if b {
        1
    } else {
        0
    }
}

pub open spec fn missing_times(row: RowView) -> int {
    one_if(row.created_at is None) + one_if(row.modified_at is None) + one_if(
        row.accessed_at is None,
    )
}

/// What rows for the same path are compared by, in turn: class, access, missing times, an
/// empty size, the length of the path.
pub open spec fn row_rank(row: RowView) -> (int, int, int, int, int) {
    (
        class_rank(row.entry_class),
        access_rank(row.access_state),
        missing_times(row),
        one_if(row.size == 0),
        byte_length(row.path),
    )
}

pub open spec fn rank_before(a: (int, int, int, int, int), b: (int, int, int, int, int)) -> bool {
    a.0 < b.0 || (a.0 == b.0 && (a.1 < b.1 || (a.1 == b.1 && (a.2 < b.2 || (a.2 == b.2 && (a.3
        < b.3 || (a.3 == b.3 && a.4 < b.4)))))))
}

/// A row that is to replace another one for the same path.
pub open spec fn prefers(candidate: RowView, existing: RowView) -> bool {
    rank_before(row_rank(candidate), row_rank(existing))
}

fn flag(b: bool) -> (r: u8)
    ensures
        r == one_if(b),
{
    if b {
        1
    } else {
        0
    }
}

pub fn catalog_row_rank(row: &CatalogEntryRow) -> (r: (u8, u8, u8, u8, u64))
    ensures
        (r.0 as int, r.1 as int, r.2 as int, r.3 as int, r.4 as int) == row_rank(row@),
{
    let class: u8 = match row.entry_class {
        SourceEntryClass::MetadataDirectory => 0,
        SourceEntryClass::Directory => 1,
        SourceEntryClass::MetadataFile => 2,
        SourceEntryClass::File => 3,
    };
    let access: u8 = match row.access_state {
        SourceAccessState::Readable => 0,
        SourceAccessState::Unknown => 1,
        SourceAccessState::Denied => 2,
    };
    let missing: u8 = flag(row.created_at.is_none()) + flag(row.modified_at.is_none()) + flag(
        row.accessed_at.is_none(),
    );
    (class, access, missing, flag(row.size == 0), byte_len(row.path.as_str()) as u64)
}

pub fn prefers_catalog_row(candidate: &CatalogEntryRow, existing: &CatalogEntryRow) -> (r: bool)
    ensures
        r == prefers(candidate@, existing@),
{
    let a = catalog_row_rank(candidate);
    let b = catalog_row_rank(existing);
    if a.0 != b.0 {
        a.0 < b.0
    } else if a.1 != b.1 {
        a.1 < b.1
    } else if a.2 != b.2 {
        a.2 < b.2
    } else if a.3 != b.3 {
        a.3 < b.3
    } else {
        a.4 < b.4
    }
}

/// The rows with one more: under each path the best row stays, and of equal ones the first.
pub open spec fn best_row(rows: Map<Seq<char>, RowView>, candidate: RowView) -> Map<
    Seq<char>,
    RowView,
> {
    if rows.contains_key(candidate.path_key) && !prefers(candidate, rows[candidate.path_key]) {
        rows
    } else {
        rows.insert(candidate.path_key, candidate)
    }
}

/// What the rows of a table say.
pub open spec fn rows_view(rows: Map<Seq<char>, CatalogEntryRow>) -> Map<Seq<char>, RowView> {
    rows.map_values(|row: CatalogEntryRow| row@)
}

pub proof fn lemma_rows_view_insert(
    rows: Map<Seq<char>, CatalogEntryRow>,
    key: Seq<char>,
    row: CatalogEntryRow,
)
    ensures
        rows_view(rows.insert(key, row)) == rows_view(rows).insert(key, row@),
{
    assert(rows_view(rows.insert(key, row)) =~= rows_view(rows).insert(key, row@));
}

pub fn push_best_row(rows: &mut Table<CatalogEntryRow>, candidate: CatalogEntryRow)
    requires
        old(rows).wf(),
    ensures
        final(rows).wf(),
        rows_view(final(rows)@) == best_row(rows_view(old(rows)@), candidate@),
{
    let ghost before = rows@;
    match rows.position(candidate.path_key.as_str()) {
        Some(i) => {
            if prefers_catalog_row(&candidate, &rows.entries[i].1) {
                proof {
                    lemma_rows_view_insert(before, candidate.path_key@, candidate);
                }
                rows.set_at(i, candidate);
            }
        },
        None => {
            proof {
                lemma_rows_view_insert(before, candidate.path_key@, candidate);
            }
            rows.insert_new(candidate.path_key.clone(), candidate);
        },
    }
}

/// Of two rows for one path of which one is better, that one stays, whichever comes first.
pub proof fn lemma_better_row_stays(rows: Map<Seq<char>, RowView>, a: RowView, b: RowView)
    requires
        a.path_key == b.path_key,
        prefers(a, b),
    ensures
        best_row(best_row(rows, a), b) == best_row(rows, a),
        best_row(best_row(rows, b), a) == best_row(rows, a),
{
    let k = a.path_key;
    if rows.contains_key(k) {
        let e = rows[k];
        if prefers(b, e) {
            assert(prefers(a, e));
        }
        if !prefers(a, e) {
            assert(!prefers(b, e));
        }
    }
    assert(best_row(best_row(rows, b), a) =~= best_row(rows, a));
}

/// Adding a row loses no path, and keeps rows under their own paths.
pub proof fn lemma_best_row_keeps_keys(rows: Map<Seq<char>, RowView>, candidate: RowView)
    requires
        keyed_by_path(rows),
    ensures
        keyed_by_path(best_row(rows, candidate)),
        best_row(rows, candidate).contains_key(candidate.path_key),
        forall|k: Seq<char>| #[trigger]
            rows.contains_key(k) ==> best_row(rows, candidate).contains_key(k),
{
}

/// Each row stands under its own path.
pub open spec fn keyed_by_path(rows: Map<Seq<char>, RowView>) -> bool {
    forall|k: Seq<char>| #[trigger] rows.contains_key(k) ==> rows[k].path_key == k
}

/// The rows after reading a folder failed.
pub open spec fn marked(rows: Map<Seq<char>, RowView>, key: Seq<char>, denied: bool) -> Map<
    Seq<char>,
    RowView,
> {
    if rows.contains_key(key) {
        rows.insert(key, RowView { access_state: failed_access(denied), ..rows[key] })
    } else {
        rows
    }
}

fn with_access(row: &CatalogEntryRow, access_state: SourceAccessState) -> (r: CatalogEntryRow)
    ensures
        r@ == (RowView { access_state, ..row@ }),
{
    CatalogEntryRow {
        object_key: row.object_key.clone(),
        record: row.record,
        parent_record: row.parent_record,
        parent_path_key: row.parent_path_key.clone(),
        path: row.path.clone(),
        path_key: row.path_key.clone(),
        name: row.name.clone(),
        extension: row.extension.clone(),
        is_directory: row.is_directory,
        is_metafile: row.is_metafile,
        entry_class: row.entry_class,
        size: row.size,
        created_at: row.created_at.clone(),
        modified_at: row.modified_at.clone(),
        accessed_at: row.accessed_at.clone(),
        hidden: row.hidden,
        system: row.system,
        read_only: row.read_only,
        attr_bits: row.attr_bits,
        access_state,
    }
}

/// Notes that a folder could not be read.
pub fn mark_directory_access_state(
    rows: &mut Table<CatalogEntryRow>,
    path_key: &str,
    denied: bool,
)
    requires
        old(rows).wf(),
    ensures
        final(rows).wf(),
        rows_view(final(rows)@) == marked(rows_view(old(rows)@), path_key@, denied),
{
    match rows.position(path_key) {
        Some(i) => {
            let state = if denied {
                SourceAccessState::Denied
            } else {
                SourceAccessState::Unknown
            };
            let row = with_access(&rows.entries[i].1, state);
            proof {
                lemma_rows_view_insert(rows@, path_key@, row);
            }
            rows.set_at(i, row);
        },
        None => {},
    }
}

// ---------------------------------------------------------------------------
// Rows from the file system.

/// The text of a time, to the second; none for a time before 1970.
pub open spec fn second_text(nanos: Option<i128>) -> Option<Seq<char>> {
    match nanos {
        Some(n) => if n < 0 {
            None
        } else {
            rfc3339_text((n - n % 1_000_000_000) as i128)
        },
        None => None,
    }
}

pub fn system_time_to_iso(nanos: Option<i128>) -> (r: Option<String>)
    ensures
        opt_view(r) == second_text(nanos),
{
    match nanos {
        Some(n) => if n < 0 {
            None
        } else {
            format_rfc3339(n - n % 1_000_000_000)
        },
        None => None,
    }
}

pub open spec fn lower_opt(s: Option<Seq<char>>) -> Option<Seq<char>> {
    match s {
        Some(text) => Some(ascii_lower(text)),
        None => None,
    }
}

/// The row of a file or folder that the file system lists.
pub open spec fn file_row(
    file_name: Option<Seq<char>>,
    path: Seq<char>,
    parent_key: Seq<char>,
    reply: MetadataReply,
) -> RowView {
    let shown = display_path(path);
    let name = entry_name(file_name, shown);
    let is_metafile = starts_with_dollar(name);
    let extension = lower_opt(extension_if(file_name));
    match reply {
        MetadataReply::Found(m) => RowView {
            object_key: "fs:"@ + compare_key(shown),
            record: None,
            parent_record: None,
            parent_path_key: parent_key,
            path: shown,
            path_key: compare_key(shown),
            name,
            extension: if m.is_directory {
                None
            } else {
                extension
            },
            is_directory: m.is_directory,
            is_metafile,
            entry_class: class_of(m.is_directory, is_metafile),
            size: if m.is_directory {
                0
            } else {
                m.length
            },
            created_at: second_text(m.created),
            modified_at: second_text(m.modified),
            accessed_at: second_text(m.accessed),
            hidden: m.attributes & 0x0002u32 != 0,
            system: m.attributes & 0x0004u32 != 0,
            read_only: is_read_only(m),
            attr_bits: m.attributes,
            access_state: SourceAccessState::Readable,
        },
        MetadataReply::Failed { is_directory, denied } => RowView {
            object_key: "fs:"@ + compare_key(shown),
            record: None,
            parent_record: None,
            parent_path_key: parent_key,
            path: shown,
            path_key: compare_key(shown),
            name,
            extension: if is_directory {
                None
            } else {
                extension
            },
            is_directory,
            is_metafile,
            entry_class: class_of(is_directory, is_metafile),
            size: 0,
            created_at: None,
            modified_at: None,
            accessed_at: None,
            hidden: false,
            system: false,
            read_only: false,
            attr_bits: 0,
            access_state: failed_access(denied),
        },
    }
}

fn lower_if(s: Option<String>) -> (r: Option<String>)
    ensures
        opt_view(r) == lower_opt(opt_view(s)),
{
    match s {
        Some(text) => Some(to_ascii_lowercase(text.as_str())),
        None => None,
    }
}

/// The row of a path in the folder with the given key.
pub fn build_row_from_filesystem_path(
    file_name: Option<&str>,
    path: &str,
    parent_path_key: &str,
    reply: &MetadataReply,
) -> (r: CatalogEntryRow)
    ensures
        r@ == file_row(ref_view(file_name), path@, parent_path_key@, *reply),
{
    let path = normalize_display_string(path);
    let path_key = normalize_compare_string(path.as_str());
    let name = entry_name_of(file_name, path.as_str());
    let is_metafile = starts_with_char(name.as_str(), '$');
    let extension = lower_if(extension_if_named(file_name));
    let object_key = concat2("fs:", path_key.as_str());
    match reply {
        MetadataReply::Found(m) => CatalogEntryRow {
            object_key,
            record: None,
            parent_record: None,
            parent_path_key: owned(parent_path_key),
            path,
            path_key,
            name,
            extension: if m.is_directory {
                None
            } else {
                extension
            },
            is_directory: m.is_directory,
            is_metafile,
            entry_class: classify_source_entry(m.is_directory, is_metafile),
            size: if m.is_directory {
                0
            } else {
                m.length
            },
            created_at: system_time_to_iso(m.created),
            modified_at: system_time_to_iso(m.modified),
            accessed_at: system_time_to_iso(m.accessed),
            hidden: m.attributes & 0x0002 != 0,
            system: m.attributes & 0x0004 != 0,
            read_only: m.attributes & 0x0001 != 0 || m.readonly,
            attr_bits: m.attributes,
            access_state: SourceAccessState::Readable,
        },
        MetadataReply::Failed { is_directory, denied } => CatalogEntryRow {
            object_key,
            record: None,
            parent_record: None,
            parent_path_key: owned(parent_path_key),
            path,
            path_key,
            name,
            extension: if *is_directory {
                None
            } else {
                extension
            },
            is_directory: *is_directory,
            is_metafile,
            entry_class: classify_source_entry(*is_directory, is_metafile),
            size: 0,
            created_at: None,
            modified_at: None,
            accessed_at: None,
            hidden: false,
            system: false,
            read_only: false,
            attr_bits: 0,
            access_state: if *denied {
                SourceAccessState::Denied
            } else {
                SourceAccessState::Unknown
            },
        },
    }
}

pub fn catalog_entry_can_navigate(
    is_directory: bool,
    attr_bits: u32,
    access_state: SourceAccessState,
) -> (r: bool)
    ensures
        r == can_navigate(is_directory, attr_bits, access_state),
{
    source_entry_can_navigate(is_directory, attr_bits, access_state)
}

pub fn catalog_entry_is_traversable_directory(row: &CatalogEntryRow) -> (r: bool)
    ensures
        r == can_navigate(row.is_directory, row.attr_bits, row.access_state),
{
    catalog_entry_can_navigate(row.is_directory, row.attr_bits, row.access_state)
}

// ---------------------------------------------------------------------------
// Rows as entries.

/// The entry that a row stands for, in the given folder.
pub open spec fn row_entry(row: RowView, parent: Seq<char>) -> EntryView {
    EntryView {
        name: row.name,
        path: row.path,
        parent_path: parent,
        mft_reference: row.record,
        parent_reference: row.parent_record,
        extension: row.extension,
        is_directory: row.is_directory,
        has_children: Some(can_navigate(row.is_directory, row.attr_bits, row.access_state)),
        is_metafile: row.is_metafile,
        entry_class: row.entry_class,
        size: if row.is_directory {
            0
        } else {
            row.size
        },
        created_at: row.created_at,
        modified_at: row.modified_at,
        accessed_at: row.accessed_at,
        hidden: row.hidden,
        system: row.system,
        read_only: row.read_only,
        attr_bits: Some(row.attr_bits),
        attributes: labels_of(row.attr_bits, row.read_only),
        deleted_hits: 0,
        access_state: row.access_state,
    }
}

impl CatalogEntryRow {
    pub(crate) fn entry_in(self, parent_path: String) -> (r: SourceEntry)
        ensures
            r@ == row_entry(self@, parent_path@),
    {
        SourceEntry {
            attributes: attribute_labels(self.attr_bits, self.read_only),
            has_children: Some(
                catalog_entry_can_navigate(self.is_directory, self.attr_bits, self.access_state),
            ),
            name: self.name,
            path: self.path,
            parent_path,
            mft_reference: self.record,
            parent_reference: self.parent_record,
            extension: self.extension,
            is_directory: self.is_directory,
            is_metafile: self.is_metafile,
            entry_class: self.entry_class,
            size: if self.is_directory {
                0
            } else {
                self.size
            },
            created_at: self.created_at,
            modified_at: self.modified_at,
            accessed_at: self.accessed_at,
            hidden: self.hidden,
            system: self.system,
            read_only: self.read_only,
            attr_bits: Some(self.attr_bits),
            deleted_hits: 0,
            access_state: self.access_state,
        }
    }

    /// The entry that the row stands for, given the parent of its path.
    pub fn into_source_entry(self, parent: Option<&str>) -> (r: SourceEntry)
        ensures
            r@ == row_entry(
                self@,
                match parent {
                    Some(p) => display_path(p@),
                    None => self.path@,
                },
            ),
    {
        let parent_path = match parent {
            Some(p) => normalize_display_string(p),
            None => self.path.clone(),
        };
        self.entry_in(parent_path)
    }
}

// ---------------------------------------------------------------------------
// Rows as the database stores them.

pub open spec fn class_name(class: SourceEntryClass) -> Seq<char> {
    match class {
        SourceEntryClass::File => "file"@,
        SourceEntryClass::Directory => "directory"@,
        SourceEntryClass::MetadataFile => "metadata_file"@,
        SourceEntryClass::MetadataDirectory => "metadata_directory"@,
    }
}

pub open spec fn named_class(name: Seq<char>) -> SourceEntryClass {
    if name == "directory"@ {
        SourceEntryClass::Directory
    } else if name == "metadata_file"@ {
        SourceEntryClass::MetadataFile
    } else if name == "metadata_directory"@ {
        SourceEntryClass::MetadataDirectory
    } else {
        SourceEntryClass::File
    }
}

pub open spec fn state_name(state: SourceAccessState) -> Seq<char> {
    match state {
        SourceAccessState::Readable => "readable"@,
        SourceAccessState::Denied => "denied"@,
        SourceAccessState::Unknown => "unknown"@,
    }
}

pub open spec fn named_state(name: Seq<char>) -> SourceAccessState {
    if name == "readable"@ {
        SourceAccessState::Readable
    } else if name == "denied"@ {
        SourceAccessState::Denied
    } else {
        SourceAccessState::Unknown
    }
}

pub fn entry_class_name(value: SourceEntryClass) -> (r: &'static str)
    ensures
        r@ == class_name(value),
{
    match value {
        SourceEntryClass::File => "file",
        SourceEntryClass::Directory => "directory",
        SourceEntryClass::MetadataFile => "metadata_file",
        SourceEntryClass::MetadataDirectory => "metadata_directory",
    }
}

pub fn entry_class_from_name(value: &str) -> (r: SourceEntryClass)
    ensures
        r == named_class(value@),
{
    if *value == *"directory" {
        SourceEntryClass::Directory
    } else if *value == *"metadata_file" {
        SourceEntryClass::MetadataFile
    } else if *value == *"metadata_directory" {
        SourceEntryClass::MetadataDirectory
    } else {
        SourceEntryClass::File
    }
}

pub fn access_state_name(value: SourceAccessState) -> (r: &'static str)
    ensures
        r@ == state_name(value),
{
    match value {
        SourceAccessState::Readable => "readable",
        SourceAccessState::Denied => "denied",
        SourceAccessState::Unknown => "unknown",
    }
}

pub fn access_state_from_name(value: &str) -> (r: SourceAccessState)
    ensures
        r == named_state(value@),
{
    if *value == *"readable" {
        SourceAccessState::Readable
    } else if *value == *"denied" {
        SourceAccessState::Denied
    } else {
        SourceAccessState::Unknown
    }
}

/// Names give back the classes and states that they stand for.
pub proof fn lemma_names_round_trip(class: SourceEntryClass, state: SourceAccessState)
    ensures
        named_class(class_name(class)) == class,
        named_state(state_name(state)) == state,
{
    reveal_strlit("file");
    reveal_strlit("directory");
    reveal_strlit("metadata_file");
    reveal_strlit("metadata_directory");
    reveal_strlit("readable");
    reveal_strlit("denied");
    reveal_strlit("unknown");
    assert("file"@.len() == 4 && "directory"@.len() == 9 && "metadata_file"@.len() == 13);
    assert("metadata_directory"@.len() == 18);
    assert("readable"@.len() == 8 && "denied"@.len() == 6 && "unknown"@.len() == 7);
}

/// The columns of a row, in the types of the database.
#[derive(Debug)]
pub struct StoredRow {
    pub object_key: String,
    pub record: Option<i64>,
    pub parent_record: Option<i64>,
    pub parent_path_key: String,
    pub path: String,
    pub path_key: String,
    pub name: String,
    pub lower_name: String,
    pub extension: Option<String>,
    pub is_directory: i64,
    pub is_metafile: i64,
    pub entry_class: String,
    pub size: i64,
    pub created_at: Option<String>,
    pub modified_at: Option<String>,
    pub accessed_at: Option<String>,
    pub attr_bits: i64,
    pub hidden: i64,
    pub system: i64,
    pub read_only: i64,
    pub access_state: String,
}

pub open spec fn signed(value: Option<u64>) -> Option<i64> {
    match value {
        Some(n) => Some(n as i64),
        None => None,
    }
}

pub open spec fn unsigned(value: Option<i64>) -> Option<u64> {
    match value {
        Some(n) => Some(n as u64),
        None => None,
    }
}

/// The columns hold the row.
pub open spec fn stores(s: StoredRow, row: RowView) -> bool {
    &&& s.object_key@ == row.object_key
    &&& s.record == signed(row.record)
    &&& s.parent_record == signed(row.parent_record)
    &&& s.parent_path_key@ == row.parent_path_key
    &&& s.path@ == row.path
    &&& s.path_key@ == row.path_key
    &&& s.name@ == row.name
    &&& s.lower_name@ == ascii_lower(row.name)
    &&& opt_view(s.extension) == row.extension
    &&& s.is_directory == one_if(row.is_directory)
    &&& s.is_metafile == one_if(row.is_metafile)
    &&& s.entry_class@ == class_name(row.entry_class)
    &&& s.size == row.size as i64
    &&& opt_view(s.created_at) == row.created_at
    &&& opt_view(s.modified_at) == row.modified_at
    &&& opt_view(s.accessed_at) == row.accessed_at
    &&& s.attr_bits == row.attr_bits
    &&& s.hidden == one_if(row.hidden)
    &&& s.system == one_if(row.system)
    &&& s.read_only == one_if(row.read_only)
    &&& s.access_state@ == state_name(row.access_state)
}

/// The row that columns hold.
pub open spec fn loaded(s: StoredRow) -> RowView {
    RowView {
        object_key: s.object_key@,
        record: unsigned(s.record),
        parent_record: unsigned(s.parent_record),
        parent_path_key: s.parent_path_key@,
        path: s.path@,
        path_key: s.path_key@,
        name: s.name@,
        extension: opt_view(s.extension),
        is_directory: s.is_directory != 0,
        is_metafile: s.is_metafile != 0,
        entry_class: named_class(s.entry_class@),
        size: if s.size < 0 {
            0
        } else {
            s.size as u64
        },
        created_at: opt_view(s.created_at),
        modified_at: opt_view(s.modified_at),
        accessed_at: opt_view(s.accessed_at),
        hidden: s.hidden != 0,
        system: s.system != 0,
        read_only: s.read_only != 0,
        attr_bits: s.attr_bits as u32,
        access_state: named_state(s.access_state@),
    }
}

fn signed_of(value: Option<u64>) -> (r: Option<i64>)
    ensures
        r == signed(value),
{
    match value {
        Some(n) => Some(n as i64),
        None => None,
    }
}

fn unsigned_of(value: Option<i64>) -> (r: Option<u64>)
    ensures
        r == unsigned(value),
{
    match value {
        Some(n) => Some(n as u64),
        None => None,
    }
}

fn column(b: bool) -> (r: i64)
    ensures
        r == one_if(b),
{
    if b {
        1
    } else {
        0
    }
}

/// The columns in which a row is stored.
pub fn catalog_entry_to_row(row: CatalogEntryRow) -> (r: StoredRow)
    ensures
        stores(r, row@),
{
    StoredRow {
        lower_name: to_ascii_lowercase(row.name.as_str()),
        object_key: row.object_key,
        record: signed_of(row.record),
        parent_record: signed_of(row.parent_record),
        parent_path_key: row.parent_path_key,
        path: row.path,
        path_key: row.path_key,
        name: row.name,
        extension: row.extension,
        is_directory: column(row.is_directory),
        is_metafile: column(row.is_metafile),
        entry_class: owned(entry_class_name(row.entry_class)),
        size: row.size as i64,
        created_at: row.created_at,
        modified_at: row.modified_at,
        accessed_at: row.accessed_at,
        attr_bits: row.attr_bits as i64,
        hidden: column(row.hidden),
        system: column(row.system),
        read_only: column(row.read_only),
        access_state: owned(access_state_name(row.access_state)),
    }
}

/// The row that stored columns hold.
pub fn row_to_catalog_entry(row: StoredRow) -> (r: CatalogEntryRow)
    ensures
        r@ == loaded(row),
{
    CatalogEntryRow {
        object_key: row.object_key,
        record: unsigned_of(row.record),
        parent_record: unsigned_of(row.parent_record),
        parent_path_key: row.parent_path_key,
        path: row.path,
        path_key: row.path_key,
        name: row.name,
        extension: row.extension,
        is_directory: row.is_directory != 0,
        is_metafile: row.is_metafile != 0,
        entry_class: entry_class_from_name(row.entry_class.as_str()),
        size: if row.size < 0 {
            0
        } else {
            row.size as u64
        },
        created_at: row.created_at,
        modified_at: row.modified_at,
        accessed_at: row.accessed_at,
        hidden: row.hidden != 0,
        system: row.system != 0,
        read_only: row.read_only != 0,
        attr_bits: row.attr_bits as u32,
        access_state: access_state_from_name(row.access_state.as_str()),
    }
}

/// Reading a stored row gives it back, where its size fits the signed column.
pub proof fn lemma_stored_rows_come_back(s: StoredRow, row: RowView)
    requires
        stores(s, row),
        row.size <= i64::MAX,
    ensures
        loaded(s) == row,
{
    lemma_names_round_trip(row.entry_class, row.access_state);
    if let Some(n) = row.record {
        assert((n as i64) as u64 == n) by (bit_vector);
    }
    if let Some(n) = row.parent_record {
        assert((n as i64) as u64 == n) by (bit_vector);
    }
    let size = row.size;
    assert(size <= 0x7fff_ffff_ffff_ffffu64 ==> (size as i64) as u64 == size && (size as i64)
        >= 0) by (bit_vector);
}

} // verus!
