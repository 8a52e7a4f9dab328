//! Entries of live directories: how their paths are shown and compared, what their attributes
//! say, and the pages in which a directory is listed.

use crate::browse_listing::ref_view;
use crate::browse_paths::{byte_len, byte_length};
use crate::clock::{format_time, time_text};
use crate::model::{
    RssError, SourceAccessState, SourceDirectoryListing, SourceEntry, SourceEntryClass,
};
use crate::pages::{
    cursor_behind, next_cursor, page_bounds, page_end, page_offset, page_offset_of, page_size,
    page_size_of, page_start,
};
use crate::seqs::{keep_where, kept, window};
use crate::sort::{
    by_number, by_text, lemma_by_number, lemma_by_text, lemma_stable_sorted_keeps_items,
    lemma_then_by, stable_sort_by, stable_sorted, str_before, strict_weak_order, then_by,
};
use crate::text::{
    after_last, ascii_lower, chars_of, concat2, concat3, ends_with_char, has_prefix, last_index,
    last_index_of, lemma_ascii_lower_idempotent, opt_view, owned, replace_char, replaced,
    starts_with_char, string_of, strip_back, to_ascii_lowercase, trim, trim_end_char, trimmed,
    views,
};
use vstd::prelude::*;
use vstd::string::*;

verus! {

// ---------------------------------------------------------------------------
// Paths.

/// How a path is shown: with backslashes, and a bare drive with one at its end.
pub open spec fn display_path(path: Seq<char>) -> Seq<char> {
    let rendered = replaced(path, '/', '\\');
    if rendered.len() > 0 && rendered.last() == ':' {
        rendered + "\\"@
    } else {
        rendered
    }
}

pub fn normalize_display_string(path: &str) -> (r: String)
    ensures
        r@ == display_path(path@),
{
    let rendered = replace_char(path, '/', '\\');
    if ends_with_char(rendered.as_str(), ':') {
        concat2(rendered.as_str(), "\\")
    } else {
        rendered
    }
}

/// The form in which two paths are compared.
pub open spec fn compare_key(path: Seq<char>) -> Seq<char> {
    if byte_length(path) <= 3 {
        ascii_lower(replaced(path, '/', '\\'))
    } else {
        ascii_lower(strip_back(replaced(path, '/', '\\'), '\\'))
    }
}

pub fn normalize_compare_string(path: &str) -> (r: String)
    ensures
        r@ == compare_key(path@),
{
    let plain = replace_char(path, '/', '\\');
    if byte_len(path) <= 3 {
        to_ascii_lowercase(plain.as_str())
    } else {
        to_ascii_lowercase(trim_end_char(plain.as_str(), '\\').as_str())
    }
}

/// The path of an entry of a folder.
pub open spec fn child_path(parent: Seq<char>, child: Seq<char>) -> Seq<char> {
    if parent.len() > 0 && parent.last() == '\\' {
        parent + child
    } else {
        parent + "\\"@ + child
    }
}

pub fn join_display_path(parent: &str, child: &str) -> (r: String)
    ensures
        r@ == child_path(parent@, child@),
{
    if ends_with_char(parent, '\\') {
        concat2(parent, child)
    } else {
        concat3(parent, "\\", child)
    }
}

/// The folder above `path`: nothing for the root, nor where the path has no parent or an empty
/// one.
pub open spec fn parent_shown(path: Seq<char>, root: Seq<char>, parent: Option<Seq<char>>) -> Option<
    Seq<char>,
> {
    if compare_key(path) == compare_key(root) {
        None
    } else {
        match parent {
            Some(p) => if display_path(p).len() == 0 {
                None
            } else {
                Some(display_path(p))
            },
            None => None,
        }
    }
}

/// The folder above a path, from the parent that the system's path rules give.
pub fn normalize_parent_path(path: &str, root: &str, parent: Option<&str>) -> (r: Option<String>)
    ensures
        opt_view(r) == parent_shown(path@, root@, ref_view(parent)),
{
    let key = normalize_compare_string(path);
    let root_key = normalize_compare_string(root);
    if *key.as_str() == *root_key.as_str() {
        return None;
    }
    match parent {
        Some(p) => {
            let shown = normalize_display_string(p);
            if shown.as_str().is_empty() {
                None
            } else {
                Some(shown)
            }
        },
        None => None,
    }
}

/// The path that a request names: the root where it names none.
pub open spec fn requested_path(path: Option<Seq<char>>, root: Seq<char>) -> Seq<char> {
    match path {
        Some(p) => if trimmed(p).len() == 0 {
            root
        } else {
            display_path(p)
        },
        None => root,
    }
}

pub fn requested_path_of(path: Option<&str>, root: &str) -> (r: String)
    ensures
        r@ == requested_path(ref_view(path), root@),
{
    match path {
        Some(p) => if trim(p).as_str().is_empty() {
            owned(root)
        } else {
            normalize_display_string(p)
        },
        None => owned(root),
    }
}

/// A path whose comparison form starts with that of the root.
pub open spec fn below_root(path: Seq<char>, root: Seq<char>) -> bool {
    compare_key(root).is_prefix_of(compare_key(path))
}

/// Refuses a path that does not start with the root.
pub fn resolve_browse_path(root: &str, candidate: &str) -> (r: Result<(), RssError>)
    ensures
        match r {
            Ok(_) => below_root(display_path(candidate@), display_path(root@)),
            Err(RssError::Message(m)) => {
                &&& m@ == "Requested path is outside the selected source"@
                &&& !below_root(display_path(candidate@), display_path(root@))
            },
        },
{
    let root_check = normalize_compare_string(normalize_display_string(root).as_str());
    let candidate_check = normalize_compare_string(normalize_display_string(candidate).as_str());
    if has_prefix(candidate_check.as_str(), root_check.as_str()) {
        Ok(())
    } else {
        Err(RssError::Message(owned("Requested path is outside the selected source")))
    }
}

/// A path that is shown is shown as it is.
pub proof fn lemma_display_is_idempotent(path: Seq<char>)
    ensures
        display_path(display_path(path)) == display_path(path),
{
    reveal_strlit("\\");
    let shown = display_path(path);
    let again = replaced(shown, '/', '\\');
    assert(again =~= shown);
}

/// The comparison form of a path is its own comparison form.
pub proof fn lemma_compare_key_is_idempotent(path: Seq<char>)
    ensures
        compare_key(compare_key(path)) == compare_key(path),
{
    let key = compare_key(path);
    let plain = replaced(path, '/', '\\');
    let body = if byte_length(path) <= 3 {
        plain
    } else {
        strip_back(plain, '\\')
    };
    lemma_strip_back(plain, '\\');
    assert(key == ascii_lower(body));
    assert forall|i: int| 0 <= i < key.len() implies key[i] != '/' by {
        assert(key[i] == crate::text::lower_char(body[i]));
        assert(body[i] == plain[i]);
        assert(plain[i] != '/');
    }
    assert(replaced(key, '/', '\\') =~= key);
    lemma_ascii_lower_idempotent(body);
    if byte_length(key) > 3 {
        lemma_lower_bytes(body);
        if byte_length(path) <= 3 {
            lemma_replaced_bytes(path);
            assert(false);
        }
        assert(key.len() > 0 ==> key.last() != '\\') by {
            if key.len() > 0 {
                assert(key.last() == crate::text::lower_char(body.last()));
            }
        }
        lemma_strip_back_of_stripped(key, '\\');
    }
}

/// Stripping leaves a front of the text that does not end with the character.
proof fn lemma_strip_back(s: Seq<char>, c: char)
    ensures
        strip_back(s, c).len() <= s.len(),
        strip_back(s, c) == s.subrange(0, strip_back(s, c).len() as int),
        strip_back(s, c).len() > 0 ==> strip_back(s, c).last() != c,
    decreases s.len(),
{
    if s.len() == 0 || s.last() != c {
        assert(s.subrange(0, s.len() as int) =~= s);
    } else {
        lemma_strip_back(s.drop_last(), c);
        let r = strip_back(s.drop_last(), c);
        assert(s.drop_last().subrange(0, r.len() as int) =~= s.subrange(0, r.len() as int));
    }
}

proof fn lemma_strip_back_of_stripped(s: Seq<char>, c: char)
    requires
        s.len() > 0 ==> s.last() != c,
    ensures
        strip_back(s, c) == s,
{
}

/// Lower-casing and turning slashes keep the length in bytes.
proof fn lemma_lower_bytes(s: Seq<char>)
    ensures
        byte_length(ascii_lower(s)) == byte_length(s),
    decreases s.len(),
{
    let t = ascii_lower(s);
    if s.len() > 0 {
        lemma_lower_bytes(s.drop_first());
        assert(ascii_lower(s.drop_first()) =~= t.drop_first());
    }
}

proof fn lemma_replaced_bytes(s: Seq<char>)
    ensures
        byte_length(replaced(s, '/', '\\')) == byte_length(s),
    decreases s.len(),
{
    let t = replaced(s, '/', '\\');
    if s.len() > 0 {
        lemma_replaced_bytes(s.drop_first());
        assert(replaced(s.drop_first(), '/', '\\') =~= t.drop_first());
    }
}

// ---------------------------------------------------------------------------
// Attributes and classes.

/// A list of one text, or an empty one.
pub open spec fn label_if(on: bool, label: Seq<char>) -> Seq<Seq<char>> {
    if on {
        seq![label]
    } else {
        seq![]
    }
}

/// What the attribute bits of an entry say, in words.
pub open spec fn labels_of(attributes: u32, read_only: bool) -> Seq<Seq<char>> {
    label_if(attributes & 0x0002u32 != 0, "hidden"@) + label_if(
        attributes & 0x0004u32 != 0,
        "system"@,
    ) + label_if(read_only, "read_only"@) + label_if(
        attributes & 0x0400u32 != 0,
        "reparse_point"@,
    ) + label_if(attributes & 0x0200u32 != 0, "sparse"@) + label_if(
        attributes & 0x0800u32 != 0,
        "compressed"@,
    ) + label_if(attributes & 0x4000u32 != 0, "encrypted"@) + label_if(
        attributes & 0x1000u32 != 0,
        "offline"@,
    ) + label_if(attributes & 0x0100u32 != 0, "temporary"@) + label_if(
        attributes & 0x2000u32 != 0,
        "not_content_indexed"@,
    )
}

fn push_label(labels: &mut Vec<String>, on: bool, label: &str)
    ensures
        views(final(labels)@) == views(old(labels)@) + label_if(on, label@),
{
    if on {
        labels.push(owned(label));
    }
    assert(views(labels@) =~= views(old(labels)@) + label_if(on, label@));
}

pub fn attribute_labels(attributes: u32, read_only: bool) -> (r: Vec<String>)
    ensures
        views(r@) == labels_of(attributes, read_only),
{
    let mut labels: Vec<String> = Vec::new();
    push_label(&mut labels, attributes & 0x0002 != 0, "hidden");
    assert(views(labels@) =~= label_if(attributes & 0x0002u32 != 0, "hidden"@));
    push_label(&mut labels, attributes & 0x0004 != 0, "system");
    push_label(&mut labels, read_only, "read_only");
    push_label(&mut labels, attributes & 0x0400 != 0, "reparse_point");
    push_label(&mut labels, attributes & 0x0200 != 0, "sparse");
    push_label(&mut labels, attributes & 0x0800 != 0, "compressed");
    push_label(&mut labels, attributes & 0x4000 != 0, "encrypted");
    push_label(&mut labels, attributes & 0x1000 != 0, "offline");
    push_label(&mut labels, attributes & 0x0100 != 0, "temporary");
    push_label(&mut labels, attributes & 0x2000 != 0, "not_content_indexed");
    labels
}

/// The class of an entry.
pub open spec fn class_of(is_directory: bool, is_metafile: bool) -> SourceEntryClass {
    if is_directory {
        if is_metafile {
            SourceEntryClass::MetadataDirectory
        } else {
            SourceEntryClass::Directory
        }
    } else if is_metafile {
        SourceEntryClass::MetadataFile
    } else {
        SourceEntryClass::File
    }
}

pub fn classify_source_entry(is_directory: bool, is_metafile: bool) -> (r: SourceEntryClass)
    ensures
        r == class_of(is_directory, is_metafile),
{
    match (is_directory, is_metafile) {
        (true, true) => SourceEntryClass::MetadataDirectory,
        (false, true) => SourceEntryClass::MetadataFile,
        (true, false) => SourceEntryClass::Directory,
        (false, false) => SourceEntryClass::File,
    }
}

/// An entry that can be entered: a readable folder that is no link to another place.
pub open spec fn can_navigate(
    is_directory: bool,
    attributes: u32,
    access_state: SourceAccessState,
) -> bool {
    is_directory && access_state == SourceAccessState::Readable && attributes & 0x0400u32 == 0
}

pub fn source_entry_can_navigate(
    is_directory: bool,
    attributes: u32,
    access_state: SourceAccessState,
) -> (r: bool)
    ensures
        r == can_navigate(is_directory, attributes, access_state),
{
    is_directory && access_state == SourceAccessState::Readable && attributes & 0x0400 == 0
}

/// The extension of a file name: what stands behind its last dot, unless the name starts there.
pub open spec fn file_extension(name: Seq<char>) -> Option<Seq<char>> {
    if name == ".."@ || last_index(name, '.') <= 0 {
        None
    } else {
        after_last(name, '.')
    }
}

/// The extension of a file name without separators.
pub fn file_extension_of(name: &str) -> (r: Option<String>)
    ensures
        opt_view(r) == file_extension(name@),
{
    if *name == *".." {
        return None;
    }
    let chars = chars_of(name);
    match last_index_of(&chars, '.') {
        None => None,
        Some(k) => if k == 0 {
            None
        } else {
            Some(string_of(&chars, k + 1, chars.len()))
        },
    }
}

// ---------------------------------------------------------------------------
// Entries from file metadata.

/// What an entry says.
pub ghost struct EntryView {
    pub name: Seq<char>,
    pub path: Seq<char>,
    pub parent_path: Seq<char>,
    pub mft_reference: Option<u64>,
    pub parent_reference: Option<u64>,
    pub extension: Option<Seq<char>>,
    pub is_directory: bool,
    pub has_children: Option<bool>,
    pub is_metafile: bool,
    pub entry_class: SourceEntryClass,
    pub size: u64,
    pub created_at: Option<Seq<char>>,
    pub modified_at: Option<Seq<char>>,
    pub accessed_at: Option<Seq<char>>,
    pub hidden: bool,
    pub system: bool,
    pub read_only: bool,
    pub attr_bits: Option<u32>,
    pub attributes: Seq<Seq<char>>,
    pub deleted_hits: usize,
    pub access_state: SourceAccessState,
}

impl View for SourceEntry {
    type V = EntryView;

    open spec fn view(&self) -> EntryView {
        EntryView {
            name: self.name@,
            path: self.path@,
            parent_path: self.parent_path@,
            mft_reference: self.mft_reference,
            parent_reference: self.parent_reference,
            extension: opt_view(self.extension),
            is_directory: self.is_directory,
            has_children: self.has_children,
            is_metafile: self.is_metafile,
            entry_class: self.entry_class,
            size: self.size,
            created_at: opt_view(self.created_at),
            modified_at: opt_view(self.modified_at),
            accessed_at: opt_view(self.accessed_at),
            hidden: self.hidden,
            system: self.system,
            read_only: self.read_only,
            attr_bits: self.attr_bits,
            attributes: views(self.attributes@),
            deleted_hits: self.deleted_hits,
            access_state: self.access_state,
        }
    }
}

/// What the file system says of an entry; times in nanoseconds from the start of 1970.
#[derive(Debug, Clone, Copy, PartialEq, Eq, Structural)]
pub struct FileMetadata {
    pub attributes: u32,
    pub is_directory: bool,
    pub readonly: bool,
    pub length: u64,
    pub created: Option<i128>,
    pub modified: Option<i128>,
    pub accessed: Option<i128>,
}

/// What asking for the metadata of an entry gave.
#[derive(Debug, Clone, Copy, PartialEq, Eq, Structural)]
pub enum MetadataReply {
    Found(FileMetadata),
    Failed { is_directory: bool, denied: bool },
}

pub open spec fn is_read_only(m: FileMetadata) -> bool {
    m.attributes & 0x0001u32 != 0 || m.readonly
}

pub open spec fn starts_with_dollar(name: Seq<char>) -> bool {
    name.len() > 0 && name[0] == '$'
}

/// How far an entry can be read whose metadata could not be had.
pub open spec fn failed_access(denied: bool) -> SourceAccessState {
    if denied {
        SourceAccessState::Denied
    } else {
        SourceAccessState::Unknown
    }
}

/// An entry whose metadata was read.
pub open spec fn readable_entry(
    name: Seq<char>,
    path: Seq<char>,
    parent: Seq<char>,
    extension: Option<Seq<char>>,
    m: FileMetadata,
) -> EntryView {
    EntryView {
        name,
        path,
        parent_path: parent,
        mft_reference: None,
        parent_reference: None,
        extension: if m.is_directory {
            None
        } else {
            extension
        },
        is_directory: m.is_directory,
        has_children: Some(
            can_navigate(m.is_directory, m.attributes, SourceAccessState::Readable),
        ),
        is_metafile: starts_with_dollar(name),
        entry_class: class_of(m.is_directory, starts_with_dollar(name)),
        size: if m.is_directory {
            0
        } else {
            m.length
        },
        created_at: time_text(m.created),
        modified_at: time_text(m.modified),
        accessed_at: time_text(m.accessed),
        hidden: m.attributes & 0x0002u32 != 0,
        system: m.attributes & 0x0004u32 != 0,
        read_only: is_read_only(m),
        attr_bits: Some(m.attributes),
        attributes: labels_of(m.attributes, is_read_only(m)),
        deleted_hits: 0,
        access_state: SourceAccessState::Readable,
    }
}

/// An entry whose metadata could not be had.
pub open spec fn unreadable_entry(
    name: Seq<char>,
    path: Seq<char>,
    parent: Seq<char>,
    extension: Option<Seq<char>>,
    is_directory: bool,
    denied: bool,
) -> EntryView {
    EntryView {
        name,
        path,
        parent_path: parent,
        mft_reference: None,
        parent_reference: None,
        extension,
        is_directory,
        has_children: Some(false),
        is_metafile: starts_with_dollar(name),
        entry_class: class_of(is_directory, starts_with_dollar(name)),
        size: 0,
        created_at: None,
        modified_at: None,
        accessed_at: None,
        hidden: false,
        system: false,
        read_only: false,
        attr_bits: None,
        attributes: seq!["access_denied"@],
        deleted_hits: 0,
        access_state: failed_access(denied),
    }
}

fn build_readable_entry(
    name: String,
    path: &str,
    parent_path: &str,
    extension: Option<String>,
    m: &FileMetadata,
) -> (r: SourceEntry)
    ensures
        r@ == readable_entry(name@, path@, parent_path@, opt_view(extension), *m),
{
    let read_only = m.attributes & 0x0001 != 0 || m.readonly;
    let is_metafile = starts_with_char(name.as_str(), '$');
    SourceEntry {
        name,
        path: owned(path),
        parent_path: owned(parent_path),
        mft_reference: None,
        parent_reference: None,
        extension: if m.is_directory {
            None
        } else {
            extension
        },
        is_directory: m.is_directory,
        has_children: Some(
            source_entry_can_navigate(m.is_directory, m.attributes, SourceAccessState::Readable),
        ),
        is_metafile,
        entry_class: classify_source_entry(m.is_directory, is_metafile),
        size: if m.is_directory {
            0
        } else {
            m.length
        },
        created_at: format_time(m.created),
        modified_at: format_time(m.modified),
        accessed_at: format_time(m.accessed),
        hidden: m.attributes & 0x0002 != 0,
        system: m.attributes & 0x0004 != 0,
        read_only,
        attr_bits: Some(m.attributes),
        attributes: attribute_labels(m.attributes, read_only),
        deleted_hits: 0,
        access_state: SourceAccessState::Readable,
    }
}

fn build_unreadable_entry(
    name: String,
    path: &str,
    parent_path: &str,
    extension: Option<String>,
    is_directory: bool,
    denied: bool,
) -> (r: SourceEntry)
    ensures
        r@ == unreadable_entry(
            name@,
            path@,
            parent_path@,
            opt_view(extension),
            is_directory,
            denied,
        ),
{
    let is_metafile = starts_with_char(name.as_str(), '$');
    let mut attributes: Vec<String> = Vec::new();
    attributes.push(owned("access_denied"));
    assert(views(attributes@) =~= seq!["access_denied"@]);
    SourceEntry {
        name,
        path: owned(path),
        parent_path: owned(parent_path),
        mft_reference: None,
        parent_reference: None,
        extension,
        is_directory,
        has_children: Some(false),
        is_metafile,
        entry_class: classify_source_entry(is_directory, is_metafile),
        size: 0,
        created_at: None,
        modified_at: None,
        accessed_at: None,
        hidden: false,
        system: false,
        read_only: false,
        attr_bits: None,
        attributes,
        deleted_hits: 0,
        access_state: if denied {
            SourceAccessState::Denied
        } else {
            SourceAccessState::Unknown
        },
    }
}

/// The entry of a listed file; none for a blank name.
pub open spec fn listed_entry(
    file_name: Seq<char>,
    path: Seq<char>,
    parent: Seq<char>,
    reply: MetadataReply,
) -> Option<EntryView> {
    let name = trimmed(file_name);
    let shown = display_path(path);
    let extension = file_extension(file_name);
    if name.len() == 0 {
        None
    } else {
        Some(
            match reply {
                MetadataReply::Found(m) => readable_entry(name, shown, parent, extension, m),
                MetadataReply::Failed { is_directory, denied } => unreadable_entry(
                    name,
                    shown,
                    parent,
                    if is_directory {
                        None
                    } else {
                        extension
                    },
                    is_directory,
                    denied,
                ),
            },
        )
    }
}

pub open spec fn entry_view_opt(e: Option<SourceEntry>) -> Option<EntryView> {
    match e {
        Some(entry) => Some(entry@),
        None => None,
    }
}

/// The entry of a file that a directory lists.
pub fn build_source_entry(
    file_name: &str,
    path: &str,
    parent_path: &str,
    reply: &MetadataReply,
) -> (r: Option<SourceEntry>)
    ensures
        entry_view_opt(r) == listed_entry(file_name@, path@, parent_path@, *reply),
{
    let name = trim(file_name);
    if name.as_str().is_empty() {
        return None;
    }
    let path = normalize_display_string(path);
    let path = path.as_str();
    let extension = file_extension_of(file_name);
    match reply {
        MetadataReply::Found(m) => Some(
            build_readable_entry(name, path, parent_path, extension, m),
        ),
        MetadataReply::Failed { is_directory, denied } => {
            let shown: Option<String> = if *is_directory {
                None
            } else {
                extension
            };
            Some(build_unreadable_entry(name, path, parent_path, shown, *is_directory, *denied))
        },
    }
}

/// The name of an entry that is asked for by its path.
pub open spec fn entry_name(file_name: Option<Seq<char>>, path: Seq<char>) -> Seq<char> {
    match file_name {
        Some(name) => if trimmed(name).len() == 0 {
            path
        } else {
            trimmed(name)
        },
        None => path,
    }
}

pub open spec fn extension_if(file_name: Option<Seq<char>>) -> Option<Seq<char>> {
    match file_name {
        Some(name) => file_extension(name),
        None => None,
    }
}

pub(crate) fn entry_name_of(file_name: Option<&str>, path: &str) -> (r: String)
    ensures
        r@ == entry_name(ref_view(file_name), path@),
{
    match file_name {
        Some(name) => {
            let shown = trim(name);
            if shown.as_str().is_empty() {
                owned(path)
            } else {
                shown
            }
        },
        None => owned(path),
    }
}

pub(crate) fn extension_if_named(file_name: Option<&str>) -> (r: Option<String>)
    ensures
        opt_view(r) == extension_if(ref_view(file_name)),
{
    match file_name {
        Some(name) => file_extension_of(name),
        None => None,
    }
}

/// The entry of a file that is asked for by its path; a path without a file name is a root.
pub fn build_source_entry_from_path(
    file_name: Option<&str>,
    path: &str,
    parent_path: &str,
    reply: &MetadataReply,
) -> (r: SourceEntry)
    ensures
        r@ == match *reply {
            MetadataReply::Found(m) => readable_entry(
                entry_name(ref_view(file_name), display_path(path@)),
                display_path(path@),
                parent_path@,
                extension_if(ref_view(file_name)),
                m,
            ),
            MetadataReply::Failed { is_directory, denied } => unreadable_entry(
                entry_name(ref_view(file_name), display_path(path@)),
                display_path(path@),
                parent_path@,
                extension_if(ref_view(file_name)),
                is_directory,
                denied,
            ),
        },
{
    let path = normalize_display_string(path);
    let path = path.as_str();
    let name = entry_name_of(file_name, path);
    let extension = extension_if_named(file_name);
    match reply {
        MetadataReply::Found(m) => build_readable_entry(name, path, parent_path, extension, m),
        MetadataReply::Failed { is_directory, denied } => build_unreadable_entry(
            name,
            path,
            parent_path,
            extension,
            *is_directory,
            *denied,
        ),
    }
}

// ---------------------------------------------------------------------------
// Listings.

pub open spec fn folder_rank() -> spec_fn(SourceEntry) -> int {
    |e: SourceEntry|
        if e.is_directory {
            0int
        } else {
            1
        }
}

pub open spec fn lower_name() -> spec_fn(SourceEntry) -> Seq<char> {
    |e: SourceEntry| ascii_lower(e.name@)
}

/// Folders first, and then by name, whatever its case.
pub open spec fn entry_order() -> spec_fn(SourceEntry, SourceEntry) -> bool {
    then_by(by_number(folder_rank()), by_text(lower_name()))
}

pub proof fn lemma_entry_order()
    ensures
        strict_weak_order(entry_order()),
{
    lemma_by_number(folder_rank());
    lemma_by_text(lower_name());
    lemma_then_by(by_number(folder_rank()), by_text(lower_name()));
}

fn entry_before(a: &SourceEntry, b: &SourceEntry) -> (r: bool)
    ensures
        r == entry_order()(*a, *b),
{
    if a.is_directory != b.is_directory {
        return a.is_directory;
    }
    str_before(
        to_ascii_lowercase(a.name.as_str()).as_str(),
        to_ascii_lowercase(b.name.as_str()).as_str(),
    )
}

/// The entries in the order in which a directory lists them.
pub fn sort_entries(entries: Vec<SourceEntry>) -> (r: Vec<SourceEntry>)
    ensures
        stable_sorted(entries@, r@, entry_order()),
{
    let before = |a: &SourceEntry, b: &SourceEntry| -> (r: bool)
        ensures
            r == entry_order()(*a, *b),
        { entry_before(a, b) };
    proof {
        lemma_entry_order();
    }
    stable_sort_by(entries, before, Ghost(entry_order()))
}

pub open spec fn listed_kind(directories_only: bool) -> spec_fn(SourceEntry) -> bool {
    |e: SourceEntry| !directories_only || e.is_directory
}

/// The entries that a listing can show.
pub open spec fn shown_entries(entries: Seq<SourceEntry>, directories_only: bool) -> Seq<
    SourceEntry,
> {
    kept(entries, listed_kind(directories_only))
}

fn keep_directories(entries: Vec<SourceEntry>, directories_only: bool) -> (r: Vec<SourceEntry>)
    ensures
        r@ == shown_entries(entries@, directories_only),
{
    let test = |e: &SourceEntry| -> (b: bool)
        ensures
            b == listed_kind(directories_only)(*e),
        { !directories_only || e.is_directory };
    keep_where(entries, test, Ghost(listed_kind(directories_only)))
}

/// How far the index behind a listing has come.
#[derive(Debug, Clone, Copy, PartialEq, Eq, Structural)]
pub struct IndexState {
    pub complete: bool,
    pub indexed_entries: u64,
    pub total_estimated_entries: Option<u64>,
    pub generation: u64,
}

/// The state of an index that holds the whole directory.
pub open spec fn whole_index(total: int) -> IndexState {
    IndexState {
        complete: true,
        indexed_entries: total as u64,
        total_estimated_entries: Some(total as u64),
        generation: 0,
    }
}

/// A listing whose page is the given part of the given entries.
pub open spec fn is_listing(
    r: SourceDirectoryListing,
    source_id: Seq<char>,
    root: Seq<char>,
    path: Seq<char>,
    parent: Option<Seq<char>>,
    index: IndexState,
) -> bool {
    &&& r.source_id@ == source_id
    &&& r.root_path@ == root
    &&& r.path@ == path
    &&& opt_view(r.parent_path) == parent
    &&& r.deleted_artifacts@.len() == 0
    &&& r.deleted_artifact_count == 0
    &&& r.deleted_artifact_next_cursor is None
    &&& r.indexing_complete == index.complete
    &&& r.indexed_entries == index.indexed_entries
    &&& r.total_estimated_entries == index.total_estimated_entries
    &&& r.index_generation == index.generation
    &&& r.deleted_subtree_count == 0
}

/// `r` shows one page of the entries, sorted.
pub open spec fn shows_entries(
    r: SourceDirectoryListing,
    entries: Seq<SourceEntry>,
    cursor: Option<Seq<char>>,
    limit: Option<usize>,
    directories_only: bool,
) -> bool {
    let shown = shown_entries(entries, directories_only);
    let total = shown.len() as int;
    let offset = page_offset(cursor) as int;
    let size = page_size(limit) as int;
    &&& r.total_entry_count == total
    &&& exists|sorted: Seq<SourceEntry>| #[trigger]
        stable_sorted(shown, sorted, entry_order()) && r.entries@ == sorted.subrange(
            page_start(total, offset),
            page_end(total, offset, size),
        )
    &&& opt_view(r.next_cursor) == next_cursor(total, offset, size)
}

/// Which page of a directory is asked for.
#[derive(Debug)]
pub struct PageRequest {
    pub cursor: Option<String>,
    pub limit: Option<usize>,
    pub directories_only: bool,
}

/// Where a listing stands.
#[derive(Debug)]
pub struct ListingPlace {
    pub source_id: String,
    pub root_path: String,
    pub path: String,
    pub parent_path: Option<String>,
}

/// One page of a directory, from all its entries.
pub(crate) fn list_entries(
    place: ListingPlace,
    entries: Vec<SourceEntry>,
    request: &PageRequest,
    index: Option<IndexState>,
) -> (r: SourceDirectoryListing)
    ensures
        is_listing(
            r,
            place.source_id@,
            place.root_path@,
            place.path@,
            opt_view(place.parent_path),
            match index {
                Some(state) => state,
                None => whole_index(
                    shown_entries(entries@, request.directories_only).len() as int,
                ),
            },
        ),
        shows_entries(
            r,
            entries@,
            opt_view(request.cursor),
            request.limit,
            request.directories_only,
        ),
{
    let shown = keep_directories(entries, request.directories_only);
    let total: usize = shown.len();
    let (start, end) = page_bounds(
        total,
        page_offset_of(&request.cursor),
        page_size_of(request.limit),
    );
    let sorted = sort_entries(shown);
    let state: IndexState = match index {
        Some(state) => state,
        None => IndexState {
            complete: true,
            indexed_entries: total as u64,
            total_estimated_entries: Some(total as u64),
            generation: 0,
        },
    };
    let ghost all = sorted@;
    let page = window(sorted, start, end);
    assert(stable_sorted(
        shown_entries(entries@, request.directories_only),
        all,
        entry_order(),
    ));
    SourceDirectoryListing {
        source_id: place.source_id,
        root_path: place.root_path,
        path: place.path,
        parent_path: place.parent_path,
        entries: page,
        deleted_artifacts: Vec::new(),
        total_entry_count: total,
        deleted_artifact_count: 0,
        next_cursor: cursor_behind(end, total),
        deleted_artifact_next_cursor: None,
        indexing_complete: state.complete,
        indexed_entries: state.indexed_entries,
        total_estimated_entries: state.total_estimated_entries,
        index_generation: state.generation,
        deleted_subtree_count: 0,
    }
}

/// One page of a directory that was read whole.
pub fn browse_source_directory(
    place: ListingPlace,
    entries: Vec<SourceEntry>,
    request: &PageRequest,
) -> (r: SourceDirectoryListing)
    ensures
        is_listing(
            r,
            place.source_id@,
            place.root_path@,
            place.path@,
            opt_view(place.parent_path),
            whole_index(shown_entries(entries@, request.directories_only).len() as int),
        ),
        shows_entries(
            r,
            entries@,
            opt_view(request.cursor),
            request.limit,
            request.directories_only,
        ),
{
    list_entries(place, entries, request, None)
}

/// A page shows folders before files.
pub proof fn lemma_folders_come_first(
    r: SourceDirectoryListing,
    entries: Seq<SourceEntry>,
    cursor: Option<Seq<char>>,
    limit: Option<usize>,
    directories_only: bool,
    i: int,
    j: int,
)
    requires
        shows_entries(r, entries, cursor, limit, directories_only),
        0 <= i < j < r.entries@.len(),
        r.entries@[j].is_directory,
    ensures
        r.entries@[i].is_directory,
{
    let shown = shown_entries(entries, directories_only);
    let total = shown.len() as int;
    let sorted = choose|sorted: Seq<SourceEntry>| #[trigger]
        stable_sorted(shown, sorted, entry_order()) && r.entries@ == sorted.subrange(
            page_start(total, page_offset(cursor) as int),
            page_end(total, page_offset(cursor) as int, page_size(limit) as int),
        );
    let start = page_start(total, page_offset(cursor) as int);
    lemma_entry_order();
    lemma_stable_sorted_keeps_items(shown, sorted, entry_order());
    assert(sorted[start + i] == r.entries@[i]);
    assert(sorted[start + j] == r.entries@[j]);
    assert(!entry_order()(sorted[start + j], sorted[start + i]));
}

} // verus!
