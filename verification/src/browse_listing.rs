//! Pages of deleted files and of folders.

use crate::browse_cache::{list_has, DeletedBrowseCache, DeletedFolderNode};
use crate::browse_paths::{
    is_unknown_bucket_path_for_source, normalize_browser_path, path_key, probable_bucket,
    probable_bucket_path_for_source, unknown_bucket, unknown_bucket_path_for_source,
};
use crate::bytes::occurs_in;
use crate::kinds::{kind_label, kind_name};
use crate::model::{
    summarizes, ArtifactRecord, ArtifactSummary, BrowseSourceRequest, RssError, ScanSource,
    SourceAccessState, SourceDirectoryListing, SourceEntry, SourceEntryClass,
};
use crate::pages::{
    cursor_behind, next_cursor, page_bounds, page_end, page_offset, page_offset_of, page_size,
    page_size_of, page_start,
};
use crate::seqs::{kept, lemma_kept_step};
use crate::sort::{
    by_number, by_opt_text, by_text, lemma_by_opt_text, lemma_by_text, lemma_reversed,
    lemma_then_by, opt_str_before, reversed, stable_sort_by, stable_sorted, str_before,
    strict_weak_order, then_by,
};
use crate::table::{count_at, list_at, Table};
use crate::text::{
    ascii_lower, chars_of, clone_opt, concat3, contains_string, eq_ignore_ascii_case,
    has_substring, opt_is, opt_view, owned, strip_front, to_ascii_lowercase, trim, trim_start_char,
    trimmed, views,
};
use vstd::prelude::*;
use vstd::string::*;

verus! {

// ---------------------------------------------------------------------------
// Filters.

/// The characters of an optional string slice.
pub open spec fn ref_view(o: Option<&str>) -> Option<Seq<char>> {
    match o {
        Some(s) => Some(s@),
        None => None,
    }
}

/// A filter in the form in which it is applied; a blank one is none.
pub open spec fn effective_filter(filter: Option<Seq<char>>) -> Option<Seq<char>> {
    match filter {
        Some(text) => if trimmed(text).len() == 0 {
            None
        } else {
            Some(ascii_lower(trimmed(text)))
        },
        None => None,
    }
}

pub fn normalized_filter(filter: Option<&str>) -> (r: Option<String>)
    ensures
        opt_view(r) == effective_filter(ref_view(filter)),
{
    match filter {
        Some(text) => {
            let t = trim(text);
            if t.as_str().is_empty() {
                None
            } else {
                Some(to_ascii_lowercase(t.as_str()))
            }
        },
        None => None,
    }
}

/// A character of an extension.
pub open spec fn extension_char(c: char) -> bool {
    ('0' <= c && c <= '9') || ('A' <= c && c <= 'Z') || ('a' <= c && c <= 'z') || c == '_'
}

/// The text without one leading dot.
pub open spec fn without_dot(s: Seq<char>) -> Seq<char> {
    if s.len() > 0 && s[0] == '.' {
        s.subrange(1, s.len() as int)
    } else {
        s
    }
}

/// The extension that a filter names, if it names nothing else.
pub open spec fn filter_extension(filter: Seq<char>) -> Option<Seq<char>> {
    let ext = without_dot(trimmed(filter));
    if 1 <= ext.len() <= 16 && forall|i: int|
        0 <= i < ext.len() ==> extension_char(#[trigger] ext[i]) {
        Some(ascii_lower(ext))
    } else {
        None
    }
}

pub fn exact_extension_filter(filter: &str) -> (r: Option<String>)
    ensures
        opt_view(r) == filter_extension(filter@),
{
    let t = trim(filter);
    let chars = chars_of(t.as_str());
    let from: usize = if chars.len() > 0 && chars[0] == '.' {
        1
    } else {
        0
    };
    let ext = crate::text::string_of(&chars, from, chars.len());
    assert(ext@ =~= without_dot(trimmed(filter@)));
    let body = chars_of(ext.as_str());
    if body.len() == 0 || body.len() > 16 {
        return None;
    }
    let mut i: usize = 0;
    while i < body.len()
        invariant
            i <= body@.len(),
            body@ == ext@,
            ext@ == without_dot(trimmed(filter@)),
            forall|j: int| 0 <= j < i ==> extension_char(#[trigger] ext@[j]),
        decreases body@.len() - i,
    {
        let c = body[i];
        if !(('0' <= c && c <= '9') || ('A' <= c && c <= 'Z') || ('a' <= c && c <= 'z') || c
            == '_') {
            assert(!extension_char(ext@[i as int]));
            return None;
        }
        i += 1;
    }
    Some(to_ascii_lowercase(ext.as_str()))
}

/// A text, if there is one, holds the filter.
pub open spec fn opt_holds(o: Option<Seq<char>>, filter: Seq<char>) -> bool {
    o matches Some(text) && occurs_in(ascii_lower(text), filter)
}

/// A file that a filter lets through: by its name, kind, paths or times, or by its extension.
pub open spec fn passes(artifact: ArtifactRecord, filter: Seq<char>) -> bool {
    ||| occurs_in(ascii_lower(artifact.name@), filter)
    ||| (artifact.extension matches Some(ext) && ascii_lower(ext@) == ascii_lower(
        strip_front(filter, '.'),
    ))
    ||| occurs_in(kind_label(artifact.kind), filter)
    ||| opt_holds(opt_view(artifact.original_path), filter)
    ||| opt_holds(opt_view(artifact.probable_path), filter)
    ||| opt_holds(opt_view(artifact.created_at), filter)
    ||| opt_holds(opt_view(artifact.modified_at), filter)
    ||| opt_holds(opt_view(artifact.deleted_at), filter)
    ||| opt_holds(opt_view(artifact.last_metadata_change_at), filter)
}

fn opt_contains(o: &Option<String>, filter: &str) -> (r: bool)
    ensures
        r == opt_holds(opt_view(*o), filter@),
{
    match o {
        Some(text) => {
            let lower = to_ascii_lowercase(text.as_str());
            has_substring(lower.as_str(), filter)
        },
        None => false,
    }
}

pub fn artifact_matches_filter(artifact: &ArtifactRecord, filter: &str) -> (r: bool)
    ensures
        r == passes(*artifact, filter@),
{
    let name = to_ascii_lowercase(artifact.name.as_str());
    if has_substring(name.as_str(), filter) {
        return true;
    }
    if let Some(ext) = &artifact.extension {
        let bare = trim_start_char(filter, '.');
        if eq_ignore_ascii_case(ext.as_str(), bare.as_str()) {
            return true;
        }
    }
    has_substring(kind_name(artifact.kind), filter) || opt_contains(
        &artifact.original_path,
        filter,
    ) || opt_contains(&artifact.probable_path, filter) || opt_contains(
        &artifact.created_at,
        filter,
    ) || opt_contains(&artifact.modified_at, filter) || opt_contains(
        &artifact.deleted_at,
        filter,
    ) || opt_contains(&artifact.last_metadata_change_at, filter)
}

/// Result `index` exists and passes the filter.
pub open spec fn index_passes(results: Seq<ArtifactRecord>, filter: Seq<char>) -> spec_fn(
    usize,
) -> bool {
    |index: usize| index < results.len() && passes(results[index as int], filter)
}

/// The files of a folder that a filter lets through. A filter that names an extension with a
/// list of its own takes that list, as far as it lies in the folder.
pub open spec fn filtered(
    results: Seq<ArtifactRecord>,
    indices: Seq<usize>,
    by_extension: Map<Seq<char>, Vec<usize>>,
    lists: int,
    filter: Option<Seq<char>>,
) -> Seq<usize> {
    match effective_filter(filter) {
        None => indices,
        Some(f) => {
            let ext = filter_extension(f);
            if ext is Some && by_extension.contains_key(ext->0) {
                kept(by_extension[ext->0]@, |i: usize| indices.contains(i) || lists == 1)
            } else {
                kept(indices, index_passes(results, f))
            }
        },
    }
}

fn holds_index(indices: &[usize], index: usize) -> (r: bool)
    ensures
        r == indices@.contains(index),
{
    let mut i: usize = 0;
    while i < indices.len()
        invariant
            i <= indices@.len(),
            forall|j: int| 0 <= j < i ==> indices@[j] != index,
        decreases indices@.len() - i,
    {
        if indices[i] == index {
            assert(indices@[i as int] == index);
            return true;
        }
        i += 1;
    }
    false
}

fn copy_indices(indices: &[usize]) -> (r: Vec<usize>)
    ensures
        r@ == indices@,
{
    let mut out: Vec<usize> = Vec::new();
    let mut i: usize = 0;
    while i < indices.len()
        invariant
            i <= indices@.len(),
            out@ == indices@.subrange(0, i as int),
        decreases indices@.len() - i,
    {
        out.push(indices[i]);
        i += 1;
    }
    assert(out@ =~= indices@);
    out
}

pub fn filtered_deleted_indices(
    results: &[ArtifactRecord],
    indices: &[usize],
    by_extension: &Table<Vec<usize>>,
    filter: Option<&str>,
) -> (r: Vec<usize>)
    requires
        by_extension.wf(),
    ensures
        r@ == filtered(
            results@,
            indices@,
            by_extension@,
            by_extension.entries@.len() as int,
            ref_view(filter),
        ),
{
    let text = match normalized_filter(filter) {
        Some(text) => text,
        None => {
            return copy_indices(indices);
        },
    };
    if let Some(ext) = exact_extension_filter(text.as_str()) {
        if let Some(listed) = by_extension.get(ext.as_str()) {
            let single: bool = by_extension.len() == 1;
            let ghost lists = by_extension.entries@.len() as int;
            let ghost f = |i: usize| indices@.contains(i) || lists == 1;
            let mut out: Vec<usize> = Vec::new();
            let mut i: usize = 0;
            while i < listed.len()
                invariant
                    i <= listed@.len(),
                    single == (lists == 1),
                    f == |i: usize| indices@.contains(i) || lists == 1,
                    out@ == kept(listed@.subrange(0, i as int), f),
                decreases listed@.len() - i,
            {
                proof {
                    lemma_kept_step(listed@, f, i as int);
                }
                if holds_index(indices, listed[i]) || single {
                    out.push(listed[i]);
                }
                i += 1;
            }
            assert(listed@.subrange(0, i as int) =~= listed@);
            return out;
        }
    }
    let ghost f = index_passes(results@, text@);
    let mut out: Vec<usize> = Vec::new();
    let mut i: usize = 0;
    while i < indices.len()
        invariant
            i <= indices@.len(),
            f == index_passes(results@, text@),
            out@ == kept(indices@.subrange(0, i as int), f),
        decreases indices@.len() - i,
    {
        let index: usize = indices[i];
        proof {
            lemma_kept_step(indices@, f, i as int);
        }
        if index < results.len() && artifact_matches_filter(&results[index], text.as_str()) {
            out.push(index);
        }
        i += 1;
    }
    assert(indices@.subrange(0, i as int) =~= indices@);
    out
}

// ---------------------------------------------------------------------------
// Orders.

/// The keys by which deleted files can be sorted.
pub open spec fn sort_key_known(key: Seq<char>) -> bool {
    key == "name"@ || key == "type"@ || key == "size"@ || key == "created_at"@ || key
        == "modified_at"@ || key == "accessed_at"@ || key == "deleted_hits"@
}

pub fn is_deleted_sort_key(key: &str) -> (r: bool)
    ensures
        r == sort_key_known(key@),
{
    *key == *"name" || *key == *"type" || *key == *"size" || *key == *"created_at" || *key
        == *"modified_at" || *key == *"accessed_at" || *key == *"deleted_hits"
}

/// The order that a key asks for.
pub open spec fn key_order(key: Seq<char>) -> spec_fn(ArtifactRecord, ArtifactRecord) -> bool {
    if key == "type"@ {
        by_text(|r: ArtifactRecord| kind_label(r.kind))
    } else if key == "size"@ {
        by_number(|r: ArtifactRecord| r.size as int)
    } else if key == "created_at"@ {
        by_opt_text(|r: ArtifactRecord| opt_view(r.created_at))
    } else if key == "modified_at"@ {
        by_opt_text(|r: ArtifactRecord| opt_view(r.modified_at))
    } else if key == "name"@ {
        by_text(|r: ArtifactRecord| ascii_lower(r.name@))
    } else {
        by_number(|r: ArtifactRecord| 0int)
    }
}

/// By name, upper and lower case alike.
pub open spec fn name_order() -> spec_fn(ArtifactRecord, ArtifactRecord) -> bool {
    by_text(|r: ArtifactRecord| ascii_lower(r.name@))
}

/// By id.
pub open spec fn id_order() -> spec_fn(ArtifactRecord, ArtifactRecord) -> bool {
    by_text(|r: ArtifactRecord| r.id@)
}

/// By a key, then by name, then by id.
pub open spec fn record_order(key: Seq<char>) -> spec_fn(ArtifactRecord, ArtifactRecord) -> bool {
    then_by(then_by(key_order(key), name_order()), id_order())
}

pub proof fn lemma_record_order(key: Seq<char>)
    ensures
        strict_weak_order(record_order(key)),
{
    lemma_by_text(|r: ArtifactRecord| kind_label(r.kind));
    lemma_by_opt_text(|r: ArtifactRecord| opt_view(r.created_at));
    lemma_by_opt_text(|r: ArtifactRecord| opt_view(r.modified_at));
    lemma_by_text(|r: ArtifactRecord| ascii_lower(r.name@));
    lemma_by_text(|r: ArtifactRecord| r.id@);
    lemma_then_by(key_order(key), name_order());
    lemma_then_by(then_by(key_order(key), name_order()), id_order());
}

/// Results by the order of their records; indices without a result come last.
pub open spec fn index_order(results: Seq<ArtifactRecord>, key: Seq<char>) -> spec_fn(
    usize,
    usize,
) -> bool {
    |a: usize, b: usize|
        if a < results.len() && b < results.len() {
            record_order(key)(results[a as int], results[b as int])
        } else {
            a < results.len() && b >= results.len()
        }
}

pub proof fn lemma_index_order(results: Seq<ArtifactRecord>, key: Seq<char>)
    ensures
        strict_weak_order(index_order(results, key)),
{
    lemma_record_order(key);
    let rel = index_order(results, key);
    let rec = record_order(key);
    assert forall|a: usize, b: usize| #[trigger] rel(a, b) implies !rel(b, a) by {
        if a < results.len() && b < results.len() {
            assert(rec(results[a as int], results[b as int]));
        }
    }
    assert forall|a: usize, b: usize, c: usize|
        !(#[trigger] rel(b, a)) && !(#[trigger] rel(c, b)) implies !rel(c, a) by {
        if a < results.len() && b < results.len() && c < results.len() {
            assert(!rec(results[b as int], results[a as int]));
            assert(!rec(results[c as int], results[b as int]));
        }
    }
}

/// The order in which a request wants its files.
pub open spec fn request_order(
    results: Seq<ArtifactRecord>,
    key: Seq<char>,
    descending: bool,
) -> spec_fn(usize, usize) -> bool {
    if descending {
        reversed(index_order(results, key))
    } else {
        index_order(results, key)
    }
}

fn key_before(a: &ArtifactRecord, b: &ArtifactRecord, key: &str) -> (r: bool)
    ensures
        r == key_order(key@)(*a, *b),
{
    if *key == *"type" {
        str_before(kind_name(a.kind), kind_name(b.kind))
    } else if *key == *"size" {
        a.size < b.size
    } else if *key == *"created_at" {
        opt_str_before(&a.created_at, &b.created_at)
    } else if *key == *"modified_at" {
        opt_str_before(&a.modified_at, &b.modified_at)
    } else if *key == *"name" {
        name_before(a, b)
    } else {
        false
    }
}

fn name_before(a: &ArtifactRecord, b: &ArtifactRecord) -> (r: bool)
    ensures
        r == name_order()(*a, *b),
{
    let x = to_ascii_lowercase(a.name.as_str());
    let y = to_ascii_lowercase(b.name.as_str());
    str_before(x.as_str(), y.as_str())
}

/// Whether one file comes before another.
pub fn compare_deleted_artifacts(a: &ArtifactRecord, b: &ArtifactRecord, sort_key: &str) -> (r:
    bool)
    ensures
        r == record_order(sort_key@)(*a, *b),
{
    if key_before(a, b, sort_key) {
        return true;
    }
    if key_before(b, a, sort_key) {
        return false;
    }
    if name_before(a, b) {
        return true;
    }
    if name_before(b, a) {
        return false;
    }
    str_before(a.id.as_str(), b.id.as_str())
}

fn index_before(results: &[ArtifactRecord], a: usize, b: usize, key: &str) -> (r: bool)
    ensures
        r == index_order(results@, key@)(a, b),
{
    if a < results.len() && b < results.len() {
        compare_deleted_artifacts(&results[a], &results[b], key)
    } else {
        a < results.len() && b >= results.len()
    }
}

pub fn sort_deleted_indices(
    results: &[ArtifactRecord],
    indices: Vec<usize>,
    sort_key: &str,
    descending: bool,
) -> (r: Vec<usize>)
    ensures
        stable_sorted(indices@, r@, request_order(results@, sort_key@, descending)),
{
    proof {
        lemma_index_order(results@, sort_key@);
        lemma_reversed(index_order(results@, sort_key@));
    }
    let before = |a: &usize, b: &usize| -> (r: bool)
        ensures
            r == request_order(results@, sort_key@, descending)(*a, *b),
        {
            if descending {
                index_before(results, *b, *a, sort_key)
            } else {
                index_before(results, *a, *b, sort_key)
            }
        };
    stable_sort_by(indices, before, Ghost(request_order(results@, sort_key@, descending)))
}

/// The files that a request asks for, in the order in which it wants them.
pub open spec fn requested(
    r: Seq<usize>,
    results: Seq<ArtifactRecord>,
    indices: Seq<usize>,
    by_extension: Map<Seq<char>, Vec<usize>>,
    lists: int,
    request: BrowseSourceRequest,
) -> bool {
    let chosen = filtered(results, indices, by_extension, lists, opt_view(request.filter));
    if request.sort_key is Some && sort_key_known(request.sort_key->0@) {
        stable_sorted(
            chosen,
            r,
            request_order(
                results,
                request.sort_key->0@,
                opt_view(request.sort_direction) == Some("desc"@),
            ),
        )
    } else {
        r == chosen
    }
}

/// The filter of a request as a string slice.
fn opt_ref(o: &Option<String>) -> (r: Option<&str>)
    ensures
        ref_view(r) == opt_view(*o),
{
    match o {
        Some(s) => Some(s.as_str()),
        None => None,
    }
}

pub fn deleted_indices_for_request(
    results: &[ArtifactRecord],
    indices: &[usize],
    by_extension: &Table<Vec<usize>>,
    request: &BrowseSourceRequest,
) -> (r: Vec<usize>)
    requires
        by_extension.wf(),
    ensures
        requested(
            r@,
            results@,
            indices@,
            by_extension@,
            by_extension.entries@.len() as int,
            *request,
        ),
{
    let chosen = filtered_deleted_indices(results, indices, by_extension, opt_ref(&request.filter));
    if let Some(key) = &request.sort_key {
        if is_deleted_sort_key(key.as_str()) {
            let descending = opt_is(&request.sort_direction, "desc");
            return sort_deleted_indices(results, chosen, key.as_str(), descending);
        }
    }
    chosen
}

// ---------------------------------------------------------------------------
// Pages.

/// The indices of a page that have a result.
pub open spec fn page_indices(
    results: Seq<ArtifactRecord>,
    indices: Seq<usize>,
    offset: int,
    limit: int,
) -> Seq<usize> {
    let total = indices.len() as int;
    kept(
        indices.subrange(page_start(total, offset), page_end(total, offset, limit)),
        |i: usize| i < results.len(),
    )
}

/// `page` shows the results at the given indices.
pub open spec fn shows_page(
    page: Seq<ArtifactSummary>,
    results: Seq<ArtifactRecord>,
    chosen: Seq<usize>,
) -> bool {
    &&& page.len() == chosen.len()
    &&& forall|k: int|
        0 <= k < page.len() ==> summarizes(#[trigger] page[k], results[chosen[k] as int])
}

pub fn deleted_artifact_page(
    results: &[ArtifactRecord],
    indices: &Vec<usize>,
    offset: usize,
    limit: usize,
) -> (r: (Vec<ArtifactSummary>, Option<String>))
    ensures
        shows_page(
            r.0@,
            results@,
            page_indices(results@, indices@, offset as int, limit as int),
        ),
        opt_view(r.1) == next_cursor(indices@.len() as int, offset as int, limit as int),
{
    let total: usize = indices.len();
    let (start, end) = page_bounds(total, offset, limit);
    let mut page: Vec<ArtifactSummary> = Vec::new();
    let ghost window = indices@.subrange(start as int, end as int);
    let ghost f = |i: usize| i < results@.len();
    let mut i: usize = start;
    while i < end
        invariant
            start <= i <= end <= indices@.len(),
            window == indices@.subrange(start as int, end as int),
            f == |i: usize| i < results@.len(),
            shows_page(page@, results@, kept(window.subrange(0, i - start), f)),
        decreases end - i,
    {
        let index: usize = indices[i];
        proof {
            lemma_kept_step(window, f, i - start);
            assert(window[i - start] == index);
        }
        if index < results.len() {
            page.push(results[index].to_summary());
        }
        i += 1;
    }
    assert(window.subrange(0, i - start) =~= window);
    (page, cursor_behind(end, total))
}

// ---------------------------------------------------------------------------
// Entries that stand for deleted files.

/// A folder that exists only in the tree of deleted files.
pub open spec fn is_tree_entry(
    e: SourceEntry,
    name: Seq<char>,
    path: Seq<char>,
    parent: Seq<char>,
    has_children: bool,
    attribute: Seq<char>,
    hits: usize,
) -> bool {
    &&& e.name@ == name
    &&& e.path@ == path
    &&& e.parent_path@ == parent
    &&& e.mft_reference is None
    &&& e.parent_reference is None
    &&& e.extension is None
    &&& e.is_directory
    &&& e.has_children == Some(has_children)
    &&& !e.is_metafile
    &&& e.entry_class == SourceEntryClass::Directory
    &&& e.size == 0
    &&& e.created_at is None
    &&& e.modified_at is None
    &&& e.accessed_at is None
    &&& !e.hidden && !e.system && !e.read_only
    &&& e.attr_bits is None
    &&& views(e.attributes@) == seq![attribute]
    &&& e.deleted_hits == hits
    &&& e.access_state == SourceAccessState::Unknown
}

fn tree_entry(
    name: String,
    path: String,
    parent_path: String,
    has_children: bool,
    attribute: &str,
    deleted_hits: usize,
) -> (r: SourceEntry)
    ensures
        is_tree_entry(r, name@, path@, parent_path@, has_children, attribute@, deleted_hits),
{
    let mut attributes: Vec<String> = Vec::new();
    attributes.push(owned(attribute));
    assert(views(attributes@) =~= seq![attribute@]);
    SourceEntry {
        name,
        path,
        parent_path,
        mft_reference: None,
        parent_reference: None,
        extension: None,
        is_directory: true,
        has_children: Some(has_children),
        is_metafile: false,
        entry_class: SourceEntryClass::Directory,
        size: 0,
        created_at: None,
        modified_at: None,
        accessed_at: None,
        hidden: false,
        system: false,
        read_only: false,
        attr_bits: None,
        attributes,
        deleted_hits,
        access_state: SourceAccessState::Unknown,
    }
}

/// The folder of the files without a place.
pub open spec fn is_unknown_entry(
    e: SourceEntry,
    source: ScanSource,
    cache: DeletedBrowseCache,
) -> bool {
    is_tree_entry(
        e,
        "Unknown"@,
        unknown_bucket(source.id@),
        cache.root_path@,
        false,
        "Deleted or orphaned"@,
        cache.unknown_artifact_indices@.len() as usize,
    )
}

pub fn create_unknown_bucket_entry(source: &ScanSource, deleted_cache: &DeletedBrowseCache) -> (r:
    SourceEntry)
    ensures
        is_unknown_entry(r, *source, *deleted_cache),
{
    tree_entry(
        owned("Unknown"),
        unknown_bucket_path_for_source(source.id.as_str()),
        deleted_cache.root_path.clone(),
        false,
        "Deleted or orphaned",
        deleted_cache.unknown_artifact_indices.len(),
    )
}

/// The folder of the files with a probable place elsewhere.
pub open spec fn is_probable_entry(
    e: SourceEntry,
    source: ScanSource,
    cache: DeletedBrowseCache,
) -> bool {
    is_tree_entry(
        e,
        "Probable locations"@,
        probable_bucket(source.id@),
        cache.root_path@,
        false,
        "Probable deleted locations"@,
        cache.probable_artifact_indices@.len() as usize,
    )
}

pub fn create_probable_bucket_entry(source: &ScanSource, deleted_cache: &DeletedBrowseCache) -> (r:
    SourceEntry)
    ensures
        is_probable_entry(r, *source, *deleted_cache),
{
    tree_entry(
        owned("Probable locations"),
        probable_bucket_path_for_source(source.id.as_str()),
        deleted_cache.root_path.clone(),
        false,
        "Probable deleted locations",
        deleted_cache.probable_artifact_indices.len(),
    )
}

/// The entry of a folder of the tree.
pub open spec fn is_folder_entry(
    e: SourceEntry,
    cache: DeletedBrowseCache,
    folder: DeletedFolderNode,
    hits: usize,
) -> bool {
    is_tree_entry(
        e,
        folder.name@,
        folder.path@,
        match folder.parent_path {
            Some(parent) => parent@,
            None => seq![],
        },
        list_at(cache.synthetic_folders_by_parent@, path_key(folder.path@)).len() > 0,
        "Deleted folder"@,
        hits,
    )
}

pub fn create_deleted_folder_entry(
    deleted_cache: &DeletedBrowseCache,
    folder: &DeletedFolderNode,
    deleted_hits: usize,
) -> (r: SourceEntry)
    requires
        deleted_cache.wf(),
    ensures
        is_folder_entry(r, *deleted_cache, *folder, deleted_hits),
{
    let key = normalize_browser_path(folder.path.as_str());
    let children: usize = deleted_cache.synthetic_folders_by_parent.list(key.as_str()).len();
    let parent: String = match &folder.parent_path {
        Some(parent) => parent.clone(),
        None => String::new(),
    };
    assert(parent@ =~= match folder.parent_path {
        Some(parent) => parent@,
        None => seq![],
    });
    tree_entry(
        folder.name.clone(),
        folder.path.clone(),
        parent,
        children > 0,
        "Deleted folder",
        deleted_hits,
    )
}

/// How many deleted files an entry stands for.
pub open spec fn hits_of(e: SourceEntry, cache: DeletedBrowseCache, source: ScanSource) -> usize {
    if path_key(e.path@) == path_key(unknown_bucket(source.id@)) {
        cache.unknown_artifact_indices@.len() as usize
    } else if !e.is_directory {
        0
    } else {
        count_at(cache.subtree_deleted_counts@, path_key(e.path@))
    }
}

pub fn deleted_hits_for_entry(
    entry: &SourceEntry,
    deleted_cache: &DeletedBrowseCache,
    source: &ScanSource,
) -> (r: usize)
    requires
        deleted_cache.wf(),
    ensures
        r == hits_of(*entry, *deleted_cache, *source),
{
    if is_unknown_bucket_path_for_source(entry.path.as_str(), source.id.as_str()) {
        return deleted_cache.unknown_artifact_indices.len();
    }
    if !entry.is_directory {
        return 0;
    }
    let key = normalize_browser_path(entry.path.as_str());
    deleted_cache.subtree_deleted_counts.count(key.as_str())
}

/// The entry with the number of deleted files below it; a folder with deleted folders can be
/// opened.
pub open spec fn with_hits(
    e: SourceEntry,
    cache: DeletedBrowseCache,
    source: ScanSource,
) -> SourceEntry {
    SourceEntry {
        deleted_hits: hits_of(e, cache, source),
        has_children: if e.is_directory && list_at(
            cache.route_folders_by_parent@,
            path_key(e.path@),
        ).len() > 0 {
            Some(true)
        } else {
            e.has_children
        },
        ..e
    }
}

pub fn apply_deleted_hits_to_entry(
    entry: &mut SourceEntry,
    deleted_cache: &DeletedBrowseCache,
    source: &ScanSource,
)
    requires
        deleted_cache.wf(),
    ensures
        *final(entry) == with_hits(*old(entry), *deleted_cache, *source),
{
    let hits: usize = deleted_hits_for_entry(entry, deleted_cache, source);
    entry.deleted_hits = hits;
    if entry.is_directory && deleted_cache.has_deleted_child_folder(entry.path.as_str()) {
        entry.has_children = Some(true);
    }
}

/// A live folder that can be opened stands for the deleted folder at the same path.
pub open spec fn represents_route(e: SourceEntry) -> bool {
    e.is_directory && e.access_state == SourceAccessState::Readable && !views(
        e.attributes@,
    ).contains("reparse_point"@)
}

pub fn entry_represents_deleted_folder_route(entry: &SourceEntry) -> (r: bool)
    ensures
        r == represents_route(*entry),
{
    entry.is_directory && entry.access_state == SourceAccessState::Readable && !contains_string(
        &entry.attributes,
        "reparse_point",
    )
}

// ---------------------------------------------------------------------------
// Listings.

/// The folders that `known` does not hold and that were not listed before.
pub open spec fn fresh_folders(nodes: Seq<DeletedFolderNode>, known: Set<Seq<char>>) -> Seq<
    DeletedFolderNode,
>
    decreases nodes.len(),
{
    if nodes.len() == 0 {
        seq![]
    } else {
        let front = nodes.drop_last();
        let key = path_key(nodes.last().path@);
        if known.contains(key) || list_has(front, key) {
            fresh_folders(front, known)
        } else {
            fresh_folders(front, known).push(nodes.last())
        }
    }
}

/// The keys of the live folders of a listing.
pub open spec fn live_keys(entries: Seq<SourceEntry>) -> Set<Seq<char>> {
    Set::new(
        |k: Seq<char>|
            exists|i: int|
                0 <= i < entries.len() && represents_route(#[trigger] entries[i]) && path_key(
                    entries[i].path@,
                ) == k,
    )
}

/// The number of deleted files below the folder with a key.
pub open spec fn hits_below(cache: DeletedBrowseCache, key: Seq<char>) -> usize {
    count_at(cache.subtree_deleted_counts@, key)
}

/// The entries of folders of the tree, with the deleted files below each.
pub open spec fn are_folder_entries(
    entries: Seq<SourceEntry>,
    cache: DeletedBrowseCache,
    folders: Seq<DeletedFolderNode>,
) -> bool {
    &&& entries.len() == folders.len()
    &&& forall|i: int|
        0 <= i < entries.len() ==> is_folder_entry(
            #[trigger] entries[i],
            cache,
            folders[i],
            hits_below(cache, path_key(folders[i].path@)),
        )
}

/// The files that are shown directly in a folder; none where only folders are wanted.
pub open spec fn shown_indices(
    cache: DeletedBrowseCache,
    key: Seq<char>,
    request: BrowseSourceRequest,
) -> Seq<usize> {
    if request.directories_only == Some(true) {
        seq![]
    } else {
        list_at(cache.direct_artifact_indices_by_folder@, key)
    }
}

/// The deleted files of a listing: all that were asked for are counted, one page is shown.
pub open spec fn deleted_page_ok(
    listing: SourceDirectoryListing,
    results: Seq<ArtifactRecord>,
    chosen: Seq<usize>,
    request: BrowseSourceRequest,
) -> bool {
    let offset = page_offset(opt_view(request.deleted_cursor)) as int;
    let limit = page_size(request.limit) as int;
    &&& listing.deleted_artifact_count == chosen.len()
    &&& shows_page(
        listing.deleted_artifacts@,
        results,
        page_indices(results, chosen, offset, limit),
    )
    &&& opt_view(listing.deleted_artifact_next_cursor) == next_cursor(
        chosen.len() as int,
        offset,
        limit,
    )
}

/// A listing that holds deleted files only.
pub open spec fn is_bucket_listing(
    r: SourceDirectoryListing,
    source: ScanSource,
    cache: DeletedBrowseCache,
    path: Seq<char>,
    results: Seq<ArtifactRecord>,
    chosen: Seq<usize>,
    request: BrowseSourceRequest,
) -> bool {
    &&& r.source_id@ == source.id@
    &&& r.root_path@ == cache.root_path@
    &&& r.path@ == path
    &&& opt_view(r.parent_path) == Some(cache.root_path@)
    &&& r.entries@.len() == 0
    &&& r.total_entry_count == 0
    &&& r.next_cursor is None
    &&& r.indexing_complete
    &&& r.indexed_entries == 0
    &&& r.total_estimated_entries == Some(0u64)
    &&& r.index_generation == 1
    &&& r.deleted_subtree_count == chosen.len()
    &&& deleted_page_ok(r, results, chosen, request)
}

fn bucket_listing(
    source: &ScanSource,
    cache: &DeletedBrowseCache,
    path: String,
    results: &[ArtifactRecord],
    chosen: Vec<usize>,
    request: &BrowseSourceRequest,
) -> (r: SourceDirectoryListing)
    ensures
        is_bucket_listing(r, *source, *cache, path@, results@, chosen@, *request),
{
    let (deleted_artifacts, deleted_artifact_next_cursor) = deleted_artifact_page(
        results,
        &chosen,
        page_offset_of(&request.deleted_cursor),
        page_size_of(request.limit),
    );
    SourceDirectoryListing {
        source_id: source.id.clone(),
        root_path: cache.root_path.clone(),
        path,
        parent_path: Some(cache.root_path.clone()),
        entries: Vec::new(),
        deleted_artifacts,
        total_entry_count: 0,
        deleted_artifact_count: chosen.len(),
        next_cursor: None,
        deleted_artifact_next_cursor,
        indexing_complete: true,
        indexed_entries: 0,
        total_estimated_entries: Some(0),
        index_generation: 1,
        deleted_subtree_count: chosen.len(),
    }
}

/// The files without a place.
pub fn build_unknown_deleted_listing(
    source: &ScanSource,
    deleted_cache: &DeletedBrowseCache,
    results: &[ArtifactRecord],
    request: &BrowseSourceRequest,
) -> (r: SourceDirectoryListing)
    requires
        deleted_cache.wf(),
    ensures
        exists|chosen: Seq<usize>| #[trigger]
            requested(
                chosen,
                results@,
                deleted_cache.unknown_artifact_indices@,
                deleted_cache.unknown_artifact_indices_by_extension@,
                deleted_cache.unknown_artifact_indices_by_extension.entries@.len() as int,
                *request,
            ) && is_bucket_listing(
                r,
                *source,
                *deleted_cache,
                unknown_bucket(source.id@),
                results@,
                chosen,
                *request,
            ),
{
    let chosen = deleted_indices_for_request(
        results,
        deleted_cache.unknown_artifact_indices.as_slice(),
        &deleted_cache.unknown_artifact_indices_by_extension,
        request,
    );
    bucket_listing(
        source,
        deleted_cache,
        unknown_bucket_path_for_source(source.id.as_str()),
        results,
        chosen,
        request,
    )
}

/// The files with a probable place elsewhere.
pub fn build_probable_deleted_listing(
    source: &ScanSource,
    deleted_cache: &DeletedBrowseCache,
    results: &[ArtifactRecord],
    request: &BrowseSourceRequest,
) -> (r: SourceDirectoryListing)
    requires
        deleted_cache.wf(),
    ensures
        exists|chosen: Seq<usize>| #[trigger]
            requested(
                chosen,
                results@,
                deleted_cache.probable_artifact_indices@,
                deleted_cache.probable_artifact_indices_by_extension@,
                deleted_cache.probable_artifact_indices_by_extension.entries@.len() as int,
                *request,
            ) && is_bucket_listing(
                r,
                *source,
                *deleted_cache,
                probable_bucket(source.id@),
                results@,
                chosen,
                *request,
            ),
{
    let chosen = deleted_indices_for_request(
        results,
        deleted_cache.probable_artifact_indices.as_slice(),
        &deleted_cache.probable_artifact_indices_by_extension,
        request,
    );
    bucket_listing(
        source,
        deleted_cache,
        probable_bucket_path_for_source(source.id.as_str()),
        results,
        chosen,
        request,
    )
}

/// The entries of all given folders.
fn folder_entries(cache: &DeletedBrowseCache, folders: &[DeletedFolderNode]) -> (r: Vec<
    SourceEntry,
>)
    requires
        cache.wf(),
    ensures
        are_folder_entries(r@, *cache, folders@),
{
    let mut out: Vec<SourceEntry> = Vec::new();
    let mut i: usize = 0;
    while i < folders.len()
        invariant
            i <= folders@.len(),
            cache.wf(),
            are_folder_entries(out@, *cache, folders@.subrange(0, i as int)),
        decreases folders@.len() - i,
    {
        let key = normalize_browser_path(folders[i].path.as_str());
        let hits: usize = cache.subtree_deleted_counts.count(key.as_str());
        out.push(create_deleted_folder_entry(cache, &folders[i], hits));
        i += 1;
    }
    assert(folders@.subrange(0, i as int) =~= folders@);
    out
}

/// The files that are shown directly in a folder and that a request asks for.
fn direct_files(
    cache: &DeletedBrowseCache,
    key: &str,
    results: &[ArtifactRecord],
    request: &BrowseSourceRequest,
) -> (r: Vec<usize>)
    requires
        cache.wf(),
    ensures
        requested(
            r@,
            results@,
            shown_indices(*cache, key@, *request),
            Map::empty(),
            0,
            *request,
        ),
{
    let none: Table<Vec<usize>> = Table::new();
    let directories_only: bool = match request.directories_only {
        Some(b) => b,
        None => false,
    };
    let direct: &[usize] = if directories_only {
        &[]
    } else {
        cache.direct_artifact_indices_for_folder(key)
    };
    assert(direct@ =~= shown_indices(*cache, key@, *request));
    deleted_indices_for_request(results, direct, &none, request)
}

/// The listing of a folder that only deleted files have.
pub open spec fn is_synthetic_listing(
    r: SourceDirectoryListing,
    source: ScanSource,
    cache: DeletedBrowseCache,
    folder: DeletedFolderNode,
    key: Seq<char>,
    results: Seq<ArtifactRecord>,
    chosen: Seq<usize>,
    request: BrowseSourceRequest,
) -> bool {
    &&& r.source_id@ == source.id@
    &&& r.root_path@ == cache.root_path@
    &&& r.path@ == folder.path@
    &&& r.parent_path == folder.parent_path
    &&& are_folder_entries(r.entries@, cache, list_at(cache.route_folders_by_parent@, key))
    &&& r.total_entry_count == r.entries@.len()
    &&& r.next_cursor is None
    &&& r.indexing_complete
    &&& r.indexed_entries == r.entries@.len()
    &&& r.total_estimated_entries == Some(r.entries@.len() as u64)
    &&& r.index_generation == 1
    &&& r.deleted_subtree_count == hits_below(cache, key)
    &&& deleted_page_ok(r, results, chosen, request)
}

/// The listing of a folder that only deleted files have.
pub fn build_synthetic_deleted_listing(
    source: &ScanSource,
    deleted_cache: &DeletedBrowseCache,
    results: &[ArtifactRecord],
    request: &BrowseSourceRequest,
) -> (r: Result<SourceDirectoryListing, RssError>)
    requires
        deleted_cache.wf(),
    ensures
        match request.path {
            None => r matches Err(RssError::Message(m)) && m@
                == "Synthetic folder request is missing a path"@,
            Some(path) => {
                let key = path_key(path@);
                if deleted_cache.synthetic_folders@.contains_key(key) {
                    r matches Ok(listing) && exists|chosen: Seq<usize>| #[trigger]
                        requested(
                            chosen,
                            results@,
                            shown_indices(*deleted_cache, key, *request),
                            Map::empty(),
                            0,
                            *request,
                        ) && is_synthetic_listing(
                            listing,
                            *source,
                            *deleted_cache,
                            deleted_cache.synthetic_folders@[key],
                            key,
                            results@,
                            chosen,
                            *request,
                        )
                } else {
                    r matches Err(RssError::Message(m)) && m@ == "Synthetic folder "@ + path@
                        + " was not found"@
                }
            },
        },
{
    let requested_path = match &request.path {
        Some(path) => path,
        None => {
            return Err(RssError::Message(owned("Synthetic folder request is missing a path")));
        },
    };
    let key = normalize_browser_path(requested_path.as_str());
    let folder = match deleted_cache.synthetic_folders.get(key.as_str()) {
        Some(folder) => folder,
        None => {
            return Err(
                RssError::Message(
                    concat3("Synthetic folder ", requested_path.as_str(), " was not found"),
                ),
            );
        },
    };
    let entries = folder_entries(
        deleted_cache,
        deleted_cache.route_folders_by_parent.list(key.as_str()),
    );
    let chosen = direct_files(deleted_cache, key.as_str(), results, request);
    let (deleted_artifacts, deleted_artifact_next_cursor) = deleted_artifact_page(
        results,
        &chosen,
        page_offset_of(&request.deleted_cursor),
        page_size_of(request.limit),
    );
    let count: usize = entries.len();
    Ok(
        SourceDirectoryListing {
            source_id: source.id.clone(),
            root_path: deleted_cache.root_path.clone(),
            path: folder.path.clone(),
            parent_path: clone_opt(&folder.parent_path),
            entries,
            deleted_artifacts,
            total_entry_count: count,
            deleted_artifact_count: chosen.len(),
            next_cursor: None,
            deleted_artifact_next_cursor,
            indexing_complete: true,
            indexed_entries: count as u64,
            total_estimated_entries: Some(count as u64),
            index_generation: 1,
            deleted_subtree_count: deleted_cache.subtree_deleted_counts.count(key.as_str()),
        },
    )
}

/// The folder entries that deleted files add to the listing of a live folder: the folders on the
/// way to deleted files that no live folder stands for, and at the root the two collecting folders.
pub open spec fn are_added_entries(
    added: Seq<SourceEntry>,
    source: ScanSource,
    cache: DeletedBrowseCache,
    listed: Seq<SourceEntry>,
    path: Seq<char>,
) -> bool {
    let route = list_at(cache.route_folders_by_parent@, path_key(path));
    let live = live_keys(listed);
    let folders = fresh_folders(route, live);
    let n = folders.len() as int;
    let at_root = path == cache.root_path@;
    let unknown_key = path_key(unknown_bucket(source.id@));
    let probable_key = path_key(probable_bucket(source.id@));
    let unknown_taken = live.contains(unknown_key) || list_has(route, unknown_key);
    let with_unknown = at_root && cache.unknown_artifact_indices@.len() > 0 && !unknown_taken;
    let probable_taken = live.contains(probable_key) || list_has(route, probable_key) || (
    with_unknown && probable_key == unknown_key);
    let with_probable = at_root && cache.probable_artifact_indices@.len() > 0 && !probable_taken;
    let u: int = if with_unknown {
        1
    } else {
        0
    };
    let p: int = if with_probable {
        1
    } else {
        0
    };
    &&& added.len() == n + u + p
    &&& are_folder_entries(added.subrange(0, n), cache, folders)
    &&& with_unknown ==> is_unknown_entry(added[n], source, cache)
    &&& with_probable ==> is_probable_entry(added[n + u], source, cache)
}

/// The sum of two counts, at most `usize::MAX`.
pub open spec fn capped_sum(a: usize, b: usize) -> usize {
    if a + b > usize::MAX {
        usize::MAX
    } else {
        (a + b) as usize
    }
}

/// A live listing with the deleted files of its folder.
pub open spec fn is_augmented(
    after: SourceDirectoryListing,
    before: SourceDirectoryListing,
    source: ScanSource,
    cache: DeletedBrowseCache,
    results: Seq<ArtifactRecord>,
    chosen: Seq<usize>,
    request: BrowseSourceRequest,
) -> bool {
    let n = before.entries@.len() as int;
    &&& after.source_id == before.source_id
    &&& after.root_path == before.root_path
    &&& after.path == before.path
    &&& after.parent_path == before.parent_path
    &&& after.total_entry_count == before.total_entry_count
    &&& after.next_cursor == before.next_cursor
    &&& after.indexing_complete == before.indexing_complete
    &&& after.indexed_entries == before.indexed_entries
    &&& after.total_estimated_entries == before.total_estimated_entries
    &&& after.index_generation == before.index_generation
    &&& after.entries@.len() >= n
    &&& forall|i: int|
        0 <= i < n ==> #[trigger] after.entries@[i] == with_hits(before.entries@[i], cache, source)
    &&& are_added_entries(
        after.entries@.subrange(n, after.entries@.len() as int),
        source,
        cache,
        before.entries@,
        before.path@,
    )
    &&& after.deleted_subtree_count == capped_sum(
        hits_below(cache, path_key(before.path@)),
        if before.path@ == cache.root_path@ {
            cache.unknown_artifact_indices@.len() as usize
        } else {
            0
        },
    )
    &&& deleted_page_ok(after, results, chosen, request)
}

/// The keys of the live folders of a listing.
fn live_folder_keys(entries: &Vec<SourceEntry>) -> (r: Vec<String>)
    ensures
        forall|k: Seq<char>|
            views(r@).contains(k) <==> #[trigger] live_keys(entries@).contains(k),
{
    let mut keys: Vec<String> = Vec::new();
    let mut i: usize = 0;
    while i < entries.len()
        invariant
            i <= entries@.len(),
            forall|k: Seq<char>| #[trigger]
                views(keys@).contains(k) <==> exists|j: int|
                    0 <= j < i && represents_route(#[trigger] entries@[j]) && path_key(
                        entries@[j].path@,
                    ) == k,
        decreases entries@.len() - i,
    {
        let ghost before = keys@;
        if entry_represents_deleted_folder_route(&entries[i]) {
            let key = normalize_browser_path(entries[i].path.as_str());
            keys.push(key);
            assert forall|k: Seq<char>| #[trigger]
                views(keys@).contains(k) <==> exists|j: int|
                    0 <= j < i + 1 && represents_route(#[trigger] entries@[j]) && path_key(
                        entries@[j].path@,
                    ) == k by {
                assert(views(keys@) =~= views(before).push(key@));
                if views(keys@).contains(k) {
                    let m = choose|m: int| 0 <= m < views(keys@).len() && views(keys@)[m] == k;
                    if m < views(before).len() {
                        assert(views(before)[m] == k);
                        assert(views(before).contains(k));
                    } else {
                        assert(represents_route(entries@[i as int]));
                    }
                }
                if exists|j: int|
                    0 <= j < i + 1 && represents_route(#[trigger] entries@[j]) && path_key(
                        entries@[j].path@,
                    ) == k {
                    let j = choose|j: int|
                        0 <= j < i + 1 && represents_route(#[trigger] entries@[j]) && path_key(
                            entries@[j].path@,
                        ) == k;
                    if j < i {
                        assert(views(before).contains(k));
                        let m = choose|m: int|
                            0 <= m < views(before).len() && views(before)[m] == k;
                        assert(views(keys@)[m] == k);
                    } else {
                        assert(views(keys@)[before.len() as int] == k);
                    }
                }
            }
        }
        i += 1;
    }
    keys
}

/// The folders that no live folder stands for, and all keys that are then taken.
fn fresh_entries(
    cache: &DeletedBrowseCache,
    route: &[DeletedFolderNode],
    live: Vec<String>,
    Ghost(known): Ghost<Set<Seq<char>>>,
) -> (r: (Vec<SourceEntry>, Vec<String>))
    requires
        cache.wf(),
        forall|k: Seq<char>| views(live@).contains(k) <==> #[trigger] known.contains(k),
    ensures
        are_folder_entries(r.0@, *cache, fresh_folders(route@, known)),
        forall|k: Seq<char>| #[trigger]
            views(r.1@).contains(k) <==> known.contains(k) || list_has(route@, k),
{
    let mut taken = live;
    let mut out: Vec<SourceEntry> = Vec::new();
    let mut i: usize = 0;
    while i < route.len()
        invariant
            i <= route@.len(),
            cache.wf(),
            are_folder_entries(
                out@,
                *cache,
                fresh_folders(route@.subrange(0, i as int), known),
            ),
            forall|k: Seq<char>| #[trigger]
                views(taken@).contains(k) <==> known.contains(k) || list_has(
                    route@.subrange(0, i as int),
                    k,
                ),
        decreases route@.len() - i,
    {
        let ghost front = route@.subrange(0, i as int);
        let ghost now = route@.subrange(0, i + 1);
        let ghost before = taken@;
        proof {
            assert(now.drop_last() =~= front);
            assert(now.last() == route@[i as int]);
        }
        let key = normalize_browser_path(route[i].path.as_str());
        if !contains_string(&taken, key.as_str()) {
            let hits: usize = cache.subtree_deleted_counts.count(key.as_str());
            out.push(create_deleted_folder_entry(cache, &route[i], hits));
            taken.push(key.clone());
        }
        assert forall|k: Seq<char>| #[trigger]
            views(taken@).contains(k) <==> known.contains(k) || list_has(now, k) by {
            assert(list_has(now, k) <==> list_has(front, k) || k == key@) by {
                if list_has(front, k) {
                    let j = choose|j: int|
                        0 <= j < front.len() && path_key(#[trigger] front[j].path@) == k;
                    assert(path_key(now[j].path@) == k);
                }
                if list_has(now, k) {
                    let j = choose|j: int|
                        0 <= j < now.len() && path_key(#[trigger] now[j].path@) == k;
                    if j < front.len() {
                        assert(path_key(front[j].path@) == k);
                    }
                }
                if k == key@ {
                    assert(path_key(now[i as int].path@) == k);
                }
            }
            if taken@ != before {
                assert(views(taken@) =~= views(before).push(key@));
                if views(before).contains(k) {
                    let m = choose|m: int| 0 <= m < views(before).len() && views(before)[m] == k;
                    assert(views(taken@)[m] == k);
                }
                if k == key@ {
                    assert(views(taken@)[before.len() as int] == k);
                }
                if views(taken@).contains(k) {
                    let m = choose|m: int| 0 <= m < views(taken@).len() && views(taken@)[m] == k;
                    if m < before.len() {
                        assert(views(before)[m] == k);
                    }
                }
            }
            assert(views(before).contains(k) <==> known.contains(k) || list_has(front, k));
        }
        i += 1;
    }
    assert(route@.subrange(0, i as int) =~= route@);
    (out, taken)
}

/// Adds to the listing of a live folder what was deleted there.
pub fn augment_listing_with_deleted(
    source: &ScanSource,
    deleted_cache: &DeletedBrowseCache,
    results: &[ArtifactRecord],
    request: &BrowseSourceRequest,
    listing: &mut SourceDirectoryListing,
)
    requires
        deleted_cache.wf(),
    ensures
        exists|chosen: Seq<usize>| #[trigger]
            requested(
                chosen,
                results@,
                shown_indices(*deleted_cache, path_key(old(listing).path@), *request),
                Map::empty(),
                0,
                *request,
            ) && is_augmented(
                *final(listing),
                *old(listing),
                *source,
                *deleted_cache,
                results@,
                chosen,
                *request,
            ),
{
    let key = normalize_browser_path(listing.path.as_str());
    let chosen = direct_files(deleted_cache, key.as_str(), results, request);
    let (deleted_artifacts, deleted_artifact_next_cursor) = deleted_artifact_page(
        results,
        &chosen,
        page_offset_of(&request.deleted_cursor),
        page_size_of(request.limit),
    );
    let live = live_folder_keys(&listing.entries);
    let ghost live_set = live_keys(listing.entries@);
    let n: usize = listing.entries.len();
    let mut i: usize = 0;
    while i < n
        invariant
            i <= n,
            n == old(listing).entries@.len(),
            deleted_cache.wf(),
            *listing == (SourceDirectoryListing { entries: listing.entries, ..*old(listing) }),
            listing.entries@.len() == n,
            forall|j: int|
                0 <= j < i ==> #[trigger] listing.entries@[j] == with_hits(
                    old(listing).entries@[j],
                    *deleted_cache,
                    *source,
                ),
            forall|j: int|
                i <= j < n ==> #[trigger] listing.entries@[j] == old(listing).entries@[j],
        decreases n - i,
    {
        apply_deleted_hits_to_entry(&mut listing.entries[i], deleted_cache, source);
        i += 1;
    }
    let ghost listed = listing.entries@;
    let route = deleted_cache.route_folders_by_parent.list(key.as_str());
    let (mut added, mut taken) = fresh_entries(deleted_cache, route, live, Ghost(live_set));
    let ghost folders = fresh_folders(route@, live_set);
    let ghost folder_part = added@;
    let at_root: bool = *listing.path.as_str() == *deleted_cache.root_path.as_str();
    let mut unknown_hits: usize = 0;
    if at_root {
        unknown_hits = deleted_cache.unknown_artifact_indices.len();
        if deleted_cache.unknown_artifact_indices.len() > 0 {
            let entry = create_unknown_bucket_entry(source, deleted_cache);
            let entry_key = normalize_browser_path(entry.path.as_str());
            if !contains_string(&taken, entry_key.as_str()) {
                let ghost before = taken@;
                taken.push(entry_key.clone());
                added.push(entry);
                proof {
                    assert(views(taken@) =~= views(before).push(entry_key@));
                    let pk = path_key(probable_bucket(source.id@));
                    if views(before).contains(pk) {
                        let m = choose|m: int|
                            0 <= m < views(before).len() && views(before)[m] == pk;
                        assert(views(taken@)[m] == pk);
                    }
                    if pk == entry_key@ {
                        assert(views(taken@)[before.len() as int] == pk);
                    }
                    if views(taken@).contains(pk) {
                        let m = choose|m: int|
                            0 <= m < views(taken@).len() && views(taken@)[m] == pk;
                        if m < before.len() {
                            assert(views(before)[m] == pk);
                        }
                    }
                }
            }
        }
        if deleted_cache.probable_artifact_indices.len() > 0 {
            let entry = create_probable_bucket_entry(source, deleted_cache);
            let entry_key = normalize_browser_path(entry.path.as_str());
            if !contains_string(&taken, entry_key.as_str()) {
                added.push(entry);
            }
        }
    }
    proof {
        assert(added@.subrange(0, folders.len() as int) =~= folder_part);
        assert(are_added_entries(
            added@,
            *source,
            *deleted_cache,
            old(listing).entries@,
            old(listing).path@,
        ));
    }
    let ghost all_added = added@;
    listing.entries.append(&mut added);
    assert(listing.entries@ =~= listed + all_added);
    assert(listing.entries@.subrange(n as int, listing.entries@.len() as int) =~= all_added);
    listing.deleted_artifacts = deleted_artifacts;
    listing.deleted_artifact_count = chosen.len();
    listing.deleted_artifact_next_cursor = deleted_artifact_next_cursor;
    listing.deleted_subtree_count = deleted_cache.subtree_deleted_counts.count(
        key.as_str(),
    ).saturating_add(unknown_hits);
    assert(is_augmented(
        *listing,
        *old(listing),
        *source,
        *deleted_cache,
        results@,
        chosen@,
        *request,
    ));
}

} // verus!
