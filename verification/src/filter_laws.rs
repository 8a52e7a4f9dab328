//! Which files a listing shows: what a filter lets through, which page is shown, and what is
//! added to the files that are still there.

use crate::browse_cache::{DeletedBrowseCache, DeletedFolderNode};
use crate::browse_listing::{
    deleted_page_ok, filter_extension, filtered, index_passes, is_augmented, is_folder_entry,
    is_probable_entry, is_unknown_entry, page_indices, passes, shown_indices, with_hits,
};
use crate::browse_paths::{path_key, probable_bucket, unknown_bucket};
use crate::bytes::{occurs_at, occurs_in};
use crate::entries::{
    can_navigate, class_of, display_path, file_extension, listed_entry, parent_shown,
    requested_path, shown_entries, MetadataReply,
};
use crate::entry_laws::lemma_attribute_bits;
use crate::kinds::kind_label;
use crate::model::{
    ArtifactRecord, BrowseSourceRequest, ScanSource, SourceAccessState, SourceDirectoryListing,
    SourceEntry,
};
use crate::pages::{page_end, page_offset, page_size, page_start};
use crate::seqs::{kept, lemma_kept_complete, lemma_kept_sound};
use crate::table::{count_at, list_at};
use crate::text::{
    ascii_lower, is_char, lemma_drop_front, lemma_last_index, lower_char, opt_view, trimmed,
};
use vstd::prelude::*;
use vstd::string::*;

verus! {

// ---------------------------------------------------------------------------
// Filters.

/// `f` stands in `s`, letter case aside.
pub open spec fn shows_text(s: Seq<char>, f: Seq<char>) -> bool {
    exists|at: int| #[trigger] shows_text_at(s, f, at)
}

/// `f` stands in `s` at a place, letter case aside.
pub open spec fn shows_text_at(s: Seq<char>, f: Seq<char>, at: int) -> bool {
    0 <= at && at + f.len() <= s.len() && forall|k: int|
        0 <= k < f.len() ==> lower_char(s[at + k]) == #[trigger] f[k]
}

proof fn lemma_shows_text(s: Seq<char>, f: Seq<char>)
    ensures
        shows_text(s, f) <==> occurs_in(ascii_lower(s), f),
{
    let low = ascii_lower(s);
    if shows_text(s, f) {
        let at = choose|at: int| #[trigger] shows_text_at(s, f, at);
        assert(low.subrange(at, at + f.len()) =~= f);
        assert(occurs_at(low, f, at));
    }
    if occurs_in(low, f) {
        let at = choose|at: int| occurs_at(low, f, at);
        assert forall|k: int| 0 <= k < f.len() implies lower_char(s[at + k]) == #[trigger] f[k] by {
            assert(low.subrange(at, at + f.len())[k] == f[k]);
        }
        assert(shows_text_at(s, f, at));
    }
}

/// A file passes a filter that stands in its name, in one of its paths, in one of its times or in
/// the name of its kind, or that is its extension; no other file does.
pub proof fn lemma_filters_look_at_names_paths_and_times(a: ArtifactRecord, f: Seq<char>)
    requires
        f.len() > 0,
        f[0] != '.',
    ensures
        passes(a, f) <==> {
            ||| shows_text(a.name@, f)
            ||| (a.extension matches Some(e) && ascii_lower(e@) == ascii_lower(f))
            ||| occurs_in(kind_label(a.kind), f)
            ||| (a.original_path matches Some(p) && shows_text(p@, f))
            ||| (a.probable_path matches Some(p) && shows_text(p@, f))
            ||| (a.created_at matches Some(t) && shows_text(t@, f))
            ||| (a.modified_at matches Some(t) && shows_text(t@, f))
            ||| (a.deleted_at matches Some(t) && shows_text(t@, f))
            ||| (a.last_metadata_change_at matches Some(t) && shows_text(t@, f))
        },
{
    lemma_drop_front(f, is_char('.'), 0);
    assert(f.subrange(0, f.len() as int) =~= f);
    lemma_shows_text(a.name@, f);
    if let Some(p) = a.original_path {
        lemma_shows_text(p@, f);
    }
    if let Some(p) = a.probable_path {
        lemma_shows_text(p@, f);
    }
    if let Some(t) = a.created_at {
        lemma_shows_text(t@, f);
    }
    if let Some(t) = a.modified_at {
        lemma_shows_text(t@, f);
    }
    if let Some(t) = a.deleted_at {
        lemma_shows_text(t@, f);
    }
    if let Some(t) = a.last_metadata_change_at {
        lemma_shows_text(t@, f);
    }
}

/// Without a filter, or with a blank one, a listing shows all of its files; with one, it shows
/// exactly those that pass, unless files are listed under the filter as an extension.
pub proof fn lemma_listings_show_what_passes(
    results: Seq<ArtifactRecord>,
    indices: Seq<usize>,
    by_extension: Map<Seq<char>, Vec<usize>>,
    lists: int,
    filter: Seq<char>,
    index: usize,
)
    ensures
        filtered(results, indices, by_extension, lists, None) == indices,
        trimmed(filter).len() == 0 ==> filtered(
            results,
            indices,
            by_extension,
            lists,
            Some(filter),
        ) == indices,
        trimmed(filter).len() > 0 && (filter_extension(ascii_lower(trimmed(filter))) is None
            || !by_extension.contains_key(filter_extension(ascii_lower(trimmed(filter)))->0)) ==> (
        filtered(results, indices, by_extension, lists, Some(filter)).contains(index)
            <==> indices.contains(index) && index < results.len() && passes(
            results[index as int],
            ascii_lower(trimmed(filter)),
        )),
{
    if trimmed(filter).len() > 0 {
        let f = ascii_lower(trimmed(filter));
        let test = index_passes(results, f);
        lemma_kept_sound(indices, test);
        let list = kept(indices, test);
        if list.contains(index) {
            let k = choose|k: int| 0 <= k < list.len() && list[k] == index;
            assert(test(list[k]));
        }
        if indices.contains(index) && test(index) {
            let k = choose|k: int| 0 <= k < indices.len() && indices[k] == index;
            lemma_kept_complete(indices, test, k);
        }
    }
}

/// Files that are listed under the filter as an extension are shown where they belong to the
/// listing.
pub proof fn lemma_listings_show_files_of_an_extension(
    results: Seq<ArtifactRecord>,
    indices: Seq<usize>,
    by_extension: Map<Seq<char>, Vec<usize>>,
    lists: int,
    filter: Seq<char>,
    ext: Seq<char>,
    index: usize,
)
    requires
        trimmed(filter).len() > 0,
        filter_extension(ascii_lower(trimmed(filter))) == Some(ext),
        by_extension.contains_key(ext),
    ensures
        filtered(results, indices, by_extension, lists, Some(filter)).contains(index)
            <==> by_extension[ext]@.contains(index) && (lists == 1 || indices.contains(index)),
{
    let test = |i: usize| indices.contains(i) || lists == 1;
    let all = by_extension[ext]@;
    lemma_kept_sound(all, test);
    let list = kept(all, test);
    if list.contains(index) {
        let k = choose|k: int| 0 <= k < list.len() && list[k] == index;
        assert(test(list[k]));
    }
    if all.contains(index) && test(index) {
        let k = choose|k: int| 0 <= k < all.len() && all[k] == index;
        lemma_kept_complete(all, test, k);
    }
}

proof fn lemma_word_is_trimmed(s: Seq<char>)
    requires
        s.len() > 0,
        !crate::text::is_white(s[0]),
        !crate::text::is_white(s.last()),
    ensures
        trimmed(s) == s,
{
    let white = |c: char| crate::text::is_white(c);
    lemma_drop_front(s, white, 0);
    assert(s.subrange(0, s.len() as int) =~= s);
    crate::text::lemma_drop_back(s, white, s.len() as int);
}

/// A word of letters, digits and underscores, of sixteen characters at most, is an extension,
/// with or without a dot in front; one with another character in it is none.
pub proof fn lemma_words_are_extensions(word: Seq<char>)
    requires
        1 <= word.len() <= 16,
        forall|i: int|
            0 <= i < word.len() ==> ('a' <= #[trigger] word[i] <= 'z') || ('0' <= word[i] <= '9')
                || word[i] == '_',
    ensures
        filter_extension(word) == Some(word),
        filter_extension(seq!['.'] + word) == Some(word),
        filter_extension(word + seq!['-'] + word) is None,
        filter_extension(word + seq!['.'] + word) is None,
{
    assert(ascii_lower(word) =~= word);
    lemma_word_is_trimmed(word);
    let dotted = seq!['.'] + word;
    assert(dotted.last() == word.last());
    lemma_word_is_trimmed(dotted);
    assert(dotted.subrange(1, dotted.len() as int) =~= word);
    let dashed = word + seq!['-'] + word;
    assert(dashed[0] == word[0] && dashed.last() == word.last());
    lemma_word_is_trimmed(dashed);
    assert(dashed[word.len() as int] == '-');
    let split = word + seq!['.'] + word;
    assert(split[0] == word[0] && split.last() == word.last());
    lemma_word_is_trimmed(split);
    assert(split[word.len() as int] == '.');
}

// ---------------------------------------------------------------------------
// Pages.

proof fn lemma_all_kept(s: Seq<usize>, f: spec_fn(usize) -> bool)
    requires
        forall|i: int| 0 <= i < s.len() ==> f(#[trigger] s[i]),
    ensures
        kept(s, f) == s,
    decreases s.len(),
{
    if s.len() > 0 {
        let t = s.drop_last();
        assert forall|i: int| 0 <= i < t.len() implies f(#[trigger] t[i]) by {
            assert(t[i] == s[i]);
        }
        lemma_all_kept(t, f);
        assert(f(s[s.len() - 1]));
        assert(t.push(s.last()) =~= s);
    } else {
        assert(kept(s, f) =~= s);
    }
}

/// A page of deleted files shows the files from its start on, one behind the other, and counts
/// them all.
pub proof fn lemma_deleted_pages_follow_the_files(
    listing: SourceDirectoryListing,
    results: Seq<ArtifactRecord>,
    chosen: Seq<usize>,
    request: BrowseSourceRequest,
    k: int,
)
    requires
        deleted_page_ok(listing, results, chosen, request),
        forall|i: int| 0 <= i < chosen.len() ==> #[trigger] chosen[i] < results.len(),
        0 <= k < listing.deleted_artifacts@.len(),
    ensures
        ({
            let start = page_start(
                chosen.len() as int,
                page_offset(opt_view(request.deleted_cursor)) as int,
            );
            &&& start + k < chosen.len()
            &&& listing.deleted_artifacts@[k].id == results[chosen[start + k] as int].id
            &&& listing.deleted_artifacts@[k].name == results[chosen[start + k] as int].name
            &&& listing.deleted_artifacts@[k].size == results[chosen[start + k] as int].size
        }),
        listing.deleted_artifact_count == chosen.len(),
        listing.deleted_artifacts@.len() <= page_size(request.limit),
        listing.deleted_artifact_next_cursor is None <==> page_end(
            chosen.len() as int,
            page_offset(opt_view(request.deleted_cursor)) as int,
            page_size(request.limit) as int,
        ) == chosen.len(),
{
    let total = chosen.len() as int;
    let offset = page_offset(opt_view(request.deleted_cursor)) as int;
    let limit = page_size(request.limit) as int;
    let (start, end) = (page_start(total, offset), page_end(total, offset, limit));
    let part = chosen.subrange(start, end);
    let test = |i: usize| i < results.len();
    assert forall|i: int| 0 <= i < part.len() implies test(#[trigger] part[i]) by {
        assert(part[i] == chosen[start + i]);
    }
    lemma_all_kept(part, test);
    assert(page_indices(results, chosen, offset, limit) == part);
    assert(part[k] == chosen[start + k]);
}

/// Where folders alone are asked for, no deleted files are shown.
pub proof fn lemma_folders_alone_show_no_files(
    cache: DeletedBrowseCache,
    key: Seq<char>,
    request: BrowseSourceRequest,
)
    ensures
        request.directories_only == Some(true) ==> shown_indices(cache, key, request).len() == 0,
        request.directories_only != Some(true) ==> shown_indices(cache, key, request) == list_at(
            cache.direct_artifact_indices_by_folder@,
            key,
        ),
{
}

// ---------------------------------------------------------------------------
// What is added to the files that are still there.

/// A deleted folder is shown as a folder under its own name and path, with the files below it
/// counted.
pub proof fn lemma_deleted_folders_are_shown(
    e: SourceEntry,
    cache: DeletedBrowseCache,
    folder: DeletedFolderNode,
    hits: usize,
)
    requires
        is_folder_entry(e, cache, folder, hits),
    ensures
        e.name@ == folder.name@,
        e.path@ == folder.path@,
        folder.parent_path matches Some(p) ==> e.parent_path@ == p@,
        e.is_directory && !e.is_metafile && e.size == 0,
        e.deleted_hits == hits,
        e.access_state is Unknown,
        e.has_children == Some(
            list_at(cache.synthetic_folders_by_parent@, path_key(folder.path@)).len() > 0,
        ),
{
}

/// Files without a place, and files with a probable place elsewhere, stand in a folder of their
/// own each, which counts them.
pub proof fn lemma_placeless_files_have_their_folder(
    u: SourceEntry,
    p: SourceEntry,
    source: ScanSource,
    cache: DeletedBrowseCache,
)
    requires
        is_unknown_entry(u, source, cache),
        is_probable_entry(p, source, cache),
    ensures
        u.path@ == unknown_bucket(source.id@),
        p.path@ == probable_bucket(source.id@),
        u.deleted_hits == cache.unknown_artifact_indices@.len() as usize,
        p.deleted_hits == cache.probable_artifact_indices@.len() as usize,
        u.parent_path@ == cache.root_path@ && p.parent_path@ == cache.root_path@,
        u.is_directory && p.is_directory,
        u.name@ == "Unknown"@,
        p.name@ == "Probable locations"@,
{
}

/// A live entry keeps what it shows; it counts the deleted files below it where it is a folder.
pub proof fn lemma_live_entries_count_deleted_files(
    e: SourceEntry,
    cache: DeletedBrowseCache,
    source: ScanSource,
)
    requires
        path_key(e.path@) != path_key(unknown_bucket(source.id@)),
    ensures
        ({
            let r = with_hits(e, cache, source);
            &&& r.name == e.name && r.path == e.path && r.parent_path == e.parent_path
            &&& r.size == e.size && r.is_directory == e.is_directory
            &&& r.extension == e.extension && r.access_state == e.access_state
            &&& r.created_at == e.created_at && r.modified_at == e.modified_at && r.accessed_at
                == e.accessed_at
            &&& r.hidden == e.hidden && r.system == e.system && r.read_only == e.read_only
            &&& r.mft_reference == e.mft_reference && r.parent_reference == e.parent_reference
            &&& !e.is_directory ==> r.deleted_hits == 0 && r.has_children == e.has_children
            &&& e.is_directory ==> r.deleted_hits == count_at(
                cache.subtree_deleted_counts@,
                path_key(e.path@),
            )
            &&& e.is_directory && list_at(
                cache.route_folders_by_parent@,
                path_key(e.path@),
            ).len() > 0 ==> r.has_children == Some(true)
        }),
{
}

/// A listing of live files keeps its files in front, each under its own name and path, and keeps
/// its place; what is added comes behind.
pub proof fn lemma_live_listings_keep_their_files(
    after: SourceDirectoryListing,
    before: SourceDirectoryListing,
    source: ScanSource,
    cache: DeletedBrowseCache,
    results: Seq<ArtifactRecord>,
    chosen: Seq<usize>,
    request: BrowseSourceRequest,
    i: int,
)
    requires
        is_augmented(after, before, source, cache, results, chosen, request),
        0 <= i < before.entries@.len(),
    ensures
        after.entries@.len() >= before.entries@.len(),
        after.entries@[i].name == before.entries@[i].name,
        after.entries@[i].path == before.entries@[i].path,
        after.entries@[i].size == before.entries@[i].size,
        after.entries@[i].is_directory == before.entries@[i].is_directory,
        after.path == before.path,
        after.source_id == before.source_id,
        after.root_path == before.root_path,
        after.parent_path == before.parent_path,
        after.next_cursor == before.next_cursor,
        after.total_entry_count == before.total_entry_count,
        after.deleted_artifact_count == chosen.len(),
        after.deleted_subtree_count >= count_at(
            cache.subtree_deleted_counts@,
            path_key(before.path@),
        ),
{
    assert(after.entries@[i] == with_hits(before.entries@[i], cache, source));
}

// ---------------------------------------------------------------------------
// Live entries.

/// Folders and files, and those of the file system itself, are told apart.
pub proof fn lemma_entries_are_of_four_classes(is_directory: bool, is_metafile: bool)
    ensures
        class_of(is_directory, is_metafile) is Directory <==> is_directory && !is_metafile,
        class_of(is_directory, is_metafile) is MetadataDirectory <==> is_directory && is_metafile,
        class_of(is_directory, is_metafile) is File <==> !is_directory && !is_metafile,
        class_of(is_directory, is_metafile) is MetadataFile <==> !is_directory && is_metafile,
{
}

/// Only a folder that can be read and is no link is gone into.
pub proof fn lemma_links_are_not_followed(
    is_directory: bool,
    attributes: u32,
    access_state: SourceAccessState,
)
    ensures
        can_navigate(is_directory, attributes, access_state) <==> is_directory
            && access_state is Readable && attributes / 0x400 % 2 == 0,
{
    lemma_attribute_bits(attributes);
}

/// The extension of a name is what follows its last dot, unless the name begins with it.
pub proof fn lemma_extensions_follow_the_last_dot(stem: Seq<char>, ext: Seq<char>)
    requires
        ext.len() > 0,
        forall|i: int| 0 <= i < ext.len() ==> #[trigger] ext[i] != '.',
    ensures
        stem.len() > 0 ==> file_extension(stem + seq!['.'] + ext) == Some(ext),
        file_extension(seq!['.'] + ext) is None,
        file_extension(ext) is None,
{
    reveal_strlit("..");
    let name = stem + seq!['.'] + ext;
    lemma_last_index(name, '.', stem.len() as int);
    assert(name.subrange(1int + stem.len(), name.len() as int) =~= ext);
    assert(name[name.len() - 1] == ext[ext.len() - 1]);
    assert(".."@[1] == '.');
    assert(".."@.len() == 2);
    if name == ".."@ {
        assert(name[1] == ".."@[1]);
    }
    let hidden = seq!['.'] + ext;
    lemma_last_index(hidden, '.', 0);
    lemma_last_index(ext, '.', -1);
}

/// An entry that could not be read shows its name and path, and that it could not be read.
pub proof fn lemma_unread_entries_say_so(
    file_name: Seq<char>,
    path: Seq<char>,
    parent: Seq<char>,
    is_directory: bool,
    denied: bool,
)
    ensures
        ({
            let r = listed_entry(
                file_name,
                path,
                parent,
                MetadataReply::Failed { is_directory, denied },
            );
            &&& r is None <==> trimmed(file_name).len() == 0
            &&& r matches Some(e) ==> {
                &&& e.name == trimmed(file_name)
                &&& e.path == display_path(path)
                &&& e.parent_path == parent
                &&& e.is_directory == is_directory
                &&& e.has_children == Some(false)
                &&& e.size == 0 && e.created_at is None && e.modified_at is None
                    && e.accessed_at is None && e.attr_bits is None
                &&& denied <==> e.access_state is Denied
                &&& !denied <==> e.access_state is Unknown
                &&& is_directory ==> e.extension is None
                &&& !is_directory ==> e.extension == file_extension(file_name)
            }
        }),
{
}

/// Where folders alone are asked for, folders alone are listed; else everything is.
pub proof fn lemma_folders_alone_are_listed(entries: Seq<SourceEntry>, directories_only: bool, i: int)
    requires
        0 <= i < entries.len(),
    ensures
        !directories_only || entries[i].is_directory ==> shown_entries(
            entries,
            directories_only,
        ).contains(entries[i]),
        forall|k: int|
            0 <= k < shown_entries(entries, directories_only).len() ==> entries.contains(
                #[trigger] shown_entries(entries, directories_only)[k],
            ) && (directories_only ==> shown_entries(entries, directories_only)[k].is_directory),
{
    let test = crate::entries::listed_kind(directories_only);
    lemma_kept_sound(entries, test);
    if test(entries[i]) {
        lemma_kept_complete(entries, test, i);
    }
}

/// Without a path, or with a blank one, the root is listed; the root has no folder above it.
pub proof fn lemma_roots_are_listed_by_default(
    path: Seq<char>,
    root: Seq<char>,
    parent: Option<Seq<char>>,
)
    ensures
        requested_path(None, root) == root,
        trimmed(path).len() == 0 ==> requested_path(Some(path), root) == root,
        trimmed(path).len() > 0 ==> requested_path(Some(path), root) == display_path(path),
        parent_shown(root, root, parent) is None,
        crate::entries::compare_key(path) != crate::entries::compare_key(root) ==> (
        parent matches Some(p) ==> display_path(p).len() > 0 ==> parent_shown(path, root, parent)
            == Some(display_path(p))),
{
}

/// To the files that are still there the deleted folders are added that are not among them, and
/// at the root a folder each for files without a place and files with a probable one, where there
/// are any.
pub proof fn lemma_deleted_folders_are_added(
    added: Seq<SourceEntry>,
    source: ScanSource,
    cache: DeletedBrowseCache,
    listed: Seq<SourceEntry>,
    path: Seq<char>,
    k: int,
)
    requires
        crate::browse_listing::are_added_entries(added, source, cache, listed, path),
    ensures
        ({
            let folders = crate::browse_listing::fresh_folders(
                list_at(cache.route_folders_by_parent@, path_key(path)),
                crate::browse_listing::live_keys(listed),
            );
            &&& folders.len() <= added.len() <= folders.len() + 2
            &&& path != cache.root_path@ ==> added.len() == folders.len()
            &&& cache.unknown_artifact_indices@.len() == 0
                && cache.probable_artifact_indices@.len() == 0 ==> added.len() == folders.len()
            &&& cache.unknown_artifact_indices@.len() == 0
                || cache.probable_artifact_indices@.len() == 0 ==> added.len() <= folders.len() + 1
            &&& 0 <= k < folders.len() ==> added[k].path@ == folders[k].path@ && added[k].name@
                == folders[k].name@ && added[k].is_directory
        }),
{
    let folders = crate::browse_listing::fresh_folders(
        list_at(cache.route_folders_by_parent@, path_key(path)),
        crate::browse_listing::live_keys(listed),
    );
    if 0 <= k < folders.len() {
        assert(added.subrange(0, folders.len() as int)[k] == added[k]);
    }
}

/// A listing counts all entries that it could show, and shows no more than a page of them.
pub proof fn lemma_listings_count_their_entries(
    r: SourceDirectoryListing,
    entries: Seq<SourceEntry>,
    cursor: Option<Seq<char>>,
    limit: Option<usize>,
    directories_only: bool,
)
    requires
        crate::entries::shows_entries(r, entries, cursor, limit, directories_only),
    ensures
        r.total_entry_count == shown_entries(entries, directories_only).len(),
        !directories_only ==> r.total_entry_count == entries.len(),
        r.entries@.len() <= page_size(limit),
        r.next_cursor is None <==> page_end(
            r.total_entry_count as int,
            page_offset(cursor) as int,
            page_size(limit) as int,
        ) == r.total_entry_count,
{
    let shown = shown_entries(entries, directories_only);
    let total = shown.len() as int;
    let (from, size) = (page_offset(cursor) as int, page_size(limit) as int);
    let (start, end) = (page_start(total, from), page_end(total, from, size));
    let sorted = choose|sorted: Seq<SourceEntry>| #[trigger]
        crate::sort::stable_sorted(shown, sorted, crate::entries::entry_order()) && r.entries@
            == sorted.subrange(start, end);
    crate::entries::lemma_entry_order();
    crate::sort::lemma_stable_sorted_keeps_items(shown, sorted, crate::entries::entry_order());
    if !directories_only {
        lemma_every_entry_is_shown(entries);
    }
}

proof fn lemma_every_entry_is_shown(entries: Seq<SourceEntry>)
    ensures
        shown_entries(entries, false).len() == entries.len(),
    decreases entries.len(),
{
    if entries.len() > 0 {
        lemma_every_entry_is_shown(entries.drop_last());
    }
}

} // verus!
