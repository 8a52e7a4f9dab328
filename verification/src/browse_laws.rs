//! What browsing a volume shows, told of its files, their names and their paths.

use crate::browse_cache::{
    candidate_indices, kind_extension, listed_extension, locates, placed_path,
    DeletedArtifactLocator,
};
use crate::browse_paths::{
    ancestors, byte_length, canonical, char_split, child_on_route, folder_chain, is_ascii_text,
    last_component, parent_dir, path_key, within_root,
};
use crate::catalog::{NtfsFileFacts, PendingView};
use crate::clock::time_text;
use crate::entries::{child_path, file_extension};
use crate::entry_laws::lemma_attribute_bits;
use crate::kind_laws::lemma_extensions_stand_for_kinds;
use crate::kinds::extension_kind;
use crate::model::{ArtifactKind, ArtifactRecord};
use crate::ntfs_browse::{
    browse_entry, climb, climb_limit, files_in, first_named, found_path, laid_out, shown_file,
    with_batch_of_files, with_files, with_path, BrowseIndexView,
};
use crate::ntfs_paths::ROOT_RECORD;
use crate::text::{ascii_lower, lemma_first_index, lemma_last_index, lower_char};
use vstd::prelude::*;
use vstd::string::*;
use vstd::utf8::{is_ascii_chars, is_ascii_chars_encode_utf8};

verus! {

// ---------------------------------------------------------------------------
// The index of a mounted volume.

/// A record in use that has a name is browsed under its own name, in its own folder, with its
/// own size, times and attributes; any other is not browsed.
pub proof fn lemma_browsed_entries_show_the_record(f: NtfsFileFacts)
    ensures
        browse_entry(f) is Some <==> f.used && f.best_name is Some && (f.info_name@.len() > 0
            || f.best_name->0.name@.len() > 0),
        browse_entry(f) matches Some(e) ==> {
            let best = f.best_name->0;
            &&& e.record == f.record && e.parent_record == best.parent_record
            &&& f.info_name@.len() > 0 ==> e.name == f.info_name@
            &&& f.info_name@.len() == 0 ==> e.name == best.name@
            &&& e.is_directory == f.is_directory
            &&& e.size == f.info_size
            &&& f.is_directory ==> e.extension is None
            &&& !f.is_directory ==> (e.extension is Some <==> file_extension(e.name) is Some)
            &&& e.extension matches Some(x) ==> x == ascii_lower(file_extension(e.name)->0)
            &&& e.created_at == time_text(f.created)
            &&& e.modified_at == time_text(f.modified)
            &&& e.accessed_at == time_text(f.accessed)
            &&& e.hidden <==> best.attributes / 2 % 2 == 1
            &&& e.system <==> best.attributes / 4 % 2 == 1
            &&& e.read_only <==> best.attributes % 2 == 1
            &&& e.attr_bits == best.attributes
            &&& e.name.len() > 0 && e.name[0] == '$' ==> e.is_metafile
            &&& e.access_state is Readable
        },
{
    if let Some(best) = f.best_name {
        lemma_attribute_bits(best.attributes);
    }
}

/// The entry of a browsed file shows what is known of the file; folders have no size, and only
/// folders have files in them.
pub proof fn lemma_shown_files_show_what_is_known(
    file: PendingView,
    path: Seq<char>,
    parent: Seq<char>,
    has_files: bool,
)
    ensures
        ({
            let e = shown_file(file, path, parent, has_files);
            &&& e.name == file.name && e.path == path && e.parent_path == parent
            &&& e.mft_reference == Some(file.record)
            &&& e.parent_reference == Some(file.parent_record)
            &&& e.extension == file.extension
            &&& e.is_directory == file.is_directory
            &&& e.has_children == Some(file.is_directory && has_files)
            &&& e.is_metafile == file.is_metafile
            &&& file.is_directory ==> e.size == 0
            &&& !file.is_directory ==> e.size == file.size
            &&& e.created_at == file.created_at
            &&& e.modified_at == file.modified_at
            &&& e.accessed_at == file.accessed_at
            &&& e.hidden == file.hidden
            &&& e.system == file.system
            &&& e.read_only == file.read_only
            &&& e.attr_bits == Some(file.attr_bits)
            &&& e.deleted_hits == 0
            &&& e.access_state == file.access_state
        }),
{
}

/// A file that was read stands in its folder, and of two with one record the later is known.
pub proof fn lemma_read_files_stand_in_their_folder(
    v: BrowseIndexView,
    files: Seq<PendingView>,
    k: int,
)
    requires
        0 <= k < files.len(),
    ensures
        files_in(with_files(v, files).children, files[k].parent_record).contains(files[k].record),
        with_files(v, files).entries.contains_key(files[k].record),
        (forall|j: int| k < j < files.len() ==> (#[trigger] files[j]).record != files[k].record)
            ==> with_files(v, files).entries[files[k].record] == files[k],
        with_files(v, files).root == v.root && with_files(v, files).paths == v.paths,
    decreases files.len(),
{
    let front = files.drop_last();
    let before = with_files(v, front);
    let last = files.last();
    let list = files_in(before.children, last.parent_record);
    let grown = list.push(last.record);
    lemma_reading_files_keeps_paths(v, front);
    if k < front.len() {
        lemma_read_files_stand_in_their_folder(v, front, k);
        assert(front[k] == files[k]);
        let there = files_in(before.children, files[k].parent_record);
        let at = choose|at: int| 0 <= at < there.len() && there[at] == files[k].record;
        if files[k].parent_record == last.parent_record {
            assert(grown[at] == files[k].record);
        }
        if forall|j: int| k < j < files.len() ==> (#[trigger] files[j]).record
            != files[k].record {
            assert forall|j: int| k < j < front.len() implies (#[trigger] front[j]).record
                != front[k].record by {
                assert(front[j] == files[j]);
            }
            assert(files[files.len() - 1].record != files[k].record);
        }
    } else {
        assert(grown[list.len() as int] == last.record);
    }
}

proof fn lemma_reading_files_keeps_paths(v: BrowseIndexView, files: Seq<PendingView>)
    ensures
        with_files(v, files).root == v.root,
        with_files(v, files).paths == v.paths,
        with_files(v, files).indexed_entries == v.indexed_entries,
        with_files(v, files).generation == v.generation,
    decreases files.len(),
{
    if files.len() > 0 {
        lemma_reading_files_keeps_paths(v, files.drop_last());
    }
}

/// Reading some files counts them, and makes a new generation of the index; reading none changes
/// nothing.
pub proof fn lemma_read_files_are_counted(v: BrowseIndexView, files: Seq<PendingView>)
    requires
        v.indexed_entries + files.len() <= u64::MAX,
        v.generation < u64::MAX,
    ensures
        with_batch_of_files(v, files).indexed_entries == v.indexed_entries + files.len(),
        files.len() > 0 ==> with_batch_of_files(v, files).generation == v.generation + 1,
        files.len() == 0 ==> with_batch_of_files(v, files) == v,
{
}

/// The file with a name in a folder is one of its files and has that name, letter case aside;
/// where none is found, no file of the folder has it.
pub proof fn lemma_named_file_has_the_name(
    entries: Map<u64, PendingView>,
    files: Seq<u64>,
    name: Seq<char>,
    from: int,
)
    requires
        0 <= from <= files.len(),
    ensures
        match first_named(entries, files, name, from) {
            Some(record) => files.contains(record) && entries.contains_key(record) && ascii_lower(
                entries[record].name,
            ) == ascii_lower(name),
            None => forall|i: int|
                from <= i < files.len() && entries.contains_key(files[i]) ==> ascii_lower(
                    entries[#[trigger] files[i]].name,
                ) != ascii_lower(name),
        },
    decreases files.len() - from,
{
    if from < files.len() {
        assert(files.contains(files[from]));
        lemma_named_file_has_the_name(entries, files, name, from + 1);
    }
}

/// A shorter way behind a climb leads on as a longer one does.
proof fn lemma_climb_without_its_start(
    entries: Map<u64, PendingView>,
    current: u64,
    done: Seq<u64>,
    less: Seq<u64>,
    limit: nat,
)
    requires
        less.len() <= done.len(),
        climb(entries, current, done, limit) is Ok,
    ensures
        climb(entries, current, less, limit) is Ok,
        ({
            let files = climb(entries, current, done, limit)->Ok_0;
            let fewer = climb(entries, current, less, limit)->Ok_0;
            &&& files.len() >= done.len()
            &&& files == done + files.subrange(done.len() as int, files.len() as int)
            &&& fewer == less + files.subrange(done.len() as int, files.len() as int)
        }),
    decreases limit + 1 - done.len(),
{
    if current == ROOT_RECORD {
        assert(done.subrange(done.len() as int, done.len() as int) =~= seq![]);
        assert(done =~= done + seq![]);
        assert(less =~= less + seq![]);
    } else {
        let next = entries[current].parent_record;
        lemma_climb_without_its_start(entries, next, done.push(current), less.push(current), limit);
        let files = climb(entries, current, done, limit)->Ok_0;
        let tail = files.subrange(1int + done.len(), files.len() as int);
        let whole = files.subrange(done.len() as int, files.len() as int);
        assert(files == done.push(current) + tail);
        assert(files[done.len() as int] == current);
        assert(whole =~= seq![current] + tail);
        assert(files =~= done + whole);
        assert(less.push(current) + tail =~= less + whole);
    }
}

/// The names on a way are put behind each other: the first file of it comes last.
proof fn lemma_laid_out_adds_a_name(
    v: BrowseIndexView,
    record: u64,
    files: Seq<u64>,
    path: Seq<char>,
)
    ensures
        laid_out(v, seq![record] + files, path).0 == child_path(
            laid_out(v, files, path).0,
            v.entries[record].name,
        ),
    decreases files.len(),
{
    let whole = seq![record] + files;
    if files.len() == 0 {
        assert(whole.last() == record);
        assert(whole.drop_last() =~= files);
        reveal_with_fuel(laid_out, 2);
    } else {
        let below = child_path(path, v.entries[files.last()].name);
        let after = with_path(v, files.last(), below);
        assert(whole.last() == files.last());
        assert(whole.drop_last() =~= seq![record] + files.drop_last());
        lemma_laid_out_adds_a_name(after, record, files.drop_last(), below);
    }
}

/// The path of a file is the path of the folder that it lies in, with its name behind it; a file
/// of the root lies directly below the path of the volume.
pub proof fn lemma_paths_go_by_folders(v: BrowseIndexView, record: u64)
    requires
        record != ROOT_RECORD,
        v.entries.contains_key(record),
        !v.paths.contains_key(record),
    ensures
        v.entries[record].parent_record == ROOT_RECORD ==> found_path(v, record).0 == Ok::<
            Seq<char>,
            Seq<char>,
        >(child_path(v.root, v.entries[record].name)),
        v.entries[record].parent_record != ROOT_RECORD && !v.paths.contains_key(
            v.entries[record].parent_record,
        ) && found_path(v, record).0 is Ok ==> found_path(
            v,
            v.entries[record].parent_record,
        ).0 is Ok && found_path(v, record).0->Ok_0 == child_path(
            found_path(v, v.entries[record].parent_record).0->Ok_0,
            v.entries[record].name,
        ),
{
    let limit = climb_limit(v.entries);
    let folder = v.entries[record].parent_record;
    let none: Seq<u64> = seq![];
    let one = none.push(record);
    assert(one =~= seq![record]);
    if folder == ROOT_RECORD {
        reveal_with_fuel(climb, 2);
        assert(climb(v.entries, record, none, limit) == climb(v.entries, folder, one, limit));
        lemma_laid_out_adds_a_name(v, record, none, v.root);
        assert(seq![record] + none =~= one);
    } else if found_path(v, record).0 is Ok && !v.paths.contains_key(folder) {
        assert(climb(v.entries, record, none, limit) == climb(v.entries, folder, one, limit));
        lemma_climb_without_its_start(v.entries, folder, one, none, limit);
        let files = climb(v.entries, folder, one, limit)->Ok_0;
        let rest = climb(v.entries, folder, none, limit)->Ok_0;
        assert(rest =~= files.subrange(1, files.len() as int));
        assert(files =~= seq![record] + rest);
        lemma_laid_out_adds_a_name(v, record, rest, v.root);
    }
}

// ---------------------------------------------------------------------------
// Paths.

/// A path of ASCII characters with backslashes alone.
pub open spec fn plain_path(s: Seq<char>) -> bool {
    forall|i: int| 0 <= i < s.len() ==> (#[trigger] s[i]) as u32 <= 0x7f && s[i] != '/'
}

/// A name of ASCII characters.
pub open spec fn plain_name(s: Seq<char>) -> bool {
    s.len() > 0 && plain_path(s) && forall|i: int| 0 <= i < s.len() ==> #[trigger] s[i] != '\\'
}

proof fn lemma_ascii_char(c: char)
    requires
        c as u32 <= 0x7f,
    ensures
        '\0' <= c <= '\u{7f}',
{
}

proof fn lemma_ascii_lengths(s: Seq<char>)
    requires
        is_ascii_text(s),
    ensures
        byte_length(s) == s.len(),
{
    assert forall|i: int| 0 <= i < s.len() implies '\0' <= #[trigger] s[i] <= '\u{7f}' by {
        lemma_ascii_char(s[i]);
    }
    assert(is_ascii_chars(s));
    is_ascii_chars_encode_utf8(s);
}

proof fn lemma_plain_path(s: Seq<char>)
    requires
        plain_path(s),
    ensures
        canonical(s) == s,
        path_key(s) == ascii_lower(s),
        byte_length(s) == s.len(),
        byte_length(ascii_lower(s)) == s.len(),
        plain_path(ascii_lower(s)),
{
    assert(canonical(s) =~= s);
    assert(is_ascii_text(s));
    lemma_ascii_lengths(s);
    let low = ascii_lower(s);
    assert forall|i: int| 0 <= i < low.len() implies (#[trigger] low[i]) as u32 <= 0x7f && low[i]
        != '/' by {
        assert(s[i] as u32 <= 0x7f && s[i] != '/');
        assert(low[i] == lower_char(s[i]));
    }
    assert(is_ascii_text(low));
    lemma_ascii_lengths(low);
}

/// The folder of a path is what stands in front of its last separator, at the end the root; and
/// its name is what stands behind.
pub proof fn lemma_paths_part_into_folder_and_name(
    folder: Seq<char>,
    name: Seq<char>,
    root: Seq<char>,
)
    requires
        plain_path(folder),
        plain_path(root),
        plain_name(name),
        root.len() > 0,
    ensures
        root.len() <= folder.len() && folder.len() != 2 ==> parent_dir(
            folder + seq!['\\'] + name,
            root,
        ) == folder,
        root.last() == '\\' ==> parent_dir(root + name, root) == root,
        parent_dir(root, root) == root,
        last_component(folder + seq!['\\'] + name) == name,
        last_component(folder + seq!['\\'] + name + seq!['\\']) == name,
{
    let path = folder + seq!['\\'] + name;
    assert(plain_path(path));
    lemma_plain_path(path);
    lemma_plain_path(root);
    lemma_plain_path(folder);
    lemma_last_index(path, '\\', folder.len() as int);
    assert(path.subrange(0, folder.len() as int) =~= folder);
    assert(path.subrange(1int + folder.len(), path.len() as int) =~= name);
    if root.len() <= folder.len() && folder.len() != 2 {
        assert(ascii_lower(path).len() == path.len());
        assert(ascii_lower(root).len() == root.len());
    }
    if root.last() == '\\' {
        let top = root + name;
        assert(plain_path(top));
        lemma_plain_path(top);
        lemma_last_index(top, '\\', root.len() - 1);
        let up = root.drop_last();
        assert(top.subrange(0, root.len() - 1) =~= up);
        assert(plain_path(up));
        lemma_plain_path(up);
        assert(ascii_lower(top).len() != ascii_lower(root).len());
    }
    let closed = path + seq!['\\'];
    assert(path.last() == name.last());
    assert(closed.drop_last() =~= path);
    assert(closed.last() == '\\');
}

/// A path lies within a root when the root stands in front of it and a separator or nothing
/// follows, letter case aside.
pub proof fn lemma_paths_within_a_root_begin_with_it(path: Seq<char>, root: Seq<char>)
    requires
        plain_path(path),
        plain_path(root),
        root.len() > 0,
    ensures
        root.last() != '\\' ==> (within_root(path, root) <==> path.len() >= root.len()
            && ascii_lower(path.subrange(0, root.len() as int)) == ascii_lower(root) && (path.len()
            == root.len() || path[root.len() as int] == '\\')),
        root.last() == '\\' ==> (within_root(path, root) <==> path.len() >= root.len()
            && ascii_lower(path.subrange(0, root.len() as int)) == ascii_lower(root)),
{
    reveal_strlit("\\");
    lemma_plain_path(path);
    lemma_plain_path(root);
    let p = ascii_lower(path);
    let r = ascii_lower(root);
    let n = root.len() as int;
    assert(r.last() == lower_char(root.last()));
    assert("\\"@ =~= seq!['\\']);
    if path.len() >= n {
        assert(ascii_lower(path.subrange(0, n)) =~= p.subrange(0, n));
        if path.len() > n {
            assert(p[n] == lower_char(path[n]));
            let more = r + "\\"@;
            if more.is_prefix_of(p) {
                assert(p.subrange(0, 1 + n) =~= more);
                assert(p.subrange(0, n) =~= more.subrange(0, n));
                assert(more.subrange(0, n) =~= r);
                assert(p[n] == more[n]);
            }
            if p.subrange(0, n) == r && path[n] == '\\' {
                assert(p.subrange(0, 1 + n) =~= more);
            }
        } else {
            assert(p.subrange(0, n) =~= p);
        }
        if r.is_prefix_of(p) {
            assert(p.subrange(0, n) =~= r);
        }
    }
}

proof fn lemma_ascii_split(s: Seq<char>, bytes: int, from: int)
    requires
        is_ascii_text(s),
        0 <= from <= bytes <= s.len(),
    ensures
        char_split(s, bytes, from) == Some(bytes),
    decreases bytes - from,
{
    let head = s.subrange(0, from);
    assert(is_ascii_text(head));
    lemma_ascii_lengths(head);
    if from < bytes {
        lemma_ascii_split(s, bytes, from + 1);
    }
}

/// On the way from a folder down to a file comes first the folder whose name follows.
pub proof fn lemma_way_down_goes_name_by_name(
    folder: Seq<char>,
    name: Seq<char>,
    rest: Seq<char>,
)
    requires
        plain_path(folder),
        plain_name(name),
        plain_path(rest),
        folder.len() > 0,
        rest.len() > 0 ==> rest[0] == '\\',
    ensures
        child_on_route(folder, child_path(folder, name) + rest) == Some(child_path(folder, name)),
        child_on_route(folder, folder) is None,
{
    reveal_strlit("\\");
    assert("\\"@ =~= seq!['\\']);
    let below = child_path(folder, name);
    let d = below + rest;
    let at = below.len() - name.len();
    assert(at == folder.len() || at == folder.len() + 1);
    assert(plain_path(below));
    assert(plain_path(d));
    lemma_plain_path(folder);
    lemma_plain_path(d);
    assert(ascii_lower(folder).last() == lower_char(folder.last()));
    assert(ascii_lower(folder).len() != ascii_lower(d).len());
    lemma_paths_within_a_root_begin_with_it(d, folder);
    assert(d.subrange(0, folder.len() as int) =~= folder);
    lemma_ascii_split(d, at as int, 0);
    let tail = d.subrange(at as int, d.len() as int);
    assert(tail =~= name + rest);
    lemma_first_index(tail, '\\', name.len() as int);
    assert(d.subrange(0, at + name.len()) =~= below);
}

/// The folders above a file are its folder and the folders above that, up to the root.
pub proof fn lemma_folders_above_go_up(folder: Seq<char>, name: Seq<char>, root: Seq<char>)
    requires
        plain_path(folder),
        plain_path(root),
        plain_name(name),
        root.len() > 0,
        root.len() <= folder.len(),
        folder.len() != 2,
    ensures
        ascii_lower(folder) != ascii_lower(root) ==> ancestors(folder + seq!['\\'] + name, root)
            == (if parent_dir(folder, root) == folder {
            seq![folder]
        } else {
            seq![folder] + ancestors(folder, root)
        }),
        folder == root ==> ancestors(folder + seq!['\\'] + name, root) == seq![root],
        folder_chain(folder + seq!['\\'] + name, root) == folder_chain(folder, root).push(
            folder + seq!['\\'] + name,
        ),
{
    let path = folder + seq!['\\'] + name;
    assert(plain_path(path));
    lemma_plain_path(path);
    lemma_plain_path(root);
    lemma_plain_path(folder);
    lemma_paths_part_into_folder_and_name(folder, name, root);
    assert(ascii_lower(path).len() != ascii_lower(root).len());
    assert(path.len() != folder.len());
}

// ---------------------------------------------------------------------------
// Deleted files in the browser.

/// Deleted files of a file system, and they alone, are placed in the folder tree.
pub proof fn lemma_deleted_files_are_placed(results: Seq<ArtifactRecord>, n: int, i: int)
    requires
        0 <= n <= results.len(),
        0 <= i,
    ensures
        candidate_indices(results, n).contains(i) <==> i < n && results[i].deleted_entry && (
        results[i].origin_type is FilesystemDeletedEntry
            || results[i].origin_type is FilesystemOrphanedEntry),
    decreases n,
{
    if n > 0 {
        lemma_deleted_files_are_placed(results, n - 1, i);
        let front = candidate_indices(results, n - 1);
        let list = candidate_indices(results, n);
        if front.contains(i) && list.len() > front.len() {
            let k = choose|k: int| 0 <= k < front.len() && front[k] == i;
            assert(list[k] == i);
        }
        if list.len() > front.len() {
            assert(list[front.len() as int] == n - 1);
            if list.contains(i) && i != n - 1 {
                let k = choose|k: int| 0 <= k < list.len() && list[k] == i;
                assert(front[k] == i);
            }
        }
    }
}

/// A file is placed by the names of its own record.
pub proof fn lemma_locators_name_the_record(
    l: DeletedArtifactLocator,
    results: Seq<ArtifactRecord>,
    i: int,
)
    requires
        locates(l, results, i),
        0 <= i < results.len(),
    ensures
        l.result_index == i,
        l.name@ == results[i].name@,
        l.original_path == results[i].original_path,
        l.probable_path == results[i].probable_path,
        l.extension == results[i].extension,
        l.kind == results[i].kind,
{
}

/// A file is placed at its original path where that lies within the source, else at its probable
/// path where that does, else nowhere.
pub proof fn lemma_original_path_comes_first(l: DeletedArtifactLocator, root: Seq<char>)
    ensures
        placed_path(l, root) matches Some(p) ==> within_root(p, root),
        l.original_path matches Some(o) ==> within_root(o@, root) ==> placed_path(l, root) == Some(
            o@,
        ),
        placed_path(l, root) is None ==> (l.original_path matches Some(o) ==> !within_root(
            o@,
            root,
        )) && (l.probable_path matches Some(o) ==> !within_root(o@, root)),
        placed_path(l, root) matches Some(p) ==> (l.original_path matches Some(o) && p == o@) || (
        l.probable_path matches Some(o) && p == o@),
{
}

/// The extension of a kind is one that stands for the kind.
pub proof fn lemma_kinds_have_their_extension(kind: ArtifactKind)
    ensures
        kind_extension(kind) is None <==> kind is Unknown,
        !(kind is Unknown) && !(kind is Pe) && !(kind is OleCompound) ==> extension_kind(
            kind_extension(kind)->0,
        ) == Some(kind),
{
    lemma_extensions_stand_for_kinds();
}

/// A file is listed by its own extension without the dot and in lower case; by what follows the
/// last dot of its name where it has no extension of its own; and by its kind where it has
/// neither.
pub proof fn lemma_files_are_listed_by_extension(l: DeletedArtifactLocator, stem: Seq<char>, ext: Seq<
    char,
>)
    requires
        ext.len() > 0,
        forall|i: int| 0 <= i < ext.len() ==> #[trigger] ext[i] != '.',
    ensures
        l.extension matches Some(e) ==> e@ == ext || e@ == seq!['.'] + ext ==> listed_extension(l)
            == Some(ascii_lower(ext)),
        l.extension is None && l.name@ == stem + seq!['.'] + ext ==> listed_extension(l) == Some(
            ascii_lower(ext),
        ),
{
    crate::text::lemma_drop_front(ext, crate::text::is_char('.'), 0);
    assert(ext.subrange(0, ext.len() as int) =~= ext);
    let dotted = seq!['.'] + ext;
    crate::text::lemma_drop_front(dotted, crate::text::is_char('.'), 1);
    assert(dotted.subrange(1, dotted.len() as int) =~= ext);
    let name = stem + seq!['.'] + ext;
    lemma_last_index(name, '.', stem.len() as int);
    assert(name.subrange(1int + stem.len(), name.len() as int) =~= ext);
    let low = ascii_lower(ext);
    assert forall|i: int| 0 <= i < low.len() implies #[trigger] low[i] != '.' by {
        assert(ext[i] != '.');
        assert(low[i] == lower_char(ext[i]));
    }
    crate::text::lemma_drop_front(low, crate::text::is_char('.'), 0);
    assert(low.subrange(0, low.len() as int) =~= low);
    crate::text::lemma_ascii_lower_idempotent(ext);
}

/// The parts of a path are the names between its separators; empty ones are left out.
pub proof fn lemma_paths_part_at_separators(name: Seq<char>, rest: Seq<char>)
    requires
        name.len() > 0,
        forall|i: int| 0 <= i < name.len() ==> #[trigger] name[i] != '\\',
    ensures
        crate::ntfs_browse::segments(name + seq!['\\'] + rest) == seq![name]
            + crate::ntfs_browse::segments(rest),
        crate::ntfs_browse::segments(seq!['\\'] + rest) == crate::ntfs_browse::segments(rest),
        crate::ntfs_browse::segments(name) == seq![name],
        crate::ntfs_browse::segments(seq![]).len() == 0,
{
    let whole = name + seq!['\\'] + rest;
    lemma_first_index(whole, '\\', name.len() as int);
    assert(whole.subrange(0, name.len() as int) =~= name);
    assert(whole.subrange(1int + name.len(), whole.len() as int) =~= rest);
    let other = seq!['\\'] + rest;
    lemma_first_index(other, '\\', 0);
    assert(other.subrange(1, other.len() as int) =~= rest);
    lemma_first_index(name, '\\', name.len() as int);
    assert(name.subrange(0, name.len() as int) =~= name);
    assert(seq![name] + Seq::<Seq<char>>::empty() =~= seq![name]);
}

} // verus!
