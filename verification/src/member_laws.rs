//! What archives list, what evidence adds to a file, and where deleted files are counted.

use crate::archive::{
    archive_listing, compound_listing, compound_path, salvaged, salvaged_listing, salvaged_member,
    tar_listing, zip_listing, MemberView,
};
use crate::browse_cache::{
    children_of, node_for, placed_folder, subtree_count, times, upward_keys, DeletedArtifactLocator,
    DeletedFolderNode,
};
use crate::browse_paths::{ancestors, last_component, parent_dir, path_key};
use crate::bytes::laid_at;
use crate::evidence::{
    capped_warnings, hinted_view, i30_merged, usn_merged, warning_prefix, with_directory,
};
use crate::i30::{DirectoryView, I30View};
use crate::kinds::{inferred_kind, kind_label};
use crate::model::{ArtifactKind, PathConfidence, ScanSource};
use crate::ntfs_paths::{
    chain_confidence, directory_chain, normalized_path, resolved_path, DirectoryChain, MftIndex,
    MftRecord,
};
use crate::numbers::decimal;
use crate::records::ArtifactView;
use crate::seqs::{kept, lemma_kept_complete, lemma_kept_sound};
use crate::text::{count_if, lemma_count_if, lemma_first_index, opt_view};
use crate::usn::UsnEvidenceView;
use vstd::prelude::*;
use vstd::string::*;
use vstd::utf8::{decode_utf8, valid_utf8};

verus! {

// ---------------------------------------------------------------------------
// Archives.

/// A ZIP archive lists its members one by one, up to the limit, and says how many it has; one
/// whose members cannot be read lists none.
pub proof fn lemma_zip_archives_list_their_members(
    members: Seq<Option<(Seq<char>, bool, u64, u64)>>,
    max: int,
    i: int,
)
    requires
        0 <= i < members.len(),
        i < max,
        members.len() <= usize::MAX,
    ensures
        members[i] is None ==> zip_listing(Some(members), max) is None,
        (forall|k: int| 0 <= k < members.len() ==> (#[trigger] members[k]) is Some) ==> (zip_listing(
            Some(members),
            max,
        ) matches Some(listing) && listing.entries[i].path == (members[i]->0).0
            && listing.entries[i].size == Some((members[i]->0).2)
            && listing.entries[i].compressed_size == Some((members[i]->0).3)
            && listing.total_entries == Some(members.len() as usize) && (listing.truncated
            <==> members.len() > max) && listing.entries.len() <= max),
        zip_listing(None, max) is None,
{
}

/// A TAR archive lists its members by their paths, and by their numbers where a path is no text.
pub proof fn lemma_tar_archives_list_their_members(
    members: Seq<Option<(Seq<u8>, bool, u64)>>,
    max: int,
    i: int,
)
    requires
        0 <= i < members.len() <= max,
        members.len() <= usize::MAX,
    ensures
        members[i] is None ==> tar_listing(Some(members), max) is Err,
        tar_listing(None, max) is Err,
        (forall|k: int| 0 <= k < members.len() ==> (#[trigger] members[k]) is Some) ==> (tar_listing(
            Some(members),
            max,
        ) matches Ok(listing) && listing.entries.len() == members.len()
            && listing.entries[i].size == Some((members[i]->0).2)
            && listing.entries[i].compressed_size is None && (valid_utf8((members[i]->0).0) && (
        members[i]->0).0.len() > 0 ==> listing.entries[i].path == decode_utf8((members[i]->0).0))
            && ((members[i]->0).0.len() == 0 ==> listing.entries[i].path == "entry-"@ + decimal(
            (i + 1) as nat,
        )) && ((members[i]->0).1 ==> listing.entries[i].kind == Some("directory"@)) && (!(
        members[i]->0).1 ==> listing.entries[i].kind == Some("file"@)) && !listing.truncated),
{
}

/// A compound file lists what lies below its root, with backslashes between names.
pub proof fn lemma_compound_files_list_what_lies_below_the_root(
    members: Seq<(Seq<char>, bool, bool, u64)>,
    max: int,
    i: int,
)
    requires
        0 < i < members.len() <= max,
        members.len() <= usize::MAX,
    ensures
        compound_listing(Some(members), max) matches Ok(listing) && listing.entries.len()
            == members.len() - 1 && listing.entries[i - 1].path == compound_path(members[i].0) && (
        members[i].1 ==> listing.entries[i - 1].kind == Some("storage"@)) && (!members[i].1
            ==> listing.entries[i - 1].kind == Some("stream"@)) && (members[i].2
            ==> listing.entries[i - 1].size == Some(members[i].3)),
        compound_listing(None, max) is Err,
        forall|p: Seq<char>, k: int|
            0 <= k < p.len() ==> (#[trigger] compound_path(p)[k] == if k > 0 && p[k] == '/' {
                '\\'
            } else {
                p[k]
            }),
{
}

proof fn lemma_salvage_keeps_what_was_found(s: Seq<u8>, at: int, max: int, found: Seq<MemberView>)
    ensures
        found.is_prefix_of(salvaged(s, at, max, found).0),
    decreases s.len() - at,
{
    if at < 0 || at + 30 > s.len() || found.len() >= max {
    } else if !crate::bytes::occurs_at(s, crate::kinds::zip_mark(), at) {
        lemma_salvage_keeps_what_was_found(s, at + 1, max, found);
    } else {
        let end = crate::archive::header_end(s, at);
        if end <= s.len() {
            if crate::archive::header_name(s, at).len() == 0 {
                lemma_salvage_keeps_what_was_found(s, end, max, found);
            } else {
                let more = found.push(salvaged_member(s, at));
                lemma_salvage_keeps_what_was_found(s, end, max, more);
                let all = salvaged(s, end, max, more).0;
                assert(more =~= all.subrange(0, more.len() as int));
                assert(found =~= all.subrange(0, found.len() as int));
            }
        }
    }
}

/// A damaged ZIP archive lists first the file of the header that it begins with.
pub proof fn lemma_damaged_archives_list_their_headers(s: Seq<u8>, max: int)
    requires
        max > 0,
        30 <= s.len(),
        laid_at(s, 0, seq![0x50u8, 0x4bu8, 0x03u8, 0x04u8]),
        crate::archive::header_end(s, 0) <= s.len(),
        crate::archive::header_name(s, 0).len() > 0,
    ensures
        salvaged_listing(s, max) matches Ok(listing) && listing.entries.len() > 0
            && listing.entries[0] == salvaged_member(s, 0) && listing.total_entries is None,
{
    let mark = seq![0x50u8, 0x4bu8, 0x03u8, 0x04u8];
    assert forall|k: int| 0 <= k < 4 implies s.subrange(0, 4)[k] == mark[k] by {
        assert(s[0 + k] == mark[k]);
    }
    assert(s.subrange(0, 4) =~= mark);
    assert(crate::kinds::zip_mark() =~= mark);
    let none: Seq<MemberView> = seq![];
    let one = none.push(salvaged_member(s, 0));
    let end = crate::archive::header_end(s, 0);
    assert(salvaged(s, 0, max, none) == salvaged(s, end, max, one));
    lemma_salvage_keeps_what_was_found(s, end, max, one);
    let all = salvaged(s, end, max, one).0;
    assert(one =~= all.subrange(0, 1));
    assert(all[0] == one[0]);
}

/// An archive whose members are not listed shows itself, with its own name and size.
pub proof fn lemma_other_archives_show_themselves(
    name: Seq<char>,
    kind: ArtifactKind,
    size: u64,
    bytes: Seq<u8>,
    max: int,
)
    ensures
        kind is Rar || kind is SevenZip || kind is Cab || kind is Iso || kind is Gzip
            || kind is Bzip2 || kind is Xz ==> (archive_listing(name, kind, size, bytes, max)
            matches Ok(listing) && listing.entries.len() == 1 && listing.entries[0].path == name
            && listing.entries[0].size == Some(size) && listing.entries[0].kind == Some(
            kind_label(kind),
        ) && listing.entries[0].status is Unsupported && listing.total_entries == Some(1usize)
            && !listing.truncated),
        kind is Pdf || kind is Txt || kind is Unknown || kind is Exe ==> archive_listing(
            name,
            kind,
            size,
            bytes,
            max,
        ) is Err,
{
}

// ---------------------------------------------------------------------------
// Evidence.

/// A warning is said once; at most eight of one sort are said, but every note.
pub proof fn lemma_warnings_are_said_once(list: Seq<Seq<char>>, warning: Seq<char>)
    ensures
        list.contains(warning) ==> capped_warnings(list, warning) == list,
        list.len() < 8 ==> capped_warnings(list, warning).contains(warning),
        crate::bytes::occurs_in(warning, ":info]"@) ==> capped_warnings(list, warning).contains(
            warning,
        ),
        capped_warnings(list, warning) == list || capped_warnings(list, warning) == list.push(
            warning,
        ),
        capped_warnings(list, warning).no_duplicates() || !list.no_duplicates(),
{
    let prefix = warning_prefix(warning);
    lemma_count_if(list, crate::evidence::has_prefix_of(prefix));
    let more = list.push(warning);
    assert(more[list.len() as int] == warning);
    assert(more.contains(warning));
}

/// Eight warnings with one front are enough: a ninth is left out.
pub proof fn lemma_a_ninth_warning_is_left_out(
    list: Seq<Seq<char>>,
    front: Seq<char>,
    rest: Seq<char>,
)
    requires
        forall|i: int| 0 <= i < front.len() ==> #[trigger] front[i] != ']',
        list.len() >= 8,
        forall|i: int| 0 <= i < list.len() ==> front.is_prefix_of(#[trigger] list[i]),
        !crate::bytes::occurs_in(front + seq![']'] + rest, ":info]"@),
    ensures
        capped_warnings(list, front + seq![']'] + rest) == list,
{
    let warning = front + seq![']'] + rest;
    lemma_first_index(warning, ']', front.len() as int);
    assert(warning.subrange(0, front.len() as int) =~= front);
    lemma_all_texts_counted(list, crate::evidence::has_prefix_of(front));
}

proof fn lemma_all_texts_counted(s: Seq<Seq<char>>, f: spec_fn(Seq<char>) -> bool)
    requires
        forall|i: int| 0 <= i < s.len() ==> f(#[trigger] s[i]),
    ensures
        count_if(s, f) == s.len(),
    decreases s.len(),
{
    if s.len() > 0 {
        let t = s.drop_last();
        assert forall|i: int| 0 <= i < t.len() implies f(#[trigger] t[i]) by {
            assert(t[i] == s[i]);
        }
        lemma_all_texts_counted(t, f);
        assert(f(s[s.len() - 1]));
    }
}

/// A made-up name gives way to one that was found, and the kind goes with the name; any other
/// name stays.
pub proof fn lemma_found_names_replace_made_up_ones(v: ArtifactView, name: Seq<char>)
    ensures
        ({
            let r = hinted_view(v, name);
            &&& name.len() == 0 ==> r == v
            &&& !(v.name_source is Generated) && !("deleted_record_"@.is_prefix_of(v.name)) ==> r
                == v
            &&& name.len() > 0 && v.name_source is Generated ==> {
                &&& r.name == name && r.name_source is Reconstructed
                &&& r.kind == inferred_kind(name, None)
                &&& v.confidence is Low ==> r.confidence is Medium
                &&& !(v.confidence is Low) ==> r.confidence == v.confidence
            }
            &&& r.id == v.id && r.size == v.size && r.recovery_plan == v.recovery_plan
            &&& r.original_path == v.original_path && r.probable_path == v.probable_path
        }),
{
}

/// What a directory index tells of a path is kept as evidence, with how sure it is: an entry from
/// the slack of an index is partial.
pub proof fn lemma_indexed_paths_come_with_evidence(v: ArtifactView, e: I30View)
    requires
        v.path_evidence.len() == 0,
    ensures
        ({
            let list = i30_merged(v, e).path_evidence;
            &&& list.len() == 1
            &&& list[0].source is I30 && list[0].path == e.path
            &&& e.from_slack ==> list[0].confidence is Partial
            &&& !e.from_slack ==> list[0].confidence == e.path_confidence
        }),
{
    let kept = crate::evidence::entry_evidence(
        e,
        crate::evidence::entry_confidence(e),
        crate::evidence::entry_note(e),
    );
    assert(!crate::evidence::has_evidence(v.path_evidence, kept));
    assert(i30_merged(v, e).path_evidence == v.path_evidence.push(kept));
}

/// What the journal tells of a path is kept as evidence, with how sure it is: a note that was
/// found by number alone is partial.
pub proof fn lemma_noted_paths_come_with_evidence(
    v: ArtifactView,
    u: UsnEvidenceView,
    by_reference: bool,
)
    requires
        v.path_evidence.len() == 0,
    ensures
        ({
            let list = usn_merged(v, u, by_reference).path_evidence;
            &&& list.len() == 1
            &&& list[0].source is UsnJournal && list[0].path == u.path
            &&& by_reference <==> list[0].confidence is Reconstructed
            &&& !by_reference <==> list[0].confidence is Partial
        }),
{
    let confidence = if by_reference {
        PathConfidence::Reconstructed
    } else {
        PathConfidence::Partial
    };
    let kept = crate::evidence::journal_evidence(u, confidence, crate::evidence::journal_note());
    assert(!crate::evidence::has_evidence(v.path_evidence, kept));
    assert(usn_merged(v, u, by_reference).path_evidence == v.path_evidence.push(kept));
}

/// A folder of the file table is known by its reference, under the path that leads to it; files
/// and records without a name are not folders.
pub proof fn lemma_folders_are_mapped_by_reference(
    source: ScanSource,
    mft: MftIndex,
    record: MftRecord,
    cache: Map<u64, Seq<char>>,
    paths: Map<u64, DirectoryView>,
    chain: DirectoryChain,
)
    requires
        record.best_name is Some,
        directory_chain(
            mft.records@,
            cache,
            record.best_name->0.parent_reference,
            seq![],
            false,
        ) == Some(chain),
    ensures
        !record.directory ==> with_directory(source, mft, Some(record), cache, paths) == (
            cache,
            paths,
        ),
        record.directory ==> {
            let shown = normalized_path(
                source.device_path@,
                opt_view(source.mount_point),
                resolved_path(mft.volume_path@, chain, record.best_name->0.name@),
            );
            let after = with_directory(source, mft, Some(record), cache, paths).1;
            shown matches Some(path) ==> after.contains_key(record.reference)
                && after[record.reference].path == path && after[record.reference].confidence
                == chain_confidence(chain)
        },
        with_directory(source, mft, None, cache, paths) == (cache, paths),
{
}

// ---------------------------------------------------------------------------
// Folders of deleted files.

/// A deleted file is counted in its folder and in every folder above it, and in no other.
pub proof fn lemma_files_count_in_every_folder_above(
    locators: Seq<DeletedArtifactLocator>,
    l: DeletedArtifactLocator,
    root: Seq<char>,
    folder: Seq<char>,
    key: Seq<char>,
    j: int,
)
    requires
        placed_folder(l, root) == Some(folder),
    ensures
        subtree_count(locators.push(l), root, path_key(folder)) > subtree_count(
            locators,
            root,
            path_key(folder),
        ),
        0 <= j < ancestors(folder, root).len() ==> subtree_count(
            locators.push(l),
            root,
            path_key(ancestors(folder, root)[j]),
        ) > subtree_count(locators, root, path_key(ancestors(folder, root)[j])),
        key != path_key(folder) && (forall|i: int|
            0 <= i < ancestors(folder, root).len() ==> path_key(
                #[trigger] ancestors(folder, root)[i],
            ) != key) ==> subtree_count(locators.push(l), root, key) == subtree_count(
            locators,
            root,
            key,
        ),
{
    let all = locators.push(l);
    assert(all.drop_last() =~= locators);
    assert(all.last() == l);
    let keys = upward_keys(folder, root);
    let up = ancestors(folder, root);
    assert(keys[0] == path_key(folder));
    lemma_count_if(keys, crate::browse_cache::same_key(path_key(folder)));
    assert(crate::browse_cache::same_key(path_key(folder))(keys[0]));
    if 0 <= j < up.len() {
        let k = path_key(up[j]);
        assert(keys[j + 1] == k);
        lemma_count_if(keys, crate::browse_cache::same_key(k));
        assert(crate::browse_cache::same_key(k)(keys[j + 1]));
    }
    if key != path_key(folder) && (forall|i: int|
        0 <= i < ancestors(folder, root).len() ==> path_key(#[trigger] ancestors(folder, root)[i])
            != key) {
        lemma_count_if(keys, crate::browse_cache::same_key(key));
        if times(keys, key) > 0 {
            let i = choose|i: int|
                0 <= i < keys.len() && crate::browse_cache::same_key(key)(#[trigger] keys[i]);
            if i > 0 {
                assert(keys[i] == path_key(up[i - 1]));
            }
        }
    }
}

/// A file without a place is counted in no folder.
pub proof fn lemma_placeless_files_count_nowhere(
    locators: Seq<DeletedArtifactLocator>,
    l: DeletedArtifactLocator,
    root: Seq<char>,
    key: Seq<char>,
)
    requires
        placed_folder(l, root) is None,
    ensures
        subtree_count(locators.push(l), root, key) == subtree_count(locators, root, key),
{
    assert(locators.push(l).drop_last() =~= locators);
}

/// The folders in a folder are those whose parent it is, the root aside.
pub proof fn lemma_folders_lie_in_their_parent(
    folders: Seq<Seq<char>>,
    root: Seq<char>,
    key: Seq<char>,
    i: int,
)
    requires
        0 <= i < folders.len(),
    ensures
        path_key(folders[i]) != path_key(root) && path_key(parent_dir(folders[i], root)) == key
            ==> children_of(folders, root, key).contains(folders[i]),
        forall|k: int|
            0 <= k < children_of(folders, root, key).len() ==> path_key(
                parent_dir(#[trigger] children_of(folders, root, key)[k], root),
            ) == key && folders.contains(children_of(folders, root, key)[k]) && path_key(
                children_of(folders, root, key)[k],
            ) != path_key(root),
{
    let test = crate::browse_cache::below_key(root, key);
    lemma_kept_sound(folders, test);
    if test(folders[i]) {
        lemma_kept_complete(folders, test, i);
    }
}

/// A folder of the tree has the last part of its path for a name, and its parent above it.
pub proof fn lemma_folder_nodes_show_their_path(
    node: DeletedFolderNode,
    path: Seq<char>,
    root: Seq<char>,
)
    requires
        node_for(node, path, root),
    ensures
        node.path@ == path,
        node.name@ == last_component(path),
        path_key(path) == path_key(root) ==> node.parent_path is None,
        path_key(path) != path_key(root) ==> (node.parent_path matches Some(p) && p@ == parent_dir(
            path,
            root,
        )),
{
}

} // verus!
