//! The folder tree in which deleted files are shown.

use crate::browse_paths::{
    ancestors, browser_path_is_within_root, byte_length, canonical, canonicalize_browser_path,
    child_on_route, collect_artifact_ancestors, collect_folder_hierarchy, folder_chain,
    folder_name, immediate_child_folder_path, last_component, lemma_parent_is_nearer, list_views,
    normalize_browser_path, parent_dir, parent_directory_path, path_key, path_rank, to_lowercase,
    unicode_lower, upper_folders, within_root,
};
use crate::model::{ArtifactKind, ArtifactRecord, OriginType, ScanSource};
use crate::seqs::{filter_mapped, kept, lemma_kept_complete};
use crate::sort::{
    lemma_text_before_asymmetric, lemma_text_before_transitive, stable_sort_by, stable_sorted,
    stable_sorted_by, str_before, strict_weak_order, text_before,
};
use crate::table::{count_at, list_at, Table};
use crate::text::{
    after_last, ascii_lower, clone_opt, count_if, lemma_count_if, opt_view, owned, rsplit_after,
    strip_front, to_ascii_lowercase, trim_start_char,
};
use vstd::prelude::*;

verus! {

// ---------------------------------------------------------------------------
// Deleted files.

/// What the tree needs to know of a deleted file.
#[derive(Debug)]
pub struct DeletedArtifactLocator {
    pub result_index: usize,
    pub original_path: Option<String>,
    pub probable_path: Option<String>,
    pub name: String,
    pub extension: Option<String>,
    pub kind: ArtifactKind,
}

/// The tree shows files that the file system has deleted or lost.
pub open spec fn is_candidate(artifact: ArtifactRecord) -> bool {
    artifact.deleted_entry && (artifact.origin_type == OriginType::FilesystemDeletedEntry
        || artifact.origin_type == OriginType::FilesystemOrphanedEntry)
}

pub fn is_deleted_browse_candidate(artifact: &ArtifactRecord) -> (r: bool)
    ensures
        r == is_candidate(*artifact),
{
    artifact.deleted_entry && (artifact.origin_type == OriginType::FilesystemDeletedEntry
        || artifact.origin_type == OriginType::FilesystemOrphanedEntry)
}

/// The indices below `n` of the results that the tree shows.
pub open spec fn candidate_indices(results: Seq<ArtifactRecord>, n: int) -> Seq<int>
    decreases n,
{
    if n <= 0 {
        seq![]
    } else if is_candidate(results[n - 1]) {
        candidate_indices(results, n - 1).push(n - 1)
    } else {
        candidate_indices(results, n - 1)
    }
}

/// `locator` stands for result `i`.
pub open spec fn locates(
    locator: DeletedArtifactLocator,
    results: Seq<ArtifactRecord>,
    i: int,
) -> bool {
    &&& locator.result_index == i
    &&& locator.original_path == results[i].original_path
    &&& locator.probable_path == results[i].probable_path
    &&& locator.name == results[i].name
    &&& locator.extension == results[i].extension
    &&& locator.kind == results[i].kind
}

pub fn collect_deleted_artifact_locators(results: &[ArtifactRecord]) -> (r: Vec<
    DeletedArtifactLocator,
>)
    ensures
        r@.len() == candidate_indices(results@, results@.len() as int).len(),
        forall|k: int|
            0 <= k < r@.len() ==> locates(
                #[trigger] r@[k],
                results@,
                candidate_indices(results@, results@.len() as int)[k],
            ),
{
    let mut out: Vec<DeletedArtifactLocator> = Vec::new();
    let mut i: usize = 0;
    while i < results.len()
        invariant
            i <= results@.len(),
            out@.len() == candidate_indices(results@, i as int).len(),
            forall|k: int|
                0 <= k < out@.len() ==> locates(
                    #[trigger] out@[k],
                    results@,
                    candidate_indices(results@, i as int)[k],
                ),
        decreases results@.len() - i,
    {
        if is_deleted_browse_candidate(&results[i]) {
            out.push(
                DeletedArtifactLocator {
                    result_index: i,
                    original_path: clone_opt(&results[i].original_path),
                    probable_path: clone_opt(&results[i].probable_path),
                    name: results[i].name.clone(),
                    extension: clone_opt(&results[i].extension),
                    kind: results[i].kind,
                },
            );
        }
        i += 1;
    }
    out
}

/// The extension that a file name ends with.
pub open spec fn plain_extension(name: Seq<char>) -> Option<Seq<char>> {
    match after_last(name, '.') {
        Some(ext) => if ext.len() == 0 {
            None
        } else {
            Some(ascii_lower(ext))
        },
        None => None,
    }
}

pub fn extension(name: &str) -> (r: Option<String>)
    ensures
        opt_view(r) == plain_extension(name@),
{
    match rsplit_after(name, '.') {
        Some(ext) => if ext.as_str().is_empty() {
            None
        } else {
            Some(to_ascii_lowercase(ext.as_str()))
        },
        None => None,
    }
}

/// The extension under which files of a kind are listed.
pub open spec fn kind_extension(kind: ArtifactKind) -> Option<Seq<char>> {
    match kind {
        ArtifactKind::Exe => Some("exe"@),
        ArtifactKind::Dll => Some("dll"@),
        ArtifactKind::Sys => Some("sys"@),
        ArtifactKind::Scr => Some("scr"@),
        ArtifactKind::Ocx => Some("ocx"@),
        ArtifactKind::Cpl => Some("cpl"@),
        ArtifactKind::Msi => Some("msi"@),
        ArtifactKind::Jar => Some("jar"@),
        ArtifactKind::Zip => Some("zip"@),
        ArtifactKind::Rar => Some("rar"@),
        ArtifactKind::SevenZip => Some("7z"@),
        ArtifactKind::Cab => Some("cab"@),
        ArtifactKind::Iso => Some("iso"@),
        ArtifactKind::Tar => Some("tar"@),
        ArtifactKind::Gzip => Some("gz"@),
        ArtifactKind::Bzip2 => Some("bz2"@),
        ArtifactKind::Xz => Some("xz"@),
        ArtifactKind::Apk => Some("apk"@),
        ArtifactKind::Pdf => Some("pdf"@),
        ArtifactKind::Png => Some("png"@),
        ArtifactKind::Jpg => Some("jpg"@),
        ArtifactKind::Gif => Some("gif"@),
        ArtifactKind::Sqlite => Some("sqlite"@),
        ArtifactKind::Pak => Some("pak"@),
        ArtifactKind::Bin => Some("bin"@),
        ArtifactKind::Dat => Some("dat"@),
        ArtifactKind::Bat => Some("bat"@),
        ArtifactKind::Cmd => Some("cmd"@),
        ArtifactKind::Ps1 => Some("ps1"@),
        ArtifactKind::Vbs => Some("vbs"@),
        ArtifactKind::Js => Some("js"@),
        ArtifactKind::Ini => Some("ini"@),
        ArtifactKind::Cfg => Some("cfg"@),
        ArtifactKind::Json => Some("json"@),
        ArtifactKind::Yml => Some("yml"@),
        ArtifactKind::Yaml => Some("yaml"@),
        ArtifactKind::Txt => Some("txt"@),
        ArtifactKind::Log => Some("log"@),
        ArtifactKind::OleCompound => Some("ole"@),
        ArtifactKind::Pe => Some("pe"@),
        ArtifactKind::Unknown => None,
    }
}

/// The characters of an optional string slice.
pub open spec fn str_view(o: Option<&'static str>) -> Option<Seq<char>> {
    match o {
        Some(s) => Some(s@),
        None => None,
    }
}

pub fn default_extension_for_artifact_kind(kind: ArtifactKind) -> (r: Option<&'static str>)
    ensures
        str_view(r) == kind_extension(kind),
{
    match kind {
        ArtifactKind::Exe => Some("exe"),
        ArtifactKind::Dll => Some("dll"),
        ArtifactKind::Sys => Some("sys"),
        ArtifactKind::Scr => Some("scr"),
        ArtifactKind::Ocx => Some("ocx"),
        ArtifactKind::Cpl => Some("cpl"),
        ArtifactKind::Msi => Some("msi"),
        ArtifactKind::Jar => Some("jar"),
        ArtifactKind::Zip => Some("zip"),
        ArtifactKind::Rar => Some("rar"),
        ArtifactKind::SevenZip => Some("7z"),
        ArtifactKind::Cab => Some("cab"),
        ArtifactKind::Iso => Some("iso"),
        ArtifactKind::Tar => Some("tar"),
        ArtifactKind::Gzip => Some("gz"),
        ArtifactKind::Bzip2 => Some("bz2"),
        ArtifactKind::Xz => Some("xz"),
        ArtifactKind::Apk => Some("apk"),
        ArtifactKind::Pdf => Some("pdf"),
        ArtifactKind::Png => Some("png"),
        ArtifactKind::Jpg => Some("jpg"),
        ArtifactKind::Gif => Some("gif"),
        ArtifactKind::Sqlite => Some("sqlite"),
        ArtifactKind::Pak => Some("pak"),
        ArtifactKind::Bin => Some("bin"),
        ArtifactKind::Dat => Some("dat"),
        ArtifactKind::Bat => Some("bat"),
        ArtifactKind::Cmd => Some("cmd"),
        ArtifactKind::Ps1 => Some("ps1"),
        ArtifactKind::Vbs => Some("vbs"),
        ArtifactKind::Js => Some("js"),
        ArtifactKind::Ini => Some("ini"),
        ArtifactKind::Cfg => Some("cfg"),
        ArtifactKind::Json => Some("json"),
        ArtifactKind::Yml => Some("yml"),
        ArtifactKind::Yaml => Some("yaml"),
        ArtifactKind::Txt => Some("txt"),
        ArtifactKind::Log => Some("log"),
        ArtifactKind::OleCompound => Some("ole"),
        ArtifactKind::Pe => Some("pe"),
        ArtifactKind::Unknown => None,
    }
}

/// The extension under which a deleted file is listed.
pub open spec fn listed_extension(l: DeletedArtifactLocator) -> Option<Seq<char>> {
    let found = match l.extension {
        Some(ext) => Some(ext@),
        None => match plain_extension(l.name@) {
            Some(ext) => Some(ext),
            None => kind_extension(l.kind),
        },
    };
    match found {
        Some(ext) => {
            let bare = ascii_lower(strip_front(ext, '.'));
            if bare.len() == 0 {
                None
            } else {
                Some(bare)
            }
        },
        None => None,
    }
}

fn locator_extension(l: &DeletedArtifactLocator) -> (r: Option<String>)
    ensures
        opt_view(r) == listed_extension(*l),
{
    let found: Option<String> = match &l.extension {
        Some(ext) => Some(ext.clone()),
        None => match extension(l.name.as_str()) {
            Some(ext) => Some(ext),
            None => match default_extension_for_artifact_kind(l.kind) {
                Some(ext) => Some(owned(ext)),
                None => None,
            },
        },
    };
    match found {
        Some(ext) => {
            let bare = trim_start_char(ext.as_str(), '.');
            let lower = to_ascii_lowercase(bare.as_str());
            if lower.as_str().is_empty() {
                None
            } else {
                Some(lower)
            }
        },
        None => None,
    }
}

// ---------------------------------------------------------------------------
// Where a deleted file is shown.

/// The path at which a deleted file is shown: its own where it lies below the root, else the
/// probable one where that does.
pub open spec fn placed_path(l: DeletedArtifactLocator, root: Seq<char>) -> Option<Seq<char>> {
    if l.original_path is Some && within_root(l.original_path->0@, root) {
        Some(l.original_path->0@)
    } else if l.probable_path is Some && within_root(l.probable_path->0@, root) {
        Some(l.probable_path->0@)
    } else {
        None
    }
}

pub fn deleted_artifact_browser_path(artifact: &DeletedArtifactLocator, root_path: &str) -> (r:
    Option<String>)
    ensures
        opt_view(r) == placed_path(*artifact, root_path@),
{
    if let Some(path) = &artifact.original_path {
        if browser_path_is_within_root(path.as_str(), root_path) {
            return Some(path.clone());
        }
    }
    if let Some(path) = &artifact.probable_path {
        if browser_path_is_within_root(path.as_str(), root_path) {
            return Some(path.clone());
        }
    }
    None
}

/// The folder in which a deleted file is shown.
pub open spec fn placed_folder(l: DeletedArtifactLocator, root: Seq<char>) -> Option<Seq<char>> {
    match placed_path(l, root) {
        Some(path) => Some(parent_dir(canonical(path), root)),
        None => None,
    }
}

/// The key of the folder in which a deleted file is shown.
pub open spec fn direct_index(
    root: Seq<char>,
    key: Seq<char>,
) -> spec_fn(DeletedArtifactLocator) -> Option<usize> {
    |l: DeletedArtifactLocator|
        match placed_folder(l, root) {
            Some(folder) => if path_key(folder) == key {
                Some(l.result_index)
            } else {
                None
            },
            None => None,
        }
}

/// The files that are shown in the folder with a key, in order.
pub open spec fn direct_indices(
    locators: Seq<DeletedArtifactLocator>,
    root: Seq<char>,
    key: Seq<char>,
) -> Seq<usize> {
    filter_mapped(locators, direct_index(root, key))
}

/// The keys of a folder and of the folders above it.
pub open spec fn upward_keys(folder: Seq<char>, root: Seq<char>) -> Seq<Seq<char>> {
    (seq![folder] + ancestors(folder, root)).map_values(|p: Seq<char>| path_key(p))
}

/// Being a key.
pub open spec fn same_key(key: Seq<char>) -> spec_fn(Seq<char>) -> bool {
    |k: Seq<char>| k == key
}

/// How often a key occurs.
pub open spec fn times(keys: Seq<Seq<char>>, key: Seq<char>) -> nat {
    count_if(keys, same_key(key))
}

/// How many deleted files are shown in the folder with a key and below it.
pub open spec fn subtree_count(
    locators: Seq<DeletedArtifactLocator>,
    root: Seq<char>,
    key: Seq<char>,
) -> nat
    decreases locators.len(),
{
    if locators.len() == 0 {
        0
    } else {
        subtree_count(locators.drop_last(), root, key) + match placed_folder(
            locators.last(),
            root,
        ) {
            Some(folder) => times(upward_keys(folder, root), key),
            None => 0,
        }
    }
}

/// A count as far as a `usize` holds it.
pub open spec fn capped(n: nat) -> usize {
    if n <= usize::MAX {
        n as usize
    } else {
        usize::MAX
    }
}

/// A file without a place, but with a probable one elsewhere.
pub open spec fn probable_index(root: Seq<char>) -> spec_fn(
    DeletedArtifactLocator,
) -> Option<usize> {
    |l: DeletedArtifactLocator|
        if placed_path(l, root) is None && l.probable_path is Some {
            Some(l.result_index)
        } else {
            None
        }
}

/// A file without any place.
pub open spec fn unknown_index(root: Seq<char>) -> spec_fn(DeletedArtifactLocator) -> Option<usize> {
    |l: DeletedArtifactLocator|
        if placed_path(l, root) is None && l.probable_path is None {
            Some(l.result_index)
        } else {
            None
        }
}

/// Those of the files that `f` picks that are listed under an extension.
pub open spec fn with_extension(
    f: spec_fn(DeletedArtifactLocator) -> Option<usize>,
    ext: Seq<char>,
) -> spec_fn(DeletedArtifactLocator) -> Option<usize> {
    |l: DeletedArtifactLocator|
        if listed_extension(l) == Some(ext) {
            f(l)
        } else {
            None
        }
}

// ---------------------------------------------------------------------------
// Folders.

/// A folder that only deleted files have.
#[derive(Debug)]
pub struct DeletedFolderNode {
    pub path: String,
    pub parent_path: Option<String>,
    pub name: String,
}

impl Clone for DeletedFolderNode {
    fn clone(&self) -> (r: Self)
        ensures
            r == *self,
    {
        DeletedFolderNode {
            path: self.path.clone(),
            parent_path: clone_opt(&self.parent_path),
            name: self.name.clone(),
        }
    }
}

/// `node` stands for the folder with the given path.
pub open spec fn node_for(node: DeletedFolderNode, path: Seq<char>, root: Seq<char>) -> bool {
    &&& node.path@ == path
    &&& opt_view(node.parent_path) == if path_key(path) == path_key(root) {
        None
    } else {
        Some(parent_dir(path, root))
    }
    &&& node.name@ == last_component(path)
}

/// All folders on the way to deleted files, in the order in which they come up.
pub open spec fn all_folders(locators: Seq<DeletedArtifactLocator>, root: Seq<char>) -> Seq<
    Seq<char>,
>
    decreases locators.len(),
{
    if locators.len() == 0 {
        seq![]
    } else {
        all_folders(locators.drop_last(), root) + match placed_folder(locators.last(), root) {
            Some(folder) => folder_chain(folder, root),
            None => seq![],
        }
    }
}

/// A path with the key occurs.
pub open spec fn has_key(paths: Seq<Seq<char>>, key: Seq<char>) -> bool {
    exists|i: int| 0 <= i < paths.len() && path_key(#[trigger] paths[i]) == key
}

/// The paths that are the first with their key.
pub open spec fn first_paths(paths: Seq<Seq<char>>) -> Seq<Seq<char>>
    decreases paths.len(),
{
    if paths.len() == 0 {
        seq![]
    } else {
        let front = first_paths(paths.drop_last());
        if has_key(front, path_key(paths.last())) {
            front
        } else {
            front.push(paths.last())
        }
    }
}

/// The folders of the tree.
pub open spec fn tree_folders(locators: Seq<DeletedArtifactLocator>, root: Seq<char>) -> Seq<
    Seq<char>,
> {
    first_paths(all_folders(locators, root))
}

/// Folder `p` stands directly below the folder with the key.
pub open spec fn below_key(root: Seq<char>, key: Seq<char>) -> spec_fn(Seq<char>) -> bool {
    |p: Seq<char>| path_key(p) != path_key(root) && path_key(parent_dir(p, root)) == key
}

/// The folders directly below the folder with a key, in the order in which they come up.
pub open spec fn children_of(folders: Seq<Seq<char>>, root: Seq<char>, key: Seq<char>) -> Seq<
    Seq<char>,
> {
    kept(folders, below_key(root, key))
}

/// The paths of nodes.
pub open spec fn node_paths(nodes: Seq<DeletedFolderNode>) -> Seq<Seq<char>> {
    nodes.map_values(|n: DeletedFolderNode| n.path@)
}

/// Every node stands for its own path.
pub open spec fn nodes_ok(nodes: Seq<DeletedFolderNode>, root: Seq<char>) -> bool {
    forall|i: int| 0 <= i < nodes.len() ==> node_for(#[trigger] nodes[i], nodes[i].path@, root)
}

/// The table holds the folders, in order, each under its key.
pub open spec fn folder_table(
    table: Seq<(String, DeletedFolderNode)>,
    folders: Seq<Seq<char>>,
    root: Seq<char>,
) -> bool {
    &&& table.len() == folders.len()
    &&& forall|i: int|
        0 <= i < table.len() ==> (#[trigger] table[i]).0@ == path_key(folders[i]) && node_for(
            table[i].1,
            folders[i],
            root,
        )
}

// ---------------------------------------------------------------------------
// Building the tree.

/// The tree while files are added to it.
pub struct DeletedBrowseCacheBuilder {
    root_path: String,
    direct: Table<Vec<usize>>,
    folders: Table<DeletedFolderNode>,
    by_parent: Table<Vec<DeletedFolderNode>>,
    counts: Table<usize>,
    unknown: Vec<usize>,
    unknown_by_extension: Table<Vec<usize>>,
    probable: Vec<usize>,
    probable_by_extension: Table<Vec<usize>>,
    seen: Ghost<Seq<DeletedArtifactLocator>>,
}

/// Lists by extension hold what `f` picks.
pub open spec fn extension_table(
    table: Map<Seq<char>, Vec<usize>>,
    locators: Seq<DeletedArtifactLocator>,
    f: spec_fn(DeletedArtifactLocator) -> Option<usize>,
) -> bool {
    forall|ext: Seq<char>| #[trigger]
        list_at(table, ext) == filter_mapped(locators, with_extension(f, ext))
}

impl DeletedBrowseCacheBuilder {
    /// The root of the tree.
    pub closed spec fn root(&self) -> Seq<char> {
        self.root_path@
    }

    /// The files that were added.
    pub closed spec fn added(&self) -> Seq<DeletedArtifactLocator> {
        self.seen@
    }

    pub closed spec fn wf(&self) -> bool {
        let locators = self.seen@;
        let root = self.root_path@;
        let folders = tree_folders(locators, root);
        &&& self.direct.wf()
        &&& self.folders.wf()
        &&& self.by_parent.wf()
        &&& self.counts.wf()
        &&& self.unknown_by_extension.wf()
        &&& self.probable_by_extension.wf()
        &&& forall|k: Seq<char>| #[trigger]
            list_at(self.direct@, k) == direct_indices(locators, root, k)
        &&& forall|k: Seq<char>| #[trigger]
            count_at(self.counts@, k) == capped(subtree_count(locators, root, k))
        &&& folder_table(self.folders.entries@, folders, root)
        &&& forall|k: Seq<char>|
            node_paths(#[trigger] list_at(self.by_parent@, k)) == children_of(folders, root, k)
                && nodes_ok(list_at(self.by_parent@, k), root)
        &&& self.unknown@ == filter_mapped(locators, unknown_index(root))
        &&& self.probable@ == filter_mapped(locators, probable_index(root))
        &&& extension_table(self.unknown_by_extension@, locators, unknown_index(root))
        &&& extension_table(self.probable_by_extension@, locators, probable_index(root))
    }

    /// An empty tree.
    pub fn new(root_path: String) -> (r: Self)
        ensures
            r.wf(),
            r.root() == root_path@,
            r.added() == Seq::<DeletedArtifactLocator>::empty(),
    {
        let r = DeletedBrowseCacheBuilder {
            root_path,
            direct: Table::new(),
            folders: Table::new(),
            by_parent: Table::new(),
            counts: Table::new(),
            unknown: Vec::new(),
            unknown_by_extension: Table::new(),
            probable: Vec::new(),
            probable_by_extension: Table::new(),
            seen: Ghost(Seq::empty()),
        };
        proof {
            assert(all_folders(r.seen@, r.root_path@) =~= seq![]);
            assert(tree_folders(r.seen@, r.root_path@) =~= seq![]);
            assert forall|k: Seq<char>|
                node_paths(#[trigger] list_at(r.by_parent@, k)) == children_of(
                    seq![],
                    r.root_path@,
                    k,
                ) && nodes_ok(list_at(r.by_parent@, k), r.root_path@) by {
                assert(node_paths(list_at(r.by_parent@, k)) =~= seq![]);
            }
        }
        r
    }
}

/// The lists of children hold the folders below each key.
pub open spec fn child_table(
    table: Map<Seq<char>, Vec<DeletedFolderNode>>,
    folders: Seq<Seq<char>>,
    root: Seq<char>,
) -> bool {
    forall|k: Seq<char>|
        node_paths(#[trigger] list_at(table, k)) == children_of(folders, root, k) && nodes_ok(
            list_at(table, k),
            root,
        )
}

/// The table holds a key exactly where one of the folders has it.
proof fn lemma_folder_table_keys(
    table: Table<DeletedFolderNode>,
    folders: Seq<Seq<char>>,
    root: Seq<char>,
    key: Seq<char>,
)
    requires
        table.wf(),
        folder_table(table.entries@, folders, root),
    ensures
        table@.contains_key(key) <==> has_key(folders, key),
        table@.contains_key(key) ==> path_key(table@[key].path@) == key && node_for(
            table@[key],
            table@[key].path@,
            root,
        ) && folders.contains(table@[key].path@),
{
    crate::table::lemma_pairs_map(table.entries@);
    if table@.contains_key(key) {
        let i = choose|i: int|
            0 <= i < table.entries@.len() && (#[trigger] table.entries@[i]).0@ == key;
        assert(path_key(folders[i]) == key);
        assert(folders[i] == table.entries@[i].1.path@);
    }
    if has_key(folders, key) {
        let i = choose|i: int| 0 <= i < folders.len() && path_key(#[trigger] folders[i]) == key;
        assert(table.entries@[i].0@ == key);
    }
}

/// Adds a file to a list and to the list of its extension.
fn push_indexed_artifact(
    indices: &mut Vec<usize>,
    by_extension: &mut Table<Vec<usize>>,
    artifact: &DeletedArtifactLocator,
)
    requires
        old(by_extension).wf(),
    ensures
        final(indices)@ == old(indices)@.push(artifact.result_index),
        final(by_extension).wf(),
        forall|ext: Seq<char>| #[trigger]
            list_at(final(by_extension)@, ext) == if listed_extension(*artifact) == Some(ext) {
                list_at(old(by_extension)@, ext).push(artifact.result_index)
            } else {
                list_at(old(by_extension)@, ext)
            },
{
    indices.push(artifact.result_index);
    if let Some(ext) = locator_extension(artifact) {
        by_extension.push_to(ext.as_str(), artifact.result_index);
    }
}

/// Counts a file in its folder and in the folders above it.
fn count_upward(counts: &mut Table<usize>, folder: &str, root: &str)
    requires
        old(counts).wf(),
    ensures
        final(counts).wf(),
        forall|k: Seq<char>| #[trigger]
            count_at(final(counts)@, k) == capped(
                count_at(old(counts)@, k) as nat + times(upward_keys(folder@, root@), k),
            ),
{
    let key = normalize_browser_path(folder);
    counts.increment(key.as_str());
    let upper = collect_artifact_ancestors(folder, root);
    let ghost keys = upward_keys(folder@, root@);
    let ghost start = old(counts)@;
    let mut i: usize = 0;
    proof {
        assert(keys.len() == 1 + upper@.len());
        assert(keys[0] == path_key(folder@));
        assert forall|k: Seq<char>| #[trigger]
            count_at(counts@, k) == capped(
                count_at(start, k) as nat + times(keys.subrange(0, 1), k),
            ) by {
            assert(keys.subrange(0, 1).drop_last() =~= seq![]);
            assert(times(keys.subrange(0, 1).drop_last(), k) == 0);
        }
    }
    while i < upper.len()
        invariant
            i <= upper@.len(),
            counts.wf(),
            keys == upward_keys(folder@, root@),
            list_views(upper@) == ancestors(folder@, root@),
            keys.len() == 1 + upper@.len(),
            forall|k: Seq<char>| #[trigger]
                count_at(counts@, k) == capped(
                    count_at(start, k) as nat + times(keys.subrange(0, i + 1), k),
                ),
        decreases upper@.len() - i,
    {
        let key = normalize_browser_path(upper[i].as_str());
        let ghost before = counts@;
        counts.increment(key.as_str());
        proof {
            assert(list_views(upper@)[i as int] == upper@[i as int]@);
            assert(keys[i + 1] == path_key(upper@[i as int]@));
            assert(keys.subrange(0, i + 2).drop_last() =~= keys.subrange(0, i + 1));
            assert forall|k: Seq<char>| #[trigger]
                count_at(counts@, k) == capped(
                    count_at(start, k) as nat + times(keys.subrange(0, i + 2), k),
                ) by {
                assert(count_at(before, k) == capped(
                    count_at(start, k) as nat + times(keys.subrange(0, i + 1), k),
                ));
            }
        }
        i += 1;
    }
    assert(keys.subrange(0, i + 1) =~= keys);
}

/// Adds the folders on the way to a folder that are not in the tree yet.
fn register_deleted_folder_hierarchy(
    folder_path: &str,
    root_path: &str,
    folders: &mut Table<DeletedFolderNode>,
    by_parent: &mut Table<Vec<DeletedFolderNode>>,
    Ghost(paths): Ghost<Seq<Seq<char>>>,
)
    requires
        old(folders).wf(),
        old(by_parent).wf(),
        folder_table(old(folders).entries@, first_paths(paths), root_path@),
        child_table(old(by_parent)@, first_paths(paths), root_path@),
    ensures
        final(folders).wf(),
        final(by_parent).wf(),
        folder_table(
            final(folders).entries@,
            first_paths(paths + folder_chain(folder_path@, root_path@)),
            root_path@,
        ),
        child_table(
            final(by_parent)@,
            first_paths(paths + folder_chain(folder_path@, root_path@)),
            root_path@,
        ),
{
    let chain = collect_folder_hierarchy(folder_path, root_path);
    let root_key = normalize_browser_path(root_path);
    let ghost added = folder_chain(folder_path@, root_path@);
    let mut i: usize = 0;
    assert(paths + added.subrange(0, 0) =~= paths);
    while i < chain.len()
        invariant
            i <= chain@.len(),
            list_views(chain@) == added,
            root_key@ == path_key(root_path@),
            folders.wf(),
            by_parent.wf(),
            folder_table(
                folders.entries@,
                first_paths(paths + added.subrange(0, i as int)),
                root_path@,
            ),
            child_table(
                by_parent@,
                first_paths(paths + added.subrange(0, i as int)),
                root_path@,
            ),
        decreases chain@.len() - i,
    {
        let candidate = &chain[i];
        let key = normalize_browser_path(candidate.as_str());
        let ghost before = paths + added.subrange(0, i as int);
        let ghost after = paths + added.subrange(0, i + 1);
        let ghost known = first_paths(before);
        proof {
            assert(list_views(chain@)[i as int] == candidate@);
            assert(after.drop_last() =~= before);
            assert(after.last() == candidate@);
            lemma_folder_table_keys(*folders, known, root_path@, key@);
        }
        if !folders.contains_key(key.as_str()) {
            let parent_path: Option<String> = if *key.as_str() == *root_key.as_str() {
                None
            } else {
                Some(parent_directory_path(candidate.as_str(), root_path))
            };
            let parent_key: Option<String> = match &parent_path {
                Some(path) => Some(normalize_browser_path(path.as_str())),
                None => None,
            };
            let node = DeletedFolderNode {
                path: candidate.clone(),
                parent_path,
                name: folder_name(candidate.as_str()),
            };
            let ghost parents = by_parent@;
            folders.insert_new(key, node.clone());
            proof {
                assert(first_paths(after) == known.push(candidate@));
                assert(folder_table(folders.entries@, known.push(candidate@), root_path@));
                assert(known.push(candidate@).drop_last() =~= known);
            }
            match parent_key {
                Some(parent) => {
                    by_parent.push_to(parent.as_str(), node);
                    proof {
                        assert forall|k: Seq<char>|
                            node_paths(#[trigger] list_at(by_parent@, k)) == children_of(
                                known.push(candidate@),
                                root_path@,
                                k,
                            ) && nodes_ok(list_at(by_parent@, k), root_path@) by {
                            assert(node_paths(list_at(parents, k)) == children_of(
                                known,
                                root_path@,
                                k,
                            ));
                            if k == parent@ {
                                assert(node_paths(list_at(by_parent@, k)) =~= node_paths(
                                    list_at(parents, k),
                                ).push(candidate@));
                            }
                        }
                    }
                },
                None => {
                    proof {
                        assert forall|k: Seq<char>|
                            node_paths(#[trigger] list_at(by_parent@, k)) == children_of(
                                known.push(candidate@),
                                root_path@,
                                k,
                            ) && nodes_ok(list_at(by_parent@, k), root_path@) by {}
                    }
                },
            }
        }
        i += 1;
    }
    assert(added.subrange(0, i as int) =~= added);
}

impl DeletedBrowseCacheBuilder {
    /// Adds a deleted file.
    pub fn add_artifact(&mut self, artifact: &DeletedArtifactLocator)
        requires
            old(self).wf(),
        ensures
            final(self).wf(),
            final(self).root() == old(self).root(),
            final(self).added() == old(self).added().push(*artifact),
    {
        let ghost locators = self.seen@;
        let ghost longer = locators.push(*artifact);
        let ghost root = self.root_path@;
        proof {
            assert(longer.drop_last() =~= locators);
        }
        match deleted_artifact_browser_path(artifact, self.root_path.as_str()) {
            Some(path) => {
                let canonical_path = canonicalize_browser_path(path.as_str());
                let folder = parent_directory_path(
                    canonical_path.as_str(),
                    self.root_path.as_str(),
                );
                let key = normalize_browser_path(folder.as_str());
                self.direct.push_to(key.as_str(), artifact.result_index);
                count_upward(&mut self.counts, folder.as_str(), self.root_path.as_str());
                register_deleted_folder_hierarchy(
                    folder.as_str(),
                    self.root_path.as_str(),
                    &mut self.folders,
                    &mut self.by_parent,
                    Ghost(all_folders(locators, root)),
                );
            },
            None => {
                if artifact.probable_path.is_some() {
                    push_indexed_artifact(
                        &mut self.probable,
                        &mut self.probable_by_extension,
                        artifact,
                    );
                } else {
                    push_indexed_artifact(
                        &mut self.unknown,
                        &mut self.unknown_by_extension,
                        artifact,
                    );
                }
                assert(all_folders(longer, root) =~= all_folders(locators, root));
            },
        }
        self.seen = Ghost(longer);
        proof {
            assert forall|k: Seq<char>| #[trigger]
                list_at(self.direct@, k) == direct_indices(longer, root, k) by {
                assert(list_at(old(self).direct@, k) == direct_indices(locators, root, k));
            }
            assert forall|k: Seq<char>| #[trigger]
                count_at(self.counts@, k) == capped(subtree_count(longer, root, k)) by {
                assert(count_at(old(self).counts@, k) == capped(
                    subtree_count(locators, root, k),
                ));
            }
            assert forall|ext: Seq<char>| #[trigger]
                list_at(self.unknown_by_extension@, ext) == filter_mapped(
                    longer,
                    with_extension(unknown_index(root), ext),
                ) by {
                assert(list_at(old(self).unknown_by_extension@, ext) == filter_mapped(
                    locators,
                    with_extension(unknown_index(root), ext),
                ));
            }
            assert forall|ext: Seq<char>| #[trigger]
                list_at(self.probable_by_extension@, ext) == filter_mapped(
                    longer,
                    with_extension(probable_index(root), ext),
                ) by {
                assert(list_at(old(self).probable_by_extension@, ext) == filter_mapped(
                    locators,
                    with_extension(probable_index(root), ext),
                ));
            }
        }
    }
}

// ---------------------------------------------------------------------------
// The order of folders, and the routes to deleted files.

/// Folders by their name, upper and lower case alike.
pub open spec fn by_folder_name() -> spec_fn(DeletedFolderNode, DeletedFolderNode) -> bool {
    |a: DeletedFolderNode, b: DeletedFolderNode|
        text_before(unicode_lower(a.name@), unicode_lower(b.name@))
}

proof fn lemma_folder_name_order()
    ensures
        strict_weak_order(by_folder_name()),
{
    let rel = by_folder_name();
    assert forall|a: DeletedFolderNode, b: DeletedFolderNode| #[trigger] rel(a, b) implies !rel(
        b,
        a,
    ) by {
        lemma_text_before_asymmetric(unicode_lower(a.name@), unicode_lower(b.name@));
    }
    assert forall|a: DeletedFolderNode, b: DeletedFolderNode, c: DeletedFolderNode|
        !(#[trigger] rel(b, a)) && !(#[trigger] rel(c, b)) implies !rel(c, a) by {
        lemma_text_before_transitive(
            unicode_lower(a.name@),
            unicode_lower(b.name@),
            unicode_lower(c.name@),
        );
    }
}

/// Sorts folders by their name.
fn sort_nodes(nodes: Vec<DeletedFolderNode>) -> (r: Vec<DeletedFolderNode>)
    ensures
        stable_sorted(nodes@, r@, by_folder_name()),
{
    let before = |a: &DeletedFolderNode, b: &DeletedFolderNode| -> (r: bool)
        ensures
            r == text_before(unicode_lower(a.name@), unicode_lower(b.name@)),
        {
            let x = to_lowercase(a.name.as_str());
            let y = to_lowercase(b.name.as_str());
            str_before(x.as_str(), y.as_str())
        };
    proof {
        lemma_folder_name_order();
    }
    stable_sort_by(nodes, before, Ghost(by_folder_name()))
}

/// A copy of a list of folders.
fn clone_nodes(nodes: &Vec<DeletedFolderNode>) -> (r: Vec<DeletedFolderNode>)
    ensures
        r@ == nodes@,
{
    let mut out: Vec<DeletedFolderNode> = Vec::new();
    let mut i: usize = 0;
    while i < nodes.len()
        invariant
            i <= nodes@.len(),
            out@ == nodes@.subrange(0, i as int),
        decreases nodes@.len() - i,
    {
        out.push(nodes[i].clone());
        i += 1;
    }
    assert(out@ =~= nodes@);
    out
}

/// Every list of `sorted` is the list of `table` by name.
pub open spec fn lists_sorted(
    table: Map<Seq<char>, Vec<DeletedFolderNode>>,
    sorted: Map<Seq<char>, Vec<DeletedFolderNode>>,
) -> bool {
    &&& sorted.dom() == table.dom()
    &&& forall|k: Seq<char>| #[trigger]
        stable_sorted(list_at(table, k), list_at(sorted, k), by_folder_name())
}

/// Sorts every list of a table.
fn sort_lists(table: &Table<Vec<DeletedFolderNode>>) -> (r: Table<Vec<DeletedFolderNode>>)
    requires
        table.wf(),
    ensures
        r.wf(),
        lists_sorted(table@, r@),
{
    let mut out: Table<Vec<DeletedFolderNode>> = Table::new();
    let mut i: usize = 0;
    let ghost entries = table.entries@;
    while i < table.entries.len()
        invariant
            i <= table.entries@.len(),
            table.wf(),
            entries == table.entries@,
            out.wf(),
            out.entries@.len() == i,
            forall|j: int|
                0 <= j < i ==> (#[trigger] out.entries@[j]).0@ == entries[j].0@ && stable_sorted(
                    entries[j].1@,
                    out.entries@[j].1@,
                    by_folder_name(),
                ),
        decreases table.entries@.len() - i,
    {
        let sorted = sort_nodes(clone_nodes(&table.entries[i].1));
        let key = table.entries[i].0.clone();
        proof {
            crate::table::lemma_pairs_map(out.entries@);
            if out@.contains_key(key@) {
                let j = choose|j: int|
                    0 <= j < out.entries@.len() && (#[trigger] out.entries@[j]).0@ == key@;
                assert(entries[j].0@ != entries[i as int].0@);
            }
        }
        out.insert_new(key, sorted);
        i += 1;
    }
    proof {
        crate::table::lemma_pairs_map(entries);
        crate::table::lemma_pairs_map(out.entries@);
        assert forall|k: Seq<char>| table@.contains_key(k) == out@.contains_key(k) by {
            if table@.contains_key(k) {
                let j = choose|j: int| 0 <= j < entries.len() && (#[trigger] entries[j]).0@ == k;
                assert(out.entries@[j].0@ == k);
            }
            if out@.contains_key(k) {
                let j = choose|j: int|
                    0 <= j < out.entries@.len() && (#[trigger] out.entries@[j]).0@ == k;
                assert(entries[j].0@ == k);
            }
        }
        assert(out@.dom() =~= table@.dom());
        assert forall|k: Seq<char>| #[trigger]
            stable_sorted(list_at(table@, k), list_at(out@, k), by_folder_name()) by {
            if table@.contains_key(k) {
                let j = choose|j: int| 0 <= j < entries.len() && (#[trigger] entries[j]).0@ == k;
                assert(out.entries@[j].0@ == k);
            } else {
                let none = Seq::<DeletedFolderNode>::empty();
                let perm = Seq::<usize>::empty();
                assert(perm.map_values(|x: usize| none[x as int]) =~= none);
                assert(stable_sorted_by(none, none, perm, by_folder_name()));
            }
        }
    }
    out
}

/// A list holds a folder with the key.
pub open spec fn list_has(nodes: Seq<DeletedFolderNode>, key: Seq<char>) -> bool {
    exists|i: int| 0 <= i < nodes.len() && path_key((#[trigger] nodes[i]).path@) == key
}

/// No two folders of a list have the same key.
pub open spec fn keys_apart(nodes: Seq<DeletedFolderNode>) -> bool {
    forall|i: int, j: int|
        0 <= i < j < nodes.len() ==> path_key((#[trigger] nodes[i]).path@) != path_key(
            (#[trigger] nodes[j]).path@,
        )
}

/// Going from the folder `above` towards `folder` leads through the folder with key `next`.
pub open spec fn leads_through(
    folders: Seq<Seq<char>>,
    folder: Seq<char>,
    above: Seq<char>,
    key: Seq<char>,
    next: Seq<char>,
) -> bool {
    &&& path_key(above) == key
    &&& child_on_route(above, folder) is Some
    &&& path_key(child_on_route(above, folder)->0) == next
    &&& has_key(folders, next)
}

/// One of the first `n` folders above `folder` has the key, and leads through `next`.
pub open spec fn route_of_folder(
    folders: Seq<Seq<char>>,
    root: Seq<char>,
    folder: Seq<char>,
    n: int,
    key: Seq<char>,
    next: Seq<char>,
) -> bool {
    exists|j: int|
        0 <= j < n && #[trigger] leads_through(
            folders,
            folder,
            ancestors(folder, root)[j],
            key,
            next,
        )
}

/// One of the first `n` folders has a route from `key` through `next`.
pub open spec fn route_of_folders(
    folders: Seq<Seq<char>>,
    root: Seq<char>,
    n: int,
    key: Seq<char>,
    next: Seq<char>,
) -> bool {
    exists|i: int|
        0 <= i < n && #[trigger] route_of_folder(
            folders,
            root,
            folders[i],
            ancestors(folders[i], root).len() as int,
            key,
            next,
        )
}

/// The folder with key `next` is shown in the folder with key `key`: it stands directly
/// below it, or on the way to a deeper folder.
pub open spec fn is_route(
    folders: Seq<Seq<char>>,
    root: Seq<char>,
    key: Seq<char>,
    next: Seq<char>,
) -> bool {
    has_key(children_of(folders, root, key), next) || route_of_folders(
        folders,
        root,
        folders.len() as int,
        key,
        next,
    )
}

/// Every folder of the lists is one of the tree.
pub open spec fn nodes_known(
    nodes: Seq<DeletedFolderNode>,
    folders: Seq<Seq<char>>,
    root: Seq<char>,
) -> bool {
    forall|i: int|
        0 <= i < nodes.len() ==> node_for(#[trigger] nodes[i], nodes[i].path@, root)
            && folders.contains(nodes[i].path@)
}

/// Lists of folders of the tree without repetition.
pub open spec fn route_lists_ok(
    table: Map<Seq<char>, Vec<DeletedFolderNode>>,
    folders: Seq<Seq<char>>,
    root: Seq<char>,
) -> bool {
    forall|k: Seq<char>|
        keys_apart(#[trigger] list_at(table, k)) && nodes_known(list_at(table, k), folders, root)
}

/// Whether a list holds a folder with the key.
fn has_node(nodes: &[DeletedFolderNode], key: &str) -> (r: bool)
    ensures
        r == list_has(nodes@, key@),
{
    let mut i: usize = 0;
    while i < nodes.len()
        invariant
            i <= nodes@.len(),
            forall|j: int| 0 <= j < i ==> path_key((#[trigger] nodes@[j]).path@) != key@,
        decreases nodes@.len() - i,
    {
        let here = normalize_browser_path(nodes[i].path.as_str());
        if *here.as_str() == *key {
            assert(path_key(nodes@[i as int].path@) == key@);
            return true;
        }
        i += 1;
    }
    false
}

/// Adds a folder to the list of a key unless it is there.
fn add_route(
    routes: &mut Table<Vec<DeletedFolderNode>>,
    key: &str,
    node: DeletedFolderNode,
    Ghost(folders): Ghost<Seq<Seq<char>>>,
    Ghost(root): Ghost<Seq<char>>,
)
    requires
        old(routes).wf(),
        route_lists_ok(old(routes)@, folders, root),
        node_for(node, node.path@, root),
        folders.contains(node.path@),
    ensures
        final(routes).wf(),
        route_lists_ok(final(routes)@, folders, root),
        forall|k: Seq<char>, q: Seq<char>| #[trigger]
            list_has(list_at(final(routes)@, k), q) <==> list_has(list_at(old(routes)@, k), q) || (k
                == key@ && q == path_key(node.path@)),
{
    let node_key = normalize_browser_path(node.path.as_str());
    let ghost before = routes@;
    if !has_node(routes.list(key), node_key.as_str()) {
        routes.push_to(key, node);
        proof {
            assert forall|k: Seq<char>|
                keys_apart(#[trigger] list_at(routes@, k)) && nodes_known(
                    list_at(routes@, k),
                    folders,
                    root,
                ) by {
                assert(keys_apart(list_at(before, k)) && nodes_known(
                    list_at(before, k),
                    folders,
                    root,
                ));
            }
            assert forall|k: Seq<char>, q: Seq<char>| #[trigger]
                list_has(list_at(routes@, k), q) <==> list_has(list_at(before, k), q) || (k == key@
                    && q == path_key(node.path@)) by {
                let now = list_at(routes@, k);
                let then_list = list_at(before, k);
                if list_has(then_list, q) {
                    let i = choose|i: int|
                        0 <= i < then_list.len() && path_key((#[trigger] then_list[i]).path@) == q;
                    assert(now[i] == then_list[i]);
                }
                if k == key@ && q == path_key(node.path@) {
                    assert(path_key(now[then_list.len() as int].path@) == q);
                }
                if list_has(now, q) {
                    let i = choose|i: int|
                        0 <= i < now.len() && path_key((#[trigger] now[i]).path@) == q;
                    if i < then_list.len() {
                        assert(path_key(then_list[i].path@) == q);
                    }
                }
            }
        }
    }
}

/// The folders that are shown in each folder.
fn build_route_folders_by_parent(
    root_path: &str,
    folders: &Table<DeletedFolderNode>,
    by_parent: &Table<Vec<DeletedFolderNode>>,
    Ghost(paths): Ghost<Seq<Seq<char>>>,
) -> (r: Table<Vec<DeletedFolderNode>>)
    requires
        folders.wf(),
        by_parent.wf(),
        folder_table(folders.entries@, paths, root_path@),
        child_table(by_parent@, paths, root_path@),
    ensures
        r.wf(),
        route_lists_ok(r@, paths, root_path@),
        forall|k: Seq<char>, q: Seq<char>| #[trigger]
            list_has(list_at(r@, k), q) <==> is_route(paths, root_path@, k, q),
        forall|k: Seq<char>, i: int, j: int|
            0 <= i < j < list_at(r@, k).len() ==> !by_folder_name()(
                #[trigger] list_at(r@, k)[j],
                #[trigger] list_at(r@, k)[i],
            ),
{
    let ghost root = root_path@;
    let ghost parents = by_parent.entries@;
    let mut routes: Table<Vec<DeletedFolderNode>> = Table::new();
    proof {
        assert forall|k: Seq<char>|
            keys_apart(#[trigger] list_at(routes@, k)) && nodes_known(
                list_at(routes@, k),
                paths,
                root,
            ) by {}
        crate::table::lemma_pairs_map(parents);
    }
    let mut i: usize = 0;
    while i < by_parent.entries.len()
        invariant
            i <= by_parent.entries@.len(),
            parents == by_parent.entries@,
            root == root_path@,
            by_parent.wf(),
            child_table(by_parent@, paths, root),
            routes.wf(),
            route_lists_ok(routes@, paths, root),
            forall|k: Seq<char>, q: Seq<char>| #[trigger]
                list_has(list_at(routes@, k), q) <==> listed_upto(parents, i as int, 0, k, q),
        decreases by_parent.entries@.len() - i,
    {
        let mut j: usize = 0;
        while j < by_parent.entries[i].1.len()
            invariant
                i < by_parent.entries@.len(),
                j <= parents[i as int].1@.len(),
                parents == by_parent.entries@,
                root == root_path@,
                by_parent.wf(),
                child_table(by_parent@, paths, root),
                routes.wf(),
                route_lists_ok(routes@, paths, root),
                forall|k: Seq<char>, q: Seq<char>| #[trigger]
                    list_has(list_at(routes@, k), q) <==> listed_upto(
                        parents,
                        i as int,
                        j as int,
                        k,
                        q,
                    ),
            decreases parents[i as int].1@.len() - j,
        {
            let node = by_parent.entries[i].1[j].clone();
            let ghost key = parents[i as int].0@;
            let ghost before = routes@;
            proof {
                crate::table::lemma_pairs_map(parents);
                let list = list_at(by_parent@, key);
                assert(list == parents[i as int].1@);
                assert(node_paths(list) == children_of(paths, root, key));
                assert(nodes_ok(list, root));
                assert(node_paths(list)[j as int] == node.path@);
                crate::seqs::lemma_kept_sound(paths, below_key(root, key));
                assert(paths.contains(children_of(paths, root, key)[j as int]));
            }
            add_route(
                &mut routes,
                by_parent.entries[i].0.as_str(),
                node,
                Ghost(paths),
                Ghost(root),
            );
            proof {
                assert forall|k: Seq<char>, q: Seq<char>| #[trigger]
                    list_has(list_at(routes@, k), q) <==> listed_upto(
                        parents,
                        i as int,
                        j + 1,
                        k,
                        q,
                    ) by {
                    assert(list_has(list_at(before, k), q) <==> listed_upto(
                        parents,
                        i as int,
                        j as int,
                        k,
                        q,
                    ));
                    lemma_listed_step(parents, i as int, j as int, k, q);
                }
            }
            j += 1;
        }
        proof {
            assert forall|k: Seq<char>, q: Seq<char>| #[trigger]
                list_has(list_at(routes@, k), q) <==> listed_upto(parents, i + 1, 0, k, q) by {
                lemma_listed_row(parents, i as int, k, q);
            }
        }
        i += 1;
    }
    proof {
        assert forall|k: Seq<char>, q: Seq<char>| #[trigger]
            list_has(list_at(routes@, k), q) <==> has_key(children_of(paths, root, k), q)
                || route_of_folders(paths, root, 0, k, q) by {
            lemma_listed_all(*by_parent, paths, root, k, q);
        }
    }
    let mut n: usize = 0;
    while n < folders.entries.len()
        invariant
            n <= folders.entries@.len(),
            root == root_path@,
            folders.wf(),
            folder_table(folders.entries@, paths, root),
            routes.wf(),
            route_lists_ok(routes@, paths, root),
            forall|k: Seq<char>, q: Seq<char>| #[trigger]
                list_has(list_at(routes@, k), q) <==> has_key(children_of(paths, root, k), q)
                    || route_of_folders(paths, root, n as int, k, q),
        decreases folders.entries@.len() - n,
    {
        let folder = &folders.entries[n].1;
        let upper = collect_artifact_ancestors(folder.path.as_str(), root_path);
        let ghost here = paths[n as int];
        assert(folder.path@ == here);
        let mut m: usize = 0;
        while m < upper.len()
            invariant
                n < folders.entries@.len(),
                m <= upper@.len(),
                root == root_path@,
                here == paths[n as int],
                folder.path@ == here,
                list_views(upper@) == ancestors(here, root),
                folders.wf(),
                folder_table(folders.entries@, paths, root),
                routes.wf(),
                route_lists_ok(routes@, paths, root),
                forall|k: Seq<char>, q: Seq<char>| #[trigger]
                    list_has(list_at(routes@, k), q) <==> has_key(children_of(paths, root, k), q)
                        || route_of_folders(paths, root, n as int, k, q) || route_of_folder(
                        paths,
                        root,
                        here,
                        m as int,
                        k,
                        q,
                    ),
            decreases upper@.len() - m,
        {
            let above = &upper[m];
            let ghost before = routes@;
            let ghost a = above@;
            assert(list_views(upper@)[m as int] == a);
            assert(ancestors(here, root)[m as int] == a);
            let above_key = normalize_browser_path(above.as_str());
            match immediate_child_folder_path(above.as_str(), folder.path.as_str()) {
                Some(route_path) => {
                    let route_key = normalize_browser_path(route_path.as_str());
                    proof {
                        lemma_folder_table_keys(*folders, paths, root, route_key@);
                    }
                    if let Some(route) = folders.get(route_key.as_str()) {
                        add_route(
                            &mut routes,
                            above_key.as_str(),
                            route.clone(),
                            Ghost(paths),
                            Ghost(root),
                        );
                    }
                },
                None => {},
            }
            proof {
                assert forall|k: Seq<char>, q: Seq<char>| #[trigger]
                    list_has(list_at(routes@, k), q) <==> has_key(
                        children_of(paths, root, k),
                        q,
                    ) || route_of_folders(paths, root, n as int, k, q) || route_of_folder(
                        paths,
                        root,
                        here,
                        m + 1,
                        k,
                        q,
                    ) by {
                    assert(list_has(list_at(before, k), q) <==> has_key(
                        children_of(paths, root, k),
                        q,
                    ) || route_of_folders(paths, root, n as int, k, q) || route_of_folder(
                        paths,
                        root,
                        here,
                        m as int,
                        k,
                        q,
                    ));
                    lemma_route_step(paths, root, here, m as int, k, q);
                }
            }
            m += 1;
        }
        proof {
            assert forall|k: Seq<char>, q: Seq<char>| #[trigger]
                list_has(list_at(routes@, k), q) <==> has_key(children_of(paths, root, k), q)
                    || route_of_folders(paths, root, n + 1, k, q) by {
                lemma_route_row(paths, root, n as int, k, q);
            }
        }
        n += 1;
    }
    let sorted = sort_lists(&routes);
    proof {
        lemma_folder_name_order();
        assert forall|k: Seq<char>|
            keys_apart(#[trigger] list_at(sorted@, k)) && nodes_known(
                list_at(sorted@, k),
                paths,
                root,
            ) by {
            lemma_sorted_routes(list_at(routes@, k), list_at(sorted@, k), paths, root);
        }
        assert forall|k: Seq<char>, q: Seq<char>| #[trigger]
            list_has(list_at(sorted@, k), q) <==> is_route(paths, root, k, q) by {
            lemma_sorted_routes(list_at(routes@, k), list_at(sorted@, k), paths, root);
            assert(list_has(list_at(routes@, k), q) <==> is_route(paths, root, k, q));
        }
        assert forall|k: Seq<char>, i: int, j: int|
            0 <= i < j < list_at(sorted@, k).len() implies !by_folder_name()(
            #[trigger] list_at(sorted@, k)[j],
            #[trigger] list_at(sorted@, k)[i],
        ) by {
            assert(stable_sorted(list_at(routes@, k), list_at(sorted@, k), by_folder_name()));
            crate::sort::lemma_stable_sorted_keeps_items(
                list_at(routes@, k),
                list_at(sorted@, k),
                by_folder_name(),
            );
        }
    }
    sorted
}

/// Sorting a list of routes keeps its folders and their keys apart.
proof fn lemma_sorted_routes(
    list: Seq<DeletedFolderNode>,
    sorted: Seq<DeletedFolderNode>,
    paths: Seq<Seq<char>>,
    root: Seq<char>,
)
    requires
        stable_sorted(list, sorted, by_folder_name()),
        keys_apart(list),
        nodes_known(list, paths, root),
    ensures
        keys_apart(sorted),
        nodes_known(sorted, paths, root),
        forall|q: Seq<char>| #[trigger] list_has(sorted, q) <==> list_has(list, q),
{
    lemma_folder_name_order();
    let f = |n: DeletedFolderNode| path_key(n.path@);
    crate::sort::lemma_stable_sorted_keeps_items(list, sorted, by_folder_name());
    assert forall|i: int, j: int| 0 <= i < j < list.len() implies f(#[trigger] list[i]) != f(
        #[trigger] list[j],
    ) by {}
    crate::sort::lemma_stable_sorted_keeps_apart(list, sorted, by_folder_name(), f);
    assert(keys_apart(sorted)) by {
        assert forall|i: int, j: int| 0 <= i < j < sorted.len() implies path_key(
            (#[trigger] sorted[i]).path@,
        ) != path_key((#[trigger] sorted[j]).path@) by {
            assert(f(sorted[i]) != f(sorted[j]));
        }
    }
    assert forall|i: int| 0 <= i < sorted.len() implies node_for(
        #[trigger] sorted[i],
        sorted[i].path@,
        root,
    ) && paths.contains(sorted[i].path@) by {
        assert(list.contains(sorted[i]));
        let j = choose|j: int| 0 <= j < list.len() && list[j] == sorted[i];
        assert(node_for(list[j], list[j].path@, root));
    }
    assert forall|q: Seq<char>| #[trigger] list_has(sorted, q) <==> list_has(list, q) by {
        if list_has(sorted, q) {
            let i = choose|i: int|
                0 <= i < sorted.len() && path_key((#[trigger] sorted[i]).path@) == q;
            assert(list.contains(sorted[i]));
            let j = choose|j: int| 0 <= j < list.len() && list[j] == sorted[i];
            assert(path_key(list[j].path@) == q);
        }
        if list_has(list, q) {
            let i = choose|i: int| 0 <= i < list.len() && path_key((#[trigger] list[i]).path@) == q;
            crate::sort::lemma_stable_sorted_loses_nothing(list, sorted, by_folder_name(), i);
            let j = choose|j: int| 0 <= j < sorted.len() && sorted[j] == list[i];
            assert(path_key(sorted[j].path@) == q);
        }
    }
}

/// The folder with key `q` stands in the first `i` lists under the key `k`, or among the
/// first `j` of the next list.
spec fn listed_upto(
    lists: Seq<(String, Vec<DeletedFolderNode>)>,
    i: int,
    j: int,
    k: Seq<char>,
    q: Seq<char>,
) -> bool {
    ||| exists|a: int| 0 <= a < i && (#[trigger] lists[a]).0@ == k && list_has(lists[a].1@, q)
    ||| j > 0 && lists[i].0@ == k && list_has(lists[i].1@.subrange(0, j), q)
}

proof fn lemma_listed_step(
    lists: Seq<(String, Vec<DeletedFolderNode>)>,
    i: int,
    j: int,
    k: Seq<char>,
    q: Seq<char>,
)
    requires
        0 <= i < lists.len(),
        0 <= j < lists[i].1@.len(),
    ensures
        listed_upto(lists, i, j + 1, k, q) <==> listed_upto(lists, i, j, k, q) || (k == lists[i].0@
            && q == path_key(lists[i].1@[j].path@)),
{
    let list = lists[i].1@;
    let now = list.subrange(0, j + 1);
    let prior = list.subrange(0, j);
    if list_has(now, q) {
        let a = choose|a: int| 0 <= a < now.len() && path_key((#[trigger] now[a]).path@) == q;
        if a < j {
            assert(path_key(prior[a].path@) == q);
        }
    }
    if list_has(prior, q) {
        let a = choose|a: int| 0 <= a < prior.len() && path_key((#[trigger] prior[a]).path@) == q;
        assert(path_key(now[a].path@) == q);
    }
    if q == path_key(list[j].path@) {
        assert(path_key(now[j].path@) == q);
    }
}

proof fn lemma_listed_row(
    lists: Seq<(String, Vec<DeletedFolderNode>)>,
    i: int,
    k: Seq<char>,
    q: Seq<char>,
)
    requires
        0 <= i < lists.len(),
    ensures
        listed_upto(lists, i + 1, 0, k, q) <==> listed_upto(
            lists,
            i,
            lists[i].1@.len() as int,
            k,
            q,
        ),
{
    let list = lists[i].1@;
    assert(list.subrange(0, list.len() as int) =~= list);
    if lists[i].0@ == k && list_has(list, q) {
        assert(list.len() > 0);
    }
    if listed_upto(lists, i + 1, 0, k, q) {
        let a = choose|a: int|
            0 <= a < i + 1 && (#[trigger] lists[a]).0@ == k && list_has(lists[a].1@, q);
        if a < i {
            assert(lists[a].0@ == k);
        }
    }
    if exists|a: int| 0 <= a < i && (#[trigger] lists[a]).0@ == k && list_has(lists[a].1@, q) {
        let a = choose|a: int|
            0 <= a < i && (#[trigger] lists[a]).0@ == k && list_has(lists[a].1@, q);
        assert(0 <= a < i + 1);
    }
}

proof fn lemma_listed_all(
    by_parent: Table<Vec<DeletedFolderNode>>,
    paths: Seq<Seq<char>>,
    root: Seq<char>,
    k: Seq<char>,
    q: Seq<char>,
)
    requires
        by_parent.wf(),
        child_table(by_parent@, paths, root),
    ensures
        listed_upto(by_parent.entries@, by_parent.entries@.len() as int, 0, k, q) <==> has_key(
            children_of(paths, root, k),
            q,
        ),
{
    let lists = by_parent.entries@;
    crate::table::lemma_pairs_map(lists);
    let list = list_at(by_parent@, k);
    assert(node_paths(list) == children_of(paths, root, k));
    assert(list_has(list, q) <==> has_key(node_paths(list), q)) by {
        if list_has(list, q) {
            let a = choose|a: int| 0 <= a < list.len() && path_key((#[trigger] list[a]).path@) == q;
            assert(path_key(node_paths(list)[a]) == q);
        }
        if has_key(node_paths(list), q) {
            let a = choose|a: int|
                0 <= a < node_paths(list).len() && path_key(#[trigger] node_paths(list)[a]) == q;
            assert(path_key(list[a].path@) == q);
        }
    }
    if listed_upto(lists, lists.len() as int, 0, k, q) {
        let a = choose|a: int|
            0 <= a < lists.len() && (#[trigger] lists[a]).0@ == k && list_has(lists[a].1@, q);
        assert(by_parent@[lists[a].0@] == lists[a].1);
    }
    if list_has(list, q) {
        assert(by_parent@.contains_key(k));
        let a = choose|a: int| 0 <= a < lists.len() && (#[trigger] lists[a]).0@ == k;
        assert(by_parent@[lists[a].0@] == lists[a].1);
        assert(list_has(lists[a].1@, q));
    }
}

proof fn lemma_route_step(
    paths: Seq<Seq<char>>,
    root: Seq<char>,
    folder: Seq<char>,
    m: int,
    k: Seq<char>,
    q: Seq<char>,
)
    requires
        0 <= m < ancestors(folder, root).len(),
    ensures
        route_of_folder(paths, root, folder, m + 1, k, q) <==> route_of_folder(
            paths,
            root,
            folder,
            m,
            k,
            q,
        ) || leads_through(paths, folder, ancestors(folder, root)[m], k, q),
{
    if route_of_folder(paths, root, folder, m + 1, k, q) {
        let j = choose|j: int|
            0 <= j < m + 1 && #[trigger] leads_through(
                paths,
                folder,
                ancestors(folder, root)[j],
                k,
                q,
            );
        if j < m {
            assert(leads_through(paths, folder, ancestors(folder, root)[j], k, q));
        }
    }
    if route_of_folder(paths, root, folder, m, k, q) {
        let j = choose|j: int|
            0 <= j < m && #[trigger] leads_through(
                paths,
                folder,
                ancestors(folder, root)[j],
                k,
                q,
            );
        assert(0 <= j < m + 1);
    }
}

proof fn lemma_route_row(
    paths: Seq<Seq<char>>,
    root: Seq<char>,
    n: int,
    k: Seq<char>,
    q: Seq<char>,
)
    requires
        0 <= n < paths.len(),
    ensures
        route_of_folders(paths, root, n + 1, k, q) <==> route_of_folders(paths, root, n, k, q)
            || route_of_folder(
            paths,
            root,
            paths[n],
            ancestors(paths[n], root).len() as int,
            k,
            q,
        ),
{
    if route_of_folders(paths, root, n + 1, k, q) {
        let i = choose|i: int|
            0 <= i < n + 1 && #[trigger] route_of_folder(
                paths,
                root,
                paths[i],
                ancestors(paths[i], root).len() as int,
                k,
                q,
            );
        if i < n {
            assert(0 <= i < n);
        }
    }
    if route_of_folders(paths, root, n, k, q) {
        let i = choose|i: int|
            0 <= i < n && #[trigger] route_of_folder(
                paths,
                root,
                paths[i],
                ancestors(paths[i], root).len() as int,
                k,
                q,
            );
        assert(0 <= i < n + 1);
    }
}

// ---------------------------------------------------------------------------
// The finished tree.

/// The folder tree in which deleted files are shown.
pub struct DeletedBrowseCache {
    pub root_path: String,
    pub direct_artifact_indices_by_folder: Table<Vec<usize>>,
    pub synthetic_folders: Table<DeletedFolderNode>,
    pub synthetic_folders_by_parent: Table<Vec<DeletedFolderNode>>,
    pub route_folders_by_parent: Table<Vec<DeletedFolderNode>>,
    pub subtree_deleted_counts: Table<usize>,
    pub unknown_artifact_indices: Vec<usize>,
    pub unknown_artifact_indices_by_extension: Table<Vec<usize>>,
    pub probable_artifact_indices: Vec<usize>,
    pub probable_artifact_indices_by_extension: Table<Vec<usize>>,
}

impl DeletedBrowseCache {
    /// No table holds a key twice.
    pub open spec fn wf(&self) -> bool {
        &&& self.direct_artifact_indices_by_folder.wf()
        &&& self.synthetic_folders.wf()
        &&& self.synthetic_folders_by_parent.wf()
        &&& self.route_folders_by_parent.wf()
        &&& self.subtree_deleted_counts.wf()
        &&& self.unknown_artifact_indices_by_extension.wf()
        &&& self.probable_artifact_indices_by_extension.wf()
    }

    /// The tree shows the given files below the given root.
    pub open spec fn shows(&self, locators: Seq<DeletedArtifactLocator>, root: Seq<char>) -> bool {
        let folders = tree_folders(locators, root);
        &&& self.wf()
        &&& self.root_path@ == root
        &&& forall|k: Seq<char>| #[trigger]
            list_at(self.direct_artifact_indices_by_folder@, k) == direct_indices(
                locators,
                root,
                k,
            )
        &&& forall|k: Seq<char>| #[trigger]
            count_at(self.subtree_deleted_counts@, k) == capped(subtree_count(locators, root, k))
        &&& folder_table(self.synthetic_folders.entries@, folders, root)
        &&& exists|unsorted: Map<Seq<char>, Vec<DeletedFolderNode>>| #[trigger]
            child_table(unsorted, folders, root) && lists_sorted(
                unsorted,
                self.synthetic_folders_by_parent@,
            )
        &&& route_lists_ok(self.route_folders_by_parent@, folders, root)
        &&& forall|k: Seq<char>, q: Seq<char>| #[trigger]
            list_has(list_at(self.route_folders_by_parent@, k), q) <==> is_route(
                folders,
                root,
                k,
                q,
            )
        &&& forall|k: Seq<char>, i: int, j: int|
            0 <= i < j < list_at(self.route_folders_by_parent@, k).len() ==> !by_folder_name()(
                #[trigger] list_at(self.route_folders_by_parent@, k)[j],
                #[trigger] list_at(self.route_folders_by_parent@, k)[i],
            )
        &&& self.unknown_artifact_indices@ == filter_mapped(locators, unknown_index(root))
        &&& self.probable_artifact_indices@ == filter_mapped(locators, probable_index(root))
        &&& extension_table(
            self.unknown_artifact_indices_by_extension@,
            locators,
            unknown_index(root),
        )
        &&& extension_table(
            self.probable_artifact_indices_by_extension@,
            locators,
            probable_index(root),
        )
    }

    /// Whether a folder has folders that only deleted files have.
    pub fn has_deleted_child_folder(&self, path: &str) -> (r: bool)
        requires
            self.wf(),
        ensures
            r == (list_at(self.route_folders_by_parent@, path_key(path@)).len() > 0),
    {
        let key = normalize_browser_path(path);
        self.route_folders_by_parent.list(key.as_str()).len() > 0
    }

    /// The files that are shown in a folder.
    pub fn direct_artifact_indices_for_folder(&self, normalized_path: &str) -> (r: &[usize])
        requires
            self.wf(),
        ensures
            r@ == list_at(self.direct_artifact_indices_by_folder@, normalized_path@),
    {
        self.direct_artifact_indices_by_folder.list(normalized_path)
    }
}

impl DeletedBrowseCacheBuilder {
    /// The finished tree.
    pub fn finish(self) -> (r: DeletedBrowseCache)
        requires
            self.wf(),
        ensures
            r.shows(self.added(), self.root()),
    {
        let ghost folders = tree_folders(self.seen@, self.root_path@);
        let routes = build_route_folders_by_parent(
            self.root_path.as_str(),
            &self.folders,
            &self.by_parent,
            Ghost(folders),
        );
        let sorted = sort_lists(&self.by_parent);
        assert(child_table(self.by_parent@, folders, self.root_path@));
        DeletedBrowseCache {
            root_path: self.root_path,
            direct_artifact_indices_by_folder: self.direct,
            synthetic_folders: self.folders,
            synthetic_folders_by_parent: sorted,
            route_folders_by_parent: routes,
            subtree_deleted_counts: self.counts,
            unknown_artifact_indices: self.unknown,
            unknown_artifact_indices_by_extension: self.unknown_by_extension,
            probable_artifact_indices: self.probable,
            probable_artifact_indices_by_extension: self.probable_by_extension,
        }
    }
}

/// The tree of the deleted files of a source; only a mounted source has one.
pub fn build_deleted_browse_cache(
    source: &ScanSource,
    deleted_artifacts: &Vec<DeletedArtifactLocator>,
) -> (r: Option<DeletedBrowseCache>)
    ensures
        match source.mount_point {
            Some(mount) => r matches Some(cache) && cache.shows(
                deleted_artifacts@,
                canonical(mount@),
            ),
            None => r is None,
        },
{
    match &source.mount_point {
        Some(mount) => {
            let root = canonicalize_browser_path(mount.as_str());
            let mut builder = DeletedBrowseCacheBuilder::new(root);
            let mut i: usize = 0;
            while i < deleted_artifacts.len()
                invariant
                    i <= deleted_artifacts@.len(),
                    builder.wf(),
                    builder.root() == canonical(mount@),
                    builder.added() == deleted_artifacts@.subrange(0, i as int),
                decreases deleted_artifacts@.len() - i,
            {
                builder.add_artifact(&deleted_artifacts[i]);
                assert(deleted_artifacts@.subrange(0, i + 1) =~= deleted_artifacts@.subrange(
                    0,
                    i as int,
                ).push(deleted_artifacts@[i as int]));
                i += 1;
            }
            assert(deleted_artifacts@.subrange(0, i as int) =~= deleted_artifacts@);
            Some(builder.finish())
        },
        None => None,
    }
}

// ---------------------------------------------------------------------------
// What holds of every tree.

/// Every deleted file has one place: it is shown in exactly one folder, or among the files
/// with a probable place elsewhere, or among those without any place.
pub proof fn lemma_files_have_one_place(l: DeletedArtifactLocator, root: Seq<char>)
    ensures
        placed_folder(l, root) is Some ==> direct_index(
            root,
            path_key(placed_folder(l, root)->0),
        )(l) == Some(l.result_index),
        forall|k: Seq<char>| #[trigger]
            direct_index(root, k)(l) is Some ==> placed_folder(l, root) is Some && k == path_key(
                placed_folder(l, root)->0,
            ),
        placed_folder(l, root) is Some ==> probable_index(root)(l) is None && unknown_index(root)(
            l,
        ) is None,
        placed_folder(l, root) is None ==> (probable_index(root)(l) == Some(l.result_index)
            && unknown_index(root)(l) is None) || (unknown_index(root)(l) == Some(l.result_index)
            && probable_index(root)(l) is None),
{
}

/// A folder counts at least the files that are shown in it.
pub proof fn lemma_folders_count_their_files(
    locators: Seq<DeletedArtifactLocator>,
    root: Seq<char>,
    key: Seq<char>,
)
    ensures
        direct_indices(locators, root, key).len() <= subtree_count(locators, root, key),
    decreases locators.len(),
{
    if locators.len() > 0 {
        lemma_folders_count_their_files(locators.drop_last(), root, key);
        if let Some(folder) = placed_folder(locators.last(), root) {
            let keys = upward_keys(folder, root);
            assert(keys[0] == path_key(folder));
            if path_key(folder) == key {
                lemma_count_if(keys, same_key(key));
                assert(same_key(key)(keys[0]));
            }
        }
    }
}

/// A folder above a path has bytes where the root has characters.
proof fn lemma_parent_is_not_empty(path: Seq<char>, root: Seq<char>)
    requires
        root.len() > 0,
    ensures
        parent_dir(path, root).len() > 0,
{
    let croot = canonical(root);
    assert(croot.len() == root.len());
    assert(byte_length(croot) > 0) by {
        vstd::utf8::encode_utf8_first_scalar(croot);
    }
    assert(byte_length(Seq::<char>::empty()) == 0);
    let up = parent_dir(path, root);
    if up.len() == 0 {
        assert(up =~= Seq::<char>::empty());
    }
}

/// From a folder to one above it with a key, the way ends with a folder that stands directly
/// below that key.
proof fn lemma_last_step_of_the_way(folder: Seq<char>, root: Seq<char>, key: Seq<char>, j: int) -> (p:
    Seq<char>)
    requires
        root.len() > 0,
        folder.len() > 0,
        path_key(folder) != key,
        0 <= j < ancestors(folder, root).len(),
        path_key(ancestors(folder, root)[j]) == key,
    ensures
        folder_chain(folder, root).contains(p),
        below_key(root, key)(p),
    decreases path_rank(folder, root),
{
    let up = parent_dir(folder, root);
    let chain = folder_chain(folder, root);
    lemma_parent_is_nearer(folder, root);
    lemma_parent_is_not_empty(folder, root);
    assert(chain.last() == folder);
    assert(chain[chain.len() - 1] == folder);
    if path_key(up) == key {
        folder
    } else {
        assert(upper_folders(up, root)[0] == up);
        assert(ancestors(up, root).len() == upper_folders(up, root).len() - 1);
        assert(ancestors(up, root)[j - 1] == upper_folders(up, root)[j]);
        let p = lemma_last_step_of_the_way(up, root, key, j - 1);
        let i = choose|i: int| 0 <= i < folder_chain(up, root).len() && folder_chain(up, root)[i] == p;
        assert(chain[i] == p);
        p
    }
}

/// The tree has a folder for every key that comes up, and only folders that come up.
proof fn lemma_first_paths(paths: Seq<Seq<char>>)
    ensures
        forall|i: int| 0 <= i < paths.len() ==> has_key(first_paths(paths), path_key(#[trigger] paths[i])),
        forall|i: int|
            0 <= i < first_paths(paths).len() ==> paths.contains(#[trigger] first_paths(paths)[i]),
    decreases paths.len(),
{
    if paths.len() > 0 {
        let before = paths.drop_last();
        let front = first_paths(before);
        let all = first_paths(paths);
        lemma_first_paths(before);
        assert forall|i: int| 0 <= i < paths.len() implies has_key(all, path_key(#[trigger] paths[i])) by {
            if i < before.len() {
                assert(before[i] == paths[i]);
                let j = choose|j: int| 0 <= j < front.len() && path_key(#[trigger] front[j]) == path_key(paths[i]);
                assert(all[j] == front[j]);
            } else if !has_key(front, path_key(paths.last())) {
                assert(all[front.len() as int] == paths.last());
            }
        }
        assert forall|i: int| 0 <= i < all.len() implies paths.contains(#[trigger] all[i]) by {
            if i < front.len() {
                let x = front[i];
                assert(all[i] == x);
                let j = choose|j: int| 0 <= j < before.len() && before[j] == x;
                assert(paths[j] == x);
            } else {
                assert(paths[paths.len() - 1] == all[i]);
            }
        }
    }
}

/// A folder that counts deleted files holds one of them, or is on the way to one.
proof fn lemma_counted_folder_leads_on(
    locators: Seq<DeletedArtifactLocator>,
    root: Seq<char>,
    key: Seq<char>,
) -> (p: Seq<char>)
    requires
        root.len() > 0,
        subtree_count(locators, root, key) > 0,
        direct_indices(locators, root, key).len() == 0,
    ensures
        all_folders(locators, root).contains(p),
        below_key(root, key)(p),
    decreases locators.len(),
{
    let before = locators.drop_last();
    let all = all_folders(locators, root);
    if subtree_count(before, root, key) > 0 {
        let p = lemma_counted_folder_leads_on(before, root, key);
        let i = choose|i: int| 0 <= i < all_folders(before, root).len() && all_folders(before, root)[i] == p;
        assert(all[i] == p);
        p
    } else {
        let folder = placed_folder(locators.last(), root)->0;
        let keys = upward_keys(folder, root);
        lemma_count_if(keys, same_key(key));
        let i = choose|i: int| 0 <= i < keys.len() && same_key(key)(#[trigger] keys[i]);
        let path = placed_path(locators.last(), root)->0;
        lemma_parent_is_not_empty(canonical(path), root);
        assert(path_key(folder) != key);
        assert(keys[i] == path_key((seq![folder] + ancestors(folder, root))[i]));
        let p = lemma_last_step_of_the_way(folder, root, key, i - 1);
        let chain = folder_chain(folder, root);
        let j = choose|j: int| 0 <= j < chain.len() && chain[j] == p;
        assert(all[all_folders(before, root).len() + j] == p);
        p
    }
}

/// Two spellings of one folder stand in the folder with the key, or neither does.
pub open spec fn spelled_alike(folders: Seq<Seq<char>>, root: Seq<char>, key: Seq<char>) -> bool {
    forall|i: int, j: int|
        0 <= i < folders.len() && 0 <= j < folders.len() && path_key(#[trigger] folders[i])
            == path_key(#[trigger] folders[j]) ==> below_key(root, key)(folders[i]) == below_key(
            root,
            key,
        )(folders[j])
}

/// A folder that counts deleted files and holds none of them itself always shows a folder
/// that leads on to them.
pub proof fn lemma_counted_folders_show_the_way(
    cache: DeletedBrowseCache,
    locators: Seq<DeletedArtifactLocator>,
    root: Seq<char>,
    key: Seq<char>,
)
    requires
        cache.shows(locators, root),
        root.len() > 0,
        subtree_count(locators, root, key) > 0,
        direct_indices(locators, root, key).len() == 0,
        spelled_alike(all_folders(locators, root), root, key),
    ensures
        list_at(cache.route_folders_by_parent@, key).len() > 0,
{
    let all = all_folders(locators, root);
    let folders = tree_folders(locators, root);
    let p = lemma_counted_folder_leads_on(locators, root, key);
    let i = choose|i: int| 0 <= i < all.len() && all[i] == p;
    lemma_first_paths(all);
    assert(has_key(folders, path_key(all[i])));
    let t = choose|t: int| 0 <= t < folders.len() && path_key(#[trigger] folders[t]) == path_key(p);
    assert(all.contains(folders[t]));
    let j = choose|j: int| 0 <= j < all.len() && all[j] == folders[t];
    assert(below_key(root, key)(all[i]) == below_key(root, key)(all[j]));
    lemma_kept_complete(folders, below_key(root, key), t);
    let shown = children_of(folders, root, key);
    let s = choose|s: int| 0 <= s < shown.len() && shown[s] == folders[t];
    assert(path_key(shown[s]) == path_key(p));
    assert(is_route(folders, root, key, path_key(p)));
    assert(list_has(list_at(cache.route_folders_by_parent@, key), path_key(p)));
}

} // verus!
