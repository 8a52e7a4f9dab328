//! Windows paths as the browser sees them.

use crate::text::{
    after_last, ascii_lower, chars_of, concat2, ends_with_char, first_index, has_prefix, index_of_from,
    last_index, last_index_of, lemma_first_index_props, lemma_last_index_props, owned,
    replace_char, replaced, string_of,
};
use vstd::prelude::*;
use vstd::string::*;
use vstd::utf8::encode_utf8;

verus! {

/// What `str::to_lowercase` makes of a string that holds more than ASCII.
pub uninterp spec fn lower_by_tables(s: Seq<char>) -> Seq<char>;

/// A string of ASCII characters.
pub open spec fn is_ascii_text(s: Seq<char>) -> bool {
    forall|i: int| 0 <= i < s.len() ==> (#[trigger] s[i]) as u32 <= 0x7f
}

/// A string in lower case.
pub open spec fn unicode_lower(s: Seq<char>) -> Seq<char> {
    if is_ascii_text(s) {
        ascii_lower(s)
    } else {
        lower_by_tables(s)
    }
}

/// `str::to_lowercase`: the lower-case form of a string by the Unicode tables, in which each
/// character becomes one or more; of ASCII, that is `a` to `z` for `A` to `Z`.
#[verifier::external_body]
pub(crate) fn to_lowercase(s: &str) -> (r: String)
    ensures
        r@ == if is_ascii_text(s@) {
            ascii_lower(s@)
        } else {
            lower_by_tables(s@)
        },
        r@.len() >= s@.len(),
{
    s.to_lowercase()
}

/// The length of a string in bytes.
pub open spec fn byte_length(s: Seq<char>) -> int {
    encode_utf8(s).len() as int
}

/// The length of a string in bytes.
pub fn byte_len(s: &str) -> (r: usize)
    ensures
        r == byte_length(s@),
{
    s.as_bytes().len()
}

/// The path with backslashes only.
pub open spec fn canonical(path: Seq<char>) -> Seq<char> {
    replaced(path, '/', '\\')
}

/// The form in which paths are compared.
pub open spec fn path_key(path: Seq<char>) -> Seq<char> {
    unicode_lower(canonical(path))
}

pub fn canonicalize_browser_path(path: &str) -> (r: String)
    ensures
        r@ == canonical(path@),
{
    replace_char(path, '/', '\\')
}

pub fn normalize_browser_path(path: &str) -> (r: String)
    ensures
        r@ == path_key(path@),
        r@.len() >= path@.len(),
{
    to_lowercase(canonicalize_browser_path(path).as_str())
}

/// A canonical path stays as it is.
pub proof fn lemma_canonical_idempotent(path: Seq<char>)
    ensures
        canonical(canonical(path)) == canonical(path),
        canonical(path).len() == path.len(),
        !canonical(path).contains('/'),
        path_key(canonical(path)) == path_key(path),
        !path.contains('/') ==> canonical(path) == path,
{
    let c = canonical(path);
    assert forall|i: int| 0 <= i < c.len() implies c[i] != '/' by {}
    assert(canonical(c) =~= c);
    if !path.contains('/') {
        assert forall|i: int| 0 <= i < path.len() implies path[i] != '/' by {
            assert(path.contains(path[i]));
        }
        assert(c =~= path);
    }
}

/// A path lies at or below a root. An empty root holds every path; a root that ends with a
/// backslash holds what starts with it.
pub open spec fn within_root(path: Seq<char>, root: Seq<char>) -> bool {
    let p = path_key(path);
    let r = path_key(root);
    if r.len() == 0 {
        true
    } else if r.last() == '\\' {
        r.is_prefix_of(p)
    } else {
        p == r || (r + "\\"@).is_prefix_of(p)
    }
}

pub fn browser_path_is_within_root(path: &str, root_path: &str) -> (r: bool)
    ensures
        r == within_root(path@, root_path@),
{
    let p = normalize_browser_path(path);
    let root = normalize_browser_path(root_path);
    if root.as_str().is_empty() {
        return true;
    }
    if ends_with_char(root.as_str(), '\\') {
        return has_prefix(p.as_str(), root.as_str());
    }
    if *p.as_str() == *root.as_str() {
        return true;
    }
    let below = concat2(root.as_str(), "\\");
    has_prefix(p.as_str(), below.as_str())
}

/// Whether a deleted file has no place below the root.
pub fn is_unknown_deleted_path(original_path: Option<&str>, root_path: &str) -> (r: bool)
    ensures
        r == match original_path {
            Some(path) => !within_root(path@, root_path@),
            None => true,
        },
{
    match original_path {
        Some(path) => !browser_path_is_within_root(path, root_path),
        None => true,
    }
}

/// The folder above a path; never above the root, where there is one.
pub open spec fn parent_dir(path: Seq<char>, root: Seq<char>) -> Seq<char> {
    let c = canonical(path);
    let croot = canonical(root);
    let nroot = path_key(croot);
    let k = last_index(c, '\\');
    let parent = c.subrange(0, k);
    if croot.len() == 0 {
        if k < 0 {
            c
        } else if byte_length(parent) == 2 && parent.len() > 0 && parent.last() == ':' {
            parent + "\\"@
        } else {
            parent
        }
    } else if path_key(path) == nroot {
        croot
    } else if k < 0 || byte_length(parent) < byte_length(nroot) {
        croot
    } else if byte_length(parent) == 2 && parent.len() > 0 && parent.last() == ':' {
        croot
    } else if byte_length(parent) < byte_length(croot) {
        croot
    } else {
        parent
    }
}

pub fn parent_directory_path(path: &str, root_path: &str) -> (r: String)
    ensures
        r@ == parent_dir(path@, root_path@),
{
    let c = canonicalize_browser_path(path);
    let croot = canonicalize_browser_path(root_path);
    let chars = chars_of(c.as_str());
    let last = last_index_of(&chars, '\\');
    if croot.as_str().is_empty() {
        return match last {
            None => c,
            Some(k) => {
                let parent = string_of(&chars, 0, k);
                if byte_len(parent.as_str()) == 2 && ends_with_char(parent.as_str(), ':') {
                    concat2(parent.as_str(), "\\")
                } else {
                    parent
                }
            },
        };
    }
    let nroot = normalize_browser_path(croot.as_str());
    let key = normalize_browser_path(path);
    if *key.as_str() == *nroot.as_str() {
        return croot;
    }
    match last {
        None => croot,
        Some(k) => {
            let parent = string_of(&chars, 0, k);
            if byte_len(parent.as_str()) < byte_len(nroot.as_str()) {
                return croot;
            }
            if byte_len(parent.as_str()) == 2 && ends_with_char(parent.as_str(), ':') {
                return croot;
            }
            if byte_len(parent.as_str()) < byte_len(croot.as_str()) {
                croot
            } else {
                parent
            }
        },
    }
}

/// How far a path is from the end of a walk upwards.
pub open spec fn path_rank(path: Seq<char>, root: Seq<char>) -> int {
    if root.len() > 0 && path_key(path) == path_key(root) {
        0
    } else {
        1 + 2 * path.len() + if path.contains('/') {
            1int
        } else {
            0
        }
    }
}

/// The folder above a path is the path itself, or one that is nearer to the end of a walk.
pub proof fn lemma_parent_is_nearer(path: Seq<char>, root: Seq<char>)
    ensures
        parent_dir(path, root) == path || path_rank(parent_dir(path, root), root) < path_rank(
            path,
            root,
        ) || (root.len() > 0 && path_key(path) == path_key(root)),
{
    let c = canonical(path);
    let croot = canonical(root);
    let k = last_index(c, '\\');
    let up = parent_dir(path, root);
    lemma_canonical_idempotent(path);
    lemma_canonical_idempotent(root);
    lemma_last_index_props(c, '\\');
    if root.len() > 0 && up == croot {
        assert(path_key(up) == path_key(root));
    } else if k < 0 {
        assert(up == c);
        assert(!path.contains('/')) by {
            if path.contains('/') {
                let i = choose|i: int| 0 <= i < path.len() && path[i] == '/';
                assert(c[i] == '\\');
            }
        }
    } else {
        let parent = c.subrange(0, k);
        if up == parent {
            assert(up.len() < path.len());
            assert forall|i: int| 0 <= i < up.len() implies up[i] != '/' by {
                assert(c.contains(c[i]));
            }
        } else {
            reveal_strlit("\\");
            assert(up =~= c.subrange(0, k + 1));
            assert(up.len() <= path.len());
            assert forall|i: int| 0 <= i < up.len() implies up[i] != '/' by {
                assert(c.contains(c[i]));
            }
            if up.len() == path.len() {
                assert(up =~= c);
                if !path.contains('/') {
                    assert(up == path);
                }
            }
        }
    }
}

/// The folders from below the root down to `path`.
pub open spec fn folder_chain(path: Seq<char>, root: Seq<char>) -> Seq<Seq<char>>
    decreases path_rank(path, root),
{
    if path.len() == 0 || path_key(path) == path_key(root) {
        seq![]
    } else {
        proof {
            lemma_parent_is_nearer(path, root);
        }
        let up = parent_dir(path, root);
        if up == path {
            seq![path]
        } else {
            folder_chain(up, root).push(path)
        }
    }
}

/// The characters of each string of a list.
pub open spec fn list_views(list: Seq<String>) -> Seq<Seq<char>> {
    list.map_values(|s: String| s@)
}

/// The folders from below the root down to a folder.
pub fn collect_folder_hierarchy(folder_path: &str, root_path: &str) -> (r: Vec<String>)
    ensures
        list_views(r@) == folder_chain(folder_path@, root_path@),
{
    let root_key = normalize_browser_path(root_path);
    let mut upward: Vec<String> = Vec::new();
    let mut cursor: String = owned(folder_path);
    let ghost all = folder_chain(folder_path@, root_path@);
    assert(all + list_views(upward@).reverse() =~= all);
    loop
        invariant_except_break
            folder_chain(cursor@, root_path@) + list_views(upward@).reverse() == all,
        invariant
            root_key@ == path_key(root_path@),
            all == folder_chain(folder_path@, root_path@),
        ensures
            list_views(upward@).reverse() == all,
        decreases path_rank(cursor@, root_path@),
    {
        let key = normalize_browser_path(cursor.as_str());
        if cursor.as_str().is_empty() || *key.as_str() == *root_key.as_str() {
            assert(folder_chain(cursor@, root_path@) =~= seq![]);
            assert(list_views(upward@).reverse() =~= all);
            break;
        }
        let next = parent_directory_path(cursor.as_str(), root_path);
        let same = *next.as_str() == *cursor.as_str();
        let ghost before = list_views(upward@);
        let ghost here = cursor@;
        proof {
            lemma_parent_is_nearer(cursor@, root_path@);
        }
        upward.push(cursor);
        proof {
            assert(list_views(upward@) =~= before.push(here));
            assert(list_views(upward@).reverse() =~= seq![here] + before.reverse());
            if same {
                assert(folder_chain(here, root_path@) == seq![here]);
                assert(list_views(upward@).reverse() =~= all);
            } else {
                assert(folder_chain(next@, root_path@) + list_views(upward@).reverse() =~= (
                folder_chain(next@, root_path@).push(here)) + before.reverse());
            }
        }
        if same {
            break;
        }
        cursor = next;
    }
    reverse_strings(&upward)
}

/// The strings of a list in reverse order.
fn reverse_strings(list: &Vec<String>) -> (r: Vec<String>)
    ensures
        list_views(r@) == list_views(list@).reverse(),
{
    let mut out: Vec<String> = Vec::new();
    let mut i: usize = list.len();
    while i > 0
        invariant
            i <= list@.len(),
            out@.len() == list@.len() - i,
            forall|k: int| 0 <= k < out@.len() ==> #[trigger] out@[k] == list@[list@.len() - 1 - k],
        decreases i,
    {
        i -= 1;
        out.push(list[i].clone());
    }
    assert(list_views(out@) =~= list_views(list@).reverse());
    out
}

/// The folders above a path, nearest first: up to the root where there is one.
pub open spec fn upper_folders(folder: Seq<char>, root: Seq<char>) -> Seq<Seq<char>>
    decreases path_rank(folder, root),
{
    if folder.len() == 0 {
        seq![]
    } else if root.len() > 0 && path_key(folder) == path_key(root) {
        seq![folder]
    } else {
        proof {
            lemma_parent_is_nearer(folder, root);
        }
        let up = parent_dir(folder, root);
        if up == folder {
            seq![folder]
        } else {
            seq![folder] + upper_folders(up, root)
        }
    }
}

/// The folders above a path; the root has none.
pub open spec fn ancestors(path: Seq<char>, root: Seq<char>) -> Seq<Seq<char>> {
    if root.len() > 0 && path_key(path) == path_key(root) {
        seq![]
    } else {
        upper_folders(parent_dir(path, root), root)
    }
}

/// The folders above a path, nearest first.
pub fn collect_artifact_ancestors(path: &str, root_path: &str) -> (r: Vec<String>)
    ensures
        list_views(r@) == ancestors(path@, root_path@),
{
    let has_root: bool = !root_path.is_empty();
    let root_key = normalize_browser_path(root_path);
    let mut out: Vec<String> = Vec::new();
    if has_root {
        let key = normalize_browser_path(path);
        if *key.as_str() == *root_key.as_str() {
            assert(list_views(out@) =~= seq![]);
            return out;
        }
    }
    let mut cursor: String = parent_directory_path(path, root_path);
    let ghost all = upper_folders(cursor@, root_path@);
    assert(list_views(out@) + all =~= all);
    loop
        invariant_except_break
            list_views(out@) + upper_folders(cursor@, root_path@) == all,
        invariant
            has_root == (root_path@.len() > 0),
            root_key@ == path_key(root_path@),
        ensures
            list_views(out@) == all,
        decreases path_rank(cursor@, root_path@),
    {
        if cursor.as_str().is_empty() {
            assert(list_views(out@) + seq![] =~= list_views(out@));
            break;
        }
        let ghost before = list_views(out@);
        let ghost here = cursor@;
        let at_root: bool = if has_root {
            let key = normalize_browser_path(cursor.as_str());
            *key.as_str() == *root_key.as_str()
        } else {
            false
        };
        let next = parent_directory_path(cursor.as_str(), root_path);
        let same = *next.as_str() == *cursor.as_str();
        proof {
            lemma_parent_is_nearer(cursor@, root_path@);
        }
        out.push(cursor);
        proof {
            assert(list_views(out@) =~= before.push(here));
            assert(before + seq![here] =~= before.push(here));
            if !at_root && !same {
                assert(list_views(out@) + upper_folders(next@, root_path@) =~= before + (seq![here]
                    + upper_folders(next@, root_path@)));
            }
        }
        if at_root || same {
            break;
        }
        cursor = next;
    }
    out
}

/// The last component of a folder path.
pub open spec fn last_component(path: Seq<char>) -> Seq<char> {
    let t = if path.len() > 0 && path.last() == '\\' {
        path.drop_last()
    } else {
        path
    };
    match after_last(t, '\\') {
        Some(name) => name,
        None => t,
    }
}

pub fn folder_name(path: &str) -> (r: String)
    ensures
        r@ == last_component(path@),
{
    let chars = chars_of(path);
    let n: usize = if chars.len() > 0 && chars[chars.len() - 1] == '\\' {
        chars.len() - 1
    } else {
        chars.len()
    };
    let trimmed = string_of(&chars, 0, n);
    assert(trimmed@ =~= if path@.len() > 0 && path@.last() == '\\' {
        path@.drop_last()
    } else {
        path@
    });
    match crate::text::rsplit_after(trimmed.as_str(), '\\') {
        Some(name) => name,
        None => trimmed,
    }
}

/// The number of characters in the first `bytes` bytes of a string, where a character ends
/// there; the search starts at character `from`.
pub open spec fn char_split(s: Seq<char>, bytes: int, from: int) -> Option<int>
    decreases s.len() + 1 - from,
{
    if from < 0 || from > s.len() {
        None
    } else if byte_length(s.subrange(0, from)) == bytes {
        Some(from)
    } else {
        char_split(s, bytes, from + 1)
    }
}

/// The folder directly below `parent` on the way to `descendant`: none where `descendant`
/// is not below `parent`, or where the parent does not end at a character of it.
pub open spec fn child_on_route(parent: Seq<char>, descendant: Seq<char>) -> Option<Seq<char>> {
    let p = canonical(parent);
    let d = canonical(descendant);
    let key = path_key(p);
    let offset = if key.len() > 0 && key.last() == '\\' {
        byte_length(p)
    } else {
        byte_length(p) + 1
    };
    if key == path_key(d) || !within_root(d, p) || byte_length(d) <= offset {
        None
    } else {
        match char_split(d, offset, 0) {
            None => None,
            Some(at) => {
                let rest = d.subrange(at, d.len() as int);
                let child = first_index(rest, '\\');
                if child == 0 {
                    None
                } else {
                    Some(d.subrange(0, at + child))
                }
            },
        }
    }
}

fn split_at_bytes(chars: &Vec<char>, bytes: usize) -> (r: Option<usize>)
    ensures
        match r {
            Some(at) => at <= chars@.len() && char_split(chars@, bytes as int, 0) == Some(
                at as int,
            ),
            None => char_split(chars@, bytes as int, 0) is None,
        },
{
    let mut at: usize = 0;
    loop
        invariant
            at <= chars@.len(),
            char_split(chars@, bytes as int, 0) == char_split(chars@, bytes as int, at as int),
        decreases chars@.len() - at,
    {
        let head = string_of(chars, 0, at);
        if byte_len(head.as_str()) == bytes {
            return Some(at);
        }
        if at == chars.len() {
            assert(char_split(chars@, bytes as int, at + 1) is None);
            return None;
        }
        at += 1;
    }
}

pub fn immediate_child_folder_path(parent_path: &str, descendant_path: &str) -> (r: Option<String>)
    ensures
        crate::text::opt_view(r) == child_on_route(parent_path@, descendant_path@),
{
    let parent = canonicalize_browser_path(parent_path);
    let descendant = canonicalize_browser_path(descendant_path);
    let parent_key = normalize_browser_path(parent.as_str());
    let descendant_key = normalize_browser_path(descendant.as_str());
    if *parent_key.as_str() == *descendant_key.as_str() || !browser_path_is_within_root(
        descendant.as_str(),
        parent.as_str(),
    ) {
        return None;
    }
    let length: usize = byte_len(parent.as_str());
    let total: usize = byte_len(descendant.as_str());
    if total <= length {
        return None;
    }
    let offset: usize = if ends_with_char(parent_key.as_str(), '\\') {
        length
    } else {
        length + 1
    };
    if total <= offset {
        return None;
    }
    let chars = chars_of(descendant.as_str());
    match split_at_bytes(&chars, offset) {
        None => None,
        Some(at) => {
            let end: usize = index_of_from(&chars, '\\', at);
            proof {
                lemma_first_index_props(chars@.subrange(at as int, chars@.len() as int), '\\');
            }
            if end == at {
                None
            } else {
                Some(string_of(&chars, 0, end))
            }
        },
    }
}

/// The path of the folder that holds deleted files without a place.
pub open spec fn unknown_bucket(source_id: Seq<char>) -> Seq<char> {
    "rss://unknown/"@ + unicode_lower(source_id)
}

/// The path of the folder that holds deleted files with a probable place elsewhere.
pub open spec fn probable_bucket(source_id: Seq<char>) -> Seq<char> {
    "rss://probable/"@ + unicode_lower(source_id)
}

pub fn unknown_bucket_path_for_source(source_id: &str) -> (r: String)
    ensures
        r@ == unknown_bucket(source_id@),
{
    concat2("rss://unknown/", to_lowercase(source_id).as_str())
}

pub fn probable_bucket_path_for_source(source_id: &str) -> (r: String)
    ensures
        r@ == probable_bucket(source_id@),
{
    concat2("rss://probable/", to_lowercase(source_id).as_str())
}

pub fn is_unknown_bucket_path_for_source(path: &str, source_id: &str) -> (r: bool)
    ensures
        r == (path_key(path@) == path_key(unknown_bucket(source_id@))),
{
    let a = normalize_browser_path(path);
    let bucket = unknown_bucket_path_for_source(source_id);
    let b = normalize_browser_path(bucket.as_str());
    *a.as_str() == *b.as_str()
}

pub fn is_probable_bucket_path_for_source(path: &str, source_id: &str) -> (r: bool)
    ensures
        r == (path_key(path@) == path_key(probable_bucket(source_id@))),
{
    let a = normalize_browser_path(path);
    let bucket = probable_bucket_path_for_source(source_id);
    let b = normalize_browser_path(bucket.as_str());
    *a.as_str() == *b.as_str()
}

/// Slashes and backslashes separate alike.
pub proof fn lemma_separators_are_alike(path: Seq<char>, root: Seq<char>)
    ensures
        within_root(canonical(path), canonical(root)) == within_root(path, root),
        parent_dir(canonical(path), canonical(root)) == parent_dir(path, root),
        child_on_route(canonical(root), canonical(path)) == child_on_route(root, path),
{
    lemma_canonical_idempotent(path);
    lemma_canonical_idempotent(root);
}

} // verus!
