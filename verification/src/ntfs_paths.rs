//! Paths of deleted files, from the directory records of the master file table.

use crate::model::{PathConfidence, PathEvidenceSource, PlacementKind};
use crate::text::{chars_match_at, chars_of, opt_view, owned, string_of, strip_back, trim_end_char};
use crate::bytes::occurs_at;
use std::collections::HashMap;
use vstd::prelude::*;
use vstd::string::*;

verus! {

broadcast use vstd::std_specs::hash::group_hash_axioms;

/// The record number of the root directory.
pub const ROOT_RECORD: u64 = 5;

/// The name of a record that the file system prefers, and the directory that holds it.
#[derive(Debug)]
pub struct BestName {
    pub name: String,
    pub parent_reference: u64,
}

/// What path reconstruction reads of a record of the master file table.
#[derive(Debug)]
pub struct MftRecord {
    pub reference: u64,
    pub used: bool,
    pub directory: bool,
    pub best_name: Option<BestName>,
}

/// The records of the master file table by number, and the path of the volume.
#[derive(Debug)]
pub struct MftIndex {
    pub volume_path: String,
    pub records: Vec<Option<MftRecord>>,
}

/// The record number in a file reference.
pub open spec fn record_number(reference: u64) -> u64 {
    reference & 0x0000_ffff_ffff_ffff
}

pub fn ntfs_reference_record_number(reference: u64) -> (r: u64)
    ensures
        r == record_number(reference),
{
    reference & 0x0000_ffff_ffff_ffff
}

/// A path with one more component.
pub open spec fn path_joined(base: Seq<char>, part: Seq<char>) -> Seq<char> {
    if base.len() > 0 && base.last() != '\\' && base.last() != '/' {
        base.push('\\') + part
    } else {
        base + part
    }
}

pub fn join_path(base: &str, part: &str) -> (r: String)
    ensures
        r@ == path_joined(base@, part@),
{
    let chars = chars_of(base);
    let n: usize = chars.len();
    let mut out = owned(base);
    if n > 0 && chars[n - 1] != '\\' && chars[n - 1] != '/' {
        out.push('\\');
    }
    out.append(part);
    out
}

/// The paths of directories that are known already, by file reference.
#[derive(Debug)]
pub struct PathCache {
    paths: HashMap<u64, String>,
}

impl View for PathCache {
    type V = Map<u64, Seq<char>>;

    closed spec fn view(&self) -> Map<u64, Seq<char>> {
        self.paths@.map_values(|s: String| s@)
    }
}

impl PathCache {
    pub fn new() -> (r: Self)
        ensures
            r@ == Map::<u64, Seq<char>>::empty(),
    {
        let r = PathCache { paths: HashMap::new() };
        assert(r@ =~= Map::<u64, Seq<char>>::empty());
        r
    }

    pub fn get(&self, reference: u64) -> (r: Option<&String>)
        ensures
            match r {
                Some(path) => self@.contains_key(reference) && self@[reference] == path@,
                None => !self@.contains_key(reference),
            },
    {
        self.paths.get(&reference)
    }

    pub fn insert(&mut self, reference: u64, path: String)
        ensures
            final(self)@ == old(self)@.insert(reference, path@),
    {
        self.paths.insert(reference, path);
        assert(self@ =~= old(self)@.insert(reference, path@));
    }
}

// ---------------------------------------------------------------------------
// The way up to the root.

/// The directories from a file up to the root, or up to one whose path is known.
pub struct DirectoryChain {
    /// The directories, the nearest first, with their file references.
    pub components: Seq<(u64, Seq<char>)>,
    pub known: Option<Seq<char>>,
    pub mismatch: bool,
    pub deleted: bool,
}

/// The chain that starts at `reference`. `visited` holds the record numbers that were met
/// before, `mismatch` says that a file reference on the way was out of date.
pub open spec fn directory_chain(
    records: Seq<Option<MftRecord>>,
    cache: Map<u64, Seq<char>>,
    reference: u64,
    visited: Seq<u64>,
    mismatch: bool,
) -> Option<DirectoryChain>
    decreases records.len() - visited.len(),
{
    let number = record_number(reference);
    if number == ROOT_RECORD {
        Some(DirectoryChain { components: seq![], known: None, mismatch, deleted: false })
    } else if visited.contains(number) {
        None
    } else if !mismatch && cache.contains_key(reference) {
        Some(
            DirectoryChain {
                components: seq![],
                known: Some(cache[reference]),
                mismatch,
                deleted: false,
            },
        )
    } else if number >= records.len() || visited.len() >= records.len() {
        None
    } else {
        match records[number as int] {
            None => None,
            Some(record) => match record.best_name {
                None => None,
                Some(best) => if best.name@.len() == 0 {
                    None
                } else {
                    below(
                        record.reference,
                        best.name@,
                        !record.used,
                        directory_chain(
                            records,
                            cache,
                            best.parent_reference,
                            visited.push(number),
                            mismatch || record.reference != reference,
                        ),
                    )
                },
            },
        }
    }
}

/// A chain with one more directory at its start.
pub open spec fn below(
    reference: u64,
    name: Seq<char>,
    deleted: bool,
    rest: Option<DirectoryChain>,
) -> Option<DirectoryChain> {
    match rest {
        None => None,
        Some(chain) => Some(
            DirectoryChain {
                components: seq![(reference, name)] + chain.components,
                known: chain.known,
                mismatch: chain.mismatch,
                deleted: chain.deleted || deleted,
            },
        ),
    }
}

/// A chain with several more directories at its start.
pub open spec fn below_all(
    components: Seq<(u64, Seq<char>)>,
    deleted: bool,
    rest: Option<DirectoryChain>,
) -> Option<DirectoryChain> {
    match rest {
        None => None,
        Some(chain) => Some(
            DirectoryChain {
                components: components + chain.components,
                known: chain.known,
                mismatch: chain.mismatch,
                deleted: chain.deleted || deleted,
            },
        ),
    }
}

/// The path of the nearest directory of a chain.
pub open spec fn chain_path(base: Seq<char>, components: Seq<(u64, Seq<char>)>) -> Seq<char>
    decreases components.len(),
{
    if components.len() == 0 {
        base
    } else {
        path_joined(chain_path(base, components.drop_first()), components[0].1)
    }
}

/// The known paths after those of a chain have been added.
pub open spec fn chain_cache(
    cache: Map<u64, Seq<char>>,
    base: Seq<char>,
    components: Seq<(u64, Seq<char>)>,
) -> Map<u64, Seq<char>>
    decreases components.len(),
{
    if components.len() == 0 {
        cache
    } else {
        chain_cache(cache, base, components.drop_first()).insert(
            components[0].0,
            chain_path(base, components),
        )
    }
}

/// A path that was put together from directory records.
#[derive(Debug)]
pub struct PathResolution {
    pub path: String,
    pub placement_kind: PlacementKind,
    pub confidence: PathConfidence,
    pub evidence_source: PathEvidenceSource,
    pub note: &'static str,
}

pub open spec fn chain_base(volume_path: Seq<char>, chain: DirectoryChain) -> Seq<char> {
    match chain.known {
        Some(path) => path,
        None => volume_path,
    }
}

/// The path of a file below a chain.
pub open spec fn resolved_path(
    volume_path: Seq<char>,
    chain: DirectoryChain,
    name: Seq<char>,
) -> Seq<char> {
    path_joined(chain_path(chain_base(volume_path, chain), chain.components), name)
}

/// The known paths after a file has been placed below a chain. A chain with an out-of-date
/// reference adds nothing.
pub open spec fn resolved_cache(
    cache: Map<u64, Seq<char>>,
    volume_path: Seq<char>,
    chain: DirectoryChain,
    file_reference: u64,
    name: Seq<char>,
) -> Map<u64, Seq<char>> {
    if chain.mismatch {
        cache
    } else {
        chain_cache(cache, chain_base(volume_path, chain), chain.components).insert(
            file_reference,
            resolved_path(volume_path, chain, name),
        )
    }
}

/// How sure a path is that a chain gives.
pub open spec fn chain_confidence(chain: DirectoryChain) -> PathConfidence {
    if chain.mismatch {
        PathConfidence::Partial
    } else if chain.deleted {
        PathConfidence::Reconstructed
    } else {
        PathConfidence::Exact
    }
}

pub open spec fn chain_placement(chain: DirectoryChain) -> PlacementKind {
    if chain.mismatch {
        PlacementKind::BrokenParentChain
    } else {
        PlacementKind::OriginalPath
    }
}

pub open spec fn chain_source(chain: DirectoryChain) -> PathEvidenceSource {
    if chain.mismatch {
        PathEvidenceSource::MftSequenceMismatch
    } else if chain.deleted {
        PathEvidenceSource::MftDeletedDirectory
    } else {
        PathEvidenceSource::MftExact
    }
}

pub open spec fn chain_note(chain: DirectoryChain) -> Seq<char> {
    if chain.mismatch {
        "Parent MFT record number was still present, but the sequence value changed; path is probable, not exact."@
    } else if chain.deleted {
        "Path was reconstructed through one or more deleted directory MFT records."@
    } else {
        "Parent MFT references matched through the directory chain."@
    }
}

/// The directories and their names as they are collected.
pub open spec fn component_views(components: Seq<(u64, String)>) -> Seq<(u64, Seq<char>)> {
    components.map_values(|c: (u64, String)| (c.0, c.1@))
}

/// Numbers below `n` that all differ are at most `n`.
proof fn lemma_distinct_below(visited: Seq<u64>, n: int)
    requires
        visited.no_duplicates(),
        0 <= n,
        forall|i: int| 0 <= i < visited.len() ==> #[trigger] visited[i] < n,
    ensures
        visited.len() <= n,
{
    let numbers = visited.map_values(|x: u64| x as int);
    assert(numbers.no_duplicates()) by {
        assert forall|i: int, j: int|
            0 <= i < numbers.len() && 0 <= j < numbers.len() && i != j implies numbers[i]
            != numbers[j] by {
            assert(visited[i] != visited[j]);
        }
    }
    numbers.unique_seq_to_set();
    let range = vstd::set_lib::set_int_range(0, n);
    vstd::set_lib::lemma_int_range(0, n);
    assert(numbers.to_set().subset_of(range)) by {
        assert forall|x: int| numbers.to_set().contains(x) implies range.contains(x) by {
            let i = choose|i: int| 0 <= i < numbers.len() && numbers[i] == x;
            assert(visited[i] < n);
        }
    }
    vstd::set_lib::lemma_len_subset(numbers.to_set(), range);
}

fn visited_before(visited: &Vec<u64>, number: u64) -> (r: bool)
    ensures
        r == visited@.contains(number),
{
    let mut i: usize = 0;
    while i < visited.len()
        invariant
            i <= visited@.len(),
            forall|j: int| 0 <= j < i ==> visited@[j] != number,
        decreases visited@.len() - i,
    {
        if visited[i] == number {
            assert(visited@[i as int] == number);
            return true;
        }
        i += 1;
    }
    false
}

/// The walk up from a directory, as it is collected.
struct CollectedChain {
    components: Vec<(u64, String)>,
    known: Option<String>,
    mismatch: bool,
    deleted: bool,
}

spec fn collected(c: CollectedChain) -> DirectoryChain {
    DirectoryChain {
        components: component_views(c.components@),
        known: opt_view(c.known),
        mismatch: c.mismatch,
        deleted: c.deleted,
    }
}

fn walk_up(records: &Vec<Option<MftRecord>>, cache: &PathCache, start: u64) -> (r: Option<
    CollectedChain,
>)
    ensures
        match directory_chain(records@, cache@, start, seq![], false) {
            None => r is None,
            Some(chain) => r matches Some(c) && collected(c) == chain,
        },
{
    let mut reference: u64 = start;
    let mut components: Vec<(u64, String)> = Vec::new();
    let mut mismatch: bool = false;
    let mut deleted: bool = false;
    let mut visited: Vec<u64> = Vec::new();
    let ghost whole = directory_chain(records@, cache@, start, seq![], false);
    proof {
        assert(visited@ =~= seq![]);
        match whole {
            None => {},
            Some(chain) => {
                assert(component_views(components@) + chain.components =~= chain.components);
            },
        }
    }
    loop
        invariant
            visited@.no_duplicates(),
            forall|i: int| 0 <= i < visited@.len() ==> #[trigger] visited@[i] < records@.len(),
            whole == below_all(
                component_views(components@),
                deleted,
                directory_chain(records@, cache@, reference, visited@, mismatch),
            ),
            whole == directory_chain(records@, cache@, start, seq![], false),
        decreases records@.len() - visited@.len(),
    {
        let number: u64 = ntfs_reference_record_number(reference);
        if number == ROOT_RECORD {
            proof {
                assert(component_views(components@) + seq![] =~= component_views(components@));
            }
            return Some(CollectedChain { components, known: None, mismatch, deleted });
        }
        if visited_before(&visited, number) {
            return None;
        }
        if !mismatch {
            if let Some(path) = cache.get(reference) {
                proof {
                    assert(component_views(components@) + seq![] =~= component_views(components@));
                }
                return Some(
                    CollectedChain {
                        components,
                        known: Some(path.clone()),
                        mismatch,
                        deleted,
                    },
                );
            }
        }
        proof {
            lemma_distinct_below(visited@, records@.len() as int);
        }
        if number >= records.len() as u64 {
            return None;
        }
        proof {
            let more = visited@.push(number);
            assert(more.no_duplicates());
            assert forall|i: int| 0 <= i < more.len() implies #[trigger] more[i]
                < records@.len() by {
                if i < visited@.len() {
                    assert(more[i] == visited@[i]);
                }
            }
            lemma_distinct_below(more, records@.len() as int);
        }
        match &records[number as usize] {
            None => {
                return None;
            },
            Some(record) => match &record.best_name {
                None => {
                    return None;
                },
                Some(best) => {
                    if best.name.as_str().is_empty() {
                        return None;
                    }
                    let ghost before = component_views(components@);
                    let ghost was_deleted = deleted;
                    let ghost next = directory_chain(
                        records@,
                        cache@,
                        best.parent_reference,
                        visited@.push(number),
                        mismatch || record.reference != reference,
                    );
                    if record.reference != reference {
                        mismatch = true;
                    }
                    if !record.used {
                        deleted = true;
                    }
                    components.push((record.reference, best.name.clone()));
                    visited.push(number);
                    reference = best.parent_reference;
                    proof {
                        let now = component_views(components@);
                        assert(now =~= before.push((record.reference, best.name@)));
                        match next {
                            None => {},
                            Some(chain) => {
                                assert(now + chain.components =~= before + (seq![
                                    (record.reference, best.name@),
                                ] + chain.components));
                            },
                        }
                    }
                },
            },
        }
    }
}

/// Puts the path of a file together from the records of its directories. Where every reference
/// on the way is up to date, the paths on the way become known.
pub fn reconstruct_file_name_candidate_path(
    mft: &MftIndex,
    cache: &mut PathCache,
    file_reference: u64,
    name: &str,
    parent_reference: u64,
) -> (r: Option<PathResolution>)
    ensures
        match directory_chain(mft.records@, old(cache)@, parent_reference, seq![], false) {
            None => r is None && final(cache)@ == old(cache)@,
            Some(chain) => {
                &&& r matches Some(resolution) && {
                    &&& resolution.path@ == resolved_path(mft.volume_path@, chain, name@)
                    &&& resolution.placement_kind == chain_placement(chain)
                    &&& resolution.confidence == chain_confidence(chain)
                    &&& resolution.evidence_source == chain_source(chain)
                    &&& resolution.note@ == chain_note(chain)
                }
                &&& final(cache)@ == resolved_cache(
                    old(cache)@,
                    mft.volume_path@,
                    chain,
                    file_reference,
                    name@,
                )
            },
        },
{
    let chain = match walk_up(&mft.records, cache, parent_reference) {
        Some(chain) => chain,
        None => {
            return None;
        },
    };
    let ghost model = collected(chain);
    let ghost base = chain_base(mft.volume_path@, model);
    let mut path: String = match &chain.known {
        Some(known) => known.clone(),
        None => mft.volume_path.clone(),
    };
    let mut i: usize = chain.components.len();
    proof {
        let n = chain.components@.len() as int;
        assert(model.components.subrange(n, n) =~= seq![]);
    }
    while i > 0
        invariant
            i <= chain.components@.len(),
            model == collected(chain),
            path@ == chain_path(
                base,
                model.components.subrange(i as int, model.components.len() as int),
            ),
            cache@ == if chain.mismatch {
                old(cache)@
            } else {
                chain_cache(
                    old(cache)@,
                    base,
                    model.components.subrange(i as int, model.components.len() as int),
                )
            },
        decreases i,
    {
        i -= 1;
        proof {
            let n = model.components.len() as int;
            let now = model.components.subrange(i as int, n);
            assert(now.drop_first() =~= model.components.subrange(i + 1, n));
            assert(now[0] == (chain.components@[i as int].0, chain.components@[i as int].1@));
        }
        path = join_path(path.as_str(), chain.components[i].1.as_str());
        if !chain.mismatch {
            cache.insert(chain.components[i].0, path.clone());
        }
    }
    proof {
        assert(model.components.subrange(0, model.components.len() as int) =~= model.components);
    }
    path = join_path(path.as_str(), name);
    if !chain.mismatch {
        cache.insert(file_reference, path.clone());
    }
    if chain.mismatch {
        Some(
            PathResolution {
                path,
                placement_kind: PlacementKind::BrokenParentChain,
                confidence: PathConfidence::Partial,
                evidence_source: PathEvidenceSource::MftSequenceMismatch,
                note: "Parent MFT record number was still present, but the sequence value changed; path is probable, not exact.",
            },
        )
    } else if chain.deleted {
        Some(
            PathResolution {
                path,
                placement_kind: PlacementKind::OriginalPath,
                confidence: PathConfidence::Reconstructed,
                evidence_source: PathEvidenceSource::MftDeletedDirectory,
                note: "Path was reconstructed through one or more deleted directory MFT records.",
            },
        )
    } else {
        Some(
            PathResolution {
                path,
                placement_kind: PlacementKind::OriginalPath,
                confidence: PathConfidence::Exact,
                evidence_source: PathEvidenceSource::MftExact,
                note: "Parent MFT references matched through the directory chain.",
            },
        )
    }
}

// ---------------------------------------------------------------------------
// From the device to the mount point.

/// Where `pattern` first occurs in `s` at or after `from`; the length of `s` plus one where it
/// does not.
pub open spec fn first_occurrence(s: Seq<char>, pattern: Seq<char>, from: int) -> int
    decreases s.len() + 1 - from,
{
    if from < 0 || from + pattern.len() > s.len() {
        s.len() as int + 1
    } else if occurs_at(s, pattern, from) {
        from
    } else {
        first_occurrence(s, pattern, from + 1)
    }
}

/// `s` with the first occurrence of `pattern` replaced.
pub open spec fn replaced_first(s: Seq<char>, pattern: Seq<char>, with: Seq<char>) -> Seq<char> {
    let at = first_occurrence(s, pattern, 0);
    if at > s.len() {
        s
    } else {
        s.subrange(0, at) + with + s.subrange(at + pattern.len(), s.len() as int)
    }
}

pub fn replace_first(s: &str, pattern: &str, with: &str) -> (r: String)
    ensures
        r@ == replaced_first(s@, pattern@, with@),
{
    let text = chars_of(s);
    let chars = chars_of(pattern);
    let n: usize = text.len();
    let m: usize = chars.len();
    if m > n {
        return owned(s);
    }
    let mut i: usize = 0;
    while i <= n - m
        invariant
            m <= n,
            n == text@.len(),
            m == chars@.len(),
            text@ == s@,
            chars@ == pattern@,
            i <= n - m + 1,
            first_occurrence(s@, pattern@, 0) == first_occurrence(s@, pattern@, i as int),
        decreases n - m + 1 - i,
    {
        if chars_match_at(&text, &chars, i) {
            let mut out = string_of(&text, 0, i);
            out.append(with);
            let rest = string_of(&text, i + m, n);
            out.append(rest.as_str());
            return out;
        }
        if i == n - m {
            assert(first_occurrence(s@, pattern@, i + 1) > s@.len());
            return owned(s);
        }
        i += 1;
    }
    owned(s)
}

/// The path of a file as the user knows it: the device replaced by its mount point.
pub open spec fn normalized_path(
    device_path: Seq<char>,
    mount_point: Option<Seq<char>>,
    path: Seq<char>,
) -> Option<Seq<char>> {
    if path.len() == 0 {
        None
    } else {
        match mount_point {
            Some(root) => Some(replaced_first(path, device_path, strip_back(root, '\\'))),
            None => Some(path),
        }
    }
}

pub fn normalize_path(device_path: &str, mount_point: &Option<String>, path: &str) -> (r: Option<
    String,
>)
    ensures
        opt_view(r) == normalized_path(device_path@, opt_view(*mount_point), path@),
{
    if path.is_empty() {
        return None;
    }
    match mount_point {
        Some(root) => {
            let root = trim_end_char(root.as_str(), '\\');
            Some(replace_first(path, device_path, root.as_str()))
        },
        None => Some(owned(path)),
    }
}

// ---------------------------------------------------------------------------
// Laws.

/// A file that was placed through up-to-date references is known from then on: whatever lies
/// below it is placed below the same path.
pub proof fn lemma_placed_file_is_known(
    records: Seq<Option<MftRecord>>,
    cache: Map<u64, Seq<char>>,
    volume_path: Seq<char>,
    chain: DirectoryChain,
    file_reference: u64,
    name: Seq<char>,
)
    requires
        !chain.mismatch,
        record_number(file_reference) != ROOT_RECORD,
    ensures
        ({
            let after = resolved_cache(cache, volume_path, chain, file_reference, name);
            directory_chain(records, after, file_reference, seq![], false) == Some(
                DirectoryChain {
                    components: seq![],
                    known: Some(resolved_path(volume_path, chain, name)),
                    mismatch: false,
                    deleted: false,
                },
            )
        }),
{
}

/// A reference that is out of date never gives an exact path, and its path is never reused.
pub proof fn lemma_stale_reference_is_never_exact(
    records: Seq<Option<MftRecord>>,
    cache: Map<u64, Seq<char>>,
    volume_path: Seq<char>,
    reference: u64,
    visited: Seq<u64>,
    file_reference: u64,
    name: Seq<char>,
)
    ensures
        directory_chain(records, cache, reference, visited, true) matches Some(chain)
            ==> chain.mismatch && chain_confidence(chain) == PathConfidence::Partial
            && resolved_cache(cache, volume_path, chain, file_reference, name) == cache,
    decreases records.len() - visited.len(),
{
    let number = record_number(reference);
    if number != ROOT_RECORD && !visited.contains(number) && number < records.len()
        && visited.len() < records.len() {
        match records[number as int] {
            None => {},
            Some(record) => match record.best_name {
                None => {},
                Some(best) => {
                    lemma_stale_reference_is_never_exact(
                        records,
                        cache,
                        volume_path,
                        best.parent_reference,
                        visited.push(number),
                        file_reference,
                        name,
                    );
                },
            },
        }
    }
}

/// The record number is the lower 48 bits of a file reference: the sequence number in front of
/// them does not count.
pub proof fn lemma_record_number_is_low_part(reference: u64)
    ensures
        record_number(reference) == reference % 0x1_0000_0000_0000,
{
    assert(reference & 0x0000_ffff_ffff_ffffu64 == reference % 0x1_0000_0000_0000u64)
        by (bit_vector);
}

} // verus!
