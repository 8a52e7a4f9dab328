//! The results of a scan: which are shown, how they are counted, merged and ordered.

use crate::browse_paths::{byte_len, byte_length};
use crate::model::{
    ArtifactClass, ArtifactFamily, ArtifactKind, ArtifactRecord, Confidence, FileSystemKind,
    NameSourceKind, OriginType, Recoverability, ScanCounters, ScanOptions, ScanSource,
};
use crate::ntfs_scan::{
    confidence_rank, rank_of_confidence, rank_of_recoverability, recoverability_rank,
};
use crate::numbers::{decimal, push_decimal};
use crate::records::{lemma_same_view, record_views, ArtifactView};
use crate::seqs::{keep_where, turn_around, kept, lemma_kept_step};
use crate::sort::{
    by_number, by_text, lemma_by_number, lemma_by_text, lemma_then_by, stable_sort_by,
    stable_sorted, str_before, strict_weak_order, then_by,
};
use crate::text::{
    ascii_lower, count_if, replace_char, replaced, to_ascii_lowercase, trim, trimmed,
};
use std::collections::{HashMap, HashSet};
use vstd::hash_set::StringHashSet;
use vstd::prelude::*;
use vstd::string::*;

verus! {

broadcast use vstd::std_specs::hash::group_hash_axioms;

/// How much of a volume a fast scan carves unless it is told otherwise.
pub const FAST_MODE_CARVE_BUDGET: u64 = 536870912;

// ---------------------------------------------------------------------------
// Which results are shown.

pub open spec fn high_value_extension(ext: Seq<char>) -> bool {
    let e = ascii_lower(ext);
    e == "dll"@ || e == "exe"@ || e == "sys"@ || e == "ocx"@ || e == "scr"@ || e == "cpl"@ || e
        == "mui"@ || e == "cat"@ || e == "zip"@ || e == "jar"@ || e == "apk"@ || e == "cab"@ || e
        == "7z"@ || e == "rar"@ || e == "pdf"@ || e == "sqlite"@ || e == "db"@ || e == "jpg"@ || e
        == "jpeg"@ || e == "png"@ || e == "gif"@ || e == "bmp"@ || e == "webp"@ || e == "txt"@ || e
        == "log"@ || e == "json"@ || e == "xml"@ || e == "yaml"@ || e == "yml"@ || e == "ini"@ || e
        == "cfg"@ || e == "ps1"@ || e == "bat"@ || e == "cmd"@ || e == "reg"@ || e == "lnk"@
}

pub fn is_high_value_deleted_extension(extension: &str) -> (r: bool)
    ensures
        r == high_value_extension(extension@),
{
    let lower = to_ascii_lowercase(extension);
    let e: &str = lower.as_str();
    *e == *"dll" || *e == *"exe" || *e == *"sys" || *e == *"ocx" || *e == *"scr" || *e == *"cpl"
        || *e == *"mui" || *e == *"cat" || *e == *"zip" || *e == *"jar" || *e == *"apk" || *e
        == *"cab" || *e == *"7z" || *e == *"rar" || *e == *"pdf" || *e == *"sqlite" || *e == *"db"
        || *e == *"jpg" || *e == *"jpeg" || *e == *"png" || *e == *"gif" || *e == *"bmp" || *e
        == *"webp" || *e == *"txt" || *e == *"log" || *e == *"json" || *e == *"xml" || *e == *"yaml"
        || *e == *"yml" || *e == *"ini" || *e == *"cfg" || *e == *"ps1" || *e == *"bat" || *e
        == *"cmd" || *e == *"reg" || *e == *"lnk"
}

/// An extension that says something: short, and none of those that say nothing.
pub open spec fn meaningful_extension(ext: Seq<char>) -> bool {
    let e = ascii_lower(trimmed(ext));
    e.len() > 0 && e != "tmp"@ && e != "dat"@ && e != "bin"@ && e != "chk"@ && e != "bk"@ && e
        != "old"@ && byte_length(e) <= 10
}

pub fn is_meaningful_deleted_extension(extension: &str) -> (r: bool)
    ensures
        r == meaningful_extension(extension@),
{
    let plain = trim(extension);
    let lower = to_ascii_lowercase(plain.as_str());
    let e: &str = lower.as_str();
    if e.is_empty() {
        return false;
    }
    if *e == *"tmp" || *e == *"dat" || *e == *"bin" || *e == *"chk" || *e == *"bk" || *e == *"old" {
        return false;
    }
    byte_len(e) <= 10
}

/// A result with a name of its own or a path.
pub open spec fn is_named(v: ArtifactView) -> bool {
    v.original_path is Some || v.name_source != NameSourceKind::Generated
}

/// A deleted file worth showing though little is sure of it.
pub open spec fn high_value(v: ArtifactView) -> bool {
    &&& v.deleted_entry
    &&& v.filesystem_record is Some
    &&& is_named(v)
    &&& {
        ||| v.original_path is Some
        ||| v.family == ArtifactFamily::Executable
        ||| (v.extension matches Some(e) && high_value_extension(e))
        ||| (v.extension matches Some(e) && meaningful_extension(e))
    }
}

pub fn keep_high_value_low_confidence(artifact: &ArtifactRecord) -> (r: bool)
    ensures
        r == high_value(artifact@),
{
    let named: bool = artifact.original_path.is_some() || artifact.name_source
        != NameSourceKind::Generated;
    let telling: bool = match &artifact.extension {
        Some(e) => is_high_value_deleted_extension(e.as_str()) || is_meaningful_deleted_extension(
            e.as_str(),
        ),
        None => false,
    };
    artifact.deleted_entry && artifact.filesystem_record.is_some() && named && (
    artifact.original_path.is_some() || artifact.family == ArtifactFamily::Executable || telling)
}

/// A result that is shown.
pub open spec fn is_visible(v: ArtifactView, include_low_confidence: bool) -> bool {
    include_low_confidence || v.confidence != Confidence::Low || high_value(v)
}

pub open spec fn visible_view(include_low_confidence: bool) -> spec_fn(ArtifactView) -> bool {
    |v: ArtifactView| is_visible(v, include_low_confidence)
}

pub open spec fn visible(include_low_confidence: bool) -> spec_fn(ArtifactRecord) -> bool {
    |r: ArtifactRecord| is_visible(r@, include_low_confidence)
}

pub fn should_keep_visible_result(artifact: &ArtifactRecord, include_low_confidence: bool) -> (r:
    bool)
    ensures
        r == is_visible(artifact@, include_low_confidence),
{
    include_low_confidence || artifact.confidence != Confidence::Low
        || keep_high_value_low_confidence(artifact)
}

/// Drops the results that are not shown.
pub fn filter_scan_results(results: Vec<ArtifactRecord>, include_low_confidence: bool) -> (r: Vec<
    ArtifactRecord,
>)
    ensures
        r@ == kept(results@, visible(include_low_confidence)),
{
    let ghost f = visible(include_low_confidence);
    let test = |record: &ArtifactRecord| -> (b: bool)
        ensures
            b == visible(include_low_confidence)(*record),
        { should_keep_visible_result(record, include_low_confidence) };
    keep_where(results, test, Ghost(f))
}

/// The results from a place on that are shown.
pub open spec fn visible_batch(
    results: Seq<ArtifactRecord>,
    from: int,
    include_low_confidence: bool,
) -> Seq<ArtifactView> {
    kept(
        record_views(results.subrange(from, results.len() as int)),
        visible_view(include_low_confidence),
    )
}

/// Copies of the results from a place on that are shown.
pub fn filtered_results_batch(
    results: &Vec<ArtifactRecord>,
    from: usize,
    include_low_confidence: bool,
) -> (r: Vec<ArtifactRecord>)
    requires
        from <= results@.len(),
    ensures
        record_views(r@) == visible_batch(results@, from as int, include_low_confidence),
{
    let ghost part = record_views(results@.subrange(from as int, results@.len() as int));
    let ghost f = visible_view(include_low_confidence);
    let mut out: Vec<ArtifactRecord> = Vec::new();
    let mut i: usize = from;
    proof {
        assert(part.subrange(0, 0) =~= seq![]);
        assert(record_views(out@) =~= seq![]);
    }
    while i < results.len()
        invariant
            from <= i <= results@.len(),
            part == record_views(results@.subrange(from as int, results@.len() as int)),
            f == visible_view(include_low_confidence),
            record_views(out@) == kept(part.subrange(0, i - from), f),
        decreases results@.len() - i,
    {
        proof {
            lemma_kept_step(part, f, i - from);
            assert(part[i - from] == results@[i as int]@);
        }
        if should_keep_visible_result(&results[i], include_low_confidence) {
            let ghost before = record_views(out@);
            let copy = results[i].clone();
            proof {
                lemma_same_view(results@[i as int], copy);
            }
            out.push(copy);
            assert(record_views(out@) =~= before.push(copy@));
        }
        i += 1;
    }
    assert(part.subrange(0, i - from) =~= part);
    out
}

// ---------------------------------------------------------------------------
// How results are counted.

pub open spec fn is_recoverable() -> spec_fn(ArtifactView) -> bool {
    |v: ArtifactView|
        v.recoverability == Recoverability::Good || v.recoverability == Recoverability::Partial
}

pub open spec fn is_validated() -> spec_fn(ArtifactView) -> bool {
    |v: ArtifactView| v.artifact_class != ArtifactClass::NamedMetadataCandidate
}

pub open spec fn has_name() -> spec_fn(ArtifactView) -> bool {
    |v: ArtifactView| is_named(v)
}

pub open spec fn is_carved() -> spec_fn(ArtifactView) -> bool {
    |v: ArtifactView| v.origin_type == OriginType::UnallocatedCarved
}

pub open spec fn is_fragment() -> spec_fn(ArtifactView) -> bool {
    |v: ArtifactView| v.is_fragment || v.origin_type == OriginType::PartialFragment
}

pub open spec fn of_family(family: ArtifactFamily) -> spec_fn(ArtifactView) -> bool {
    |v: ArtifactView| v.family == family
}

pub open spec fn is_partial() -> spec_fn(ArtifactView) -> bool {
    |v: ArtifactView|
        v.origin_type == OriginType::PartialFragment || v.recoverability == Recoverability::Partial
}

/// How many results satisfy `test`.
fn count_results<F: Fn(&ArtifactRecord) -> bool>(
    results: &Vec<ArtifactRecord>,
    test: F,
    Ghost(f): Ghost<spec_fn(ArtifactView) -> bool>,
) -> (r: usize)
    requires
        forall|a: &ArtifactRecord| #[trigger] call_requires(test, (a,)),
        forall|a: &ArtifactRecord, b: bool| #[trigger] call_ensures(test, (a,), b) ==> b == f(a@),
    ensures
        r == count_if(record_views(results@), f),
{
    let ghost list = record_views(results@);
    let mut count: usize = 0;
    let mut i: usize = 0;
    assert(list.subrange(0, 0) =~= seq![]);
    while i < results.len()
        invariant
            i <= results@.len(),
            list == record_views(results@),
            count <= i,
            count == count_if(list.subrange(0, i as int), f),
            forall|a: &ArtifactRecord| #[trigger] call_requires(test, (a,)),
            forall|a: &ArtifactRecord, b: bool| #[trigger]
                call_ensures(test, (a,), b) ==> b == f(a@),
        decreases results@.len() - i,
    {
        proof {
            let now = list.subrange(0, i + 1);
            assert(now.drop_last() =~= list.subrange(0, i as int));
            assert(now.last() == results@[i as int]@);
        }
        if test(&results[i]) {
            count += 1;
        }
        i += 1;
    }
    assert(list.subrange(0, i as int) =~= list);
    count
}

pub fn count_recoverable_hits(results: &Vec<ArtifactRecord>) -> (r: u64)
    ensures
        r == count_if(record_views(results@), is_recoverable()),
{
    let test = |a: &ArtifactRecord| -> (b: bool)
        ensures
            b == is_recoverable()(a@),
        { a.recoverability == Recoverability::Good || a.recoverability == Recoverability::Partial };
    count_results(results, test, Ghost(is_recoverable())) as u64
}

pub fn count_validated_hits(results: &Vec<ArtifactRecord>) -> (r: u64)
    ensures
        r == count_if(record_views(results@), is_validated()),
{
    let test = |a: &ArtifactRecord| -> (b: bool)
        ensures
            b == is_validated()(a@),
        { a.artifact_class != ArtifactClass::NamedMetadataCandidate };
    count_results(results, test, Ghost(is_validated())) as u64
}

pub fn count_named_hits(results: &Vec<ArtifactRecord>) -> (r: u64)
    ensures
        r == count_if(record_views(results@), has_name()),
{
    let test = |a: &ArtifactRecord| -> (b: bool)
        ensures
            b == has_name()(a@),
        { a.original_path.is_some() || a.name_source != NameSourceKind::Generated };
    count_results(results, test, Ghost(has_name())) as u64
}

pub fn count_carved_hits(results: &Vec<ArtifactRecord>) -> (r: u64)
    ensures
        r == count_if(record_views(results@), is_carved()),
{
    let test = |a: &ArtifactRecord| -> (b: bool)
        ensures
            b == is_carved()(a@),
        { a.origin_type == OriginType::UnallocatedCarved };
    count_results(results, test, Ghost(is_carved())) as u64
}

pub fn count_fragment_hits(results: &Vec<ArtifactRecord>) -> (r: u64)
    ensures
        r == count_if(record_views(results@), is_fragment()),
{
    let test = |a: &ArtifactRecord| -> (b: bool)
        ensures
            b == is_fragment()(a@),
        { a.is_fragment || a.origin_type == OriginType::PartialFragment };
    count_results(results, test, Ghost(is_fragment())) as u64
}

fn count_partial(results: &Vec<ArtifactRecord>) -> (r: usize)
    ensures
        r == count_if(record_views(results@), is_partial()),
{
    let test = |a: &ArtifactRecord| -> (b: bool)
        ensures
            b == is_partial()(a@),
        { a.origin_type == OriginType::PartialFragment || a.recoverability
            == Recoverability::Partial };
    count_results(results, test, Ghost(is_partial()))
}

fn count_family(results: &Vec<ArtifactRecord>, family: ArtifactFamily) -> (r: usize)
    ensures
        r == count_if(record_views(results@), of_family(family)),
{
    let test = |a: &ArtifactRecord| -> (b: bool)
        ensures
            b == of_family(family)(a@),
        { a.family == family };
    count_results(results, test, Ghost(of_family(family)))
}

/// The counters of some results.
pub open spec fn counters_of(results: Seq<ArtifactView>) -> ScanCounters {
    ScanCounters {
        total_results: results.len() as usize,
        executable_results: count_if(results, of_family(ArtifactFamily::Executable)) as usize,
        archive_results: count_if(results, of_family(ArtifactFamily::Archive)) as usize,
        script_results: count_if(results, of_family(ArtifactFamily::Script)) as usize,
        carved_results: count_if(results, is_carved()) as usize,
        partial_results: count_if(results, is_partial()) as usize,
        recoverable_results: count_if(results, is_recoverable()) as usize,
    }
}

pub fn collect_counters(results: &Vec<ArtifactRecord>) -> (r: ScanCounters)
    ensures
        r == counters_of(record_views(results@)),
{
    ScanCounters {
        total_results: results.len(),
        executable_results: count_family(results, ArtifactFamily::Executable),
        archive_results: count_family(results, ArtifactFamily::Archive),
        script_results: count_family(results, ArtifactFamily::Script),
        carved_results: count_carved_hits(results) as usize,
        partial_results: count_partial(results),
        recoverable_results: count_recoverable_hits(results) as usize,
    }
}

// ---------------------------------------------------------------------------
// The order of the results.

/// The higher score first, then the surer record, the more that can be recovered, and the name.
pub open spec fn shown_order() -> spec_fn(ArtifactRecord, ArtifactRecord) -> bool {
    then_by(
        by_number(|r: ArtifactRecord| -(r.priority_score as int)),
        then_by(
            by_number(|r: ArtifactRecord| confidence_rank(r.confidence)),
            then_by(
                by_number(|r: ArtifactRecord| recoverability_rank(r.recoverability)),
                by_text(|r: ArtifactRecord| r.name@),
            ),
        ),
    )
}

pub proof fn lemma_shown_order()
    ensures
        strict_weak_order(shown_order()),
{
    let score = by_number(|r: ArtifactRecord| -(r.priority_score as int));
    let sure = by_number(|r: ArtifactRecord| confidence_rank(r.confidence));
    let recoverable = by_number(|r: ArtifactRecord| recoverability_rank(r.recoverability));
    let name = by_text(|r: ArtifactRecord| r.name@);
    lemma_by_number(|r: ArtifactRecord| -(r.priority_score as int));
    lemma_by_number(|r: ArtifactRecord| confidence_rank(r.confidence));
    lemma_by_number(|r: ArtifactRecord| recoverability_rank(r.recoverability));
    lemma_by_text(|r: ArtifactRecord| r.name@);
    lemma_then_by(recoverable, name);
    lemma_then_by(sure, then_by(recoverable, name));
    lemma_then_by(score, then_by(sure, then_by(recoverable, name)));
}

fn shown_before(a: &ArtifactRecord, b: &ArtifactRecord) -> (r: bool)
    ensures
        r == shown_order()(*a, *b),
{
    if a.priority_score != b.priority_score {
        return a.priority_score > b.priority_score;
    }
    let left: u8 = rank_of_confidence(a.confidence);
    let right: u8 = rank_of_confidence(b.confidence);
    if left != right {
        return left < right;
    }
    let left: u8 = rank_of_recoverability(a.recoverability);
    let right: u8 = rank_of_recoverability(b.recoverability);
    if left != right {
        return left < right;
    }
    str_before(a.name.as_str(), b.name.as_str())
}

/// Puts the results of a scan in the order in which they are shown.
pub fn sort_results(results: Vec<ArtifactRecord>) -> (r: Vec<ArtifactRecord>)
    ensures
        stable_sorted(results@, r@, shown_order()),
{
    let before = |a: &ArtifactRecord, b: &ArtifactRecord| -> (r: bool)
        ensures
            r == shown_order()(*a, *b),
        { shown_before(a, b) };
    proof {
        lemma_shown_order();
    }
    stable_sort_by(results, before, Ghost(shown_order()))
}

// ---------------------------------------------------------------------------
// Merging.

/// A path and a size that tell two files apart, whatever the case of the path.
pub open spec fn path_size_key(path: Seq<char>, size: u64) -> Seq<char> {
    ascii_lower(replaced(path, '/', '\\')) + ":"@ + decimal(size as nat)
}

pub fn normalize_path_key(path: &str, size: u64) -> (r: String)
    ensures
        r@ == path_size_key(path@, size),
{
    let plain = replace_char(path, '/', '\\');
    let mut key = to_ascii_lowercase(plain.as_str());
    key.append(":");
    push_decimal(&mut key, size);
    key
}

/// The results so far, and what tells them apart: record numbers, paths and places on the
/// volume.
pub struct MergeState {
    pub results: Seq<ArtifactRecord>,
    pub records: Set<u64>,
    pub paths: Set<Seq<char>>,
    pub offsets: Set<(u64, ArtifactKind, u64)>,
}

pub open spec fn path_key_of(r: ArtifactRecord) -> Option<Seq<char>> {
    match r.original_path {
        Some(path) => Some(path_size_key(path@, r.size)),
        None => None,
    }
}

pub open spec fn offset_key_of(r: ArtifactRecord) -> Option<(u64, ArtifactKind, u64)> {
    match r.raw_offset {
        Some(offset) => Some((offset, r.kind, r.size)),
        None => None,
    }
}

/// A set with one more member, where there is one.
pub open spec fn with_key<K>(set: Set<K>, key: Option<K>) -> Set<K> {
    match key {
        Some(k) => set.insert(k),
        None => set,
    }
}

pub open spec fn taken<K>(set: Set<K>, key: Option<K>) -> bool {
    key matches Some(k) && set.contains(k)
}

/// What tells some results apart.
pub open spec fn merge_start(results: Seq<ArtifactRecord>) -> MergeState {
    MergeState {
        results,
        records: Set::new(
            |n: u64|
                exists|i: int|
                    0 <= i < results.len() && (#[trigger] results[i]).filesystem_record == Some(n),
        ),
        paths: Set::new(
            |k: Seq<char>|
                exists|i: int| 0 <= i < results.len() && path_key_of(#[trigger] results[i]) == Some(k),
        ),
        offsets: Set::new(
            |k: (u64, ArtifactKind, u64)|
                exists|i: int|
                    0 <= i < results.len() && offset_key_of(#[trigger] results[i]) == Some(k),
        ),
    }
}

/// One more result, unless its record, its path or its place is taken. What it has in front of
/// the first that is taken counts as taken from then on.
pub open spec fn merge_step(s: MergeState, r: ArtifactRecord) -> MergeState {
    if taken(s.records, r.filesystem_record) {
        s
    } else if taken(s.paths, path_key_of(r)) {
        MergeState { records: with_key(s.records, r.filesystem_record), ..s }
    } else if taken(s.offsets, offset_key_of(r)) {
        MergeState {
            records: with_key(s.records, r.filesystem_record),
            paths: with_key(s.paths, path_key_of(r)),
            ..s
        }
    } else {
        MergeState {
            results: s.results.push(r),
            records: with_key(s.records, r.filesystem_record),
            paths: with_key(s.paths, path_key_of(r)),
            offsets: with_key(s.offsets, offset_key_of(r)),
        }
    }
}

pub open spec fn merged_upto(
    results: Seq<ArtifactRecord>,
    incoming: Seq<ArtifactRecord>,
    n: int,
) -> MergeState
    decreases n,
{
    if n <= 0 {
        merge_start(results)
    } else {
        merge_step(merged_upto(results, incoming, n - 1), incoming[n - 1])
    }
}

/// The results with the incoming ones that are none of them.
pub open spec fn merged(results: Seq<ArtifactRecord>, incoming: Seq<ArtifactRecord>) -> Seq<
    ArtifactRecord,
> {
    merged_upto(results, incoming, incoming.len() as int).results
}

/// The places in a table of what lies at each offset.
spec fn offset_set(table: Map<u64, Vec<(ArtifactKind, u64)>>) -> Set<(u64, ArtifactKind, u64)> {
    Set::new(
        |k: (u64, ArtifactKind, u64)| table.contains_key(k.0) && table[k.0]@.contains((k.1, k.2)),
    )
}

fn lies_in(list: &Vec<(ArtifactKind, u64)>, kind: ArtifactKind, size: u64) -> (r: bool)
    ensures
        r == list@.contains((kind, size)),
{
    let mut i: usize = 0;
    while i < list.len()
        invariant
            i <= list@.len(),
            forall|j: int| 0 <= j < i ==> list@[j] != (kind, size),
        decreases list@.len() - i,
    {
        if list[i].0 == kind && list[i].1 == size {
            assert(list@[i as int] == (kind, size));
            return true;
        }
        i += 1;
    }
    false
}

/// Adds a place; whether it is new.
fn insert_offset(
    table: &mut HashMap<u64, Vec<(ArtifactKind, u64)>>,
    key: (u64, ArtifactKind, u64),
) -> (r: bool)
    ensures
        r == !offset_set(old(table)@).contains(key),
        offset_set(final(table)@) == offset_set(old(table)@).insert(key),
{
    let mut list: Vec<(ArtifactKind, u64)> = match table.remove(&key.0) {
        Some(list) => list,
        None => Vec::new(),
    };
    let ghost here = list@;
    let fresh: bool = !lies_in(&list, key.1, key.2);
    if fresh {
        list.push((key.1, key.2));
    }
    let ghost kept = list@;
    table.insert(key.0, list);
    proof {
        let before = old(table)@;
        assert(before.contains_key(key.0) ==> here == before[key.0]@);
        assert forall|k: (u64, ArtifactKind, u64)|
            offset_set(table@).contains(k) <==> offset_set(before).insert(key).contains(k) by {
            if k.0 == key.0 {
                let pair = (k.1, k.2);
                if fresh {
                    assert(kept == here.push((key.1, key.2)));
                    if here.contains(pair) {
                        let j = choose|j: int| 0 <= j < here.len() && here[j] == pair;
                        assert(kept[j] == pair);
                    }
                    assert(kept[here.len() as int] == (key.1, key.2));
                }
            }
        }
        assert(offset_set(table@) =~= offset_set(before).insert(key));
    }
    fresh
}

/// What tells the results of a merge apart.
struct MergeKeys {
    records: HashSet<u64>,
    paths: StringHashSet,
    offsets: HashMap<u64, Vec<(ArtifactKind, u64)>>,
}

spec fn keys_fit(keys: MergeKeys, s: MergeState) -> bool {
    &&& keys.records@ == s.records
    &&& keys.paths@ == s.paths
    &&& offset_set(keys.offsets@) == s.offsets
}

fn start_keys(results: &Vec<ArtifactRecord>) -> (r: MergeKeys)
    ensures
        keys_fit(r, merge_start(results@)),
{
    let mut keys = MergeKeys {
        records: HashSet::new(),
        paths: StringHashSet::new(),
        offsets: HashMap::new(),
    };
    let ghost all = results@;
    let mut i: usize = 0;
    while i < results.len()
        invariant
            i <= results@.len(),
            all == results@,
            forall|n: u64| #[trigger]
                keys.records@.contains(n) <==> exists|j: int|
                    0 <= j < i && (#[trigger] all[j]).filesystem_record == Some(n),
            forall|k: Seq<char>| #[trigger]
                keys.paths@.contains(k) <==> exists|j: int|
                    0 <= j < i && path_key_of(#[trigger] all[j]) == Some(k),
            forall|k: (u64, ArtifactKind, u64)| #[trigger]
                offset_set(keys.offsets@).contains(k) <==> exists|j: int|
                    0 <= j < i && offset_key_of(#[trigger] all[j]) == Some(k),
        decreases results@.len() - i,
    {
        let ghost here = all[i as int];
        let ghost records = keys.records@;
        let ghost paths = keys.paths@;
        let ghost offsets = offset_set(keys.offsets@);
        if let Some(number) = results[i].filesystem_record {
            keys.records.insert(number);
        }
        if let Some(path) = &results[i].original_path {
            let key = normalize_path_key(path.as_str(), results[i].size);
            keys.paths.insert(key);
        }
        if let Some(offset) = results[i].raw_offset {
            insert_offset(&mut keys.offsets, (offset, results[i].kind, results[i].size));
        }
        proof {
            assert(keys.records@ == with_key(records, here.filesystem_record));
            assert(keys.paths@ == with_key(paths, path_key_of(here)));
            assert(offset_set(keys.offsets@) == with_key(offsets, offset_key_of(here)));
            assert forall|n: u64| #[trigger] keys.records@.contains(n) <==> exists|j: int|
                0 <= j < i + 1 && (#[trigger] all[j]).filesystem_record == Some(n) by {
                if here.filesystem_record == Some(n) {
                    assert(all[i as int].filesystem_record == Some(n));
                }
                assert(records.contains(n) <==> exists|j: int|
                    0 <= j < i && (#[trigger] all[j]).filesystem_record == Some(n));
            }
            assert forall|k: Seq<char>| #[trigger]
                keys.paths@.contains(k) <==> exists|j: int|
                    0 <= j < i + 1 && path_key_of(#[trigger] all[j]) == Some(k) by {
                if path_key_of(here) == Some(k) {
                    assert(path_key_of(all[i as int]) == Some(k));
                }
                assert(paths.contains(k) <==> exists|j: int|
                    0 <= j < i && path_key_of(#[trigger] all[j]) == Some(k));
            }
            assert forall|k: (u64, ArtifactKind, u64)| #[trigger]
                offset_set(keys.offsets@).contains(k) <==> exists|j: int|
                    0 <= j < i + 1 && offset_key_of(#[trigger] all[j]) == Some(k) by {
                if offset_key_of(here) == Some(k) {
                    assert(offset_key_of(all[i as int]) == Some(k));
                }
                assert(offsets.contains(k) <==> exists|j: int|
                    0 <= j < i && offset_key_of(#[trigger] all[j]) == Some(k));
            }
        }
        i += 1;
    }
    proof {
        let s = merge_start(all);
        assert(keys.records@ =~= s.records);
        assert(keys.paths@ =~= s.paths);
        assert(offset_set(keys.offsets@) =~= s.offsets);
    }
    keys
}

/// Whether a result is new, in the light of what is taken.
fn claim(keys: &mut MergeKeys, artifact: &ArtifactRecord, Ghost(s): Ghost<MergeState>) -> (r: bool)
    requires
        keys_fit(*old(keys), s),
    ensures
        keys_fit(*final(keys), merge_step(s, *artifact)),
        merge_step(s, *artifact).results == if r {
            s.results.push(*artifact)
        } else {
            s.results
        },
{
    if let Some(number) = artifact.filesystem_record {
        let fresh: bool = keys.records.insert(number);
        if !fresh {
            assert(s.records.insert(number) =~= s.records);
            return false;
        }
    }
    if let Some(path) = &artifact.original_path {
        let key = normalize_path_key(path.as_str(), artifact.size);
        if !keys.paths.insert(key) {
            assert(s.paths.insert(key@) =~= s.paths);
            return false;
        }
    }
    if let Some(offset) = artifact.raw_offset {
        let key = (offset, artifact.kind, artifact.size);
        if !insert_offset(&mut keys.offsets, key) {
            assert(s.offsets.insert(key) =~= s.offsets);
            return false;
        }
    }
    true
}

/// Adds the incoming results that are none of those that are there.
pub fn merge_results(results: Vec<ArtifactRecord>, incoming: Vec<ArtifactRecord>) -> (r: Vec<
    ArtifactRecord,
>)
    ensures
        r@ == merged(results@, incoming@),
{
    let ghost first = results@;
    let ghost given = incoming@;
    let mut keys = start_keys(&results);
    let mut out = results;
    let mut turned = turn_around(incoming);
    while turned.len() > 0
        invariant
            turned@.len() <= given.len(),
            forall|k: int|
                0 <= k < turned@.len() ==> #[trigger] turned@[k] == given[given.len() - 1 - k],
            keys_fit(keys, merged_upto(first, given, given.len() - turned@.len())),
            out@ == merged_upto(first, given, given.len() - turned@.len()).results,
        decreases turned@.len(),
    {
        let ghost i = given.len() - turned@.len();
        let ghost s = merged_upto(first, given, i);
        if let Some(artifact) = turned.pop() {
            assert(artifact == given[i]);
            assert(merged_upto(first, given, i + 1) == merge_step(s, artifact));
            if claim(&mut keys, &artifact, Ghost(s)) {
                out.push(artifact);
            }
        }
    }
    out
}

// ---------------------------------------------------------------------------
// Carving in a fast scan.

pub open spec fn fast_carve_wanted(source: ScanSource, options: ScanOptions) -> bool {
    source.filesystem == FileSystemKind::Ntfs && options.carve_budget_bytes != Some(0u64)
}

pub fn should_run_fast_carve(source: &ScanSource, options: &ScanOptions) -> (r: bool)
    ensures
        r == fast_carve_wanted(*source, *options),
{
    source.filesystem == FileSystemKind::Ntfs && (match options.carve_budget_bytes {
        Some(budget) => budget > 0,
        None => true,
    })
}

/// A product, at most `u64::MAX`.
pub open spec fn capped_product(a: u64, b: u64) -> u64 {
    if a * b > u64::MAX {
        u64::MAX
    } else {
        (a * b) as u64
    }
}

pub fn capped_mul(a: u64, b: u64) -> (r: u64)
    ensures
        r == capped_product(a, b),
{
    match a.checked_mul(b) {
        Some(n) => n,
        None => u64::MAX,
    }
}

/// How much a fast scan carves: less where the file table has given much already.
pub open spec fn fast_budget(baseline: u64, candidates: u64, named: u64, recoverable: u64) -> u64 {
    if baseline == 0 {
        0
    } else if named >= 5_000 && capped_product(recoverable, 100) >= capped_product(named, 60) {
        capped_product(baseline, 3) / 4
    } else if candidates >= 1_000 && capped_product(named, 100) < capped_product(candidates, 15) {
        baseline
    } else {
        capped_product(baseline, 7) / 8
    }
}

pub fn adaptive_fast_carve_budget(
    baseline_budget: u64,
    candidates_surfaced: u64,
    named_hits: u64,
    recoverable_hits: u64,
) -> (r: u64)
    ensures
        r == fast_budget(baseline_budget, candidates_surfaced, named_hits, recoverable_hits),
{
    if baseline_budget == 0 {
        return 0;
    }
    let strong_named: bool = named_hits >= 5_000 && capped_mul(recoverable_hits, 100)
        >= capped_mul(named_hits, 60);
    let sparse_named: bool = candidates_surfaced >= 1_000 && capped_mul(named_hits, 100)
        < capped_mul(candidates_surfaced, 15);
    if strong_named {
        capped_mul(baseline_budget, 3) / 4
    } else if sparse_named {
        baseline_budget
    } else {
        capped_mul(baseline_budget, 7) / 8
    }
}

// ---------------------------------------------------------------------------
// Laws.

/// A fast scan never carves more than it was allowed to.
pub proof fn lemma_fast_budget_is_bounded(
    baseline: u64,
    candidates: u64,
    named: u64,
    recoverable: u64,
)
    ensures
        fast_budget(baseline, candidates, named, recoverable) <= baseline,
{
}

/// Showing all results hides none.
pub proof fn lemma_everything_is_visible(results: Seq<ArtifactRecord>)
    ensures
        kept(results, visible(true)) == results,
    decreases results.len(),
{
    if results.len() > 0 {
        lemma_everything_is_visible(results.drop_last());
        assert(results.drop_last().push(results.last()) =~= results);
    }
}

/// Merging keeps what is there, in its order, and adds only incoming results.
pub proof fn lemma_merging_keeps_results(
    results: Seq<ArtifactRecord>,
    incoming: Seq<ArtifactRecord>,
    n: int,
)
    requires
        0 <= n <= incoming.len(),
    ensures
        ({
            let all = merged_upto(results, incoming, n).results;
            &&& results.is_prefix_of(all)
            &&& all.len() <= results.len() + n
            &&& forall|i: int|
                results.len() <= i < all.len() ==> incoming.contains(#[trigger] all[i])
        }),
    decreases n,
{
    if n > 0 {
        lemma_merging_keeps_results(results, incoming, n - 1);
        let before = merged_upto(results, incoming, n - 1).results;
        let after = merged_upto(results, incoming, n).results;
        assert(incoming[n - 1] == incoming[n - 1]);
        assert forall|i: int| results.len() <= i < after.len() implies incoming.contains(
            #[trigger] after[i],
        ) by {
            if i < before.len() {
                assert(after[i] == before[i]);
            } else {
                assert(after[i] == incoming[n - 1]);
            }
        }
        assert(results =~= after.subrange(0, results.len() as int));
    } else {
        assert(results =~= results.subrange(0, results.len() as int));
    }
}

/// Two results have no record number, no path with its size and no place in common.
pub open spec fn results_apart(a: ArtifactRecord, b: ArtifactRecord) -> bool {
    &&& a.filesystem_record is Some ==> a.filesystem_record != b.filesystem_record
    &&& path_key_of(a) is Some ==> path_key_of(a) != path_key_of(b)
    &&& offset_key_of(a) is Some ==> offset_key_of(a) != offset_key_of(b)
}

/// Any two results are apart.
pub open spec fn told_apart(results: Seq<ArtifactRecord>) -> bool {
    forall|i: int, j: int|
        0 <= i < j < results.len() ==> results_apart(#[trigger] results[i], #[trigger] results[j])
}

/// Whatever tells a result apart is taken.
proof fn lemma_keys_are_taken(
    results: Seq<ArtifactRecord>,
    incoming: Seq<ArtifactRecord>,
    n: int,
    i: int,
)
    requires
        0 <= n <= incoming.len(),
        0 <= i < merged_upto(results, incoming, n).results.len(),
    ensures
        ({
            let s = merged_upto(results, incoming, n);
            &&& s.results[i].filesystem_record matches Some(k) ==> s.records.contains(k)
            &&& path_key_of(s.results[i]) matches Some(k) ==> s.paths.contains(k)
            &&& offset_key_of(s.results[i]) matches Some(k) ==> s.offsets.contains(k)
        }),
    decreases n,
{
    if n > 0 {
        let before = merged_upto(results, incoming, n - 1);
        if i < before.results.len() {
            lemma_keys_are_taken(results, incoming, n - 1, i);
        }
    }
}

/// What merging adds is apart from all that stands in front of it: no second result comes for
/// a record of the file table, for a path with its size, or for a place on the volume.
pub proof fn lemma_merging_adds_nothing_twice(
    results: Seq<ArtifactRecord>,
    incoming: Seq<ArtifactRecord>,
    n: int,
    i: int,
    j: int,
)
    requires
        0 <= n <= incoming.len(),
        0 <= i < j < merged_upto(results, incoming, n).results.len(),
        j >= results.len(),
    ensures
        results_apart(
            merged_upto(results, incoming, n).results[i],
            merged_upto(results, incoming, n).results[j],
        ),
    decreases n,
{
    if n > 0 {
        let before = merged_upto(results, incoming, n - 1);
        let after = merged_upto(results, incoming, n);
        if j < before.results.len() {
            assert(after.results[i] == before.results[i]);
            assert(after.results[j] == before.results[j]);
            lemma_merging_adds_nothing_twice(results, incoming, n - 1, i, j);
        } else {
            assert(after.results[i] == before.results[i]);
            lemma_keys_are_taken(results, incoming, n - 1, i);
        }
    }
}

/// Merging leaves no two results with a record number, a path with its size or a place in
/// common, where there were none before.
pub proof fn lemma_merged_results_are_told_apart(
    results: Seq<ArtifactRecord>,
    incoming: Seq<ArtifactRecord>,
)
    requires
        told_apart(results),
    ensures
        told_apart(merged(results, incoming)),
{
    let n = incoming.len() as int;
    let all = merged(results, incoming);
    lemma_merging_keeps_results(results, incoming, n);
    assert forall|i: int, j: int| 0 <= i < j < all.len() implies results_apart(
        #[trigger] all[i],
        #[trigger] all[j],
    ) by {
        if j >= results.len() {
            lemma_merging_adds_nothing_twice(results, incoming, n, i, j);
        } else {
            assert(results[i] == all[i] && results[j] == all[j]);
        }
    }
}

} // verus!
