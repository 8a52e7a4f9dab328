//! What a listing of deleted files shows, told of the fields of its files.

use crate::browse_listing::{
    filtered, index_order, key_order, lemma_index_order, record_order, request_order, requested,
};
use crate::kinds::kind_label;
use crate::model::{ArtifactRecord, BrowseSourceRequest};
use crate::sort::{
    lemma_reversed, lemma_stable_sorted_keeps_items, lemma_stable_sorted_loses_nothing,
    lemma_text_before_asymmetric, stable_sorted, text_before,
};
use crate::text::{ascii_lower, opt_view};
use vstd::prelude::*;
use vstd::string::*;

verus! {

/// A request for files by `key`.
pub open spec fn asks_for(request: BrowseSourceRequest, key: Seq<char>) -> bool {
    request.sort_key matches Some(k) && k@ == key
}

/// A request for the last first.
pub open spec fn asks_downwards(request: BrowseSourceRequest) -> bool {
    request.sort_direction matches Some(d) && d@ == "desc"@
}

/// Neither the name, upper and lower case alike, nor among equal names the id of `b` comes
/// before that of `a`.
pub open spec fn names_in_order(a: ArtifactRecord, b: ArtifactRecord) -> bool {
    &&& !text_before(ascii_lower(b.name@), ascii_lower(a.name@))
    &&& ascii_lower(a.name@) == ascii_lower(b.name@) ==> !text_before(b.id@, a.id@)
}

/// Of two files in a sorted listing the second does not come before the first.
proof fn lemma_listed_in_order(
    r: Seq<usize>,
    results: Seq<ArtifactRecord>,
    indices: Seq<usize>,
    by_extension: Map<Seq<char>, Vec<usize>>,
    lists: int,
    request: BrowseSourceRequest,
    key: Seq<char>,
    i: int,
    j: int,
)
    requires
        requested(r, results, indices, by_extension, lists, request),
        asks_for(request, key),
        key == "name"@ || key == "type"@ || key == "size"@ || key == "created_at"@ || key
            == "modified_at"@ || key == "accessed_at"@ || key == "deleted_hits"@,
        0 <= i < j < r.len(),
    ensures
        !asks_downwards(request) && r[i] < results.len() && r[j] < results.len() ==> !record_order(
            key,
        )(results[r[j] as int], results[r[i] as int]),
        asks_downwards(request) && r[i] < results.len() && r[j] < results.len() ==> !record_order(
            key,
        )(results[r[i] as int], results[r[j] as int]),
{
    lemma_index_order(results, key);
    lemma_reversed(index_order(results, key));
    let rel = request_order(results, key, asks_downwards(request));
    let chosen = filtered(results, indices, by_extension, lists, opt_view(request.filter));
    assert(opt_view(request.sort_direction) == Some("desc"@) <==> asks_downwards(request));
    assert(stable_sorted(chosen, r, rel));
    lemma_stable_sorted_keeps_items(chosen, r, rel);
    assert(!rel(r[j], r[i]));
}

/// The keys are told apart.
proof fn lemma_keys_differ()
    ensures
        "type"@ != "size"@,
        "type"@ != "created_at"@,
        "type"@ != "modified_at"@,
        "type"@ != "name"@,
        "type"@ != "accessed_at"@,
        "type"@ != "deleted_hits"@,
        "size"@ != "created_at"@,
        "size"@ != "modified_at"@,
        "size"@ != "name"@,
        "size"@ != "accessed_at"@,
        "size"@ != "deleted_hits"@,
        "created_at"@ != "modified_at"@,
        "created_at"@ != "name"@,
        "created_at"@ != "accessed_at"@,
        "created_at"@ != "deleted_hits"@,
        "modified_at"@ != "name"@,
        "modified_at"@ != "accessed_at"@,
        "modified_at"@ != "deleted_hits"@,
        "name"@ != "accessed_at"@,
        "name"@ != "deleted_hits"@,
{
    reveal_strlit("type");
    reveal_strlit("size");
    reveal_strlit("created_at");
    reveal_strlit("modified_at");
    reveal_strlit("name");
    reveal_strlit("accessed_at");
    reveal_strlit("deleted_hits");
    assert("type"@[0] == 't' && "size"@[0] == 's' && "name"@[0] == 'n');
    assert("created_at"@.len() == 10 && "modified_at"@.len() == 11 && "accessed_at"@[0] == 'a'
        && "modified_at"@[0] == 'm' && "deleted_hits"@.len() == 12);
}

/// No text comes before itself.
proof fn lemma_equal_texts()
    ensures
        forall|s: Seq<char>| !(#[trigger] text_before(s, s)),
{
    assert forall|s: Seq<char>| !(#[trigger] text_before(s, s)) by {
        if text_before(s, s) {
            lemma_text_before_asymmetric(s, s);
        }
    }
}

/// In a listing by the time at which files were made, that time never falls from one file to the
/// next, and files without one come first; the other way round where the last was asked for first.
/// Files with one time go by name.
pub proof fn lemma_listing_by_created_at_is_in_order(
    r: Seq<usize>,
    results: Seq<ArtifactRecord>,
    indices: Seq<usize>,
    by_extension: Map<Seq<char>, Vec<usize>>,
    lists: int,
    request: BrowseSourceRequest,
    i: int,
    j: int,
)
    requires
        requested(r, results, indices, by_extension, lists, request),
        asks_for(request, "created_at"@),
        0 <= i < j < r.len(),
        r[i] < results.len(),
        r[j] < results.len(),
    ensures
        ({
            let (first, second) = if asks_downwards(request) {
                (results[r[j] as int], results[r[i] as int])
            } else {
                (results[r[i] as int], results[r[j] as int])
            };
            &&& first.created_at is Some ==> second.created_at is Some
            &&& first.created_at is Some ==> !text_before(second.created_at->0@, first.created_at->0@)
            &&& first.created_at is None && second.created_at is None ==> names_in_order(first, second)
            &&& first.created_at is Some && first.created_at->0@ == second.created_at->0@ ==> names_in_order(first, second)
        }),
{
    lemma_listed_in_order(r, results, indices, by_extension, lists, request, "created_at"@, i, j);
    let (first, second) = if asks_downwards(request) {
        (results[r[j] as int], results[r[i] as int])
    } else {
        (results[r[i] as int], results[r[j] as int])
    };
    lemma_keys_differ();
    assert(!record_order("created_at"@)(second, first));
    assert(!key_order("created_at"@)(second, first));
    lemma_equal_texts();
}

/// In a listing by the time at which files were written, that time never falls from one file to
/// the next, and files without one come first; the other way round where the last was asked for
/// first. Files with one time go by name.
pub proof fn lemma_listing_by_modified_at_is_in_order(
    r: Seq<usize>,
    results: Seq<ArtifactRecord>,
    indices: Seq<usize>,
    by_extension: Map<Seq<char>, Vec<usize>>,
    lists: int,
    request: BrowseSourceRequest,
    i: int,
    j: int,
)
    requires
        requested(r, results, indices, by_extension, lists, request),
        asks_for(request, "modified_at"@),
        0 <= i < j < r.len(),
        r[i] < results.len(),
        r[j] < results.len(),
    ensures
        ({
            let (first, second) = if asks_downwards(request) {
                (results[r[j] as int], results[r[i] as int])
            } else {
                (results[r[i] as int], results[r[j] as int])
            };
            &&& first.modified_at is Some ==> second.modified_at is Some
            &&& first.modified_at is Some ==> !text_before(second.modified_at->0@, first.modified_at->0@)
            &&& first.modified_at is None && second.modified_at is None ==> names_in_order(first, second)
            &&& first.modified_at is Some && first.modified_at->0@ == second.modified_at->0@ ==> names_in_order(first, second)
        }),
{
    lemma_listed_in_order(r, results, indices, by_extension, lists, request, "modified_at"@, i, j);
    let (first, second) = if asks_downwards(request) {
        (results[r[j] as int], results[r[i] as int])
    } else {
        (results[r[i] as int], results[r[j] as int])
    };
    lemma_keys_differ();
    assert(!record_order("modified_at"@)(second, first));
    assert(!key_order("modified_at"@)(second, first));
    lemma_equal_texts();
}

/// In a listing by size, the size never falls from one file to the next; it never rises where the
/// last was asked for first. Files of one size go by name.
pub proof fn lemma_listing_by_size_is_in_order(
    r: Seq<usize>,
    results: Seq<ArtifactRecord>,
    indices: Seq<usize>,
    by_extension: Map<Seq<char>, Vec<usize>>,
    lists: int,
    request: BrowseSourceRequest,
    i: int,
    j: int,
)
    requires
        requested(r, results, indices, by_extension, lists, request),
        asks_for(request, "size"@),
        0 <= i < j < r.len(),
        r[i] < results.len(),
        r[j] < results.len(),
    ensures
        ({
            let (first, second) = if asks_downwards(request) {
                (results[r[j] as int], results[r[i] as int])
            } else {
                (results[r[i] as int], results[r[j] as int])
            };
            &&& first.size <= second.size
            &&& first.size == second.size ==> names_in_order(first, second)
        }),
{
    lemma_listed_in_order(r, results, indices, by_extension, lists, request, "size"@, i, j);
    let (first, second) = if asks_downwards(request) {
        (results[r[j] as int], results[r[i] as int])
    } else {
        (results[r[i] as int], results[r[j] as int])
    };
    lemma_keys_differ();
    assert(!record_order("size"@)(second, first));
    assert(!key_order("size"@)(second, first));
    lemma_equal_texts();
}

/// In a listing by name, the name, upper and lower case alike, never falls from one file to the
/// next; it never rises where the last was asked for first. Files of one name go by id.
pub proof fn lemma_listing_by_name_is_in_order(
    r: Seq<usize>,
    results: Seq<ArtifactRecord>,
    indices: Seq<usize>,
    by_extension: Map<Seq<char>, Vec<usize>>,
    lists: int,
    request: BrowseSourceRequest,
    i: int,
    j: int,
)
    requires
        requested(r, results, indices, by_extension, lists, request),
        asks_for(request, "name"@),
        0 <= i < j < r.len(),
        r[i] < results.len(),
        r[j] < results.len(),
    ensures
        ({
            let (first, second) = if asks_downwards(request) {
                (results[r[j] as int], results[r[i] as int])
            } else {
                (results[r[i] as int], results[r[j] as int])
            };
            &&& !text_before(ascii_lower(second.name@), ascii_lower(first.name@))
            &&& names_in_order(first, second)
        }),
{
    lemma_listed_in_order(r, results, indices, by_extension, lists, request, "name"@, i, j);
    let (first, second) = if asks_downwards(request) {
        (results[r[j] as int], results[r[i] as int])
    } else {
        (results[r[i] as int], results[r[j] as int])
    };
    lemma_keys_differ();
    assert(!record_order("name"@)(second, first));
    assert(!key_order("name"@)(second, first));
    lemma_equal_texts();
}

/// In a listing by type, the name of the kind never falls from one file to the next; it never
/// rises where the last was asked for first. Files of one kind go by name.
pub proof fn lemma_listing_by_type_is_in_order(
    r: Seq<usize>,
    results: Seq<ArtifactRecord>,
    indices: Seq<usize>,
    by_extension: Map<Seq<char>, Vec<usize>>,
    lists: int,
    request: BrowseSourceRequest,
    i: int,
    j: int,
)
    requires
        requested(r, results, indices, by_extension, lists, request),
        asks_for(request, "type"@),
        0 <= i < j < r.len(),
        r[i] < results.len(),
        r[j] < results.len(),
    ensures
        ({
            let (first, second) = if asks_downwards(request) {
                (results[r[j] as int], results[r[i] as int])
            } else {
                (results[r[i] as int], results[r[j] as int])
            };
            &&& !text_before(kind_label(second.kind), kind_label(first.kind))
            &&& first.kind == second.kind ==> names_in_order(first, second)
        }),
{
    lemma_listed_in_order(r, results, indices, by_extension, lists, request, "type"@, i, j);
    let (first, second) = if asks_downwards(request) {
        (results[r[j] as int], results[r[i] as int])
    } else {
        (results[r[i] as int], results[r[j] as int])
    };
    lemma_keys_differ();
    assert(!record_order("type"@)(second, first));
    assert(!key_order("type"@)(second, first));
    lemma_equal_texts();
}

/// In a listing by a key that deleted files do not have, they go by name.
pub proof fn lemma_listing_by_other_keys_is_by_name(
    r: Seq<usize>,
    results: Seq<ArtifactRecord>,
    indices: Seq<usize>,
    by_extension: Map<Seq<char>, Vec<usize>>,
    lists: int,
    request: BrowseSourceRequest,
    i: int,
    j: int,
)
    requires
        requested(r, results, indices, by_extension, lists, request),
        asks_for(request, "accessed_at"@) || asks_for(request, "deleted_hits"@),
        0 <= i < j < r.len(),
        r[i] < results.len(),
        r[j] < results.len(),
    ensures
        asks_downwards(request) ==> names_in_order(results[r[j] as int], results[r[i] as int]),
        !asks_downwards(request) ==> names_in_order(results[r[i] as int], results[r[j] as int]),
{
    let key = request.sort_key->0@;
    lemma_listed_in_order(r, results, indices, by_extension, lists, request, key, i, j);
    lemma_keys_differ();
    lemma_equal_texts();
    assert(!record_order(key)(results[r[j] as int], results[r[i] as int]) || asks_downwards(
        request,
    ));
    assert(!record_order(key)(results[r[i] as int], results[r[j] as int]) || !asks_downwards(
        request,
    ));
}

/// A sorted listing shows the files that it would show unsorted, and as many.
pub proof fn lemma_sorting_keeps_the_files(
    r: Seq<usize>,
    plain: Seq<usize>,
    results: Seq<ArtifactRecord>,
    indices: Seq<usize>,
    by_extension: Map<Seq<char>, Vec<usize>>,
    lists: int,
    request: BrowseSourceRequest,
    unsorted: BrowseSourceRequest,
)
    requires
        requested(r, results, indices, by_extension, lists, request),
        requested(plain, results, indices, by_extension, lists, unsorted),
        unsorted.sort_key is None,
        unsorted.filter == request.filter,
    ensures
        r.len() == plain.len(),
        forall|index: usize| #[trigger] r.contains(index) <==> plain.contains(index),
{
    if request.sort_key is Some {
        let key = request.sort_key->0@;
        lemma_index_order(results, key);
        lemma_reversed(index_order(results, key));
        let rel = request_order(
            results,
            key,
            opt_view(request.sort_direction) == Some("desc"@),
        );
        if stable_sorted(plain, r, rel) {
            lemma_stable_sorted_keeps_items(plain, r, rel);
            assert forall|index: usize| #[trigger] r.contains(index) <==> plain.contains(index) by {
                if plain.contains(index) {
                    let k = choose|k: int| 0 <= k < plain.len() && plain[k] == index;
                    lemma_stable_sorted_loses_nothing(plain, r, rel, k);
                }
                if r.contains(index) {
                    let k = choose|k: int| 0 <= k < r.len() && r[k] == index;
                    assert(plain.contains(r[k]));
                }
            }
        }
    }
}

} // verus!
