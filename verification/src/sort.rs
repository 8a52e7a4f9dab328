//! A stable sort, and the order of strings.

use crate::text::chars_of;
use vstd::prelude::*;

verus! {

/// `rel` is a strict order whose ties are an equivalence.
pub open spec fn strict_weak_order<T>(rel: spec_fn(T, T) -> bool) -> bool {
    &&& forall|a: T, b: T| #[trigger] rel(a, b) ==> !rel(b, a)
    &&& forall|a: T, b: T, c: T|
        !(#[trigger] rel(b, a)) && !(#[trigger] rel(c, b)) ==> !rel(c, a)
}

/// Item `a` comes before item `b`: by `rel`, or by position where `rel` ties.
pub open spec fn goes_first<T>(items: Seq<T>, rel: spec_fn(T, T) -> bool, a: int, b: int) -> bool {
    rel(items[a], items[b]) || (!rel(items[b], items[a]) && a < b)
}

/// `perm` lists the indices from `lo` to `hi` in the order of `goes_first`.
pub open spec fn sorts_range<T>(
    items: Seq<T>,
    perm: Seq<usize>,
    lo: int,
    hi: int,
    rel: spec_fn(T, T) -> bool,
) -> bool {
    &&& perm.len() == hi - lo
    &&& forall|i: int| 0 <= i < perm.len() ==> lo <= #[trigger] perm[i] < hi
    &&& forall|i: int, j: int|
        0 <= i < j < perm.len() ==> goes_first(
            items,
            rel,
            #[trigger] perm[i] as int,
            #[trigger] perm[j] as int,
        )
}

/// `out` holds the items of `inp` by `rel`, ties in their order in `inp`.
pub open spec fn stable_sorted<T>(inp: Seq<T>, out: Seq<T>, rel: spec_fn(T, T) -> bool) -> bool {
    exists|perm: Seq<usize>| stable_sorted_by(inp, out, perm, rel)
}

/// `out` is `inp` taken in the order of `perm`, which sorts it.
pub open spec fn stable_sorted_by<T>(
    inp: Seq<T>,
    out: Seq<T>,
    perm: Seq<usize>,
    rel: spec_fn(T, T) -> bool,
) -> bool {
    &&& sorts_range(inp, perm, 0, inp.len() as int, rel)
    &&& out == perm.map_values(|k: usize| inp[k as int])
}

proof fn lemma_goes_first_transitive<T>(
    items: Seq<T>,
    rel: spec_fn(T, T) -> bool,
    a: int,
    b: int,
    c: int,
)
    requires
        strict_weak_order(rel),
        goes_first(items, rel, a, b),
        goes_first(items, rel, b, c),
    ensures
        goes_first(items, rel, a, c),
{
    let (x, y, z) = (items[a], items[b], items[c]);
    assert(!rel(y, x));
    assert(!rel(z, y));
    assert(!rel(z, x));
    if !rel(x, z) {
        if rel(x, y) {
            assert(!rel(y, x) && !rel(z, y));
            assert(!rel(z, y));
            assert(!rel(x, z));
            assert(!rel(x, y)) by {
                assert(!rel(z, y) && !rel(x, z));
            }
        }
        if rel(y, z) {
            assert(!rel(x, z) && !rel(y, x));
            assert(!rel(y, z));
        }
    }
}

/// The indices from `lo` to `hi` in sorted order.
fn sort_range<T, F: Fn(&T, &T) -> bool>(
    items: &Vec<T>,
    lo: usize,
    hi: usize,
    before: &F,
    Ghost(rel): Ghost<spec_fn(T, T) -> bool>,
) -> (perm: Vec<usize>)
    requires
        lo <= hi <= items@.len(),
        strict_weak_order(rel),
        forall|a: &T, b: &T| #[trigger] call_requires(*before, (a, b)),
        forall|a: &T, b: &T, r: bool|
            #[trigger] call_ensures(*before, (a, b), r) ==> r == rel(*a, *b),
    ensures
        sorts_range(items@, perm@, lo as int, hi as int, rel),
    decreases hi - lo,
{
    let mut out: Vec<usize> = Vec::new();
    if hi - lo == 0 {
        return out;
    }
    if hi - lo == 1 {
        out.push(lo);
        return out;
    }
    let mid: usize = lo + (hi - lo) / 2;
    let left = sort_range(items, lo, mid, before, Ghost(rel));
    let right = sort_range(items, mid, hi, before, Ghost(rel));
    let mut i: usize = 0;
    let mut j: usize = 0;
    while i < left.len() || j < right.len()
        invariant
            lo < mid < hi <= items@.len(),
            strict_weak_order(rel),
            forall|a: &T, b: &T| #[trigger] call_requires(*before, (a, b)),
            forall|a: &T, b: &T, r: bool|
                #[trigger] call_ensures(*before, (a, b), r) ==> r == rel(*a, *b),
            sorts_range(items@, left@, lo as int, mid as int, rel),
            sorts_range(items@, right@, mid as int, hi as int, rel),
            i <= left@.len(),
            j <= right@.len(),
            out@.len() == i + j,
            forall|k: int| 0 <= k < out@.len() ==> lo <= #[trigger] out@[k] < hi,
            forall|a: int, b: int|
                0 <= a < b < out@.len() ==> goes_first(
                    items@,
                    rel,
                    #[trigger] out@[a] as int,
                    #[trigger] out@[b] as int,
                ),
            forall|a: int, b: int|
                0 <= a < out@.len() && i <= b < left@.len() ==> goes_first(
                    items@,
                    rel,
                    #[trigger] out@[a] as int,
                    #[trigger] left@[b] as int,
                ),
            forall|a: int, b: int|
                0 <= a < out@.len() && j <= b < right@.len() ==> goes_first(
                    items@,
                    rel,
                    #[trigger] out@[a] as int,
                    #[trigger] right@[b] as int,
                ),
        decreases left@.len() - i + right@.len() - j,
    {
        let take_left: bool = if i == left.len() {
            false
        } else if j == right.len() {
            true
        } else {
            !before(&items[right[j]], &items[left[i]])
        };
        let ghost head: usize = if take_left {
            left@[i as int]
        } else {
            right@[j as int]
        };
        proof {
            assert forall|b: int| i <= b < left@.len() && !(take_left && b == i) implies goes_first(
                items@,
                rel,
                head as int,
                #[trigger] left@[b] as int,
            ) by {
                if !take_left {
                    assert(rel(items@[right@[j as int] as int], items@[left@[i as int] as int]));
                    if b > i {
                        lemma_goes_first_transitive(
                            items@,
                            rel,
                            head as int,
                            left@[i as int] as int,
                            left@[b] as int,
                        );
                    }
                }
            }
            assert forall|b: int|
                j <= b < right@.len() && !(!take_left && b == j) implies goes_first(
                items@,
                rel,
                head as int,
                #[trigger] right@[b] as int,
            ) by {
                if take_left {
                    assert(goes_first(items@, rel, head as int, right@[j as int] as int));
                    if b > j {
                        lemma_goes_first_transitive(
                            items@,
                            rel,
                            head as int,
                            right@[j as int] as int,
                            right@[b] as int,
                        );
                    }
                }
            }
        }
        if take_left {
            out.push(left[i]);
            i += 1;
        } else {
            out.push(right[j]);
            j += 1;
        }
    }
    out
}

/// The indices of `items` in sorted order.
pub fn sorted_indices<T, F: Fn(&T, &T) -> bool>(
    items: &Vec<T>,
    before: &F,
    Ghost(rel): Ghost<spec_fn(T, T) -> bool>,
) -> (perm: Vec<usize>)
    requires
        strict_weak_order(rel),
        forall|a: &T, b: &T| #[trigger] call_requires(*before, (a, b)),
        forall|a: &T, b: &T, r: bool|
            #[trigger] call_ensures(*before, (a, b), r) ==> r == rel(*a, *b),
    ensures
        sorts_range(items@, perm@, 0, items@.len() as int, rel),
{
    sort_range(items, 0, items.len(), before, Ghost(rel))
}

/// Distinct indices of a sorting permutation stay distinct.
pub proof fn lemma_sorting_is_injective<T>(
    items: Seq<T>,
    perm: Seq<usize>,
    rel: spec_fn(T, T) -> bool,
    i: int,
    j: int,
)
    requires
        strict_weak_order(rel),
        sorts_range(items, perm, 0, items.len() as int, rel),
        0 <= i < perm.len(),
        0 <= j < perm.len(),
        i != j,
    ensures
        perm[i] != perm[j],
{
    let (a, b) = if i < j {
        (i, j)
    } else {
        (j, i)
    };
    assert(goes_first(items, rel, perm[a] as int, perm[b] as int));
    if perm[a] == perm[b] {
        let x = items[perm[a] as int];
        assert(rel(x, x));
        assert(!rel(x, x));
    }
}

/// Sorts `items` by `before`; items that tie keep their order.
pub fn stable_sort_by<T, F: Fn(&T, &T) -> bool>(
    items: Vec<T>,
    before: F,
    Ghost(rel): Ghost<spec_fn(T, T) -> bool>,
) -> (out: Vec<T>)
    requires
        strict_weak_order(rel),
        forall|a: &T, b: &T| #[trigger] call_requires(before, (a, b)),
        forall|a: &T, b: &T, r: bool|
            #[trigger] call_ensures(before, (a, b), r) ==> r == rel(*a, *b),
    ensures
        stable_sorted(items@, out@, rel),
{
    let perm = sorted_indices(&items, &before, Ghost(rel));
    let ghost inp = items@;
    let mut slots: Vec<Option<T>> = Vec::new();
    let mut rest = items;
    while rest.len() > 0
        invariant
            rest@.len() + slots@.len() == inp.len(),
            rest@ == inp.subrange(0, rest@.len() as int),
            forall|k: int|
                0 <= k < slots@.len() ==> #[trigger] slots@[k] == Some(inp[inp.len() - 1 - k]),
        decreases rest@.len(),
    {
        let last = rest.pop();
        assert(rest@ =~= inp.subrange(0, rest@.len() as int));
        slots.push(last);
    }
    let n: usize = slots.len();
    let mut out: Vec<T> = Vec::new();
    let mut i: usize = 0;
    while i < n
        invariant
            n == inp.len(),
            n == slots@.len(),
            i <= n,
            out@.len() == i,
            strict_weak_order(rel),
            sorts_range(inp, perm@, 0, inp.len() as int, rel),
            forall|k: int| 0 <= k < i ==> #[trigger] out@[k] == inp[perm@[k] as int],
            forall|k: int|
                i <= k < n ==> slots@[n - 1 - #[trigger] perm@[k]] == Some(inp[perm@[k] as int]),
        decreases n - i,
    {
        let at: usize = n - 1 - perm[i];
        let mut taken: Option<T> = None;
        assert(slots@[at as int] == Some(inp[perm@[i as int] as int]));
        std::mem::swap(&mut taken, &mut slots[at]);
        proof {
            assert forall|k: int| i + 1 <= k < n implies slots@[n - 1 - #[trigger] perm@[k]]
                == Some(inp[perm@[k] as int]) by {
                lemma_sorting_is_injective(inp, perm@, rel, i as int, k);
            }
        }
        match taken {
            Some(item) => {
                out.push(item);
            },
            None => {
                assert(false);
            },
        }
        i += 1;
    }
    assert(out@ =~= perm@.map_values(|k: usize| inp[k as int]));
    assert(stable_sorted_by(inp, out@, perm@, rel));
    out
}

/// Sorting keeps exactly the items: each index occurs once.
pub proof fn lemma_stable_sorted_keeps_items<T>(
    inp: Seq<T>,
    out: Seq<T>,
    rel: spec_fn(T, T) -> bool,
)
    requires
        strict_weak_order(rel),
        stable_sorted(inp, out, rel),
    ensures
        out.len() == inp.len(),
        forall|i: int| 0 <= i < out.len() ==> inp.contains(#[trigger] out[i]),
        forall|i: int, j: int|
            0 <= i < j < out.len() ==> !rel(#[trigger] out[j], #[trigger] out[i]),
{
    let perm = choose|perm: Seq<usize>| stable_sorted_by(inp, out, perm, rel);
    assert forall|i: int| 0 <= i < out.len() implies inp.contains(#[trigger] out[i]) by {
        assert(out[i] == inp[perm[i] as int]);
    }
    assert forall|i: int, j: int| 0 <= i < j < out.len() implies !rel(
        #[trigger] out[j],
        #[trigger] out[i],
    ) by {
        assert(goes_first(inp, rel, perm[i] as int, perm[j] as int));
    }
}

/// A sorting permutation reaches every index.
pub proof fn lemma_sorting_is_surjective<T>(
    items: Seq<T>,
    perm: Seq<usize>,
    rel: spec_fn(T, T) -> bool,
    k: int,
)
    requires
        strict_weak_order(rel),
        sorts_range(items, perm, 0, items.len() as int, rel),
        0 <= k < items.len(),
    ensures
        exists|i: int| 0 <= i < perm.len() && #[trigger] perm[i] == k,
{
    let p = perm.map_values(|x: usize| x as int);
    assert(p.no_duplicates()) by {
        assert forall|i: int, j: int| 0 <= i < p.len() && 0 <= j < p.len() && i != j implies p[i]
            != p[j] by {
            lemma_sorting_is_injective(items, perm, rel, i, j);
        }
    }
    p.unique_seq_to_set();
    let range = vstd::set_lib::set_int_range(0, items.len() as int);
    vstd::set_lib::lemma_int_range(0, items.len() as int);
    assert(p.to_set().subset_of(range)) by {
        assert forall|x: int| p.to_set().contains(x) implies range.contains(x) by {
            let i = choose|i: int| 0 <= i < p.len() && p[i] == x;
            assert(0 <= perm[i] < items.len());
        }
    }
    vstd::seq_lib::seq_to_set_is_finite(p);
    vstd::set_lib::lemma_subset_equality(p.to_set(), range);
    assert(range.contains(k));
    assert(p.to_set().contains(k));
    let i = choose|i: int| 0 <= i < p.len() && p[i] == k;
    assert(perm[i] == k);
}

/// Sorting loses no item.
pub proof fn lemma_stable_sorted_loses_nothing<T>(
    inp: Seq<T>,
    out: Seq<T>,
    rel: spec_fn(T, T) -> bool,
    k: int,
)
    requires
        strict_weak_order(rel),
        stable_sorted(inp, out, rel),
        0 <= k < inp.len(),
    ensures
        out.contains(inp[k]),
{
    let perm = choose|perm: Seq<usize>| stable_sorted_by(inp, out, perm, rel);
    lemma_sorting_is_surjective(inp, perm, rel, k);
    let i = choose|i: int| 0 <= i < perm.len() && #[trigger] perm[i] == k;
    assert(out[i] == inp[k]);
}

/// Items that a property tells apart stay apart.
pub proof fn lemma_stable_sorted_keeps_apart<T, K>(
    inp: Seq<T>,
    out: Seq<T>,
    rel: spec_fn(T, T) -> bool,
    f: spec_fn(T) -> K,
)
    requires
        strict_weak_order(rel),
        stable_sorted(inp, out, rel),
        forall|i: int, j: int|
            0 <= i < j < inp.len() ==> f(#[trigger] inp[i]) != f(#[trigger] inp[j]),
    ensures
        forall|i: int, j: int|
            0 <= i < j < out.len() ==> f(#[trigger] out[i]) != f(#[trigger] out[j]),
{
    let perm = choose|perm: Seq<usize>| stable_sorted_by(inp, out, perm, rel);
    assert forall|i: int, j: int| 0 <= i < j < out.len() implies f(#[trigger] out[i]) != f(
        #[trigger] out[j],
    ) by {
        lemma_sorting_is_injective(inp, perm, rel, i, j);
        assert(out[i] == inp[perm[i] as int] && out[j] == inp[perm[j] as int]);
        if perm[i] < perm[j] {
            assert(f(inp[perm[i] as int]) != f(inp[perm[j] as int]));
        } else {
            assert(f(inp[perm[j] as int]) != f(inp[perm[i] as int]));
        }
    }
}

/// Sorting what is there already changes nothing in how it is sorted with what follows.
pub proof fn lemma_sorting_early_changes_nothing<T>(
    front: Seq<T>,
    sorted: Seq<T>,
    rest: Seq<T>,
    out: Seq<T>,
    rel: spec_fn(T, T) -> bool,
)
    requires
        stable_sorted(front, sorted, rel),
        stable_sorted(sorted + rest, out, rel),
    ensures
        stable_sorted(front + rest, out, rel),
{
    let n = front.len() as int;
    let p = choose|p: Seq<usize>| stable_sorted_by(front, sorted, p, rel);
    let q = choose|q: Seq<usize>| stable_sorted_by(sorted + rest, out, q, rel);
    let c = Seq::new(
        q.len(),
        |i: int|
            if q[i] < n {
                p[q[i] as int]
            } else {
                q[i]
            },
    );
    let all = front + rest;
    assert forall|i: int| 0 <= i < c.len() implies 0 <= #[trigger] c[i] < all.len() && all[c[i]
        as int] == (sorted + rest)[q[i] as int] && (c[i] < n <==> q[i] < n) by {
        assert(0 <= q[i] < sorted.len() + rest.len());
        if q[i] < n {
            assert(0 <= p[q[i] as int] < n);
        }
    }
    assert forall|i: int, j: int| 0 <= i < j < c.len() implies goes_first(
        all,
        rel,
        #[trigger] c[i] as int,
        #[trigger] c[j] as int,
    ) by {
        let a = q[i] as int;
        let b = q[j] as int;
        assert(goes_first(sorted + rest, rel, a, b));
        if a < b < n {
            assert(goes_first(front, rel, p[a] as int, p[b] as int));
        }
    }
    assert(out =~= c.map_values(|k: usize| all[k as int]));
    assert(stable_sorted_by(all, out, c, rel));
}

// ---------------------------------------------------------------------------
// The order of strings: by characters, the shorter first where one is a prefix.

/// `a` comes before `b`.
pub open spec fn text_before(a: Seq<char>, b: Seq<char>) -> bool
    decreases a.len(),
{
    if b.len() == 0 {
        false
    } else if a.len() == 0 {
        true
    } else if a[0] != b[0] {
        (a[0] as int) < (b[0] as int)
    } else {
        text_before(a.drop_first(), b.drop_first())
    }
}

pub proof fn lemma_text_before_asymmetric(a: Seq<char>, b: Seq<char>)
    requires
        text_before(a, b),
    ensures
        !text_before(b, a),
    decreases a.len(),
{
    if a.len() > 0 && b.len() > 0 && a[0] == b[0] {
        lemma_text_before_asymmetric(a.drop_first(), b.drop_first());
    }
}

pub proof fn lemma_text_before_total(a: Seq<char>, b: Seq<char>)
    requires
        !text_before(a, b),
        !text_before(b, a),
    ensures
        a == b,
    decreases a.len(),
{
    if a.len() > 0 && b.len() > 0 {
        assert(a[0] == b[0]);
        lemma_text_before_total(a.drop_first(), b.drop_first());
        assert(a =~= seq![a[0]] + a.drop_first());
        assert(b =~= seq![b[0]] + b.drop_first());
    } else {
        assert(a =~= b);
    }
}

pub proof fn lemma_text_before_transitive(a: Seq<char>, b: Seq<char>, c: Seq<char>)
    requires
        !text_before(b, a),
        !text_before(c, b),
    ensures
        !text_before(c, a),
    decreases a.len(),
{
    if a.len() > 0 && c.len() > 0 && b.len() > 0 && a[0] == c[0] && a[0] == b[0] {
        lemma_text_before_transitive(a.drop_first(), b.drop_first(), c.drop_first());
    }
}

/// Whether `a` comes before `b`.
pub fn str_before(a: &str, b: &str) -> (r: bool)
    ensures
        r == text_before(a@, b@),
{
    let x = chars_of(a);
    let y = chars_of(b);
    let mut i: usize = 0;
    assert(x@.subrange(0, x@.len() as int) =~= x@);
    assert(y@.subrange(0, y@.len() as int) =~= y@);
    while i < x.len() && i < y.len() && x[i] == y[i]
        invariant
            i <= x@.len(),
            i <= y@.len(),
            x@ == a@,
            y@ == b@,
            text_before(a@, b@) == text_before(
                x@.subrange(i as int, x@.len() as int),
                y@.subrange(i as int, y@.len() as int),
            ),
        decreases x@.len() - i,
    {
        assert(x@.subrange(i as int, x@.len() as int).drop_first() =~= x@.subrange(
            i + 1,
            x@.len() as int,
        ));
        assert(y@.subrange(i as int, y@.len() as int).drop_first() =~= y@.subrange(
            i + 1,
            y@.len() as int,
        ));
        i += 1;
    }
    if i == y.len() {
        false
    } else if i == x.len() {
        true
    } else {
        let (c, d) = (x[i], y[i]);
        c < d
    }
}

// ---------------------------------------------------------------------------
// Orders made of orders.

/// By `first`, and where that ties, by `second`.
pub open spec fn then_by<T>(
    first: spec_fn(T, T) -> bool,
    second: spec_fn(T, T) -> bool,
) -> spec_fn(T, T) -> bool {
    |a: T, b: T| first(a, b) || (!first(b, a) && second(a, b))
}

pub proof fn lemma_then_by<T>(first: spec_fn(T, T) -> bool, second: spec_fn(T, T) -> bool)
    requires
        strict_weak_order(first),
        strict_weak_order(second),
    ensures
        strict_weak_order(then_by(first, second)),
{
    let rel = then_by(first, second);
    assert forall|a: T, b: T| #[trigger] rel(a, b) implies !rel(b, a) by {
        if first(a, b) {
            assert(!first(b, a));
        } else {
            assert(second(a, b));
            assert(!second(b, a));
        }
    }
    assert forall|a: T, b: T, c: T| !(#[trigger] rel(b, a)) && !(#[trigger] rel(c, b)) implies !rel(
        c,
        a,
    ) by {
        assert(!first(b, a) && !first(c, b));
        assert(!first(c, a));
        if !first(a, c) {
            if first(a, b) {
                assert(!first(c, b) && !first(a, c));
                assert(!first(a, b));
            }
            if first(b, c) {
                assert(!first(a, c) && !first(b, a));
                assert(!first(b, c));
            }
            assert(!second(b, a) && !second(c, b));
            assert(!second(c, a));
        }
    }
}

/// The other way round.
pub open spec fn reversed<T>(rel: spec_fn(T, T) -> bool) -> spec_fn(T, T) -> bool {
    |a: T, b: T| rel(b, a)
}

pub proof fn lemma_reversed<T>(rel: spec_fn(T, T) -> bool)
    requires
        strict_weak_order(rel),
    ensures
        strict_weak_order(reversed(rel)),
{
    let back = reversed(rel);
    assert forall|a: T, b: T| #[trigger] back(a, b) implies !back(b, a) by {
        assert(rel(b, a));
    }
    assert forall|a: T, b: T, c: T|
        !(#[trigger] back(b, a)) && !(#[trigger] back(c, b)) implies !back(c, a) by {
        assert(!rel(a, b) && !rel(b, c));
        assert(!rel(b, c) && !rel(a, b));
    }
}

/// Nothing before something, and otherwise by the text.
pub open spec fn opt_before(a: Option<Seq<char>>, b: Option<Seq<char>>) -> bool {
    match (a, b) {
        (Some(x), Some(y)) => text_before(x, y),
        (None, Some(_)) => true,
        _ => false,
    }
}

/// By a text that each item has.
pub open spec fn by_text<T>(f: spec_fn(T) -> Seq<char>) -> spec_fn(T, T) -> bool {
    |a: T, b: T| text_before(f(a), f(b))
}

/// By a text that an item may have.
pub open spec fn by_opt_text<T>(f: spec_fn(T) -> Option<Seq<char>>) -> spec_fn(T, T) -> bool {
    |a: T, b: T| opt_before(f(a), f(b))
}

/// By a number that each item has.
pub open spec fn by_number<T>(f: spec_fn(T) -> int) -> spec_fn(T, T) -> bool {
    |a: T, b: T| f(a) < f(b)
}

pub proof fn lemma_by_number<T>(f: spec_fn(T) -> int)
    ensures
        strict_weak_order(by_number(f)),
{
}

pub proof fn lemma_by_text<T>(f: spec_fn(T) -> Seq<char>)
    ensures
        strict_weak_order(by_text(f)),
{
    let rel = by_text(f);
    assert forall|a: T, b: T| #[trigger] rel(a, b) implies !rel(b, a) by {
        lemma_text_before_asymmetric(f(a), f(b));
    }
    assert forall|a: T, b: T, c: T| !(#[trigger] rel(b, a)) && !(#[trigger] rel(c, b)) implies !rel(
        c,
        a,
    ) by {
        lemma_text_before_transitive(f(a), f(b), f(c));
    }
}

pub proof fn lemma_by_opt_text<T>(f: spec_fn(T) -> Option<Seq<char>>)
    ensures
        strict_weak_order(by_opt_text(f)),
{
    let rel = by_opt_text(f);
    assert forall|a: T, b: T| #[trigger] rel(a, b) implies !rel(b, a) by {
        if f(a) is Some && f(b) is Some {
            lemma_text_before_asymmetric(f(a)->0, f(b)->0);
        }
    }
    assert forall|a: T, b: T, c: T| !(#[trigger] rel(b, a)) && !(#[trigger] rel(c, b)) implies !rel(
        c,
        a,
    ) by {
        if f(a) is Some && f(b) is Some && f(c) is Some {
            lemma_text_before_transitive(f(a)->0, f(b)->0, f(c)->0);
        }
    }
}

/// Whether one optional text comes before another.
pub fn opt_str_before(a: &Option<String>, b: &Option<String>) -> (r: bool)
    ensures
        r == opt_before(crate::text::opt_view(*a), crate::text::opt_view(*b)),
{
    match (a, b) {
        (Some(x), Some(y)) => str_before(x.as_str(), y.as_str()),
        (None, Some(_)) => true,
        _ => false,
    }
}

/// One text comes before another where at their first difference it has the character with the
/// smaller number, or ends there.
pub proof fn lemma_text_before_is_by_first_difference(a: Seq<char>, b: Seq<char>, k: int)
    requires
        0 <= k <= a.len(),
        k <= b.len(),
        forall|i: int| 0 <= i < k ==> a[i] == b[i],
        k < a.len() && k < b.len() ==> a[k] != b[k],
    ensures
        text_before(a, b) <==> k < b.len() && (k == a.len() || (a[k] as int) < (b[k] as int)),
    decreases k,
{
    if k > 0 {
        lemma_text_before_is_by_first_difference(a.drop_first(), b.drop_first(), k - 1);
    }
}

/// A file without a text comes before one with a text, and two texts go by their characters.
pub proof fn lemma_opt_before_is_by_text(a: Option<Seq<char>>, b: Option<Seq<char>>)
    ensures
        a is None ==> (opt_before(a, b) <==> b is Some),
        b is None ==> !opt_before(a, b),
        a is Some && b is Some ==> (opt_before(a, b) <==> text_before(a->0, b->0)),
{
}

} // verus!
