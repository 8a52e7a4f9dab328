//! Sequences picked out of other sequences.

use vstd::prelude::*;

verus! {

/// The results of `f` on the items of `s` for which it has one.
pub open spec fn filter_mapped<T, U>(s: Seq<T>, f: spec_fn(T) -> Option<U>) -> Seq<U>
    decreases s.len(),
{
    if s.len() == 0 {
        seq![]
    } else {
        let front = filter_mapped(s.drop_last(), f);
        match f(s.last()) {
            Some(u) => front.push(u),
            None => front,
        }
    }
}

/// The items of `s` that satisfy `f`.
pub open spec fn kept<T>(s: Seq<T>, f: spec_fn(T) -> bool) -> Seq<T>
    decreases s.len(),
{
    if s.len() == 0 {
        seq![]
    } else if f(s.last()) {
        kept(s.drop_last(), f).push(s.last())
    } else {
        kept(s.drop_last(), f)
    }
}

/// One item more.
pub proof fn lemma_kept_step<T>(s: Seq<T>, f: spec_fn(T) -> bool, i: int)
    requires
        0 <= i < s.len(),
    ensures
        kept(s.subrange(0, i + 1), f) == if f(s[i]) {
            kept(s.subrange(0, i), f).push(s[i])
        } else {
            kept(s.subrange(0, i), f)
        },
{
    assert(s.subrange(0, i + 1).drop_last() =~= s.subrange(0, i));
}

/// One item more.
pub proof fn lemma_filter_mapped_step<T, U>(s: Seq<T>, f: spec_fn(T) -> Option<U>, i: int)
    requires
        0 <= i < s.len(),
    ensures
        filter_mapped(s.subrange(0, i + 1), f) == match f(s[i]) {
            Some(u) => filter_mapped(s.subrange(0, i), f).push(u),
            None => filter_mapped(s.subrange(0, i), f),
        },
{
    assert(s.subrange(0, i + 1).drop_last() =~= s.subrange(0, i));
}

/// What is kept satisfies the condition and comes from the list.
pub proof fn lemma_kept_sound<T>(s: Seq<T>, f: spec_fn(T) -> bool)
    ensures
        kept(s, f).len() <= s.len(),
        forall|i: int|
            0 <= i < kept(s, f).len() ==> f(#[trigger] kept(s, f)[i]) && s.contains(kept(s, f)[i]),
    decreases s.len(),
{
    if s.len() > 0 {
        let t = s.drop_last();
        lemma_kept_sound(t, f);
        assert forall|i: int| 0 <= i < kept(s, f).len() implies f(#[trigger] kept(s, f)[i])
            && s.contains(kept(s, f)[i]) by {
            if i < kept(t, f).len() {
                let x = kept(t, f)[i];
                assert(kept(s, f)[i] == x);
                assert(t.contains(x));
                let j = choose|j: int| 0 <= j < t.len() && t[j] == x;
                assert(s[j] == x);
            } else {
                assert(s[s.len() - 1] == kept(s, f)[i]);
            }
        }
    }
}

/// Everything in the list that satisfies the condition is kept.
pub proof fn lemma_kept_complete<T>(s: Seq<T>, f: spec_fn(T) -> bool, i: int)
    requires
        0 <= i < s.len(),
        f(s[i]),
    ensures
        kept(s, f).contains(s[i]),
    decreases s.len(),
{
    let t = s.drop_last();
    if i < t.len() {
        lemma_kept_complete(t, f, i);
        assert(t[i] == s[i]);
        let j = choose|j: int| 0 <= j < kept(t, f).len() && kept(t, f)[j] == s[i];
        assert(kept(s, f)[j] == s[i]);
    } else {
        assert(kept(s, f)[kept(s, f).len() - 1] == s[i]);
    }
}

/// Filtering by a condition a second time changes nothing.
pub proof fn lemma_kept_idempotent<T>(s: Seq<T>, f: spec_fn(T) -> bool)
    ensures
        kept(kept(s, f), f) == kept(s, f),
    decreases s.len(),
{
    if s.len() > 0 {
        lemma_kept_idempotent(s.drop_last(), f);
        if f(s.last()) {
            assert(kept(s, f).drop_last() =~= kept(s.drop_last(), f));
        }
    }
}

/// Two items that are kept come from two places of the list, in the same order.
pub proof fn lemma_kept_sources<T>(s: Seq<T>, f: spec_fn(T) -> bool, i: int, j: int) -> (r: (
    int,
    int,
))
    requires
        0 <= i < j < kept(s, f).len(),
    ensures
        0 <= r.0 < r.1 < s.len(),
        s[r.0] == kept(s, f)[i] && f(s[r.0]),
        s[r.1] == kept(s, f)[j] && f(s[r.1]),
    decreases s.len(),
{
    let t = s.drop_last();
    if j < kept(t, f).len() {
        lemma_kept_sources(t, f, i, j)
    } else {
        lemma_kept_sound(t, f);
        let x = kept(t, f)[i];
        let a = choose|a: int| 0 <= a < t.len() && t[a] == x;
        assert(s[a] == x);
        (a, s.len() - 1)
    }
}

/// A result comes from an item.
pub proof fn lemma_filter_mapped_source<T, U>(s: Seq<T>, f: spec_fn(T) -> Option<U>, i: int) -> (r:
    int)
    requires
        0 <= i < filter_mapped(s, f).len(),
    ensures
        0 <= r < s.len(),
        f(s[r]) == Some(filter_mapped(s, f)[i]),
    decreases s.len(),
{
    let t = s.drop_last();
    if i < filter_mapped(t, f).len() {
        lemma_filter_mapped_source(t, f, i)
    } else {
        s.len() - 1
    }
}

/// Two results come from two items, in the same order.
pub proof fn lemma_filter_mapped_sources<T, U>(
    s: Seq<T>,
    f: spec_fn(T) -> Option<U>,
    i: int,
    j: int,
) -> (r: (int, int))
    requires
        0 <= i < j < filter_mapped(s, f).len(),
    ensures
        0 <= r.0 < r.1 < s.len(),
        f(s[r.0]) == Some(filter_mapped(s, f)[i]),
        f(s[r.1]) == Some(filter_mapped(s, f)[j]),
    decreases s.len(),
{
    let t = s.drop_last();
    if j < filter_mapped(t, f).len() {
        lemma_filter_mapped_sources(t, f, i, j)
    } else {
        let a = lemma_filter_mapped_source(t, f, i);
        (a, s.len() - 1)
    }
}

/// The result on every item that has one is among the results.
pub proof fn lemma_filter_mapped_complete<T, U>(s: Seq<T>, f: spec_fn(T) -> Option<U>, k: int) -> (r:
    int)
    requires
        0 <= k < s.len(),
        f(s[k]) is Some,
    ensures
        0 <= r < filter_mapped(s, f).len(),
        Some(filter_mapped(s, f)[r]) == f(s[k]),
    decreases s.len(),
{
    let t = s.drop_last();
    if k < t.len() {
        assert(t[k] == s[k]);
        lemma_filter_mapped_complete(t, f, k)
    } else {
        filter_mapped(t, f).len() as int
    }
}

/// The items in the opposite order.
pub(crate) fn turn_around<T>(items: Vec<T>) -> (r: Vec<T>)
    ensures
        r@.len() == items@.len(),
        forall|k: int| 0 <= k < r@.len() ==> #[trigger] r@[k] == items@[items@.len() - 1 - k],
{
    let ghost given = items@;
    let mut turned: Vec<T> = Vec::new();
    let mut rest = items;
    while rest.len() > 0
        invariant
            rest@.len() + turned@.len() == given.len(),
            rest@ == given.subrange(0, rest@.len() as int),
            forall|k: int|
                0 <= k < turned@.len() ==> #[trigger] turned@[k] == given[given.len() - 1 - k],
        decreases rest@.len(),
    {
        if let Some(item) = rest.pop() {
            turned.push(item);
        }
        assert(rest@ =~= given.subrange(0, rest@.len() as int));
    }
    turned
}

/// The items that pass a test.
pub(crate) fn keep_where<T, F: Fn(&T) -> bool>(
    items: Vec<T>,
    test: F,
    Ghost(f): Ghost<spec_fn(T) -> bool>,
) -> (r: Vec<T>)
    requires
        forall|t: T| call_requires(test, (&t,)),
        forall|t: T, b: bool| call_ensures(test, (&t,), b) ==> b == f(t),
    ensures
        r@ == kept(items@, f),
{
    let ghost given = items@;
    let mut turned = turn_around(items);
    let mut out: Vec<T> = Vec::new();
    assert(given.subrange(0, 0) =~= seq![]);
    while turned.len() > 0
        invariant
            turned@.len() <= given.len(),
            forall|t: T| call_requires(test, (&t,)),
            forall|t: T, b: bool| call_ensures(test, (&t,), b) ==> b == f(t),
            out@ == kept(given.subrange(0, given.len() - turned@.len()), f),
            forall|k: int|
                0 <= k < turned@.len() ==> #[trigger] turned@[k] == given[given.len() - 1 - k],
        decreases turned@.len(),
    {
        let ghost i = given.len() - turned@.len();
        proof {
            lemma_kept_step(given, f, i);
        }
        if let Some(item) = turned.pop() {
            assert(item == given[i]);
            if test(&item) {
                out.push(item);
            }
        }
    }
    assert(given.subrange(0, given.len() as int) =~= given);
    out
}

/// The items from one place up to another.
pub(crate) fn window<T>(items: Vec<T>, from: usize, to: usize) -> (r: Vec<T>)
    requires
        from <= to <= items@.len(),
    ensures
        r@ == items@.subrange(from as int, to as int),
{
    let ghost given = items@;
    let mut front = items;
    front.truncate(to);
    let mut turned = turn_around(front);
    let mut skipped: usize = 0;
    while skipped < from
        invariant
            skipped <= from <= to <= given.len(),
            turned@.len() == to - skipped,
            forall|k: int|
                0 <= k < turned@.len() ==> #[trigger] turned@[k] == given[to - 1 - k],
        decreases from - skipped,
    {
        turned.pop();
        skipped += 1;
    }
    let out = turn_around(turned);
    assert(out@ =~= given.subrange(from as int, to as int));
    out
}

} // verus!
