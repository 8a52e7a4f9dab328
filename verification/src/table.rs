//! A map from strings to values, kept in the order of insertion.

use crate::text::owned;
use vstd::hash_map::StringHashMap;
use vstd::prelude::*;

verus! {

/// A list of pairs whose keys are pairwise different, and the place of each key in it.
pub struct Table<V> {
    pub entries: Vec<(String, V)>,
    pub places: StringHashMap<usize>,
}

/// The places are those of the keys in the list.
pub open spec fn places_fit<V>(places: Map<Seq<char>, usize>, entries: Seq<(String, V)>) -> bool {
    &&& forall|i: int|
        0 <= i < entries.len() ==> places.contains_key((#[trigger] entries[i]).0@)
            && places[entries[i].0@] == i
    &&& forall|k: Seq<char>| #[trigger]
        places.contains_key(k) ==> places[k] < entries.len() && entries[places[k] as int].0@ == k
}

/// The map that a list of pairs writes down.
pub open spec fn pairs_map<V>(entries: Seq<(String, V)>) -> Map<Seq<char>, V>
    decreases entries.len(),
{
    if entries.len() == 0 {
        Map::empty()
    } else {
        pairs_map(entries.drop_last()).insert(entries.last().0@, entries.last().1)
    }
}

/// No key occurs twice.
pub open spec fn keys_distinct<V>(entries: Seq<(String, V)>) -> bool {
    forall|i: int, j: int|
        0 <= i < j < entries.len() ==> (#[trigger] entries[i]).0@ != (#[trigger] entries[j]).0@
}

impl<V> View for Table<V> {
    type V = Map<Seq<char>, V>;

    open spec fn view(&self) -> Map<Seq<char>, V> {
        pairs_map(self.entries@)
    }
}

/// Where keys are distinct, the map holds exactly the listed pairs.
pub proof fn lemma_pairs_map<V>(entries: Seq<(String, V)>)
    requires
        keys_distinct(entries),
    ensures
        forall|i: int|
            0 <= i < entries.len() ==> pairs_map(entries).contains_key(
                (#[trigger] entries[i]).0@,
            ) && pairs_map(entries)[entries[i].0@] == entries[i].1,
        forall|k: Seq<char>| #[trigger]
            pairs_map(entries).contains_key(k) ==> exists|i: int|
                0 <= i < entries.len() && (#[trigger] entries[i]).0@ == k,
    decreases entries.len(),
{
    if entries.len() > 0 {
        let front = entries.drop_last();
        assert(keys_distinct(front)) by {
            assert forall|i: int, j: int| 0 <= i < j < front.len() implies (
            #[trigger] front[i]).0@ != (#[trigger] front[j]).0@ by {
                assert(front[i] == entries[i] && front[j] == entries[j]);
            }
        }
        lemma_pairs_map(front);
        assert forall|i: int| 0 <= i < entries.len() implies pairs_map(entries).contains_key(
            (#[trigger] entries[i]).0@,
        ) && pairs_map(entries)[entries[i].0@] == entries[i].1 by {
            if i < front.len() {
                assert(front[i] == entries[i]);
                assert(entries[i].0@ != entries[entries.len() - 1].0@);
            }
        }
        assert forall|k: Seq<char>| #[trigger] pairs_map(entries).contains_key(k) implies exists|
            i: int,
        |
            0 <= i < entries.len() && (#[trigger] entries[i]).0@ == k by {
            if k == entries.last().0@ {
                assert(entries[entries.len() - 1].0@ == k);
            } else {
                assert(pairs_map(front).contains_key(k));
                let i = choose|i: int| 0 <= i < front.len() && (#[trigger] front[i]).0@ == k;
                assert(entries[i].0@ == k);
            }
        }
    }
}

/// Where keys are distinct, there are as many as pairs.
pub proof fn lemma_pairs_len<V>(entries: Seq<(String, V)>)
    requires
        keys_distinct(entries),
    ensures
        pairs_map(entries).dom().finite(),
        pairs_map(entries).len() == entries.len(),
    decreases entries.len(),
{
    if entries.len() > 0 {
        let front = entries.drop_last();
        assert(keys_distinct(front)) by {
            assert forall|i: int, j: int| 0 <= i < j < front.len() implies (
            #[trigger] front[i]).0@ != (#[trigger] front[j]).0@ by {
                assert(front[i] == entries[i] && front[j] == entries[j]);
            }
        }
        lemma_pairs_len(front);
        lemma_pairs_map(front);
        let key = entries.last().0@;
        assert(!pairs_map(front).contains_key(key)) by {
            if pairs_map(front).contains_key(key) {
                let i = choose|i: int| 0 <= i < front.len() && (#[trigger] front[i]).0@ == key;
                assert(entries[i].0@ != entries[entries.len() - 1].0@);
            }
        }
    }
}

impl<V> Table<V> {
    pub open spec fn wf(&self) -> bool {
        keys_distinct(self.entries@) && places_fit(self.places@, self.entries@)
    }

    pub fn new() -> (r: Self)
        ensures
            r.wf(),
            r@ == Map::<Seq<char>, V>::empty(),
            r.entries@.len() == 0,
    {
        Table { entries: Vec::new(), places: StringHashMap::new() }
    }

    /// The position of a key in the list.
    pub fn position(&self, key: &str) -> (r: Option<usize>)
        requires
            self.wf(),
        ensures
            match r {
                Some(i) => i < self.entries@.len() && self.entries@[i as int].0@ == key@
                    && self@.contains_key(key@) && self@[key@] == self.entries@[i as int].1,
                None => !self@.contains_key(key@),
            },
    {
        proof {
            lemma_pairs_map(self.entries@);
        }
        match self.places.get(key) {
            Some(i) => Some(*i),
            None => {
                proof {
                    if self@.contains_key(key@) {
                        let i = choose|i: int|
                            0 <= i < self.entries@.len() && (#[trigger] self.entries@[i]).0@
                                == key@;
                        assert(self.places@.contains_key(self.entries@[i].0@));
                    }
                }
                None
            },
        }
    }

    pub fn contains_key(&self, key: &str) -> (r: bool)
        requires
            self.wf(),
        ensures
            r == self@.contains_key(key@),
    {
        self.position(key).is_some()
    }

    pub fn get(&self, key: &str) -> (r: Option<&V>)
        requires
            self.wf(),
        ensures
            match r {
                Some(v) => self@.contains_key(key@) && self@[key@] == *v,
                None => !self@.contains_key(key@),
            },
    {
        match self.position(key) {
            Some(i) => Some(&self.entries[i].1),
            None => None,
        }
    }

    pub fn len(&self) -> (r: usize)
        ensures
            r == self.entries@.len(),
    {
        self.entries.len()
    }

    /// Adds a pair whose key is new.
    pub fn insert_new(&mut self, key: String, value: V)
        requires
            old(self).wf(),
            !old(self)@.contains_key(key@),
        ensures
            final(self).wf(),
            final(self)@ == old(self)@.insert(key@, value),
            final(self).entries@ == old(self).entries@.push((key, value)),
    {
        proof {
            lemma_pairs_map(self.entries@);
        }
        let place: usize = self.entries.len();
        self.places.insert(key.clone(), place);
        self.entries.push((key, value));
        proof {
            let before = old(self).entries@;
            assert forall|i: int| 0 <= i < self.entries@.len() implies self.places@.contains_key(
                (#[trigger] self.entries@[i]).0@,
            ) && self.places@[self.entries@[i].0@] == i by {
                if i < before.len() {
                    assert(self.entries@[i] == before[i]);
                    assert(before[i].0@ != key@);
                }
            }
            assert forall|k: Seq<char>| #[trigger]
                self.places@.contains_key(k) implies self.places@[k] < self.entries@.len()
                && self.entries@[self.places@[k] as int].0@ == k by {
                if k != key@ {
                    assert(old(self).places@.contains_key(k));
                }
            }
            assert(self.entries@.drop_last() =~= old(self).entries@);
            assert forall|i: int, j: int| 0 <= i < j < self.entries@.len() implies (
            #[trigger] self.entries@[i]).0@ != (#[trigger] self.entries@[j]).0@ by {
                if j == self.entries@.len() - 1 {
                    assert(self.entries@[i] == old(self).entries@[i]);
                } else {
                    assert(self.entries@[i] == old(self).entries@[i]);
                    assert(self.entries@[j] == old(self).entries@[j]);
                }
            }
        }
    }

    /// Replaces the value at a position.
    pub fn set_at(&mut self, i: usize, value: V)
        requires
            old(self).wf(),
            i < old(self).entries@.len(),
        ensures
            final(self).wf(),
            final(self)@ == old(self)@.insert(old(self).entries@[i as int].0@, value),
            final(self).entries@.len() == old(self).entries@.len(),
            final(self).entries@ == old(self).entries@.update(
                i as int,
                (old(self).entries@[i as int].0, value),
            ),
    {
        let ghost before = self.entries@;
        self.entries[i].1 = value;
        proof {
            assert(self.entries@ =~= before.update(i as int, (before[i as int].0, value)));
            assert forall|a: int, b: int| 0 <= a < b < self.entries@.len() implies (
            #[trigger] self.entries@[a]).0@ != (#[trigger] self.entries@[b]).0@ by {
                assert(self.entries@[a].0 == before[a].0);
                assert(self.entries@[b].0 == before[b].0);
                assert(before[a].0@ != before[b].0@);
            }
            lemma_pairs_map(before);
            lemma_pairs_map(self.entries@);
            let lhs = self@;
            let rhs = pairs_map(before).insert(before[i as int].0@, value);
            assert forall|k: Seq<char>| lhs.contains_key(k) == rhs.contains_key(k) by {
                if lhs.contains_key(k) {
                    let j = choose|j: int|
                        0 <= j < self.entries@.len() && (#[trigger] self.entries@[j]).0@ == k;
                    assert(before[j].0@ == k);
                }
                if pairs_map(before).contains_key(k) {
                    let j = choose|j: int| 0 <= j < before.len() && (#[trigger] before[j]).0@ == k;
                    assert(self.entries@[j].0@ == k);
                } else if k == before[i as int].0@ {
                    assert(self.entries@[i as int].0@ == k);
                }
            }
            assert forall|k: Seq<char>| lhs.contains_key(k) implies lhs[k] == rhs[k] by {
                let j = choose|j: int|
                    0 <= j < self.entries@.len() && (#[trigger] self.entries@[j]).0@ == k;
                assert(before[j].0@ == k);
                if j != i {
                    assert(self.entries@[j] == before[j]);
                    if k == before[i as int].0@ {
                        if j < i {
                            assert(before[j].0@ != before[i as int].0@);
                        } else {
                            assert(before[i as int].0@ != before[j].0@);
                        }
                    }
                }
            }
            assert(lhs =~= rhs);
        }
    }

    /// Takes a key and its value out.
    pub fn remove(&mut self, key: &str) -> (r: Option<V>)
        requires
            old(self).wf(),
        ensures
            final(self).wf(),
            final(self)@ == old(self)@.remove(key@),
            match r {
                Some(v) => old(self)@.contains_key(key@) && old(self)@[key@] == v,
                None => !old(self)@.contains_key(key@),
            },
    {
        let place: usize = match self.position(key) {
            Some(place) => place,
            None => {
                assert(self@.remove(key@) =~= self@);
                return None;
            },
        };
        let ghost before = self.entries@;
        let last: usize = self.entries.len() - 1;
        let taken = self.entries.swap_remove(place);
        self.places.remove(key);
        if place < last {
            let moved = self.entries[place].0.clone();
            self.places.insert(moved, place);
        }
        proof {
            lemma_pairs_map(before);
            let after = self.entries@;
            assert(after =~= before.update(place as int, before[last as int]).drop_last());
            assert forall|a: int, b: int| 0 <= a < b < after.len() implies (
            #[trigger] after[a]).0@ != (#[trigger] after[b]).0@ by {
                let x = if a == place {
                    last as int
                } else {
                    a
                };
                let y = if b == place {
                    last as int
                } else {
                    b
                };
                assert(after[a] == before[x] && after[b] == before[y]);
                if x < y {
                    assert(before[x].0@ != before[y].0@);
                } else {
                    assert(before[y].0@ != before[x].0@);
                }
            }
            assert forall|i: int| 0 <= i < after.len() implies self.places@.contains_key(
                (#[trigger] after[i]).0@,
            ) && self.places@[after[i].0@] == i by {
                if i == place {
                    assert(after[i] == before[last as int]);
                } else {
                    assert(after[i] == before[i]);
                    if i < place {
                        assert(before[i].0@ != before[place as int].0@);
                    } else {
                        assert(before[place as int].0@ != before[i].0@);
                    }
                    assert(before[i].0@ != before[last as int].0@);
                }
            }
            assert forall|k: Seq<char>| #[trigger]
                self.places@.contains_key(k) implies self.places@[k] < after.len()
                && after[self.places@[k] as int].0@ == k by {
                assert(old(self).places@.contains_key(k));
                let p = old(self).places@[k] as int;
                assert(before[p].0@ == k);
                if p == last && place < last {
                    assert(after[place as int] == before[last as int]);
                } else {
                    assert(p != place);
                    if p == last {
                        assert(place == last);
                    }
                    assert(after[p] == before[p]);
                }
            }
            lemma_pairs_map(after);
            let rest = pairs_map(before).remove(key@);
            assert forall|k: Seq<char>| self@.contains_key(k) == rest.contains_key(k) by {
                if self@.contains_key(k) {
                    let j = choose|j: int| 0 <= j < after.len() && (#[trigger] after[j]).0@ == k;
                    let x = if j == place {
                        last as int
                    } else {
                        j
                    };
                    assert(after[j] == before[x]);
                    assert(before[x].0@ == k);
                    if x < place {
                        assert(before[x].0@ != before[place as int].0@);
                    } else {
                        assert(before[place as int].0@ != before[x].0@);
                    }
                }
                if rest.contains_key(k) {
                    let j = choose|j: int| 0 <= j < before.len() && (#[trigger] before[j]).0@ == k;
                    let x = if j == last {
                        place as int
                    } else {
                        j
                    };
                    assert(after[x] == before[j]);
                    assert(after[x].0@ == k);
                }
            }
            assert forall|k: Seq<char>| self@.contains_key(k) implies self@[k] == rest[k] by {
                let j = choose|j: int| 0 <= j < after.len() && (#[trigger] after[j]).0@ == k;
                let x = if j == place {
                    last as int
                } else {
                    j
                };
                assert(after[j] == before[x]);
                assert(before[x].0@ == k);
                assert(pairs_map(before)[before[x].0@] == before[x].1);
                assert(pairs_map(after)[after[j].0@] == after[j].1);
            }
            assert(self@ =~= rest);
        }
        Some(taken.1)
    }

    /// Sets the value of a key.
    pub fn insert(&mut self, key: &str, value: V)
        requires
            old(self).wf(),
        ensures
            final(self).wf(),
            final(self)@ == old(self)@.insert(key@, value),
    {
        match self.position(key) {
            Some(i) => {
                self.set_at(i, value);
            },
            None => {
                self.insert_new(owned(key), value);
            },
        }
    }
}

/// The list that a table of lists holds for a key: empty where it holds none.
pub open spec fn list_at<V>(table: Map<Seq<char>, Vec<V>>, key: Seq<char>) -> Seq<V> {
    if table.contains_key(key) {
        table[key]@
    } else {
        seq![]
    }
}

impl<V> Table<Vec<V>> {
    /// Appends a value to the list of a key.
    pub fn push_to(&mut self, key: &str, value: V)
        requires
            old(self).wf(),
        ensures
            final(self).wf(),
            final(self)@.dom() == old(self)@.dom().insert(key@),
            forall|k: Seq<char>| #[trigger]
                list_at(final(self)@, k) == if k == key@ {
                    list_at(old(self)@, k).push(value)
                } else {
                    list_at(old(self)@, k)
                },
    {
        match self.position(key) {
            Some(i) => {
                let ghost before = self.entries@;
                self.entries[i].1.push(value);
                proof {
                    let after = self.entries@;
                    assert(after.len() == before.len());
                    assert(after[i as int].0 == before[i as int].0);
                    assert(after[i as int].1@ == before[i as int].1@.push(value));
                    assert forall|j: int| 0 <= j < after.len() && j != i implies after[j]
                        == before[j] by {}
                    assert(keys_distinct(after)) by {
                        assert forall|a: int, b: int| 0 <= a < b < after.len() implies (
                        #[trigger] after[a]).0@ != (#[trigger] after[b]).0@ by {
                            assert(after[a].0 == before[a].0);
                            assert(after[b].0 == before[b].0);
                            assert(before[a].0@ != before[b].0@);
                        }
                    }
                    lemma_pairs_map(before);
                    lemma_pairs_map(after);
                    lemma_same_keys(before, after);
                    assert forall|k: Seq<char>| #[trigger]
                        list_at(self@, k) == if k == key@ {
                            list_at(old(self)@, k).push(value)
                        } else {
                            list_at(old(self)@, k)
                        } by {
                        if self@.contains_key(k) {
                            let j = choose|j: int|
                                0 <= j < after.len() && (#[trigger] after[j]).0@ == k;
                            assert(before[j].0@ == k);
                            if j != i {
                                assert(after[j] == before[j]);
                                if j < i {
                                    assert(before[j].0@ != before[i as int].0@);
                                } else {
                                    assert(before[i as int].0@ != before[j].0@);
                                }
                            }
                        } else {
                            assert(!old(self)@.contains_key(k));
                        }
                    }
                    assert(self@.dom() =~= old(self)@.dom().insert(key@));
                }
            },
            None => {
                let mut list: Vec<V> = Vec::new();
                list.push(value);
                assert(list@ =~= list_at(self@, key@).push(value));
                self.insert_new(owned(key), list);
            },
        }
    }

    /// The list of a key; empty where it has none.
    pub fn list(&self, key: &str) -> (r: &[V])
        requires
            self.wf(),
        ensures
            r@ == list_at(self@, key@),
    {
        match self.position(key) {
            Some(i) => self.entries[i].1.as_slice(),
            None => &[],
        }
    }
}

/// Tables with the same keys have the same domain.
proof fn lemma_same_keys<V>(a: Seq<(String, V)>, b: Seq<(String, V)>)
    requires
        keys_distinct(a),
        keys_distinct(b),
        a.len() == b.len(),
        forall|i: int| 0 <= i < a.len() ==> (#[trigger] a[i]).0 == b[i].0,
    ensures
        pairs_map(a).dom() == pairs_map(b).dom(),
{
    lemma_pairs_map(a);
    lemma_pairs_map(b);
    assert forall|k: Seq<char>| pairs_map(a).contains_key(k) == pairs_map(b).contains_key(k) by {
        if pairs_map(a).contains_key(k) {
            let j = choose|j: int| 0 <= j < a.len() && (#[trigger] a[j]).0@ == k;
            assert(b[j].0@ == k);
        }
        if pairs_map(b).contains_key(k) {
            let j = choose|j: int| 0 <= j < b.len() && (#[trigger] b[j]).0@ == k;
            assert(a[j].0@ == k);
        }
    }
    assert(pairs_map(a).dom() =~= pairs_map(b).dom());
}

/// The number that a table holds for a key: zero where it holds none.
pub open spec fn count_at(table: Map<Seq<char>, usize>, key: Seq<char>) -> usize {
    if table.contains_key(key) {
        table[key]
    } else {
        0
    }
}

impl Table<usize> {
    /// Adds one to the number of a key.
    pub fn increment(&mut self, key: &str)
        requires
            old(self).wf(),
        ensures
            final(self).wf(),
            forall|k: Seq<char>| #[trigger]
                count_at(final(self)@, k) == if k == key@ && count_at(old(self)@, k) < usize::MAX {
                    (count_at(old(self)@, k) + 1) as usize
                } else {
                    count_at(old(self)@, k)
                },
    {
        match self.position(key) {
            Some(i) => {
                let n: usize = self.entries[i].1;
                if n < usize::MAX {
                    self.set_at(i, n + 1);
                }
            },
            None => {
                self.insert_new(owned(key), 1);
            },
        }
    }

    /// The number of a key; zero where it has none.
    pub fn count(&self, key: &str) -> (r: usize)
        requires
            self.wf(),
        ensures
            r == count_at(self@, key@),
    {
        match self.position(key) {
            Some(i) => self.entries[i].1,
            None => 0,
        }
    }
}

} // verus!
