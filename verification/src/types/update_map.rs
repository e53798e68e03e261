//! A map from a 16-bit index to values: the keys that sign update
//! instructions, and their signatures. What it stands for is the list of its
//! entries by strictly increasing index, which is the order in which they
//! are written out.

use std::collections::BTreeMap;
use vstd::prelude::*;
use vstd::std_specs::btree::group_btree_axioms;
use vstd::std_specs::cmp::OrdSpec;
use vstd::std_specs::iter::IteratorSpec;
use crate::wire::{increasing, lemma_increasing_same_items, lemma_views_push, lists, views};

verus! {

/// The key of an entry of a map that is keyed by a 16-bit index.
pub open spec fn update_key<T>() -> spec_fn((u16, T)) -> int {
    |e: (u16, T)| e.0 as int
}

/// The entries of a map whose index is less than `n`, by increasing index,
/// each value as what it stands for.
pub open spec fn update_entries_below<V: View>(m: Map<u16, V>, n: int) -> Seq<(u16, V::V)>
    decreases n,
{
    if n <= 0 {
        Seq::empty()
    } else if m.contains_key((n - 1) as u16) {
        update_entries_below(m, n - 1).push(((n - 1) as u16, m[(n - 1) as u16]@))
    } else {
        update_entries_below(m, n - 1)
    }
}

/// The entries of a map below `n` are listed by strictly increasing index,
/// and they are the entries of the map with such an index, each with the
/// value of the map.
pub proof fn lemma_update_entries_below<V: View>(m: Map<u16, V>, n: int)
    requires
        0 <= n <= 65536,
    ensures
        increasing(update_entries_below(m, n), update_key()),
        update_entries_below(m, n).len() <= n,
        forall|i: int|
            0 <= i < update_entries_below(m, n).len() ==> {
                let e = #[trigger] update_entries_below(m, n)[i];
                e.0 < n && m.contains_key(e.0) && e.1 == m[e.0]@
            },
        forall|k: u16|
            k < n && #[trigger] m.contains_key(k) ==> update_entries_below(m, n).contains(
                (k, m[k]@),
            ),
    decreases n,
{
    if n > 0 {
        lemma_update_entries_below(m, n - 1);
        let before = update_entries_below(m, n - 1);
        let now = update_entries_below(m, n);
        let last = (n - 1) as u16;
        if m.contains_key(last) {
            assert forall|i: int, j: int| 0 <= i < j < now.len() implies update_key()(
                #[trigger] now[i],
            ) < update_key()(#[trigger] now[j]) by {
                if j < before.len() {
                    assert(update_key()(before[i]) < update_key()(before[j]));
                } else {
                    assert(now[i] == before[i]);
                }
            }
            assert forall|i: int| 0 <= i < now.len() implies {
                let e = #[trigger] now[i];
                e.0 < n && m.contains_key(e.0) && e.1 == m[e.0]@
            } by {
                if i < before.len() {
                    assert(now[i] == before[i]);
                }
            }
            assert forall|k: u16| k < n && #[trigger] m.contains_key(k) implies now.contains(
                (k, m[k]@),
            ) by {
                if k == last {
                    assert(now[now.len() - 1] == (k, m[k]@));
                } else {
                    let i = choose|i: int| 0 <= i < before.len() && before[i] == (k, m[k]@);
                    assert(now[i] == (k, m[k]@));
                }
            }
        }
    }
}

/// A map without entries stands for the empty list.
pub proof fn lemma_update_entries_of_empty<V: View>(n: int)
    requires
        0 <= n <= 65536,
    ensures
        update_entries_below(Map::<u16, V>::empty(), n) == Seq::<(u16, V::V)>::empty(),
    decreases n,
{
    if n > 0 {
        lemma_update_entries_of_empty::<V>(n - 1);
    }
}

/// Putting a value under an index that is greater than every index of the
/// map adds an entry at the end.
pub proof fn lemma_update_entries_append<V: View>(m: Map<u16, V>, key: u16, value: V, n: int)
    requires
        0 <= n <= 65536,
        forall|k: u16| m.contains_key(k) ==> k < key,
    ensures
        update_entries_below(m.insert(key, value), n) == if n <= key {
            update_entries_below(m, n)
        } else {
            update_entries_below(m, n).push((key, value@))
        },
    decreases n,
{
    if n > 0 {
        lemma_update_entries_append(m, key, value, n - 1);
    }
}

/// A list of entries with `e` put in: behind the entries with lesser keys,
/// in place of an entry with the same key at that place, and before the
/// entries with greater keys behind it.
pub open spec fn put<T>(m: Seq<(u16, T)>, e: (u16, T)) -> Seq<(u16, T)>
    decreases m.len(),
{
    if m.len() == 0 {
        seq![e]
    } else if m.last().0 < e.0 {
        m.push(e)
    } else if m.last().0 == e.0 {
        m.drop_last().push(e)
    } else {
        put(m.drop_last(), e).push(m.last())
    }
}

/// Putting an entry into a list by strictly increasing key gives a list by
/// strictly increasing key, which holds the entry and, of the entries that
/// were there, those with another key, and nothing else.
pub proof fn lemma_put<T>(m: Seq<(u16, T)>, e: (u16, T))
    requires
        increasing(m, update_key()),
    ensures
        increasing(put(m, e), update_key()),
        forall|x: (u16, T)|
            #[trigger] put(m, e).contains(x) <==> x == e || (m.contains(x) && x.0 != e.0),
    decreases m.len(),
{
    let r = put(m, e);
    if m.len() == 0 {
        assert(r[0] == e);
        assert forall|x: (u16, T)| #[trigger] r.contains(x) <==> x == e || (m.contains(x) && x.0
            != e.0) by {
            if r.contains(x) {
                let i = choose|i: int| 0 <= i < r.len() && r[i] == x;
                assert(x == e);
            }
        }
    } else {
        let front = m.drop_last();
        let last = m.last();
        assert(increasing(front, update_key())) by {
            assert forall|i: int, j: int| 0 <= i < j < front.len() implies update_key()(
                #[trigger] front[i],
            ) < update_key()(#[trigger] front[j]) by {
                assert(front[i] == m[i] && front[j] == m[j]);
            }
        }
        // Every entry of the front has a lesser key than the last.
        assert forall|i: int| 0 <= i < front.len() implies (#[trigger] front[i]).0 < last.0 by {
            assert(front[i] == m[i]);
            assert(update_key()(m[i]) < update_key()(m[m.len() - 1]));
        }
        if last.0 < e.0 {
            assert forall|i: int, j: int| 0 <= i < j < r.len() implies update_key()(
                #[trigger] r[i],
            ) < update_key()(#[trigger] r[j]) by {
                if j < m.len() {
                    assert(r[i] == m[i] && r[j] == m[j]);
                } else if i < m.len() - 1 {
                    assert(r[i] == front[i]);
                } else {
                    assert(r[i] == last);
                }
            }
            assert forall|x: (u16, T)| #[trigger] r.contains(x) <==> x == e || (m.contains(x)
                && x.0 != e.0) by {
                if r.contains(x) {
                    let i = choose|i: int| 0 <= i < r.len() && r[i] == x;
                    if i < m.len() {
                        assert(m[i] == x);
                        if i < m.len() - 1 {
                            assert(front[i] == x);
                        }
                    }
                }
                if x == e {
                    assert(r[r.len() - 1] == e);
                }
                if m.contains(x) && x.0 != e.0 {
                    let i = choose|i: int| 0 <= i < m.len() && m[i] == x;
                    assert(r[i] == x);
                }
            }
        } else if last.0 == e.0 {
            assert forall|i: int, j: int| 0 <= i < j < r.len() implies update_key()(
                #[trigger] r[i],
            ) < update_key()(#[trigger] r[j]) by {
                assert(r[i] == front[i]);
                if j < r.len() - 1 {
                    assert(r[j] == front[j]);
                    assert(update_key()(front[i]) < update_key()(front[j]));
                }
            }
            assert forall|x: (u16, T)| #[trigger] r.contains(x) <==> x == e || (m.contains(x)
                && x.0 != e.0) by {
                if r.contains(x) {
                    let i = choose|i: int| 0 <= i < r.len() && r[i] == x;
                    if i < r.len() - 1 {
                        assert(front[i] == x && m[i] == x);
                    }
                }
                if x == e {
                    assert(r[r.len() - 1] == e);
                }
                if m.contains(x) && x.0 != e.0 {
                    let i = choose|i: int| 0 <= i < m.len() && m[i] == x;
                    assert(i < m.len() - 1);
                    assert(r[i] == x);
                }
            }
        } else {
            lemma_put(front, e);
            let inner = put(front, e);
            assert(forall|x: (u16, T)| #[trigger]
                inner.contains(x) ==> x.0 < last.0) by {
                assert forall|x: (u16, T)| #[trigger] inner.contains(x) implies x.0 < last.0 by {
                    if x != e {
                        assert(front.contains(x));
                        let i = choose|i: int| 0 <= i < front.len() && front[i] == x;
                    }
                }
            }
            assert forall|i: int, j: int| 0 <= i < j < r.len() implies update_key()(
                #[trigger] r[i],
            ) < update_key()(#[trigger] r[j]) by {
                assert(r[i] == inner[i]);
                if j < inner.len() {
                    assert(r[j] == inner[j]);
                    assert(update_key()(inner[i]) < update_key()(inner[j]));
                } else {
                    assert(inner.contains(inner[i]));
                }
            }
            assert forall|x: (u16, T)| #[trigger] r.contains(x) <==> x == e || (m.contains(x)
                && x.0 != e.0) by {
                if r.contains(x) {
                    let i = choose|i: int| 0 <= i < r.len() && r[i] == x;
                    if i < inner.len() {
                        assert(inner[i] == x);
                        assert(inner.contains(x));
                        if x != e {
                            let k = choose|k: int| 0 <= k < front.len() && front[k] == x;
                            assert(m[k] == x);
                        }
                    } else {
                        assert(x == last);
                        assert(m[m.len() - 1] == x);
                    }
                }
                if x == e {
                    assert(inner.contains(e));
                    let i = choose|i: int| 0 <= i < inner.len() && inner[i] == e;
                    assert(r[i] == e);
                }
                if m.contains(x) && x.0 != e.0 {
                    let i = choose|i: int| 0 <= i < m.len() && m[i] == x;
                    if i < m.len() - 1 {
                        assert(front[i] == x);
                        assert(front.contains(x));
                        assert(inner.contains(x));
                        let k = choose|k: int| 0 <= k < inner.len() && inner[k] == x;
                        assert(r[k] == x);
                    } else {
                        assert(r[r.len() - 1] == x);
                    }
                }
            }
        }
    }
}

/// The entries of a map below `n` are as many as the indices below `n`
/// under which the map holds a value.
pub proof fn lemma_update_entries_count<V: View>(m: Map<u16, V>, n: int)
    requires
        0 <= n <= 65536,
    ensures
        m.dom().filter(|k: u16| k < n).finite(),
        update_entries_below(m, n).len() == m.dom().filter(|k: u16| k < n).len(),
    decreases n,
{
    let now = m.dom().filter(|k: u16| k < n);
    if n == 0 {
        assert(now =~= Set::<u16>::empty());
    } else {
        lemma_update_entries_count(m, n - 1);
        let before = m.dom().filter(|k: u16| k < n - 1);
        let last = (n - 1) as u16;
        if m.contains_key(last) {
            assert(now =~= before.insert(last));
        } else {
            assert(now =~= before);
        }
    }
}

/// A map from a 16-bit index to values.
#[derive(Clone, Debug, PartialEq, Eq)]
pub struct UpdateMap<V> {
    pub map: BTreeMap<u16, V>,
}

impl<V: View> View for UpdateMap<V> {
    type V = Seq<(u16, V::V)>;

    open spec fn view(&self) -> Seq<(u16, V::V)> {
        update_entries_below(self.map@, 65536)
    }
}

impl<V: View> UpdateMap<V> {
    /// The entries of a map are listed by strictly increasing index and are
    /// at most 65536.
    pub proof fn lemma_wf(&self)
        ensures
            increasing(self@, update_key()),
            self@.len() <= 65536,
    {
        lemma_update_entries_below(self.map@, 65536);
    }

    /// The map without entries.
    pub fn new() -> (m: Self)
        ensures
            m@ == Seq::<(u16, V::V)>::empty(),
    {
        let m = UpdateMap { map: BTreeMap::new() };
        proof {
            lemma_update_entries_of_empty::<V>(65536);
        }
        m
    }

    /// The entries of a map are as many as the map holds.
    pub proof fn lemma_len(&self)
        ensures
            self@.len() == self.map@.len(),
    {
        lemma_update_entries_count(self.map@, 65536);
        assert(self.map@.dom().filter(|k: u16| k < 65536) =~= self.map@.dom());
    }

    /// The number of entries.
    pub fn len(&self) -> (n: usize)
        ensures
            n == self@.len(),
    {
        broadcast use group_btree_axioms;

        proof {
            self.lemma_len();
        }
        self.map.len()
    }

    /// The entries of the map by strictly increasing index.
    pub fn entries(&self) -> (r: Vec<(u16, &V)>)
        ensures
            lists(r@, self@),
    {
        broadcast use group_btree_axioms;

        let mut out: Vec<(u16, &V)> = Vec::new();
        let iter = self.map.iter();
        let ghost listed = iter.remaining();
        proof {
            let keys = listed.map_values(|kv: (&u16, &V)| *kv.0);
            assert forall|i: int, j: int| 0 <= i < j < listed.len() implies *(#[trigger] listed[i]).0
                < *(#[trigger] listed[j]).0 by {
                assert(keys[i].cmp_spec(&keys[j]) is Less);
            }
        }
        for kv in it: iter
            invariant
                it.seq() == listed,
                out@.len() == it.index(),
                forall|i: int|
                    0 <= i < out@.len() ==> (#[trigger] out@[i]).0 == *listed[i].0 && out@[i].1
                        == listed[i].1,
        {
            out.push((*kv.0, kv.1));
        }
        proof {
            let m = self.map@;
            let got = views(out@);
            lemma_update_entries_below(m, 65536);
            assert(increasing(got, update_key())) by {
                assert forall|i: int, j: int| 0 <= i < j < got.len() implies update_key()(
                    #[trigger] got[i],
                ) < update_key()(#[trigger] got[j]) by {
                    assert(*listed[i].0 < *listed[j].0);
                }
            }
            assert forall|x: (u16, V::V)| got.contains(x) <==> self@.contains(x) by {
                if got.contains(x) {
                    let i = choose|i: int| 0 <= i < got.len() && got[i] == x;
                    assert(m.contains_key(*listed[i].0));
                    assert(m[*listed[i].0] == *listed[i].1);
                }
                if self@.contains(x) {
                    let i = choose|i: int| 0 <= i < self@.len() && self@[i] == x;
                    assert(m.contains_key(x.0));
                    assert(listed.contains((&x.0, &m[x.0])));
                    let j = choose|j: int| 0 <= j < listed.len() && listed[j] == (&x.0, &m[x.0]);
                    assert(got[j] == x);
                }
            }
            lemma_increasing_same_items(got, self@, update_key());
            assert forall|i: int| 0 <= i < out@.len() implies (#[trigger] out@[i]).0 == self@[i].0
                && out@[i].1@ == self@[i].1 by {
                assert(got[i] == self@[i]);
            }
        }
        out
    }

    /// Puts `value` under `key`, in place of the value that was there if
    /// there was one.
    pub fn insert(&mut self, key: u16, value: V)
        ensures
            final(self).map@ == old(self).map@.insert(key, value),
            final(self)@ == put(old(self)@, (key, value@)),
    {
        proof {
            let m = self.map@;
            let after = update_entries_below(m.insert(key, value), 65536);
            let e = (key, value@);
            let expected = put(self@, e);
            lemma_update_entries_below(m, 65536);
            lemma_update_entries_below(m.insert(key, value), 65536);
            lemma_put(self@, e);
            assert forall|x: (u16, V::V)| after.contains(x) <==> expected.contains(x) by {
                if after.contains(x) {
                    let i = choose|i: int| 0 <= i < after.len() && after[i] == x;
                    if x.0 != key {
                        assert(m.contains_key(x.0));
                        assert(self@.contains((x.0, m[x.0]@)));
                    }
                }
                if expected.contains(x) && x != e {
                    let i = choose|i: int| 0 <= i < self@.len() && self@[i] == x;
                    assert(m.insert(key, value).contains_key(x.0));
                }
                if x == e {
                    assert(m.insert(key, value).contains_key(key));
                }
            }
            lemma_increasing_same_items(after, expected, update_key());
        }
        self.map.insert(key, value);
    }

    /// Puts `value` under `key` where `key` is greater than every index of
    /// the map: the entry comes behind all the others.
    pub fn append(&mut self, key: u16, value: V)
        requires
            old(self)@.len() == 0 || old(self)@.last().0 < key,
        ensures
            final(self)@ == old(self)@.push((key, value@)),
    {
        proof {
            self.lemma_wf();
            let m = self.map@;
            let entries = self@;
            lemma_update_entries_below(m, 65536);
            assert forall|k: u16| m.contains_key(k) implies k < key by {
                assert(entries.contains((k, m[k]@)));
                let i = choose|i: int| 0 <= i < entries.len() && entries[i] == (k, m[k]@);
                if i < entries.len() - 1 {
                    assert(update_key()(entries[i]) < update_key()(entries[entries.len() - 1]));
                }
            }
            lemma_update_entries_append(m, key, value, 65536);
        }
        self.map.insert(key, value);
    }

    /// The map with the given entries, which are listed by strictly
    /// increasing index.
    pub fn from_increasing(entries: Vec<(u16, V)>) -> (m: Self)
        requires
            increasing(views(entries@), update_key()),
        ensures
            m@ == views(entries@),
    {
        let mut m: UpdateMap<V> = UpdateMap::new();
        let ghost all = entries@;
        assert(views(all.take(0)) =~= m@);
        for e in it: entries
            invariant
                it.seq() == all,
                increasing(views(all), update_key()),
                m@ == views(all.take(it.index() as int)),
        {
            proof {
                let i = it.index() as int;
                assert(all.take(i + 1) =~= all.take(i).push(e));
                lemma_views_push(all.take(i), e);
                if i > 0 {
                    assert(views(all.take(i)).last() == views(all)[i - 1]);
                    assert(update_key()(views(all)[i - 1]) < update_key()(views(all)[i]));
                }
            }
            m.append(e.0, e.1);
        }
        assert(all.take(all.len() as int) =~= all);
        m
    }
}

} // verus!
