//! A map from a one-byte index to values, held in a `BTreeMap`. What it
//! stands for is the list of its entries by strictly increasing index, which
//! is the order in which they are written out and in which the map hands
//! them out.

use std::collections::BTreeMap;
use vstd::prelude::*;
use vstd::std_specs::btree::group_btree_axioms;
use vstd::std_specs::cmp::OrdSpec;
use vstd::std_specs::iter::IteratorSpec;
use crate::wire::{
    entry_key, increasing, lemma_increasing_same_items, lemma_views_push, lists, views,
};

verus! {

/// The value that a list of entries holds under `key`: that of the last
/// entry with this key, if there is one.
pub open spec fn lookup<T>(m: Seq<(u8, T)>, key: u8) -> Option<T>
    decreases m.len(),
{
    if m.len() == 0 {
        None
    } else if m.last().0 == key {
        Some(m.last().1)
    } else {
        lookup(m.drop_last(), key)
    }
}

/// What `lookup` finds is the value of an entry with the key, and it finds
/// nothing only where no entry has the key.
pub proof fn lemma_lookup<T>(m: Seq<(u8, T)>, key: u8)
    ensures
        match lookup(m, key) {
            Some(v) => exists|i: int| 0 <= i < m.len() && m[i] == (key, v),
            None => forall|i: int| 0 <= i < m.len() ==> (#[trigger] m[i]).0 != key,
        },
    decreases m.len(),
{
    if m.len() > 0 {
        if m.last().0 == key {
            assert(m[m.len() - 1] == (key, m.last().1));
        } else {
            lemma_lookup(m.drop_last(), key);
            match lookup(m.drop_last(), key) {
                Some(v) => {
                    let i = choose|i: int|
                        0 <= i < m.drop_last().len() && m.drop_last()[i] == (key, v);
                    assert(m[i] == (key, v));
                },
                None => {
                    assert forall|i: int| 0 <= i < m.len() implies (#[trigger] m[i]).0 != key by {
                        if i < m.len() - 1 {
                            assert(m.drop_last()[i] == m[i]);
                        }
                    }
                },
            }
        }
    }
}

/// The entries of a map whose index is less than `n`, by increasing index,
/// each value as what it stands for.
pub open spec fn entries_below<V: View>(m: Map<u8, V>, n: int) -> Seq<(u8, V::V)>
    decreases n,
{
    if n <= 0 {
        Seq::empty()
    } else if m.contains_key((n - 1) as u8) {
        entries_below(m, n - 1).push(((n - 1) as u8, m[(n - 1) as u8]@))
    } else {
        entries_below(m, n - 1)
    }
}

/// The entries of a map below `n` are listed by strictly increasing index;
/// they are the entries of the map with such an index, each with the value
/// of the map, and `lookup` finds in them what the map holds.
pub proof fn lemma_entries_below<V: View>(m: Map<u8, V>, n: int)
    requires
        0 <= n <= 256,
    ensures
        increasing(entries_below(m, n), entry_key()),
        entries_below(m, n).len() <= n,
        forall|i: int|
            0 <= i < entries_below(m, n).len() ==> {
                let e = #[trigger] entries_below(m, n)[i];
                e.0 < n && m.contains_key(e.0) && e.1 == m[e.0]@
            },
        forall|k: u8|
            #[trigger] lookup(entries_below(m, n), k) == if k < n && m.contains_key(k) {
                Some(m[k]@)
            } else {
                None
            },
    decreases n,
{
    if n > 0 {
        lemma_entries_below(m, n - 1);
        let before = entries_below(m, n - 1);
        let now = entries_below(m, n);
        let last = (n - 1) as u8;
        if m.contains_key(last) {
            assert(now.drop_last() =~= before);
            assert forall|i: int, j: int| 0 <= i < j < now.len() implies entry_key()(
                #[trigger] now[i],
            ) < entry_key()(#[trigger] now[j]) by {
                if j < before.len() {
                    assert(entry_key()(before[i]) < entry_key()(before[j]));
                } else {
                    assert(now[i] == before[i]);
                }
            }
            assert forall|i: int| 0 <= i < now.len() implies {
                let e = #[trigger] now[i];
                e.0 < n && m.contains_key(e.0) && e.1 == m[e.0]@
            } by {
                if i < before.len() {
                    assert(now[i] == before[i]);
                }
            }
            assert forall|k: u8| #[trigger]
                lookup(now, k) == if k < n && m.contains_key(k) {
                    Some(m[k]@)
                } else {
                    None
                } by {
                if k != last {
                    assert(lookup(now, k) == lookup(before, k));
                }
            }
        }
    }
}

/// A map without entries stands for the empty list.
pub proof fn lemma_entries_of_empty<V: View>(n: int)
    requires
        0 <= n <= 256,
    ensures
        entries_below(Map::<u8, V>::empty(), n) == Seq::<(u8, V::V)>::empty(),
    decreases n,
{
    if n > 0 {
        lemma_entries_of_empty::<V>(n - 1);
    }
}

/// Putting a value under an index that is greater than every index of the
/// map adds an entry at the end.
pub proof fn lemma_entries_append<V: View>(m: Map<u8, V>, key: u8, value: V, n: int)
    requires
        0 <= n <= 256,
        forall|k: u8| m.contains_key(k) ==> k < key,
    ensures
        entries_below(m.insert(key, value), n) == if n <= key {
            entries_below(m, n)
        } else {
            entries_below(m, n).push((key, value@))
        },
    decreases n,
{
    if n > 0 {
        lemma_entries_append(m, key, value, n - 1);
    }
}

/// The entries of a map below `n` are as many as the indices below `n`
/// under which the map holds a value.
pub proof fn lemma_entries_count<V: View>(m: Map<u8, V>, n: int)
    requires
        0 <= n <= 256,
    ensures
        m.dom().filter(|k: u8| k < n).finite(),
        entries_below(m, n).len() == m.dom().filter(|k: u8| k < n).len(),
    decreases n,
{
    let now = m.dom().filter(|k: u8| k < n);
    if n == 0 {
        assert(now =~= Set::<u8>::empty());
    } else {
        lemma_entries_count(m, n - 1);
        let before = m.dom().filter(|k: u8| k < n - 1);
        let last = (n - 1) as u8;
        if m.contains_key(last) {
            assert(now =~= before.insert(last));
        } else {
            assert(now =~= before);
        }
    }
}

/// A map from a one-byte index to values.
#[derive(Clone, Debug, PartialEq, Eq)]
pub struct IndexMap<V> {
    pub map: BTreeMap<u8, V>,
}

impl<V: View> View for IndexMap<V> {
    type V = Seq<(u8, V::V)>;

    open spec fn view(&self) -> Seq<(u8, V::V)> {
        entries_below(self.map@, 256)
    }
}

impl<V: View> IndexMap<V> {
    /// The entries are listed by strictly increasing index. This holds of
    /// every map.
    pub open spec fn wf(&self) -> bool {
        increasing(self@, entry_key())
    }

    /// The entries of a map are listed by strictly increasing index, are at
    /// most 256, and hold under each index what the map holds.
    pub proof fn lemma_wf(&self)
        ensures
            self.wf(),
            self@.len() <= 256,
            forall|k: u8|
                #[trigger] lookup(self@, k) == if self.map@.contains_key(k) {
                    Some(self.map@[k]@)
                } else {
                    None
                },
    {
        lemma_entries_below(self.map@, 256);
    }

    /// The map without entries.
    pub fn new() -> (m: Self)
        ensures
            m@ == Seq::<(u8, V::V)>::empty(),
            m.wf(),
    {
        let m = IndexMap { map: BTreeMap::new() };
        proof {
            lemma_entries_of_empty::<V>(256);
            m.lemma_wf();
        }
        m
    }

    /// The entries of a map are as many as the map holds.
    pub proof fn lemma_len(&self)
        ensures
            self@.len() == self.map@.len(),
    {
        lemma_entries_count(self.map@, 256);
        assert(self.map@.dom().filter(|k: u8| k < 256) =~= self.map@.dom());
    }

    /// The number of entries.
    pub fn len(&self) -> (n: usize)
        ensures
            n == self@.len(),
    {
        broadcast use group_btree_axioms;

        proof {
            self.lemma_len();
        }
        self.map.len()
    }

    /// The entries of the map by strictly increasing index.
    pub fn entries(&self) -> (r: Vec<(u8, &V)>)
        ensures
            lists(r@, self@),
    {
        broadcast use group_btree_axioms;

        let mut out: Vec<(u8, &V)> = Vec::new();
        let iter = self.map.iter();
        let ghost listed = iter.remaining();
        proof {
            let keys = listed.map_values(|kv: (&u8, &V)| *kv.0);
            assert forall|i: int, j: int| 0 <= i < j < listed.len() implies *(#[trigger] listed[i]).0
                < *(#[trigger] listed[j]).0 by {
                assert(keys[i].cmp_spec(&keys[j]) is Less);
            }
        }
        for kv in it: iter
            invariant
                it.seq() == listed,
                out@.len() == it.index(),
                forall|i: int|
                    0 <= i < out@.len() ==> (#[trigger] out@[i]).0 == *listed[i].0 && out@[i].1
                        == listed[i].1,
        {
            out.push((*kv.0, kv.1));
        }
        proof {
            let m = self.map@;
            let got = views(out@);
            lemma_entries_below(m, 256);
            assert(increasing(got, entry_key())) by {
                assert forall|i: int, j: int| 0 <= i < j < got.len() implies entry_key()(
                    #[trigger] got[i],
                ) < entry_key()(#[trigger] got[j]) by {
                    assert(*listed[i].0 < *listed[j].0);
                }
            }
            assert forall|x: (u8, V::V)| got.contains(x) <==> self@.contains(x) by {
                if got.contains(x) {
                    let i = choose|i: int| 0 <= i < got.len() && got[i] == x;
                    assert(m.contains_key(*listed[i].0));
                    assert(m[*listed[i].0] == *listed[i].1);
                    lemma_lookup(self@, x.0);
                }
                if self@.contains(x) {
                    let i = choose|i: int| 0 <= i < self@.len() && self@[i] == x;
                    assert(m.contains_key(x.0));
                    assert(listed.contains((&x.0, &m[x.0])));
                    let j = choose|j: int| 0 <= j < listed.len() && listed[j] == (&x.0, &m[x.0]);
                    assert(got[j] == x);
                }
            }
            lemma_increasing_same_items(got, self@, entry_key());
            assert forall|i: int| 0 <= i < out@.len() implies (#[trigger] out@[i]).0 == self@[i].0
                && out@[i].1@ == self@[i].1 by {
                assert(got[i] == self@[i]);
            }
        }
        out
    }

    /// The value under `key`, if there is one.
    pub fn get(&self, key: u8) -> (r: Option<&V>)
        ensures
            match r {
                Some(v) => lookup(self@, key) == Some(v@),
                None => lookup(self@, key) is None,
            },
    {
        proof {
            self.lemma_wf();
        }
        self.map.get(&key)
    }

    /// Puts `value` under `key`, in place of the value that was there if
    /// there was one.
    pub fn insert(&mut self, key: u8, value: V)
        ensures
            final(self).wf(),
            final(self).map@ == old(self).map@.insert(key, value),
            lookup(final(self)@, key) == Some(value@),
            forall|k: u8| k != key ==> lookup(final(self)@, k) == lookup(old(self)@, k),
    {
        proof {
            self.lemma_wf();
        }
        self.map.insert(key, value);
        proof {
            self.lemma_wf();
        }
    }

    /// The map with the given entries, which are listed by strictly
    /// increasing index.
    pub fn from_increasing(entries: Vec<(u8, V)>) -> (m: Self)
        requires
            increasing(views(entries@), entry_key()),
        ensures
            m@ == views(entries@),
    {
        let mut m: IndexMap<V> = IndexMap::new();
        let ghost all = entries@;
        assert(views(all.take(0)) =~= m@);
        for e in it: entries
            invariant
                it.seq() == all,
                increasing(views(all), entry_key()),
                m@ == views(all.take(it.index() as int)),
        {
            proof {
                let i = it.index() as int;
                assert(all.take(i + 1) =~= all.take(i).push(e));
                lemma_views_push(all.take(i), e);
                if i > 0 {
                    assert(views(all.take(i)).last() == views(all)[i - 1]);
                    assert(entry_key()(views(all)[i - 1]) < entry_key()(views(all)[i]));
                }
            }
            m.append(e.0, e.1);
        }
        assert(all.take(all.len() as int) =~= all);
        m
    }

    /// Puts `value` under `key` where `key` is greater than every index of
    /// the map: the entry comes behind all the others.
    pub fn append(&mut self, key: u8, value: V)
        requires
            old(self)@.len() == 0 || old(self)@.last().0 < key,
        ensures
            final(self)@ == old(self)@.push((key, value@)),
    {
        proof {
            self.lemma_wf();
            let m = self.map@;
            let entries = self@;
            assert forall|k: u8| m.contains_key(k) implies k < key by {
                lemma_lookup(entries, k);
                let i = choose|i: int| 0 <= i < entries.len() && entries[i] == (k, m[k]@);
                if i < entries.len() - 1 {
                    assert(entry_key()(entries[i]) < entry_key()(entries[entries.len() - 1]));
                }
            }
            lemma_entries_append(m, key, value, 256);
        }
        self.map.insert(key, value);
    }
}

} // verus!
