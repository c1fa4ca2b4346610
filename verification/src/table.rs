//! Small tables from names to values.

use vstd::prelude::*;
use vstd::string::*;

use crate::text::same;

verus! {

broadcast use vstd::string::group_string_axioms;

/// A table in which every name stands at most once. Names keep the order in which they came.
#[derive(Debug)]
pub struct Table<V: View> {
    entries: Vec<(String, V)>,
}

/// Whether some entry has the name `k`.
pub open spec fn has_key<V>(e: Seq<(Seq<char>, V)>, k: Seq<char>) -> bool {
    exists|i: int| 0 <= i < e.len() && #[trigger] e[i].0 == k
}

/// The position of the entry with the name `k`.
pub open spec fn position<V>(e: Seq<(Seq<char>, V)>, k: Seq<char>) -> int {
    choose|i: int| 0 <= i < e.len() && #[trigger] e[i].0 == k
}

/// The table that a list of entries denotes.
pub open spec fn map_of<V>(e: Seq<(Seq<char>, V)>) -> Map<Seq<char>, V> {
    Map::new(|k: Seq<char>| has_key(e, k), |k: Seq<char>| e[position(e, k)].1)
}

/// Whether no name stands twice.
pub open spec fn distinct<V>(e: Seq<(Seq<char>, V)>) -> bool {
    forall|i: int, j: int| 0 <= i < j < e.len() ==> #[trigger] e[i].0 != #[trigger] e[j].0
}

/// The entries with a name's value replaced, or added at the end if the name is new.
pub open spec fn with_entry<V>(e: Seq<(Seq<char>, V)>, k: Seq<char>, v: V) -> Seq<(Seq<char>, V)> {
    if has_key(e, k) {
        e.update(position(e, k), (k, v))
    } else {
        e.push((k, v))
    }
}

/// The entries without a name.
pub open spec fn without_entry<V>(e: Seq<(Seq<char>, V)>, k: Seq<char>) -> Seq<(Seq<char>, V)> {
    if has_key(e, k) {
        e.remove(position(e, k))
    } else {
        e
    }
}

/// The values of entries.
pub open spec fn values_of<V>(e: Seq<(Seq<char>, V)>) -> Seq<V> {
    e.map_values(|x: (Seq<char>, V)| x.1)
}

impl<V: View> View for Table<V> {
    type V = Map<Seq<char>, V::V>;

    open spec fn view(&self) -> Map<Seq<char>, V::V> {
        map_of(self.listing())
    }
}

pub proof fn lemma_map_of<V>(e: Seq<(Seq<char>, V)>, i: int)
    requires
        distinct(e),
        0 <= i < e.len(),
    ensures
        map_of(e).dom().contains(e[i].0),
        map_of(e)[e[i].0] == e[i].1,
{
    let k = e[i].0;
    assert(has_key(e, k));
    let j = position(e, k);
    assert(e[j].0 == k);
    if i < j {
        assert(e[i].0 != e[j].0);
    } else if j < i {
        assert(e[j].0 != e[i].0);
    }
}

impl<V: View> Table<V> {
    /// The entries in their order.
    pub closed spec fn listing(&self) -> Seq<(Seq<char>, V::V)> {
        self.entries@.map_values(|x: (String, V)| (x.0@, x.1@))
    }

    /// Whether no name stands twice.
    pub open spec fn wf(&self) -> bool {
        distinct(self.listing())
    }

    /// A table without entries.
    pub fn new() -> (r: Table<V>)
        ensures
            r.wf(),
            r.listing() == Seq::<(Seq<char>, V::V)>::empty(),
            r@ == Map::<Seq<char>, V::V>::empty(),
    {
        let r = Table { entries: Vec::new() };
        assert(r.listing() =~= Seq::<(Seq<char>, V::V)>::empty());
        assert(r@ =~= Map::<Seq<char>, V::V>::empty());
        r
    }

    /// The number of entries.
    pub fn len(&self) -> (r: usize)
        ensures
            r == self.listing().len(),
    {
        self.entries.len()
    }

    /// The name of the entry at a position.
    pub fn key_at(&self, i: usize) -> (r: &String)
        requires
            i < self.listing().len(),
        ensures
            r@ == self.listing()[i as int].0,
    {
        &self.entries[i].0
    }

    /// The value of the entry at a position.
    pub fn value_at(&self, i: usize) -> (r: &V)
        requires
            i < self.listing().len(),
        ensures
            r@ == self.listing()[i as int].1,
    {
        &self.entries[i].1
    }

    /// The position of a name, if it stands in the table.
    pub fn find(&self, key: &str) -> (r: Option<usize>)
        requires
            self.wf(),
        ensures
            r is Some == self@.dom().contains(key@),
            r matches Some(i) ==> i < self.listing().len() && self.listing()[i as int].0 == key@
                && self.listing()[i as int].1 == self@[key@],
    {
        let mut i: usize = 0;
        while i < self.entries.len()
            invariant
                i <= self.entries@.len(),
                self.wf(),
                forall|j: int| 0 <= j < i ==> (#[trigger] self.listing()[j]).0 != key@,
            decreases self.entries@.len() - i,
        {
            assert(self.listing()[i as int].0 == self.entries@[i as int].0@);
            if same(self.entries[i].0.as_str(), key) {
                proof {
                    lemma_map_of(self.listing(), i as int);
                }
                return Some(i);
            }
            i += 1;
        }
        None
    }

    /// The value of a name.
    pub fn get(&self, key: &str) -> (r: Option<&V>)
        requires
            self.wf(),
        ensures
            r is Some == self@.dom().contains(key@),
            r matches Some(v) ==> v@ == self@[key@],
    {
        match self.find(key) {
            Some(i) => Some(&self.entries[i].1),
            None => None,
        }
    }

    /// Tells whether a name stands in the table.
    pub fn contains(&self, key: &str) -> (r: bool)
        requires
            self.wf(),
        ensures
            r == self@.dom().contains(key@),
    {
        match self.find(key) {
            Some(_) => true,
            None => false,
        }
    }

    /// Gives a name a value. A name that stands in the table keeps its place; a new one comes
    /// last.
    pub fn insert(&mut self, key: String, value: V)
        requires
            old(self).wf(),
        ensures
            final(self).wf(),
            final(self)@ == old(self)@.insert(key@, value@),
            final(self).listing() == if old(self)@.dom().contains(key@) {
                old(self).listing().update(position(old(self).listing(), key@), (key@, value@))
            } else {
                old(self).listing().push((key@, value@))
            },
    {
        let ghost before = self.listing();
        let found = self.find(key.as_str());
        let ghost k = key@;
        match found {
            Some(i) => {
                self.entries.set(i, (key, value));
                proof {
                    assert(self.listing() =~= before.update(i as int, (k, value@)));
                    let p = position(before, k);
                    assert(before[p].0 == k);
                    assert(p == i) by {
                        if p < i {
                            assert(before[p].0 != before[i as int].0);
                        } else if i < p {
                            assert(before[i as int].0 != before[p].0);
                        }
                    }
                    lemma_insert_at(before, i as int, value@);
                }
            },
            None => {
                self.entries.push((key, value));
                proof {
                    assert(self.listing() =~= before.push((k, value@)));
                    assert forall|i: int| 0 <= i < before.len() implies (#[trigger] before[i]).0
                        != k by {
                        lemma_map_of(before, i);
                    }
                    lemma_insert_new(before, k, value@);
                }
            },
        }
    }

    /// Takes a name out of the table. The others keep their order.
    pub fn remove(&mut self, key: &str) -> (r: Option<V>)
        requires
            old(self).wf(),
        ensures
            final(self).wf(),
            final(self)@ == old(self)@.remove(key@),
            r is Some == old(self)@.dom().contains(key@),
            r matches Some(v) ==> v@ == old(self)@[key@] && final(self).listing() == old(
                self,
            ).listing().remove(position(old(self).listing(), key@)),
            r is None ==> final(self).listing() == old(self).listing(),
    {
        let ghost before = self.listing();
        match self.find(key) {
            Some(i) => {
                let e = self.entries.remove(i);
                proof {
                    assert(self.listing() =~= before.remove(i as int));
                    let p = position(before, key@);
                    assert(before[p].0 == key@);
                    assert(p == i) by {
                        if p < i {
                            assert(before[p].0 != before[i as int].0);
                        } else if i < p {
                            assert(before[i as int].0 != before[p].0);
                        }
                    }
                    lemma_remove_at(before, i as int);
                }
                Some(e.1)
            },
            None => {
                assert(self@ =~= self@.remove(key@));
                None
            },
        }
    }
}

proof fn lemma_insert_at<V>(e: Seq<(Seq<char>, V)>, i: int, v: V)
    requires
        distinct(e),
        0 <= i < e.len(),
    ensures
        distinct(e.update(i, (e[i].0, v))),
        map_of(e.update(i, (e[i].0, v))) == map_of(e).insert(e[i].0, v),
{
    let f = e.update(i, (e[i].0, v));
    let k = e[i].0;
    assert forall|a: int, b: int| 0 <= a < b < f.len() implies #[trigger] f[a].0
        != #[trigger] f[b].0 by {
        assert(f[a].0 == e[a].0 && f[b].0 == e[b].0);
    }
    let m = map_of(f);
    let n = map_of(e).insert(k, v);
    assert forall|x: Seq<char>| m.dom().contains(x) == n.dom().contains(x) by {
        if has_key(f, x) {
            let j = position(f, x);
            assert(e[j].0 == x);
        }
        if has_key(e, x) {
            let j = position(e, x);
            assert(f[j].0 == x);
        }
        assert(f[i].0 == k);
    }
    assert forall|x: Seq<char>| m.dom().contains(x) implies m[x] == n[x] by {
        let j = position(f, x);
        assert(f[j].0 == x);
        lemma_map_of(f, j);
        lemma_map_of(e, j);
        assert(e[j].0 == x);
        if x == k {
            lemma_map_of(f, i);
            assert(f[i].0 == k);
        } else {
            assert(j != i);
        }
    }
    assert(m =~= n);
}

proof fn lemma_insert_new<V>(e: Seq<(Seq<char>, V)>, k: Seq<char>, v: V)
    requires
        distinct(e),
        forall|i: int| 0 <= i < e.len() ==> (#[trigger] e[i]).0 != k,
    ensures
        distinct(e.push((k, v))),
        map_of(e.push((k, v))) == map_of(e).insert(k, v),
{
    let f = e.push((k, v));
    assert forall|a: int, b: int| 0 <= a < b < f.len() implies #[trigger] f[a].0
        != #[trigger] f[b].0 by {
        assert(f[a] == e[a]);
        if b < e.len() {
            assert(f[b] == e[b]);
        }
    }
    let m = map_of(f);
    let n = map_of(e).insert(k, v);
    assert forall|x: Seq<char>| m.dom().contains(x) == n.dom().contains(x) by {
        if has_key(f, x) {
            let j = position(f, x);
            if j < e.len() {
                assert(e[j].0 == x);
            }
        }
        if has_key(e, x) {
            let j = position(e, x);
            assert(f[j].0 == x);
        }
        assert(f[e.len() as int].0 == k);
    }
    assert forall|x: Seq<char>| m.dom().contains(x) implies m[x] == n[x] by {
        let j = position(f, x);
        assert(f[j].0 == x);
        lemma_map_of(f, j);
        if j < e.len() {
            lemma_map_of(e, j);
            assert(e[j].0 == x);
        }
    }
    assert(m =~= n);
}

proof fn lemma_remove_at<V>(e: Seq<(Seq<char>, V)>, i: int)
    requires
        distinct(e),
        0 <= i < e.len(),
    ensures
        distinct(e.remove(i)),
        map_of(e.remove(i)) == map_of(e).remove(e[i].0),
{
    let f = e.remove(i);
    let k = e[i].0;
    assert forall|a: int, b: int| 0 <= a < b < f.len() implies #[trigger] f[a].0
        != #[trigger] f[b].0 by {
        let a2 = if a < i {
            a
        } else {
            a + 1
        };
        let b2 = if b < i {
            b
        } else {
            b + 1
        };
        assert(f[a] == e[a2] && f[b] == e[b2]);
    }
    let m = map_of(f);
    let n = map_of(e).remove(k);
    assert forall|x: Seq<char>| m.dom().contains(x) == n.dom().contains(x) by {
        if has_key(f, x) {
            let j = position(f, x);
            let j2 = if j < i {
                j
            } else {
                j + 1
            };
            assert(f[j].0 == x);
            assert(e[j2].0 == x);
            if j2 < i {
                assert(e[j2].0 != e[i].0);
            } else {
                assert(e[i].0 != e[j2].0);
            }
        }
        if has_key(e, x) && x != k {
            let j = position(e, x);
            assert(e[j].0 == x);
            let j2 = if j < i {
                j
            } else {
                j - 1
            };
            assert(f[j2].0 == x);
        }
    }
    assert forall|x: Seq<char>| m.dom().contains(x) implies m[x] == n[x] by {
        let j = position(f, x);
        assert(f[j].0 == x);
        lemma_map_of(f, j);
        let j2 = if j < i {
            j
        } else {
            j + 1
        };
        assert(e[j2] == f[j]);
        lemma_map_of(e, j2);
    }
    assert(m =~= n);
}

proof fn lemma_with_entry_distinct<V>(e: Seq<(Seq<char>, V)>, k: Seq<char>, v: V)
    requires
        distinct(e),
    ensures
        distinct(with_entry(e, k, v)),
{
    let f = with_entry(e, k, v);
    if has_key(e, k) {
        let p = position(e, k);
        assert(e[p].0 == k);
        assert forall|i: int, j: int| 0 <= i < j < f.len() implies #[trigger] f[i].0
            != #[trigger] f[j].0 by {
            assert(f[i].0 == e[i].0 && f[j].0 == e[j].0);
        }
    } else {
        assert forall|i: int, j: int| 0 <= i < j < f.len() implies #[trigger] f[i].0
            != #[trigger] f[j].0 by {
            assert(f[i] == e[i]);
            if j < e.len() {
                assert(f[j] == e[j]);
            } else {
                if e[i].0 == k {
                    assert(has_key(e, k));
                }
            }
        }
    }
}


/// A name that was given a value has it, and no name stands twice.
pub proof fn entry_reads_back<V>(e: Seq<(Seq<char>, V)>, k: Seq<char>, v: V)
    requires
        distinct(e),
    ensures
        distinct(with_entry(e, k, v)),
        map_of(with_entry(e, k, v)).dom().contains(k),
        map_of(with_entry(e, k, v))[k] == v,
{
    lemma_with_entry_distinct(e, k, v);
    let f = with_entry(e, k, v);
    if has_key(e, k) {
        lemma_map_of(f, position(e, k));
    } else {
        lemma_map_of(f, e.len() as int);
    }
}

/// A name that was taken out is gone.
pub proof fn removed_entry_is_gone<V>(e: Seq<(Seq<char>, V)>, k: Seq<char>)
    requires
        distinct(e),
    ensures
        !has_key(without_entry(e, k), k),
{
    if has_key(e, k) {
        let p = position(e, k);
        assert(e[p].0 == k);
        let f = e.remove(p);
        if has_key(f, k) {
            let j = position(f, k);
            assert(f[j].0 == k);
            let i = if j < p {
                j
            } else {
                j + 1
            };
            assert(e[i].0 == k);
            if i < p {
                assert(e[i].0 != e[p].0);
            } else {
                assert(e[p].0 != e[i].0);
            }
        }
    }
}

/// A name that stands in a table once has the value that stands beside it.
pub proof fn entry_is_read<V>(e: Seq<(Seq<char>, V)>, i: int)
    requires
        distinct(e),
        0 <= i < e.len(),
    ensures
        has_key(e, e[i].0),
        map_of(e).dom().contains(e[i].0),
        map_of(e)[e[i].0] == e[i].1,
{
    lemma_map_of(e, i);
}

/// Giving a name a value changes nothing for another name, and adds one entry at most.
pub proof fn other_entries_stay<V>(e: Seq<(Seq<char>, V)>, k: Seq<char>, v: V, other: Seq<char>)
    requires
        distinct(e),
        other != k,
    ensures
        has_key(with_entry(e, k, v), other) == has_key(e, other),
        has_key(e, other) ==> map_of(with_entry(e, k, v))[other] == map_of(e)[other],
        with_entry(e, k, v).len() == e.len() + (if has_key(e, k) {
            0int
        } else {
            1int
        }),
{
    lemma_with_entry_distinct(e, k, v);
    let f = with_entry(e, k, v);
    if has_key(e, k) {
        let p = position(e, k);
        assert(e[p].0 == k);
    }
    if has_key(e, other) {
        let i = position(e, other);
        assert(e[i].0 == other);
        assert(f[i] == e[i]);
        lemma_map_of(e, i);
        lemma_map_of(f, i);
    }
    if has_key(f, other) {
        let i = position(f, other);
        assert(f[i].0 == other);
        assert(e[i].0 == other);
    }
}

/// Taking a name out changes nothing for another name.
pub proof fn other_entries_remain<V>(e: Seq<(Seq<char>, V)>, k: Seq<char>, other: Seq<char>)
    requires
        distinct(e),
        other != k,
    ensures
        distinct(without_entry(e, k)),
        has_key(without_entry(e, k), other) == has_key(e, other),
        has_key(e, other) ==> map_of(without_entry(e, k))[other] == map_of(e)[other],
{
    let f = without_entry(e, k);
    if has_key(e, k) {
        let p = position(e, k);
        assert(e[p].0 == k);
        assert forall|i: int, j: int| 0 <= i < j < f.len() implies #[trigger] f[i].0
            != #[trigger] f[j].0 by {
            let a = if i < p {
                i
            } else {
                i + 1
            };
            let b = if j < p {
                j
            } else {
                j + 1
            };
            assert(f[i] == e[a] && f[j] == e[b]);
        }
        if has_key(e, other) {
            let i = position(e, other);
            assert(e[i].0 == other);
            let a = if i < p {
                i
            } else {
                i - 1
            };
            assert(f[a] == e[i]);
            lemma_map_of(e, i);
            lemma_map_of(f, a);
        }
        if has_key(f, other) {
            let i = position(f, other);
            assert(f[i].0 == other);
            let a = if i < p {
                i
            } else {
                i + 1
            };
            assert(e[a] == f[i]);
        }
    }
}

} // verus!
