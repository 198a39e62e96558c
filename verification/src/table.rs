//! A small table from keys to values, kept in the order of insertion. No key
//! stands twice in it.
//!
//! The keys of the engine are texts and scopes. A hash map would find them
//! through their `Hash` and `Eq`, of which nothing is known here; the table
//! finds them by a comparison with a contract, so that what a lookup gives
//! is proved. The tables of the engine are small: one line for each open
//! exchange, session or way out.

use vstd::prelude::*;
use crate::scope::{Scope, ScopeView};

verus! {

/// What can be the key of a table: a value with a mathematical meaning and a
/// test that tells whether two keys mean the same.
pub trait Key: Sized {
    type K;

    spec fn key(&self) -> Self::K;

    fn same_key(&self, other: &Self) -> (r: bool)
        ensures
            r == (self.key() == other.key()),
    ;
}

impl Key for String {
    type K = Seq<char>;

    open spec fn key(&self) -> Seq<char> {
        self@
    }

    fn same_key(&self, other: &Self) -> (r: bool) {
        *self == *other
    }
}

impl Key for Scope {
    type K = ScopeView;

    open spec fn key(&self) -> ScopeView {
        self@
    }

    fn same_key(&self, other: &Self) -> (r: bool) {
        self.same(other)
    }
}

/// The address of a client together with the address it asked for.
pub struct Exchange {
    pub client_addr: String,
    pub uri: String,
}

impl Key for Exchange {
    type K = (Seq<char>, Seq<char>);

    open spec fn key(&self) -> (Seq<char>, Seq<char>) {
        (self.client_addr@, self.uri@)
    }

    fn same_key(&self, other: &Self) -> (r: bool) {
        self.client_addr == other.client_addr && self.uri == other.uri
    }
}

/// One line of a table.
pub struct Entry<K, V> {
    pub key: K,
    pub value: V,
}

/// The position of the first line with the given key, or the number of lines
/// where there is none.
pub open spec fn position<K: Key, V>(s: Seq<Entry<K, V>>, k: K::K) -> int
    decreases s.len(),
{
    if s.len() == 0 {
        0
    } else if s[0].key.key() == k {
        0
    } else {
        1 + position(s.skip(1), k)
    }
}

/// No key stands twice.
pub open spec fn distinct<K: Key, V>(s: Seq<Entry<K, V>>) -> bool {
    forall|i: int, j: int|
        0 <= i < j < s.len() ==> (#[trigger] s[i]).key.key() != (#[trigger] s[j]).key.key()
}

pub proof fn lemma_position<K: Key, V>(s: Seq<Entry<K, V>>, k: K::K)
    ensures
        0 <= position(s, k) <= s.len(),
        position(s, k) < s.len() ==> s[position(s, k)].key.key() == k,
        forall|j: int| 0 <= j < position(s, k) ==> (#[trigger] s[j]).key.key() != k,
    decreases s.len(),
{
    if s.len() > 0 && s[0].key.key() != k {
        lemma_position(s.skip(1), k);
        assert forall|j: int| 0 <= j < position(s, k) implies (#[trigger] s[j]).key.key()
            != k by {
            if j > 0 {
                assert(s[j] == s.skip(1)[j - 1]);
            }
        }
    }
}

/// The first line with a key is where `position` says.
pub proof fn lemma_position_is<K: Key, V>(s: Seq<Entry<K, V>>, k: K::K, i: int)
    requires
        0 <= i <= s.len(),
        i < s.len() ==> s[i].key.key() == k,
        forall|j: int| 0 <= j < i ==> (#[trigger] s[j]).key.key() != k,
    ensures
        position(s, k) == i,
{
    lemma_position(s, k);
    let p = position(s, k);
    if p < i {
        assert(s[p].key.key() != k);
    } else if i < p {
        assert(s[i].key.key() != k);
    }
}

/// A table from keys to values.
pub struct Table<K: Key, V> {
    pub entries: Vec<Entry<K, V>>,
}

impl<K: Key, V> Table<K, V> {
    /// No key stands twice.
    pub open spec fn wf(&self) -> bool {
        distinct(self.entries@)
    }

    /// Whether the key is in the table.
    pub open spec fn has(&self, k: K::K) -> bool {
        position(self.entries@, k) < self.entries@.len()
    }

    /// The value of a key that is in the table.
    pub open spec fn value(&self, k: K::K) -> V {
        self.entries@[position(self.entries@, k)].value
    }

    /// The table as a map.
    pub open spec fn map(&self) -> Map<K::K, V> {
        Map::new(|k: K::K| self.has(k), |k: K::K| self.value(k))
    }

    /// The number of lines.
    pub open spec fn count(&self) -> nat {
        self.entries@.len()
    }

    /// The empty table.
    pub fn new() -> (r: Self)
        ensures
            r.wf(),
            r.count() == 0,
            r.map() == Map::<K::K, V>::empty(),
    {
        let r = Table { entries: Vec::new() };
        assert(r.map() =~= Map::<K::K, V>::empty());
        r
    }

    /// The number of lines.
    pub fn len(&self) -> (r: usize)
        ensures
            r == self.count(),
    {
        self.entries.len()
    }

    /// The place of a key, or the number of lines where the key is not in
    /// the table.
    pub fn find(&self, key: &K) -> (r: usize)
        ensures
            r == position(self.entries@, key.key()),
            r <= self.entries@.len(),
    {
        let mut i: usize = 0;
        while i < self.entries.len()
            invariant
                i <= self.entries.len(),
                forall|j: int| 0 <= j < i ==> (#[trigger] self.entries@[j]).key.key() != key.key(),
            decreases self.entries.len() - i,
        {
            if self.entries[i].key.same_key(key) {
                proof {
                    lemma_position_is(self.entries@, key.key(), i as int);
                }
                return i;
            }
            i += 1;
        }
        proof {
            lemma_position_is(self.entries@, key.key(), i as int);
        }
        i
    }

    /// The value of a key.
    pub fn get(&self, key: &K) -> (r: Option<&V>)
        ensures
            match r {
                Some(v) => self.has(key.key()) && *v == self.value(key.key()),
                None => !self.has(key.key()),
            },
    {
        let i = self.find(key);
        if i < self.entries.len() {
            Some(&self.entries[i].value)
        } else {
            None
        }
    }

    /// Whether the key is in the table.
    pub fn contains(&self, key: &K) -> (r: bool)
        ensures
            r == self.has(key.key()),
    {
        self.find(key) < self.entries.len()
    }

    /// Sets the value of a key and hands back the value it had.
    pub fn insert(&mut self, key: K, value: V) -> (r: Option<V>)
        requires
            old(self).wf(),
        ensures
            final(self).wf(),
            final(self).map() == old(self).map().insert(key.key(), value),
            match r {
                Some(v) => old(self).has(key.key()) && v == old(self).value(key.key()),
                None => !old(self).has(key.key()),
            },
            final(self).count() == old(self).count() + (if old(self).has(key.key()) {
                0int
            } else {
                1int
            }),
    {
        let i = self.find(&key);
        let ghost k = key.key();
        let ghost before = self.entries@;
        proof {
            lemma_position(before, k);
        }
        if i < self.entries.len() {
            let mut e = Entry { key, value };
            let mut all: Vec<Entry<K, V>> = Vec::new();
            std::mem::swap(&mut all, &mut self.entries);
            let mut tail = all.split_off(i);
            let old_entry = tail.remove(0);
            all.push(e);
            all.append(&mut tail);
            self.entries = all;
            proof {
                let after = self.entries@;
                assert(after =~= before.update(i as int, Entry { key, value }));
                assert forall|a: int, b: int| 0 <= a < b < after.len() implies (
                #[trigger] after[a]).key.key() != (#[trigger] after[b]).key.key() by {
                    assert(before[a].key.key() != before[b].key.key());
                }
                assert forall|q: K::K| #[trigger]
                    final(self).map().dom().contains(q) == old(self).map().insert(
                        k,
                        value,
                    ).dom().contains(q) by {
                    lemma_position(before, q);
                    lemma_position(after, q);
                    let pb = position(before, q);
                    let pa = position(after, q);
                    if pb < before.len() {
                        lemma_position_is(after, q, pb);
                    }
                    if pa < after.len() {
                        lemma_position_is(before, q, pa);
                    }
                }
                assert forall|q: K::K| final(self).map().dom().contains(q) implies #[trigger]
                    final(self).map()[q] == old(self).map().insert(k, value)[q] by {
                    lemma_position(before, q);
                    lemma_position(after, q);
                    let pa = position(after, q);
                    lemma_position_is(before, q, pa);
                }
                assert(final(self).map() =~= old(self).map().insert(k, value));
            }
            Some(old_entry.value)
        } else {
            self.entries.push(Entry { key, value });
            proof {
                let after = self.entries@;
                assert(after.len() == before.len() + 1);
                assert(after[before.len() as int].key.key() == k);
                assert forall|j: int| 0 <= j < before.len() implies #[trigger] after[j]
                    == before[j] by {}
                assert forall|a: int, b: int| 0 <= a < b < after.len() implies (
                #[trigger] after[a]).key.key() != (#[trigger] after[b]).key.key() by {
                    if b < before.len() {
                        assert(before[a].key.key() != before[b].key.key());
                    } else {
                        assert(after[a] == before[a]);
                        assert(before[a].key.key() != k);
                    }
                }
                assert forall|q: K::K| #[trigger]
                    final(self).map().dom().contains(q) == old(self).map().insert(
                        k,
                        value,
                    ).dom().contains(q) by {
                    lemma_position(before, q);
                    lemma_position(after, q);
                    let pb = position(before, q);
                    let pa = position(after, q);
                    if q == k {
                        assert forall|j: int| 0 <= j < before.len() implies (
                        #[trigger] after[j]).key.key() != q by {
                            assert(after[j] == before[j]);
                        }
                        lemma_position_is(after, q, before.len() as int);
                    } else {
                        if pb < before.len() {
                            assert(after[pb] == before[pb]);
                            assert forall|j: int| 0 <= j < pb implies (
                            #[trigger] after[j]).key.key() != q by {
                                assert(after[j] == before[j]);
                            }
                            lemma_position_is(after, q, pb);
                        }
                        if pa < after.len() {
                            assert(pa < before.len());
                            assert(after[pa] == before[pa]);
                            assert forall|j: int| 0 <= j < pa implies (
                            #[trigger] before[j]).key.key() != q by {
                                assert(after[j] == before[j]);
                            }
                            lemma_position_is(before, q, pa);
                        }
                    }
                }
                assert forall|q: K::K| final(self).map().dom().contains(q) implies #[trigger]
                    final(self).map()[q] == old(self).map().insert(k, value)[q] by {
                    lemma_position(before, q);
                    lemma_position(after, q);
                    let pa = position(after, q);
                    if q == k {
                        assert forall|j: int| 0 <= j < before.len() implies (
                        #[trigger] after[j]).key.key() != q by {
                            assert(after[j] == before[j]);
                        }
                        lemma_position_is(after, q, before.len() as int);
                    } else {
                        assert(pa < before.len());
                        assert(after[pa] == before[pa]);
                        assert forall|j: int| 0 <= j < pa implies (
                        #[trigger] before[j]).key.key() != q by {
                            assert(after[j] == before[j]);
                        }
                        lemma_position_is(before, q, pa);
                    }
                }
                assert(final(self).map() =~= old(self).map().insert(k, value));
            }
            None
        }
    }

    /// Takes a key out and hands back the value it had.
    pub fn remove(&mut self, key: &K) -> (r: Option<V>)
        requires
            old(self).wf(),
        ensures
            final(self).wf(),
            final(self).map() == old(self).map().remove(key.key()),
            match r {
                Some(v) => old(self).has(key.key()) && v == old(self).value(key.key()),
                None => !old(self).has(key.key()),
            },
            !final(self).has(key.key()),
    {
        let i = self.find(key);
        let ghost k = key.key();
        let ghost before = self.entries@;
        proof {
            lemma_position(before, k);
        }
        if i < self.entries.len() {
            let e = self.entries.remove(i);
            proof {
                let after = self.entries@;
                assert(after =~= before.remove(i as int));
                assert forall|a: int, b: int| 0 <= a < b < after.len() implies (
                #[trigger] after[a]).key.key() != (#[trigger] after[b]).key.key() by {
                    let a0 = if a < i { a } else { a + 1 };
                    let b0 = if b < i { b } else { b + 1 };
                    assert(before[a0].key.key() != before[b0].key.key());
                }
                assert forall|q: K::K| #[trigger]
                    final(self).map().dom().contains(q) == old(self).map().remove(
                        k,
                    ).dom().contains(q) by {
                    lemma_position(before, q);
                    lemma_position(after, q);
                    let pb = position(before, q);
                    let pa = position(after, q);
                    if pa < after.len() {
                        let p0 = if pa < i { pa } else { pa + 1 };
                        assert(before[p0].key.key() == q);
                        if q == k {
                            if p0 < i {
                            } else {
                                assert(before[i as int].key.key() != before[p0].key.key());
                            }
                        }
                    }
                    if pb < before.len() && q != k {
                        let p1 = if pb < i { pb } else { pb - 1 };
                        assert(after[p1].key.key() == q);
                    }
                }
                assert forall|q: K::K| final(self).map().dom().contains(q) implies #[trigger]
                    final(self).map()[q] == old(self).map().remove(k)[q] by {
                    lemma_position(before, q);
                    lemma_position(after, q);
                    let pa = position(after, q);
                    let p0 = if pa < i { pa } else { pa + 1 };
                    assert(before[p0].key.key() == q);
                    assert forall|j: int| 0 <= j < p0 implies (#[trigger] before[j]).key.key()
                        != q by {
                        assert(before[j].key.key() != before[p0].key.key());
                    }
                    lemma_position_is(before, q, p0);
                }
                assert(final(self).map() =~= old(self).map().remove(k));
                assert(!final(self).has(k)) by {
                    lemma_position(after, k);
                    let pa = position(after, k);
                    if pa < after.len() {
                        let p0 = if pa < i { pa } else { pa + 1 };
                        assert(before[p0].key.key() == k);
                        if p0 < i {
                            assert(before[p0].key.key() != before[i as int].key.key());
                        } else {
                            assert(before[i as int].key.key() != before[p0].key.key());
                        }
                    }
                }
            }
            Some(e.value)
        } else {
            proof {
                assert(final(self).map() =~= old(self).map().remove(k));
            }
            None
        }
    }
}

/// A table without its first line holds what it held but the key of that
/// line.
pub proof fn lemma_without_first<K: Key, V>(before: Table<K, V>, after: Table<K, V>)
    requires
        before.wf(),
        before.entries@.len() > 0,
        after.entries@ == before.entries@.skip(1),
    ensures
        after.wf(),
        after.map() == before.map().remove(before.entries@[0].key.key()),
{
    let b = before.entries@;
    let a = after.entries@;
    let first = b[0].key.key();
    assert forall|x: int, y: int| 0 <= x < y < a.len() implies (#[trigger] a[x]).key.key() != (
    #[trigger] a[y]).key.key() by {
        assert(b[x + 1].key.key() != b[y + 1].key.key());
    }
    assert forall|k: K::K| #[trigger] after.has(k) == (before.has(k) && k != first) by {
        lemma_position(a, k);
        lemma_position(b, k);
        if k == first {
            assert forall|j: int| 0 <= j < a.len() implies (#[trigger] a[j]).key.key() != k by {
                assert(b[0].key.key() != b[j + 1].key.key());
            }
            lemma_position_is(a, k, a.len() as int);
        }
    }
    assert forall|k: K::K| #[trigger] after.has(k) implies after.value(k) == before.value(k) by {
        lemma_position(a, k);
        lemma_position(b, k);
    }
    assert(after.map() =~= before.map().remove(first));
}

/// In a table no key leads to two values: two lines with the same key are
/// the same line.
pub proof fn lemma_one_value_per_key<K: Key, V>(t: Table<K, V>, i: int, j: int)
    requires
        t.wf(),
        0 <= i < t.entries@.len(),
        0 <= j < t.entries@.len(),
        t.entries@[i].key.key() == t.entries@[j].key.key(),
    ensures
        i == j,
{
    if i < j {
        assert(t.entries@[i].key.key() != t.entries@[j].key.key());
    } else if j < i {
        assert(t.entries@[j].key.key() != t.entries@[i].key.key());
    }
}

} // verus!
