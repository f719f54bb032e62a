//! A map as a list of entries with distinct keys, for keys that are compared by what
//! they hold.

use vstd::prelude::*;

use crate::models::{CharacteristicUuid, PeerAddress};

verus! {

/// A key: what it holds decides which key it is.
pub trait Key: Sized {
    type Content;

    spec fn content(&self) -> Self::Content;

    fn same_key(&self, other: &Self) -> (r: bool)
        ensures
            r == (self.content() == other.content()),
    ;

    fn copy_key(&self) -> (r: Self)
        ensures
            r.content() == self.content(),
    ;
}

impl Key for PeerAddress {
    type Content = Seq<char>;

    open spec fn content(&self) -> Seq<char> {
        self@
    }

    fn same_key(&self, other: &Self) -> (r: bool) {
        self.same(other)
    }

    fn copy_key(&self) -> (r: Self) {
        self.clone()
    }
}

impl Key for u64 {
    type Content = u64;

    open spec fn content(&self) -> u64 {
        *self
    }

    fn same_key(&self, other: &Self) -> (r: bool) {
        *self == *other
    }

    fn copy_key(&self) -> (r: Self) {
        *self
    }
}

impl Key for CharacteristicUuid {
    type Content = CharacteristicUuid;

    open spec fn content(&self) -> CharacteristicUuid {
        *self
    }

    fn same_key(&self, other: &Self) -> (r: bool) {
        *self == *other
    }

    fn copy_key(&self) -> (r: Self) {
        *self
    }
}

/// Whether `key` is the content of one of the first `n` keys.
pub open spec fn among<K: Key>(keys: Seq<K>, n: int, key: K::Content) -> bool {
    exists|j: int| 0 <= j < n && (#[trigger] keys[j]).content() == key
}

/// One key more is looked at.
pub(crate) proof fn among_step<K: Key>(keys: Seq<K>, n: int)
    requires
        0 <= n < keys.len(),
    ensures
        forall|key: K::Content| #[trigger]
            among(keys, n + 1, key) <==> among(keys, n, key) || key == keys[n].content(),
{
    assert forall|key: K::Content| #[trigger] among(keys, n + 1, key) <==> among(keys, n, key)
        || key == keys[n].content() by {
        if among(keys, n + 1, key) {
            let j = choose|j: int| 0 <= j < n + 1 && (#[trigger] keys[j]).content() == key;
            assert(j < n || j == n);
        }
        if among(keys, n, key) {
            let j = choose|j: int| 0 <= j < n && (#[trigger] keys[j]).content() == key;
            assert(keys[j].content() == key);
        }
    }
}

/// A map from keys to values.
pub struct AssocMap<K: Key, V> {
    entries: Vec<(K, V)>,
}

/// Whether the keys of a list of entries are distinct.
spec fn distinct<K: Key, V>(entries: Seq<(K, V)>) -> bool {
    forall|i: int, j: int|
        0 <= i < j < entries.len() ==> (#[trigger] entries[i]).0.content() != (
        #[trigger] entries[j]).0.content()
}

spec fn is_at<K: Key, V>(entries: Seq<(K, V)>, key: K::Content, i: int) -> bool {
    0 <= i < entries.len() && entries[i].0.content() == key
}

spec fn as_map<K: Key, V>(entries: Seq<(K, V)>) -> Map<K::Content, V> {
    Map::new(
        |key: K::Content| exists|i: int| #[trigger] is_at(entries, key, i),
        |key: K::Content| entries[choose|i: int| #[trigger] is_at(entries, key, i)].1,
    )
}

/// The keys of a map whose values satisfy `p`.
pub open spec fn counted<C, V>(map: Map<C, V>, p: spec_fn(V) -> bool) -> Set<C> {
    map.dom().filter(|k: C| p(map[k]))
}

/// How many values of a map satisfy `p`.
pub open spec fn count_of<C, V>(map: Map<C, V>, p: spec_fn(V) -> bool) -> nat {
    counted(map, p).len()
}

proof fn entry_is_mapped<K: Key, V>(entries: Seq<(K, V)>, i: int)
    requires
        distinct(entries),
        0 <= i < entries.len(),
    ensures
        as_map(entries).contains_key(entries[i].0.content()),
        as_map(entries)[entries[i].0.content()] == entries[i].1,
{
    let key = entries[i].0.content();
    assert(is_at(entries, key, i));
    let j = choose|j: int| #[trigger] is_at(entries, key, j);
    assert(is_at(entries, key, j));
    assert(i == j);
}

proof fn mapped_is_an_entry<K: Key, V>(entries: Seq<(K, V)>, key: K::Content) -> (i: int)
    requires
        distinct(entries),
        as_map(entries).contains_key(key),
    ensures
        is_at(entries, key, i),
        as_map(entries)[key] == entries[i].1,
{
    let i = choose|i: int| #[trigger] is_at(entries, key, i);
    entry_is_mapped(entries, i);
    i
}

impl<K: Key, V> View for AssocMap<K, V> {
    type V = Map<K::Content, V>;

    closed spec fn view(&self) -> Map<K::Content, V> {
        as_map(self.entries@)
    }
}

impl<K: Key, V> AssocMap<K, V> {
    #[verifier::type_invariant]
    spec fn wf(&self) -> bool {
        distinct(self.entries@)
    }

    pub fn new() -> (r: Self)
        ensures
            r@ == Map::<K::Content, V>::empty(),
    {
        let r = AssocMap { entries: Vec::new() };
        assert(r@ =~= Map::<K::Content, V>::empty());
        r
    }

    fn position(&self, key: &K) -> (r: Option<usize>)
        ensures
            match r {
                Some(i) => i < self.entries@.len() && self.entries@[i as int].0.content()
                    == key.content(),
                None => !self@.contains_key(key.content()),
            },
    {
        let mut i: usize = 0;
        while i < self.entries.len()
            invariant
                i <= self.entries@.len(),
                forall|j: int|
                    0 <= j < i ==> (#[trigger] self.entries@[j]).0.content() != key.content(),
            decreases self.entries.len() - i,
        {
            if self.entries[i].0.same_key(key) {
                return Some(i);
            }
            i = i + 1;
        }
        None
    }

    pub fn contains(&self, key: &K) -> (r: bool)
        ensures
            r == self@.contains_key(key.content()),
    {
        proof {
            use_type_invariant(self);
        }
        match self.position(key) {
            Some(i) => {
                proof {
                    entry_is_mapped(self.entries@, i as int);
                }
                true
            },
            None => false,
        }
    }

    pub fn get(&self, key: &K) -> (r: Option<&V>)
        ensures
            match r {
                Some(v) => self@.contains_key(key.content()) && *v == self@[key.content()],
                None => !self@.contains_key(key.content()),
            },
    {
        proof {
            use_type_invariant(self);
        }
        match self.position(key) {
            Some(i) => {
                proof {
                    entry_is_mapped(self.entries@, i as int);
                }
                Some(&self.entries[i].1)
            },
            None => None,
        }
    }

    /// Takes the entry of `key` out.
    pub fn remove(&mut self, key: &K) -> (r: Option<V>)
        ensures
            final(self)@ == old(self)@.remove(key.content()),
            match r {
                Some(v) => old(self)@.contains_key(key.content()) && v
                    == old(self)@[key.content()],
                None => !old(self)@.contains_key(key.content()),
            },
    {
        proof {
            use_type_invariant(&*self);
        }
        match self.position(key) {
            Some(i) => {
                let ghost before = self.entries@;
                let mut entries: Vec<(K, V)> = Vec::new();
                std::mem::swap(&mut entries, &mut self.entries);
                let (_, value) = entries.remove(i);
                proof {
                    let after = entries@;
                    entry_is_mapped(before, i as int);
                    assert forall|a: int, b: int| 0 <= a < b < after.len() implies (
                    #[trigger] after[a]).0.content() != (#[trigger] after[b]).0.content() by {
                        let x = if a < i { a } else { a + 1 };
                        let y = if b < i { b } else { b + 1 };
                        assert(before[x] == after[a] && before[y] == after[b]);
                    }
                    let k0 = key.content();
                    assert forall|k: K::Content| as_map(after).contains_key(k)
                        <==> as_map(before).contains_key(k) && k != k0 by {
                        if as_map(after).contains_key(k) {
                            let a = mapped_is_an_entry(after, k);
                            let x = if a < i { a } else { a + 1 };
                            assert(before[x] == after[a]);
                            entry_is_mapped(before, x);
                        }
                        if as_map(before).contains_key(k) && k != k0 {
                            let x = mapped_is_an_entry(before, k);
                            let a = if x < i { x } else { x - 1 };
                            assert(before[x] == after[a]);
                            entry_is_mapped(after, a);
                        }
                    }
                    assert forall|k: K::Content| as_map(after).contains_key(k) implies as_map(
                        after,
                    )[k] == as_map(before)[k] by {
                        let a = mapped_is_an_entry(after, k);
                        let x = if a < i { a } else { a + 1 };
                        assert(before[x] == after[a]);
                        entry_is_mapped(before, x);
                    }
                    assert(as_map(after) =~= as_map(before).remove(k0));
                }
                self.entries = entries;
                Some(value)
            },
            None => {
                assert(self@ =~= self@.remove(key.content()));
                None
            },
        }
    }

    /// Maps `key` to `value`, whatever it was mapped to before.
    pub fn insert(&mut self, key: K, value: V)
        ensures
            final(self)@ == old(self)@.insert(key.content(), value),
    {
        let ghost k0 = key.content();
        let ghost start = self@;
        self.remove(&key);
        proof {
            use_type_invariant(&*self);
        }
        let ghost before = self.entries@;
        let mut entries: Vec<(K, V)> = Vec::new();
        std::mem::swap(&mut entries, &mut self.entries);
        entries.push((key, value));
        proof {
            let after = entries@;
            let n = before.len() as int;
            assert forall|a: int, b: int| 0 <= a < b < after.len() implies (
            #[trigger] after[a]).0.content() != (#[trigger] after[b]).0.content() by {
                assert(after[a] == before[a]);
                if b == n {
                    entry_is_mapped(before, a);
                } else {
                    assert(after[b] == before[b]);
                }
            }
            assert(after[n].0.content() == k0);
            entry_is_mapped(after, n);
            assert forall|k: K::Content| as_map(after).contains_key(k) <==> as_map(
                before,
            ).contains_key(k) || k == k0 by {
                if as_map(after).contains_key(k) {
                    let a = mapped_is_an_entry(after, k);
                    if a < n {
                        assert(after[a] == before[a]);
                        entry_is_mapped(before, a);
                    }
                }
                if as_map(before).contains_key(k) {
                    let a = mapped_is_an_entry(before, k);
                    assert(after[a] == before[a]);
                    entry_is_mapped(after, a);
                }
            }
            assert forall|k: K::Content| as_map(before).contains_key(k) implies as_map(after)[k]
                == as_map(before)[k] by {
                let a = mapped_is_an_entry(before, k);
                assert(after[a] == before[a]);
                entry_is_mapped(after, a);
            }
            assert(as_map(after) =~= start.insert(k0, value));
        }
        self.entries = entries;
    }

    /// How many values satisfy `f`.
    pub(crate) fn count_where<F: Fn(&V) -> bool>(
        &self,
        f: F,
        Ghost(p): Ghost<spec_fn(V) -> bool>,
    ) -> (n: usize)
        requires
            forall|v: V| #[trigger] call_requires(f, (&v,)),
            forall|v: V, b: bool| #[trigger] call_ensures(f, (&v,), b) ==> b == p(v),
        ensures
            n == count_of(self@, p),
            self@.dom().finite(),
    {
        proof {
            use_type_invariant(self);
        }
        let mut n: usize = 0;
        let mut i: usize = 0;
        let ghost entries = self.entries@;
        proof {
            assert(as_map(entries.take(0)).dom() =~= Set::empty());
            assert(counted(as_map(entries.take(0)), p) =~= Set::empty());
        }
        while i < self.entries.len()
            invariant
                i <= entries.len(),
                entries == self.entries@,
                distinct(entries),
                n <= i,
                counted(as_map(entries.take(i as int)), p).finite(),
                as_map(entries.take(i as int)).dom().finite(),
                n == counted(as_map(entries.take(i as int)), p).len(),
                forall|v: V| #[trigger] call_requires(f, (&v,)),
                forall|v: V, b: bool| #[trigger] call_ensures(f, (&v,), b) ==> b == p(v),
            decreases self.entries.len() - i,
        {
            let hit: bool = f(&self.entries[i].1);
            proof {
                let less = entries.take(i as int);
                let more = entries.take(i + 1);
                let key = entries[i as int].0.content();
                assert(distinct(less)) by {
                    assert forall|a: int, b: int| 0 <= a < b < less.len() implies (
                    #[trigger] less[a]).0.content() != (#[trigger] less[b]).0.content() by {
                        assert(entries[a].0.content() != entries[b].0.content());
                    }
                }
                assert(distinct(more)) by {
                    assert forall|a: int, b: int| 0 <= a < b < more.len() implies (
                    #[trigger] more[a]).0.content() != (#[trigger] more[b]).0.content() by {
                        assert(entries[a].0.content() != entries[b].0.content());
                    }
                }
                assert(!as_map(less).contains_key(key)) by {
                    if as_map(less).contains_key(key) {
                        let a = mapped_is_an_entry(less, key);
                        assert(entries[a].0.content() != entries[i as int].0.content());
                    }
                }
                assert(more[i as int] == entries[i as int]);
                entry_is_mapped(more, i as int);
                assert forall|k: K::Content| as_map(more).contains_key(k) <==> as_map(
                    less,
                ).contains_key(k) || k == key by {
                    if as_map(more).contains_key(k) {
                        let a = mapped_is_an_entry(more, k);
                        if a < i {
                            assert(less[a] == more[a]);
                            entry_is_mapped(less, a);
                        }
                    }
                    if as_map(less).contains_key(k) {
                        let a = mapped_is_an_entry(less, k);
                        assert(less[a] == more[a]);
                        entry_is_mapped(more, a);
                    }
                }
                assert forall|k: K::Content| as_map(less).contains_key(k) implies as_map(more)[k]
                    == as_map(less)[k] by {
                    let a = mapped_is_an_entry(less, k);
                    assert(less[a] == more[a]);
                    entry_is_mapped(more, a);
                }
                assert(as_map(more).dom() =~= as_map(less).dom().insert(key));
                if p(entries[i as int].1) {
                    assert(counted(as_map(more), p) =~= counted(as_map(less), p).insert(key));
                } else {
                    assert(counted(as_map(more), p) =~= counted(as_map(less), p));
                }
            }
            if hit {
                n = n + 1;
            }
            i = i + 1;
        }
        assert(entries.take(i as int) =~= entries);
        n
    }

    /// Replaces every value by what `f` makes of it.
    pub fn update<F: Fn(&V) -> V>(&mut self, f: F)
        requires
            forall|v: V| #[trigger] call_requires(f, (&v,)),
        ensures
            final(self)@.dom() == old(self)@.dom(),
            forall|k: K::Content| #[trigger]
                final(self)@.contains_key(k) ==> call_ensures(
                    f,
                    (&old(self)@[k],),
                    final(self)@[k],
                ),
    {
        proof {
            use_type_invariant(&*self);
        }
        let ghost before = self.entries@;
        let mut entries: Vec<(K, V)> = Vec::new();
        std::mem::swap(&mut entries, &mut self.entries);
        let mut updated: Vec<(K, V)> = Vec::with_capacity(entries.len());
        let mut i: usize = 0;
        while i < entries.len()
            invariant
                i <= entries@.len(),
                entries@ == before,
                updated@.len() == i,
                forall|v: V| #[trigger] call_requires(f, (&v,)),
                forall|j: int|
                    #![trigger updated@[j]]
                    0 <= j < i ==> {
                        &&& updated@[j].0.content() == before[j].0.content()
                        &&& call_ensures(f, (&before[j].1,), updated@[j].1)
                    },
            decreases entries.len() - i,
        {
            let value = f(&entries[i].1);
            updated.push((entries[i].0.copy_key(), value));
            i = i + 1;
        }
        proof {
            let after = updated@;
            assert forall|a: int, b: int| 0 <= a < b < after.len() implies (
            #[trigger] after[a]).0.content() != (#[trigger] after[b]).0.content() by {
                assert(before[a].0.content() != before[b].0.content());
            }
            assert forall|k: K::Content| as_map(after).contains_key(k) <==> as_map(
                before,
            ).contains_key(k) by {
                if as_map(after).contains_key(k) {
                    let a = mapped_is_an_entry(after, k);
                    assert(after[a].0.content() == before[a].0.content());
                    entry_is_mapped(before, a);
                }
                if as_map(before).contains_key(k) {
                    let a = mapped_is_an_entry(before, k);
                    assert(after[a].0.content() == before[a].0.content());
                    entry_is_mapped(after, a);
                }
            }
            assert(as_map(after).dom() =~= as_map(before).dom());
            assert forall|k: K::Content| #[trigger]
                as_map(after).contains_key(k) implies call_ensures(
                f,
                (&as_map(before)[k],),
                as_map(after)[k],
            ) by {
                let a = mapped_is_an_entry(after, k);
                assert(after[a].0.content() == before[a].0.content());
                entry_is_mapped(before, a);
            }
        }
        self.entries = updated;
    }

    /// The keys, each once.
    pub fn keys(&self) -> (r: Vec<K>)
        ensures
            r@.len() == self@.dom().len(),
            self@.dom().finite(),
            forall|i: int, j: int|
                0 <= i < j < r@.len() ==> (#[trigger] r@[i]).content() != (
                #[trigger] r@[j]).content(),
            forall|i: int|
                0 <= i < r@.len() ==> self@.contains_key((#[trigger] r@[i]).content()),
            forall|k: K::Content| #[trigger] self@.contains_key(k) ==> among(r@, r@.len() as int, k),
    {
        proof {
            use_type_invariant(self);
        }
        let mut r: Vec<K> = Vec::with_capacity(self.entries.len());
        let mut i: usize = 0;
        while i < self.entries.len()
            invariant
                i <= self.entries@.len(),
                r@.len() == i,
                forall|j: int|
                    0 <= j < i ==> (#[trigger] r@[j]).content()
                        == self.entries@[j].0.content(),
            decreases self.entries.len() - i,
        {
            r.push(self.entries[i].0.copy_key());
            i = i + 1;
        }
        proof {
            assert forall|a: int, b: int| 0 <= a < b < r@.len() implies (
            #[trigger] r@[a]).content() != (#[trigger] r@[b]).content() by {
                assert(self.entries@[a].0.content() != self.entries@[b].0.content());
            }
            assert forall|a: int| 0 <= a < r@.len() implies self@.contains_key(
                (#[trigger] r@[a]).content(),
            ) by {
                entry_is_mapped(self.entries@, a);
            }
            assert forall|k: K::Content| #[trigger] self@.contains_key(k) implies among(
                r@,
                r@.len() as int,
                k,
            ) by {
                let a = mapped_is_an_entry(self.entries@, k);
                assert(r@[a].content() == k);
            }
            let contents = Seq::new(r@.len(), |a: int| r@[a].content());
            assert(contents.no_duplicates());
            contents.unique_seq_to_set();
            assert(contents.to_set() =~= self@.dom()) by {
                assert forall|k: K::Content| self@.contains_key(k) implies contents.to_set().contains(k) by {
                    let a = choose|a: int| 0 <= a < r@.len() && (#[trigger] r@[a]).content() == k;
                    assert(contents[a] == k);
                }
                assert forall|k: K::Content| contents.to_set().contains(k) implies self@.contains_key(k) by {
                    let a = choose|a: int| 0 <= a < contents.len() && contents[a] == k;
                    assert(r@[a].content() == k);
                }
            }
        }
        r
    }
}

} // verus!
