//! Keyed collections.
//!
//! The compositor keeps nearly everything it knows in collections keyed by an
//! object: a [`Table`] maps keys to values and a [`KeySet`] holds keys alone.
//! Contracts see a table as a [`Dict`], a mathematical map together with the
//! order in which its keys were first inserted, which is the order every walk
//! over the table follows. They see a key set as that order alone.
use crate::seqs::{
    lemma_filter_agree, lemma_filter_all, lemma_filter_facts, lemma_filter_push,
    lemma_remove_is_filter,
};
use vstd::prelude::*;

verus! {

/// What can be a key: a value that can be copied and compared exactly.
pub trait Key: Sized {
    /// Whether two keys are the same key.
    fn same(&self, other: &Self) -> (r: bool)
        ensures
            r == (*self == *other),
    ;

    /// Another copy of the key.
    fn dup(&self) -> (r: Self)
        ensures
            r == *self,
    ;
}

impl Key for u32 {
    fn same(&self, other: &Self) -> (r: bool) {
        *self == *other
    }

    fn dup(&self) -> (r: Self) {
        *self
    }
}

impl Key for i32 {
    fn same(&self, other: &Self) -> (r: bool) {
        *self == *other
    }

    fn dup(&self) -> (r: Self) {
        *self
    }
}

impl Key for u64 {
    fn same(&self, other: &Self) -> (r: bool) {
        *self == *other
    }

    fn dup(&self) -> (r: Self) {
        *self
    }
}

impl Key for (u32, u32) {
    fn same(&self, other: &Self) -> (r: bool) {
        self.0 == other.0 && self.1 == other.1
    }

    fn dup(&self) -> (r: Self) {
        (self.0, self.1)
    }
}

/// The mathematical content of a table.
#[verifier::ext_equal]
#[verifier::reject_recursive_types(K)]
pub struct Dict<K, V> {
    pub map: Map<K, V>,
    pub order: Seq<K>,
}

impl<K, V> Dict<K, V> {
    /// Nothing at all.
    pub open spec fn empty() -> Self {
        Dict { map: Map::empty(), order: Seq::empty() }
    }

    /// The order names each key of the map once, and nothing else.
    pub open spec fn ok(self) -> bool {
        &&& self.order.no_duplicates()
        &&& forall|k: K| #[trigger] self.order.contains(k) <==> self.map.contains_key(k)
    }

    /// Whether a key has a value.
    pub open spec fn has(self, k: K) -> bool {
        self.map.contains_key(k)
    }

    /// The value of a key that has one.
    pub open spec fn at(self, k: K) -> V {
        self.map[k]
    }

    /// The value of a key, if it has one.
    pub open spec fn get(self, k: K) -> Option<V> {
        if self.map.contains_key(k) {
            Some(self.map[k])
        } else {
            None
        }
    }

    /// The same with one value set.
    pub open spec fn put(self, k: K, v: V) -> Self {
        Dict {
            map: self.map.insert(k, v),
            order: if self.map.contains_key(k) {
                self.order
            } else {
                self.order.push(k)
            },
        }
    }

    /// The same with one value changed, if it is there at all.
    pub open spec fn edit(self, k: K, f: spec_fn(V) -> V) -> Self {
        if self.map.contains_key(k) {
            Dict { map: self.map.insert(k, f(self.map[k])), order: self.order }
        } else {
            self
        }
    }

    /// The same with one key gone.
    pub open spec fn without(self, k: K) -> Self {
        Dict { map: self.map.remove(k), order: self.order.filter(|x: K| x != k) }
    }

    /// The entries for which a predicate holds.
    pub open spec fn keep(self, p: spec_fn(K, V) -> bool) -> Self {
        Dict {
            map: Map::new(|k: K| self.map.contains_key(k) && p(k, self.map[k]), |k: K| self.map[k]),
            order: self.order.filter(|k: K| p(k, self.map[k])),
        }
    }

    /// The same with every value changed.
    pub open spec fn each(self, f: spec_fn(K, V) -> V) -> Self {
        Dict {
            map: Map::new(|k: K| self.map.contains_key(k), |k: K| f(k, self.map[k])),
            order: self.order,
        }
    }

    /// The same with the values of the first few keys changed.
    pub open spec fn each_first(self, n: int, f: spec_fn(K, V) -> V) -> Self {
        Dict {
            map: Map::new(
                |k: K| self.map.contains_key(k),
                |k: K|
                    if self.order.take(n).contains(k) {
                        f(k, self.map[k])
                    } else {
                        self.map[k]
                    },
            ),
            order: self.order,
        }
    }

    /// Putting what is there already changes nothing.
    pub proof fn lemma_put_same(self, k: K)
        requires
            self.has(k),
        ensures
            self.put(k, self.at(k)) == self,
    {
        assert(self.put(k, self.at(k)) =~= self);
    }

    /// Taking out what is not there changes nothing.
    pub proof fn lemma_without_absent(self, k: K)
        requires
            self.ok(),
            !self.has(k),
        ensures
            self.without(k) == self,
    {
        assert forall|i: int| 0 <= i < self.order.len() implies #[trigger] self.order[i] != k by {
            assert(self.order.contains(self.order[i]));
        }
        lemma_filter_all(self.order, |x: K| x != k);
        assert(self.without(k) =~= self);
    }

    /// Changing values one key after another changes every value.
    pub proof fn lemma_each(self, f: spec_fn(K, V) -> V)
        requires
            self.ok(),
        ensures
            self.each_first(0, f) == self,
            self.each_first(self.order.len() as int, f) == self.each(f),
    {
        assert(self.order.take(self.order.len() as int) =~= self.order);
        assert(self.each_first(0, f) =~= self);
        assert(self.each_first(self.order.len() as int, f) =~= self.each(f));
    }

    /// Changing the value of one more key.
    pub proof fn lemma_each_step(self, n: int, f: spec_fn(K, V) -> V)
        requires
            self.ok(),
            0 <= n < self.order.len(),
        ensures
            self.has(self.order[n]),
            self.each_first(n, f).has(self.order[n]),
            self.each_first(n, f).at(self.order[n]) == self.at(self.order[n]),
            self.each_first(n, f).put(self.order[n], f(self.order[n], self.at(self.order[n]))) == self.each_first(n + 1, f),
    {
        let k = self.order[n];
        assert(self.order.contains(k));
        assert(self.order.take(n + 1) =~= self.order.take(n).push(k));
        assert(!self.order.take(n).contains(k)) by {
            if self.order.take(n).contains(k) {
                let i = self.order.take(n).index_of(k);
                assert(self.order[i] == k);
            }
        }
        assert forall|x: K| #[trigger] self.order.take(n + 1).contains(x) <==> self.order.take(n).contains(x) || x == k by {
            if self.order.take(n).contains(x) {
                assert(self.order.take(n + 1)[self.order.take(n).index_of(x)] == x);
            }
            if x == k {
                assert(self.order.take(n + 1)[n] == x);
            }
            if self.order.take(n + 1).contains(x) && x != k {
                assert(self.order.take(n)[self.order.take(n + 1).index_of(x)] == x);
            }
        }
        assert(self.each_first(n, f).put(k, f(k, self.at(k))) =~= self.each_first(n + 1, f));
    }

    /// The first key whose entry satisfies a predicate.
    pub open spec fn first_where(self, p: spec_fn(K, V) -> bool) -> Option<K> {
        if self.keys_where(p).len() == 0 {
            None
        } else {
            Some(self.keys_where(p)[0])
        }
    }

    /// Whether any entry satisfies a predicate.
    pub open spec fn any(self, p: spec_fn(K, V) -> bool) -> bool {
        exists|k: K| self.has(k) && #[trigger] p(k, self.at(k))
    }

    /// The keys whose entry satisfies a predicate, in order.
    pub open spec fn keys_where(self, p: spec_fn(K, V) -> bool) -> Seq<K> {
        self.order.filter(|k: K| p(k, self.map[k]))
    }
}

/// A sequence of keys with one more put in, unless it is there.
pub open spec fn set_put<K>(s: Seq<K>, k: K) -> Seq<K> {
    if s.contains(k) {
        s
    } else {
        s.push(k)
    }
}

/// A sequence of keys with one taken out.
pub open spec fn set_without<K>(s: Seq<K>, k: K) -> Seq<K> {
    s.filter(|x: K| x != k)
}

/// Filtering out a key by any test that finds it.
pub proof fn lemma_set_without<K>(s: Seq<K>, k: K, p: spec_fn(K) -> bool)
    requires
        forall|i: int| 0 <= i < s.len() ==> p(#[trigger] s[i]) == (s[i] != k),
    ensures
        s.filter(p) == set_without(s, k),
{
    lemma_filter_agree(s, p, |x: K| x != k);
}

/// A map from keys to values, in order of first insertion.
pub struct Table<K, V> {
    names: Vec<K>,
    vals: Vec<V>,
}

/// A set of keys, in order of first insertion.
pub struct KeySet<K> {
    names: Vec<K>,
}

impl<K, V> Table<K, V> {
    #[verifier::type_invariant]
    spec fn distinct(&self) -> bool {
        &&& self.names@.len() == self.vals@.len()
        &&& self.names@.no_duplicates()
    }
}

impl<K, V: View> View for Table<K, V> {
    type V = Dict<K, V::V>;

    closed spec fn view(&self) -> Dict<K, V::V> {
        Dict {
            map: Map::new(
                |k: K| self.names@.contains(k),
                |k: K| self.vals@[self.names@.index_of(k)]@,
            ),
            order: self.names@,
        }
    }
}

impl<K: Key, V: View> Table<K, V> {
    /// An empty table.
    pub fn new() -> (r: Self)
        ensures
            r@ == Dict::<K, V::V>::empty(),
    {
        let r = Table { names: Vec::new(), vals: Vec::new() };
        proof {
            assert(r@ =~= Dict::<K, V::V>::empty());
        }
        r
    }

    /// Bring to mind that the order of a table names each key of it once.
    pub fn known(&self)
        ensures
            self@.ok(),
    {
        proof {
            use_type_invariant(self);
        }
    }

    fn index(&self, key: &K) -> (r: Option<usize>)
        ensures
            match r {
                Some(i) => i < self.names@.len() && self.names@[i as int] == *key && self.names@.index_of(*key) == i
                    && self@.has(*key) && self@.at(*key) == self.vals@[i as int]@,
                None => !self@.has(*key) && !self.names@.contains(*key),
            },
            self.names@.len() == self.vals@.len(),
    {
        proof {
            use_type_invariant(self);
        }
        let mut i: usize = 0;
        while i < self.names.len()
            invariant
                i <= self.names@.len(),
                forall|j: int| 0 <= j < i ==> self.names@[j] != *key,
                self.distinct(),
            decreases self.names@.len() - i,
        {
            if self.names[i].same(key) {
                return Some(i);
            }
            i += 1;
        }
        None
    }

    /// How many entries there are.
    pub fn len(&self) -> (r: usize)
        ensures
            r == self@.order.len(),
    {
        self.names.len()
    }

    /// The key at a place in the order.
    pub fn key_at(&self, i: usize) -> (r: K)
        requires
            i < self@.order.len(),
        ensures
            r == self@.order[i as int],
            self@.has(r),
    {
        self.names[i].dup()
    }

    /// The value at a place in the order.
    pub fn value_at(&self, i: usize) -> (r: &V)
        requires
            i < self@.order.len(),
        ensures
            self@.has(self@.order[i as int]),
            r@ == self@.at(self@.order[i as int]),
    {
        proof {
            use_type_invariant(self);
            assert(self.names@.index_of(self.names@[i as int]) == i);
        }
        &self.vals[i]
    }

    /// The value at a place in the order, to change.
    pub fn value_at_mut(&mut self, i: usize) -> (r: &mut V)
        requires
            i < old(self)@.order.len(),
        ensures
            old(self)@.has(old(self)@.order[i as int]),
            r@ == old(self)@.at(old(self)@.order[i as int]),
            final(self)@ == old(self)@.put(old(self)@.order[i as int], final(r)@),
    {
        proof {
            use_type_invariant(&*self);
            assert(self.names@.index_of(self.names@[i as int]) == i);
        }
        &mut self.vals[i]
    }

    /// The value of a key.
    pub fn get(&self, key: K) -> (r: Option<&V>)
        ensures
            match r {
                Some(v) => self@.has(key) && v@ == self@.at(key),
                None => !self@.has(key),
            },
    {
        match self.index(&key) {
            Some(i) => Some(&self.vals[i]),
            None => None,
        }
    }

    /// Whether there is an entry for a key.
    pub fn contains(&self, key: K) -> (r: bool)
        ensures
            r == self@.has(key),
    {
        match self.index(&key) {
            Some(_) => true,
            None => false,
        }
    }

    /// The value of a key, to change.
    pub fn get_mut(&mut self, key: K) -> (r: Option<&mut V>)
        ensures
            match r {
                Some(v) => old(self)@.has(key) && v@ == old(self)@.at(key) && final(self)@ == old(
                    self,
                )@.put(key, final(v)@),
                None => !old(self)@.has(key) && *final(self) == *old(self),
            },
    {
        proof {
            use_type_invariant(&*self);
        }
        match self.index(&key) {
            Some(i) => Some(&mut self.vals[i]),
            None => None,
        }
    }

    /// Set the value of a key, whether or not it had one.
    pub fn insert(&mut self, key: K, val: V)
        ensures
            final(self)@ == old(self)@.put(key, val@),
    {
        match self.index(&key) {
            Some(i) => {
                proof {
                    use_type_invariant(&*self);
                }
                self.vals[i] = val;
                proof {
                    assert(self@ =~= old(self)@.put(key, val@));
                }
            },
            None => {
                proof {
                    use_type_invariant(&*self);
                }
                let ghost names = self.names@;
                let mut whole: Self = Table { names: Vec::new(), vals: Vec::new() };
                core::mem::swap(self, &mut whole);
                let Table { names: mut names_new, vals: mut vals_new } = whole;
                names_new.push(key);
                vals_new.push(val);
                proof {
                    assert(names_new@ == names.push(key));
                    assert forall|k: K| names.contains(k) implies names.push(key).index_of(k) == names.index_of(k)
                        && names.push(key).contains(k) by {
                        let i = names.index_of(k);
                        assert(names.push(key)[i] == k);
                    }
                    assert(names.push(key)[names.len() as int] == key);
                    assert(names.push(key).index_of(key) == names.len());
                    assert forall|k: K| names.push(key).contains(k) && k != key implies names.contains(k) by {
                        let i = names.push(key).index_of(k);
                        assert(names[i] == k);
                    }
                }
                *self = Table { names: names_new, vals: vals_new };
                proof {
                    assert(self@ =~= old(self)@.put(key, val@));
                }
            },
        }
    }

    /// Take out the entry of a key, if there is one.
    pub fn remove(&mut self, key: K) -> (r: Option<V>)
        ensures
            match r {
                Some(v) => old(self)@.has(key) && v@ == old(self)@.at(key),
                None => !old(self)@.has(key),
            },
            final(self)@ == old(self)@.without(key),
    {
        match self.index(&key) {
            Some(i) => {
                proof {
                    use_type_invariant(&*self);
                }
                let ghost names = self.names@;
                let ghost vals = self.vals@;
                let mut whole: Self = Table { names: Vec::new(), vals: Vec::new() };
                core::mem::swap(self, &mut whole);
                let Table { names: mut names_new, vals: mut vals_new } = whole;
                let _ = names_new.remove(i);
                let v = vals_new.remove(i);
                proof {
                    let after = names.remove(i as int);
                    assert(names_new@ == after);
                    lemma_remove_is_filter(names, i as int);
                    assert forall|k: K| names.contains(k) && k != key implies after.contains(k) && vals.remove(i as int)[after.index_of(k)] == vals[names.index_of(k)] by {
                        let j = names.index_of(k);
                        let j2 = if j < i { j } else { j - 1 };
                        assert(after[j2] == k);
                    }
                    assert forall|k: K| after.contains(k) implies names.contains(k) && k != key by {
                        let j = after.index_of(k);
                        assert(names[if j < i { j } else { j + 1 }] == k);
                    }
                }
                *self = Table { names: names_new, vals: vals_new };
                proof {
                    assert(self@ =~= old(self)@.without(key));
                }
                Some(v)
            },
            None => {
                proof {
                    lemma_filter_all(self.names@, |k: K| k != key);
                    assert(self@ =~= old(self)@.without(key));
                }
                None
            },
        }
    }

    /// The keys whose entry passes a test, in order.
    pub fn keys_where<F: Fn(&K, &V) -> bool>(&self, test: F, Ghost(p): Ghost<spec_fn(K, V::V) -> bool>) -> (r: Vec<K>)
        requires
            forall|k: &K, v: &V| call_requires(test, (k, v)),
            forall|k: &K, v: &V, r: bool| call_ensures(test, (k, v), r) ==> r == p(*k, v@),
        ensures
            r@ == self@.keys_where(p),
            self@.ok(),
            forall|k: K| #[trigger] r@.contains(k) <==> self@.has(k) && p(k, self@.at(k)),
            r@.no_duplicates(),
    {
        self.known();
        let ghost q = |k: K| p(k, self@.map[k]);
        let ghost names = self@.order;
        proof {
            assert(names.take(0).filter(q) =~= Seq::<K>::empty()) by {
                reveal(Seq::filter);
            }
        }
        let mut found: Vec<K> = Vec::new();
        let mut i: usize = 0;
        while i < self.len()
            invariant
                i <= names.len(),
                names == self@.order,
                q == (|k: K| p(k, self@.map[k])),
                found@ == names.take(i as int).filter(q),
                forall|k: &K, v: &V| call_requires(test, (k, v)),
                forall|k: &K, v: &V, r: bool| call_ensures(test, (k, v), r) ==> r == p(*k, v@),
            decreases names.len() - i,
        {
            proof {
                assert(names.take(i + 1) =~= names.take(i as int).push(names[i as int]));
                lemma_filter_push(names.take(i as int), names[i as int], q);
            }
            let k = self.key_at(i);
            if test(&k, self.value_at(i)) {
                found.push(k);
            }
            i += 1;
        }
        proof {
            assert(names.take(i as int) =~= names);
            lemma_filter_facts(names, q);
        }
        found
    }

    /// The first key whose entry passes a test.
    pub fn first_where<F: Fn(&K, &V) -> bool>(&self, test: F, Ghost(p): Ghost<spec_fn(K, V::V) -> bool>) -> (r: Option<K>)
        requires
            forall|k: &K, v: &V| call_requires(test, (k, v)),
            forall|k: &K, v: &V, r: bool| call_ensures(test, (k, v), r) ==> r == p(*k, v@),
        ensures
            r == self@.first_where(p),
            match r {
                Some(k) => self@.has(k) && p(k, self@.at(k)),
                None => !self@.any(p),
            },
    {
        let mut found = self.keys_where(test, Ghost(p));
        if found.len() == 0 {
            proof {
                assert forall|k: K| self@.has(k) implies !#[trigger] p(k, self@.at(k)) by {
                    assert(!found@.contains(k));
                }
            }
            None
        } else {
            proof {
                assert(found@.contains(found@[0]));
            }
            Some(found.swap_remove(0))
        }
    }

    /// Whether any entry passes a test.
    pub fn any<F: Fn(&K, &V) -> bool>(&self, test: F, Ghost(p): Ghost<spec_fn(K, V::V) -> bool>) -> (r: bool)
        requires
            forall|k: &K, v: &V| call_requires(test, (k, v)),
            forall|k: &K, v: &V, r: bool| call_ensures(test, (k, v), r) ==> r == p(*k, v@),
        ensures
            r == self@.any(p),
    {
        match self.first_where(test, Ghost(p)) {
            Some(k) => {
                proof {
                    assert(p(k, self@.at(k)));
                }
                true
            },
            None => false,
        }
    }

    /// Keep the entries for which a test holds, and take out the others.
    pub fn retain<F: Fn(&K, &V) -> bool>(&mut self, test: F, Ghost(p): Ghost<spec_fn(K, V::V) -> bool>)
        requires
            forall|k: &K, v: &V| call_requires(test, (k, v)),
            forall|k: &K, v: &V, r: bool| call_ensures(test, (k, v), r) ==> r == p(*k, v@),
        ensures
            final(self)@ == old(self)@.keep(p),
    {
        let ghost dict = self@;
        let ghost before = self@.map;
        let ghost names = self.names@;
        let ghost vals = self.vals@;
        proof {
            use_type_invariant(&*self);
        }
        let mut whole: Self = Table { names: Vec::new(), vals: Vec::new() };
        core::mem::swap(self, &mut whole);
        let Table { names: mut names_new, vals: mut vals_new } = whole;
        let ghost q = |k: K| p(k, before[k]);
        proof {
            assert forall|j: int| 0 <= j < names.len() implies #[trigger] before[names[j]] == vals[j]@ by {
                assert(names.contains(names[j]));
                assert(names.index_of(names[j]) == j);
            }
            assert(names.take(0).filter(q) =~= Seq::<K>::empty()) by {
                reveal(Seq::filter);
            }
            assert(names_new@ =~= names.take(0).filter(q) + names.skip(0));
        }
        let mut i: usize = 0;
        let ghost mut seen: int = 0;
        while i < names_new.len()
            invariant
                0 <= seen <= names.len(),
                i == names.take(seen).filter(q).len(),
                names_new@ == names.take(seen).filter(q) + names.skip(seen),
                names_new@.len() == vals_new@.len(),
                names.len() == vals.len(),
                q == (|k: K| p(k, before[k])),
                forall|j: int| 0 <= j < names.len() ==> #[trigger] before[names[j]] == vals[j]@,
                forall|j: int| 0 <= j < names_new@.len() ==> before[#[trigger] names_new@[j]] == vals_new@[j]@,
                forall|k: &K, v: &V| call_requires(test, (k, v)),
                forall|k: &K, v: &V, r: bool| call_ensures(test, (k, v), r) ==> r == p(*k, v@),
            decreases names_new@.len() - i,
        {
            let ghost names_was = names_new@;
            proof {
                assert(names_was.len() == i + names.skip(seen).len());
                assert(names_was[i as int] == names.skip(seen)[0]);
                assert(names_was[i as int] == names[seen]);
                assert(names.take(seen + 1) =~= names.take(seen).push(names[seen]));
                lemma_filter_push(names.take(seen), names[seen], q);
            }
            if test(&names_new[i], &vals_new[i]) {
                i += 1;
                proof {
                    assert(names_new@ =~= names.take(seen + 1).filter(q) + names.skip(seen + 1));
                }
            } else {
                let ghost vals_was = vals_new@;
                let _ = names_new.remove(i);
                let _ = vals_new.remove(i);
                proof {
                    assert(names_new@ =~= names.take(seen + 1).filter(q) + names.skip(seen + 1));
                    assert forall|j: int| 0 <= j < names_new@.len() implies before[#[trigger] names_new@[j]] == vals_new@[j]@ by {
                        let j2 = if j < i { j } else { j + 1 };
                        assert(names_new@[j] == names_was[j2]);
                        assert(vals_new@[j] == vals_was[j2]);
                    }
                }
            }
            proof {
                seen = seen + 1;
            }
        }
        proof {
            assert(seen == names.len()) by {
                assert(names_new@.len() == i + names.skip(seen).len());
            }
            assert(names.take(seen) =~= names);
            assert(names_new@ =~= names.filter(q));
            lemma_filter_facts(names, q);
        }
        *self = Table { names: names_new, vals: vals_new };
        proof {
            assert forall|k: K| #[trigger] self.names@.contains(k) implies self.vals@[self.names@.index_of(k)]@ == before[k] by {
                let j = self.names@.index_of(k);
                assert(self.names@[j] == k);
            }
            assert(self@ =~= dict.keep(p));
        }
    }
}

impl<K> KeySet<K> {
    #[verifier::type_invariant]
    spec fn distinct(&self) -> bool {
        self.names@.no_duplicates()
    }
}

impl<K> View for KeySet<K> {
    type V = Seq<K>;

    closed spec fn view(&self) -> Seq<K> {
        self.names@
    }
}

impl<K: Key> KeySet<K> {
    /// An empty set.
    pub fn new() -> (r: Self)
        ensures
            r@ == Seq::<K>::empty(),
    {
        KeySet { names: Vec::new() }
    }

    /// Bring to mind that a set holds each of its keys once.
    pub fn known(&self)
        ensures
            self@.no_duplicates(),
    {
        proof {
            use_type_invariant(self);
        }
    }

    fn index(&self, key: &K) -> (r: Option<usize>)
        ensures
            match r {
                Some(i) => i < self@.len() && self@[i as int] == *key,
                None => !self@.contains(*key),
            },
    {
        let mut i: usize = 0;
        while i < self.names.len()
            invariant
                i <= self.names@.len(),
                forall|j: int| 0 <= j < i ==> self.names@[j] != *key,
            decreases self.names@.len() - i,
        {
            if self.names[i].same(key) {
                return Some(i);
            }
            i += 1;
        }
        None
    }

    /// How many keys there are.
    pub fn len(&self) -> (r: usize)
        ensures
            r == self@.len(),
    {
        self.names.len()
    }

    /// Whether there are none.
    pub fn is_empty(&self) -> (r: bool)
        ensures
            r == (self@.len() == 0),
    {
        self.names.len() == 0
    }

    /// The key at a place in the order.
    pub fn key_at(&self, i: usize) -> (r: K)
        requires
            i < self@.len(),
        ensures
            r == self@[i as int],
    {
        self.names[i].dup()
    }

    /// Whether a key is in the set.
    pub fn contains(&self, key: K) -> (r: bool)
        ensures
            r == self@.contains(key),
    {
        match self.index(&key) {
            Some(_) => true,
            None => false,
        }
    }

    /// Put a key in.
    pub fn insert(&mut self, key: K)
        ensures
            final(self)@ == set_put(old(self)@, key),
    {
        if !self.contains(key.dup()) {
            proof {
                use_type_invariant(&*self);
            }
            let mut whole: Self = KeySet { names: Vec::new() };
            core::mem::swap(self, &mut whole);
            let KeySet { mut names } = whole;
            names.push(key);
            *self = KeySet { names };
        }
    }

    /// Take a key out, and say whether it was in.
    pub fn remove(&mut self, key: K) -> (r: bool)
        ensures
            r == old(self)@.contains(key),
            final(self)@ == set_without(old(self)@, key),
    {
        match self.index(&key) {
            Some(i) => {
                proof {
                    use_type_invariant(&*self);
                    lemma_remove_is_filter(self.names@, i as int);
                    lemma_filter_facts(self.names@, |k: K| k != key);
                }
                let mut whole: Self = KeySet { names: Vec::new() };
                core::mem::swap(self, &mut whole);
                let KeySet { mut names } = whole;
                let _ = names.remove(i);
                *self = KeySet { names };
                true
            },
            None => {
                proof {
                    lemma_filter_all(self.names@, |k: K| k != key);
                }
                false
            },
        }
    }

    /// Keep the keys for which a test holds, and take out the others.
    pub fn retain<F: Fn(&K) -> bool>(&mut self, test: F, Ghost(p): Ghost<spec_fn(K) -> bool>)
        requires
            forall|k: &K| call_requires(test, (k,)),
            forall|k: &K, r: bool| call_ensures(test, (k,), r) ==> r == p(*k),
        ensures
            final(self)@ == old(self)@.filter(p),
    {
        let ghost names = self.names@;
        proof {
            use_type_invariant(&*self);
            assert(names.take(0).filter(p) =~= Seq::<K>::empty()) by {
                reveal(Seq::filter);
            }
        }
        let mut kept: Vec<K> = Vec::new();
        let mut i: usize = 0;
        while i < self.names.len()
            invariant
                i <= names.len(),
                self.names@ == names,
                kept@ == names.take(i as int).filter(p),
                forall|k: &K| call_requires(test, (k,)),
                forall|k: &K, r: bool| call_ensures(test, (k,), r) ==> r == p(*k),
            decreases names.len() - i,
        {
            proof {
                assert(names.take(i + 1) =~= names.take(i as int).push(names[i as int]));
                lemma_filter_push(names.take(i as int), names[i as int], p);
            }
            if test(&self.names[i]) {
                kept.push(self.names[i].dup());
            }
            i += 1;
        }
        proof {
            assert(names.take(i as int) =~= names);
            lemma_filter_facts(names, p);
        }
        *self = KeySet { names: kept };
    }
}

} // verus!
