//! Finite maps and sets keyed by small copyable values.
//!
//! Both containers are vectors in which no key occurs twice. Their views are a `Map` and a `Set`,
//! and every contract is stated over the view, so that nothing depends on the order of storage.
use vstd::prelude::*;

verus! {

/// A value that can be compared for equality at run time, with the same outcome as equality in
/// contracts.
pub trait Key: Copy {
    /// Whether the two values are equal.
    fn same(&self, other: &Self) -> (r: bool)
        ensures
            r == (*self == *other),
    ;
}

impl Key for u8 {
    fn same(&self, other: &Self) -> (r: bool) {
        *self == *other
    }
}

impl Key for u32 {
    fn same(&self, other: &Self) -> (r: bool) {
        *self == *other
    }
}

impl Key for u64 {
    fn same(&self, other: &Self) -> (r: bool) {
        *self == *other
    }
}

/// Whether two vectors hold the same elements in the same order.
pub fn same_elements<T: Key>(a: &Vec<T>, b: &Vec<T>) -> (r: bool)
    ensures
        r == (a@ == b@),
{
    if a.len() != b.len() {
        return false;
    }
    let mut i: usize = 0;
    while i < a.len()
        invariant
            0 <= i <= a.len(),
            a.len() == b.len(),
            forall|j: int| 0 <= j < i ==> a@[j] == b@[j],
        decreases a.len() - i,
    {
        if !a[i].same(&b[i]) {
            return false;
        }
        i = i + 1;
    }
    assert(a@ =~= b@);
    true
}

/// Whether a vector holds a value.
pub fn holds<T: Key>(v: &Vec<T>, x: &T) -> (r: bool)
    ensures
        r == v@.contains(*x),
{
    let mut i: usize = 0;
    while i < v.len()
        invariant
            0 <= i <= v.len(),
            forall|j: int| 0 <= j < i ==> v@[j] != *x,
        decreases v.len() - i,
    {
        if v[i].same(x) {
            return true;
        }
        i = i + 1;
    }
    false
}

/// A copy of a vector of plain values.
pub fn copy_of<T: Copy>(v: &Vec<T>) -> (r: Vec<T>)
    ensures
        r@ == v@,
{
    let mut r: Vec<T> = Vec::new();
    let mut i: usize = 0;
    while i < v.len()
        invariant
            0 <= i <= v.len(),
            r@ == v@.take(i as int),
        decreases v.len() - i,
    {
        r.push(v[i]);
        i = i + 1;
        assert(v@.take(i as int) =~= v@.take(i - 1).push(v@[i - 1]));
    }
    assert(v@.take(i as int) =~= v@);
    r
}

/// A finite map.
pub struct Table<K, V> {
    entries: Vec<(K, V)>,
}

/// The keys of a sequence of entries, in order.
spec fn keys_of<K, V>(s: Seq<(K, V)>) -> Seq<K> {
    s.map_values(|e: (K, V)| e.0)
}

impl<K, V> Table<K, V> {
    #[verifier::type_invariant]
    spec fn distinct(&self) -> bool {
        keys_of(self.entries@).no_duplicates()
    }
}

impl<K: Key, V: View> View for Table<K, V> {
    type V = Map<K, V::V>;

    closed spec fn view(&self) -> Map<K, V::V> {
        Map::new(
            |k: K| self.order().contains(k),
            |k: K| self.entries@[self.order().index_of(k)].1@,
        )
    }
}

impl<K: Key, V: View> Table<K, V> {
    /// The keys, in the order in which they are stored.
    pub closed spec fn order(&self) -> Seq<K> {
        keys_of(self.entries@)
    }

    /// The table with no entry.
    pub fn new() -> (r: Self)
        ensures
            r@ == Map::<K, V::V>::empty(),
    {
        let r = Table { entries: Vec::new() };
        assert(r.order() =~= Seq::<K>::empty());
        assert(r@ =~= Map::<K, V::V>::empty());
        r
    }

    /// The number of entries.
    pub fn len(&self) -> (n: usize)
        ensures
            n == self@.dom().len(),
            n == self.order().len(),
            self@.dom().finite(),
            self.order().no_duplicates(),
            self.order().to_set() == self@.dom(),
    {
        proof {
            use_type_invariant(self);
            self.order().unique_seq_to_set();
            assert(self@.dom() =~= self.order().to_set());
        }
        self.entries.len()
    }

    /// Whether there is no entry.
    pub fn is_empty(&self) -> (r: bool)
        ensures
            r == (self@ == Map::<K, V::V>::empty()),
    {
        proof {
            if self.entries@.len() == 0 {
                assert(self.order() =~= Seq::<K>::empty());
                assert(self@ =~= Map::<K, V::V>::empty());
            } else {
                assert(self.order().contains(self.order()[0]));
                assert(self@.dom().contains(self.order()[0]));
            }
        }
        self.entries.len() == 0
    }

    /// The position of the entry for `k`.
    fn position(&self, k: &K) -> (r: Option<usize>)
        ensures
            match r {
                Some(i) => i < self.entries.len() && self.entries@[i as int].0 == *k,
                None => !self.order().contains(*k),
            },
    {
        let mut i: usize = 0;
        while i < self.entries.len()
            invariant
                0 <= i <= self.entries.len(),
                forall|j: int| 0 <= j < i ==> self.entries@[j].0 != *k,
            decreases self.entries.len() - i,
        {
            if self.entries[i].0.same(k) {
                return Some(i);
            }
            i = i + 1;
        }
        None
    }

    /// The value stored for `k`.
    pub fn get(&self, k: &K) -> (r: Option<&V>)
        ensures
            match r {
                Some(v) => self@.contains_key(*k) && v@ == self@[*k],
                None => !self@.contains_key(*k),
            },
    {
        proof {
            use_type_invariant(self);
        }
        match self.position(k) {
            Some(i) => {
                assert(self.order()[i as int] == *k);
                assert(self.order().index_of(*k) == i);
                Some(&self.entries[i].1)
            },
            None => None,
        }
    }

    /// Whether a value is stored for `k`.
    pub fn contains_key(&self, k: &K) -> (r: bool)
        ensures
            r == self@.contains_key(*k),
    {
        match self.get(k) {
            Some(_) => true,
            None => false,
        }
    }

    /// The key at position `i`.
    pub fn key_at(&self, i: usize) -> (k: K)
        requires
            i < self.order().len(),
        ensures
            k == self.order()[i as int],
            self@.contains_key(k),
    {
        assert(self.order().contains(self.order()[i as int]));
        self.entries[i].0
    }

    /// The value at position `i`.
    pub fn value_at(&self, i: usize) -> (v: &V)
        requires
            i < self.order().len(),
        ensures
            self@.contains_key(self.order()[i as int]),
            v@ == self@[self.order()[i as int]],
    {
        proof {
            use_type_invariant(self);
            assert(self.order().index_of(self.order()[i as int]) == i);
        }
        &self.entries[i].1
    }

    /// All keys.
    pub fn keys(&self) -> (r: Vec<K>)
        ensures
            r@ == self.order(),
            r@.no_duplicates(),
            r@.to_set() == self@.dom(),
    {
        let n: usize = self.len();
        let mut r: Vec<K> = Vec::new();
        let mut i: usize = 0;
        while i < n
            invariant
                0 <= i <= n,
                n == self.order().len(),
                r@ == self.order().take(i as int),
            decreases n - i,
        {
            r.push(self.key_at(i));
            i = i + 1;
            assert(self.order().take(i as int) =~= self.order().take(i - 1).push(
                self.order()[i - 1],
            ));
        }
        assert(self.order().take(i as int) =~= self.order());
        r
    }

    /// The set of all keys.
    pub fn key_set(&self) -> (r: KeySet<K>)
        ensures
            r@ == self@.dom(),
    {
        KeySet { items: self.keys() }
    }

    /// Stores `v` for `k`, in place of what was stored for it.
    pub fn insert(&mut self, k: K, v: V)
        ensures
            final(self)@ == old(self)@.insert(k, v@),
    {
        proof {
            use_type_invariant(&*self);
        }
        let ghost before = *self;
        let found = self.position(&k);
        let mut entries: Vec<(K, V)> = Vec::new();
        std::mem::swap(&mut self.entries, &mut entries);
        match found {
            Some(i) => {
                entries.set(i, (k, v));
                proof {
                    assert(keys_of(entries@) =~= before.order());
                }
            },
            None => {
                entries.push((k, v));
                proof {
                    assert(keys_of(entries@) =~= before.order().push(k));
                    assert(before.order().push(k).no_duplicates());
                }
            },
        }
        self.entries = entries;
        proof {
            use_type_invariant(&*self);
            let ghost kk = self.order();
            assert forall|x: K| self@.contains_key(x) <==> (before@.contains_key(x) || x == k) by {
                if before.order().contains(x) {
                    let j = before.order().index_of(x);
                    assert(kk[j] == x);
                }
                if x == k {
                    match found {
                        Some(i) => {
                            assert(kk[i as int] == k);
                        },
                        None => {
                            assert(kk[kk.len() - 1] == k);
                        },
                    }
                }
            }
            assert forall|x: K| self@.contains_key(x) implies self@[x] == before@.insert(
                k,
                v@,
            )[x] by {
                let j = kk.index_of(x);
                assert(kk[j] == x);
                if x != k {
                    let b = before.order();
                    assert(b[j] == x);
                    assert(b.index_of(x) == j);
                } else {
                    let n = kk.len() - 1;
                    match found {
                        Some(i) => {
                            assert(kk[i as int] == k);
                            assert(j == i);
                        },
                        None => {
                            assert(kk[n] == k);
                            assert(j == n);
                        },
                    }
                }
            }
            assert(self@ =~= before@.insert(k, v@));
        }
    }

    /// Takes out what is stored for `k`.
    pub fn remove(&mut self, k: &K) -> (r: Option<V>)
        ensures
            final(self)@ == old(self)@.remove(*k),
            match r {
                Some(v) => old(self)@.contains_key(*k) && v@ == old(self)@[*k],
                None => !old(self)@.contains_key(*k),
            },
    {
        proof {
            use_type_invariant(&*self);
        }
        let ghost before = *self;
        match self.position(k) {
            Some(i) => {
                let mut entries: Vec<(K, V)> = Vec::new();
                std::mem::swap(&mut self.entries, &mut entries);
                let e = entries.remove(i);
                proof {
                    let b = before.order();
                    assert(b[i as int] == *k);
                    assert(b.index_of(*k) == i);
                    assert(keys_of(entries@) =~= b.remove(i as int));
                    assert forall|x: int, y: int|
                        0 <= x < y < b.remove(i as int).len() implies b.remove(i as int)[x]
                        != b.remove(i as int)[y] by {
                        let x1 = if x < i { x } else { x + 1 };
                        let y1 = if y < i { y } else { y + 1 };
                        assert(b[x1] != b[y1]);
                    }
                }
                self.entries = entries;
                proof {
                    let b = before.order();
                    let a = self.order();
                    assert forall|x: K| self@.contains_key(x) <==> (before@.contains_key(x) && x
                        != *k) by {
                        if b.contains(x) && x != *k {
                            let j = b.index_of(x);
                            if j < i {
                                assert(a[j] == x);
                            } else {
                                assert(a[j - 1] == x);
                            }
                        }
                        if a.contains(x) {
                            let j = a.index_of(x);
                            if j < i {
                                assert(b[j] == x);
                            } else {
                                assert(b[j + 1] == x);
                            }
                        }
                    }
                    assert forall|x: K| self@.contains_key(x) implies self@[x] == before@[x] by {
                        let j = a.index_of(x);
                        let j1 = if j < i { j } else { j + 1 };
                        assert(b[j1] == x);
                        assert(b.index_of(x) == j1);
                    }
                    assert(self@ =~= before@.remove(*k));
                }
                Some(e.1)
            },
            None => {
                proof {
                    assert(self@.remove(*k) =~= self@);
                }
                None
            },
        }
    }
}

/// A finite set.
pub struct KeySet<K> {
    items: Vec<K>,
}

impl<K> KeySet<K> {
    #[verifier::type_invariant]
    spec fn distinct(&self) -> bool {
        self.items@.no_duplicates()
    }
}

impl<K: Key> View for KeySet<K> {
    type V = Set<K>;

    closed spec fn view(&self) -> Set<K> {
        self.items@.to_set()
    }
}

impl<K: Key> KeySet<K> {
    /// The members, in the order in which they are stored.
    pub closed spec fn order(&self) -> Seq<K> {
        self.items@
    }

    /// The set with no member.
    pub fn new() -> (r: Self)
        ensures
            r@ == Set::<K>::empty(),
    {
        let r = KeySet { items: Vec::new() };
        assert(r@ =~= Set::<K>::empty());
        r
    }

    /// The number of members.
    pub fn len(&self) -> (n: usize)
        ensures
            n == self@.len(),
            n == self.order().len(),
            self@.finite(),
            self.order().no_duplicates(),
            self.order().to_set() == self@,
    {
        proof {
            use_type_invariant(self);
            self.items@.unique_seq_to_set();
        }
        self.items.len()
    }

    /// Whether there is no member.
    pub fn is_empty(&self) -> (r: bool)
        ensures
            r == (self@ == Set::<K>::empty()),
    {
        proof {
            if self.items@.len() == 0 {
                assert(self@ =~= Set::<K>::empty());
            } else {
                assert(self.items@.contains(self.items@[0]));
                assert(self@.contains(self.items@[0]));
            }
        }
        self.items.len() == 0
    }

    /// Whether `k` is a member.
    pub fn contains(&self, k: &K) -> (r: bool)
        ensures
            r == self@.contains(*k),
    {
        holds(&self.items, k)
    }

    /// All members.
    pub fn members(&self) -> (r: Vec<K>)
        ensures
            r@ == self.order(),
            r@.no_duplicates(),
            r@.to_set() == self@,
    {
        proof {
            use_type_invariant(self);
        }
        copy_of(&self.items)
    }

    /// Adds `k`; says whether it was not a member before.
    pub fn insert(&mut self, k: K) -> (r: bool)
        ensures
            final(self)@ == old(self)@.insert(k),
            r == !old(self)@.contains(k),
    {
        proof {
            use_type_invariant(&*self);
        }
        if self.contains(&k) {
            assert(self@.insert(k) =~= self@);
            return false;
        }
        let ghost before = self.items@;
        let mut items: Vec<K> = Vec::new();
        std::mem::swap(&mut self.items, &mut items);
        items.push(k);
        proof {
            assert(items@.no_duplicates());
            assert forall|x: K| items@.contains(x) <==> (before.contains(x) || x == k) by {
                if before.contains(x) {
                    let j = before.index_of(x);
                    assert(items@[j] == x);
                }
                assert(items@[items@.len() - 1] == k);
            }
            assert(items@.to_set() =~= before.to_set().insert(k));
        }
        self.items = items;
        true
    }

    /// Takes `k` out; says whether it was a member.
    pub fn remove(&mut self, k: &K) -> (r: bool)
        ensures
            final(self)@ == old(self)@.remove(*k),
            r == old(self)@.contains(*k),
    {
        proof {
            use_type_invariant(&*self);
        }
        let ghost b = self.items@;
        let mut i: usize = 0;
        while i < self.items.len()
            invariant
                0 <= i <= self.items.len(),
                self.items@ == b,
                b.no_duplicates(),
                forall|j: int| 0 <= j < i ==> b[j] != *k,
                old(self)@ == b.to_set(),
            decreases self.items.len() - i,
        {
            if self.items[i].same(k) {
                let mut items: Vec<K> = Vec::new();
                std::mem::swap(&mut self.items, &mut items);
                let _ = items.remove(i);
                proof {
                    let a = items@;
                    assert forall|x: int, y: int| 0 <= x < y < a.len() implies a[x] != a[y] by {
                        let x1 = if x < i { x } else { x + 1 };
                        let y1 = if y < i { y } else { y + 1 };
                        assert(b[x1] != b[y1]);
                    }
                    assert forall|x: K| a.contains(x) <==> (b.contains(x) && x != *k) by {
                        if b.contains(x) && x != *k {
                            let j = b.index_of(x);
                            if j < i {
                                assert(a[j] == x);
                            } else {
                                assert(a[j - 1] == x);
                            }
                        }
                        if a.contains(x) {
                            let j = a.index_of(x);
                            if j < i {
                                assert(b[j] == x);
                            } else {
                                assert(b[j + 1] == x);
                            }
                        }
                    }
                    assert(a.to_set() =~= b.to_set().remove(*k));
                    assert(b.contains(b[i as int]));
                }
                self.items = items;
                return true;
            }
            i = i + 1;
        }
        assert(!b.contains(*k));
        assert(b.to_set().remove(*k) =~= b.to_set());
        false
    }
}

} // verus!
