//! A small associative store keyed by strings, kept as a vector of entries
//! in ascending order of their keys. It is the backing store of the caches,
//! the price table and the usage buckets.
use vstd::prelude::*;
use vstd::string::StrSliceExecFns;

verus! {

/// `a` comes before `b` in plain string order: at the first position where
/// they differ `a` has the smaller character, or `a` is a proper prefix of `b`.
pub open spec fn key_lt(a: Seq<char>, b: Seq<char>) -> bool {
    exists|i: int| #[trigger] key_lt_at(a, b, i)
}

/// `a` and `b` agree before `i`, and `i` is where `a` comes first.
pub open spec fn key_lt_at(a: Seq<char>, b: Seq<char>, i: int) -> bool {
    0 <= i <= a.len() && i <= b.len() && a.take(i) == b.take(i) && (
    (i == a.len() && i < b.len()) || (i < a.len() && i < b.len() && (a[i] as u32) < (b[i] as u32)))
}

proof fn lemma_key_lt_irreflexive(a: Seq<char>, b: Seq<char>)
    requires
        key_lt(a, b),
    ensures
        a != b,
        !key_lt(b, a),
{
    let i = choose|i: int| key_lt_at(a, b, i);
    if key_lt(b, a) {
        let j = choose|j: int| key_lt_at(b, a, j);
        if i < j {
            assert(b.take(j)[i] == a.take(j)[i]);
        } else if j < i {
            assert(a.take(i)[j] == b.take(i)[j]);
        }
    }
}

proof fn lemma_key_lt_transitive(a: Seq<char>, b: Seq<char>, c: Seq<char>)
    requires
        key_lt(a, b),
        key_lt(b, c),
    ensures
        key_lt(a, c),
{
    let i = choose|i: int| key_lt_at(a, b, i);
    let j = choose|j: int| key_lt_at(b, c, j);
    if i < j {
        assert(b.take(j)[i] == c.take(j)[i]);
        assert(a.take(i) =~= c.take(i)) by {
            assert forall|k: int| 0 <= k < i implies a.take(i)[k] == c.take(i)[k] by {
                assert(a.take(i)[k] == b.take(i)[k]);
                assert(b.take(j)[k] == c.take(j)[k]);
            }
        }
        assert(key_lt_at(a, c, i));
    } else if j < i {
        assert(a.take(i)[j] == b.take(i)[j]);
        assert(a.take(j) =~= c.take(j)) by {
            assert forall|k: int| 0 <= k < j implies a.take(j)[k] == c.take(j)[k] by {
                assert(a.take(i)[k] == b.take(i)[k]);
                assert(b.take(j)[k] == c.take(j)[k]);
            }
        }
        assert(key_lt_at(a, c, j));
    } else {
        assert(a.take(i) =~= c.take(i)) by {
            assert forall|k: int| 0 <= k < i implies a.take(i)[k] == c.take(i)[k] by {
                assert(a.take(i)[k] == b.take(i)[k]);
                assert(b.take(j)[k] == c.take(j)[k]);
            }
        }
        assert(key_lt_at(a, c, i));
    }
}

/// Compares two strings in plain string order: negative where `a` comes
/// first, zero where they are equal, positive where `b` comes first.
pub fn compare_keys(a: &str, b: &str) -> (r: i8)
    ensures
        r < 0 <==> key_lt(a@, b@),
        r == 0 <==> a@ == b@,
        r > 0 <==> key_lt(b@, a@),
{
    let la = a.unicode_len();
    let lb = b.unicode_len();
    let mut i: usize = 0;
    while i < la && i < lb
        invariant
            la == a@.len(),
            lb == b@.len(),
            i <= la,
            i <= lb,
            a@.take(i as int) == b@.take(i as int),
        decreases la - i,
    {
        let ca = a.get_char(i);
        let cb = b.get_char(i);
        if ca != cb {
            if (ca as u32) < (cb as u32) {
                assert(key_lt_at(a@, b@, i as int));
                proof { lemma_key_lt_irreflexive(a@, b@); }
                return -1;
            } else {
                assert(key_lt_at(b@, a@, i as int));
                proof { lemma_key_lt_irreflexive(b@, a@); }
                return 1;
            }
        }
        assert(a@.take(i + 1) =~= a@.take(i as int).push(ca));
        assert(b@.take(i + 1) =~= b@.take(i as int).push(cb));
        i = i + 1;
    }
    if la < lb {
        assert(a@.take(i as int) =~= a@);
        assert(key_lt_at(a@, b@, i as int));
        proof { lemma_key_lt_irreflexive(a@, b@); }
        -1
    } else if lb < la {
        assert(b@.take(i as int) =~= b@);
        assert(key_lt_at(b@, a@, i as int));
        proof { lemma_key_lt_irreflexive(b@, a@); }
        1
    } else {
        assert(a@ =~= a@.take(i as int));
        assert(b@ =~= b@.take(i as int));
        proof {
            if key_lt(a@, b@) {
                let j = choose|j: int| key_lt_at(a@, b@, j);
                assert(a@.take(j) == b@.take(j));
            }
            if key_lt(b@, a@) {
                let j = choose|j: int| key_lt_at(b@, a@, j);
                assert(a@.take(j) == b@.take(j));
            }
        }
        0
    }
}

/// Entries of a string-keyed store. No two entries share a key.
pub struct KeyedStore<V> {
    pub entries: Vec<(String, V)>,
}

impl<V> KeyedStore<V> {
    /// Keys are unique and in ascending order.
    pub open spec fn wf(&self) -> bool {
        &&& forall|i: int, j: int|
            0 <= i < self.entries@.len() && 0 <= j < self.entries@.len() && i != j
                ==> #[trigger] self.entries@[i].0@ != #[trigger] self.entries@[j].0@
        &&& self.sorted()
    }

    /// Each key comes before the keys after it.
    pub open spec fn sorted(&self) -> bool {
        forall|i: int, j: int|
            0 <= i < j < self.entries@.len() ==> key_lt(#[trigger] self.entries@[i].0@, #[trigger] self.entries@[j].0@)
    }

    /// The store as a map from keys to values.
    pub open spec fn view(&self) -> Map<Seq<char>, V> {
        Map::new(
            |k: Seq<char>| exists|i: int| 0 <= i < self.entries@.len() && #[trigger] self.entries@[i].0@ == k,
            |k: Seq<char>| self.entries@[self.index_of(k)].1,
        )
    }

    /// The position of the entry for `k`, where there is one.
    pub open spec fn index_of(&self, k: Seq<char>) -> int {
        choose|i: int| 0 <= i < self.entries@.len() && #[trigger] self.entries@[i].0@ == k
    }

    pub fn new() -> (r: Self)
        ensures
            r.wf(),
            r@ == Map::<Seq<char>, V>::empty(),
    {
        let r = KeyedStore { entries: Vec::new() };
        assert(r@ =~= Map::<Seq<char>, V>::empty());
        r
    }

    pub fn len(&self) -> (r: usize)
        requires
            self.wf(),
        ensures
            r == self@.len(),
    {
        proof { self.lemma_len(); }
        self.entries.len()
    }

    proof fn lemma_index(&self, i: int)
        requires
            self.wf(),
            0 <= i < self.entries@.len(),
        ensures
            self.index_of(self.entries@[i].0@) == i,
            self@.contains_key(self.entries@[i].0@),
            self@[self.entries@[i].0@] == self.entries@[i].1,
    {
        let k = self.entries@[i].0@;
        assert(self.entries@[i].0@ == k);
        let j = self.index_of(k);
        assert(0 <= j < self.entries@.len() && self.entries@[j].0@ == k);
    }

    proof fn lemma_len(&self)
        requires
            self.wf(),
        ensures
            self@.dom().finite(),
            self@.len() == self.entries@.len(),
        decreases self.entries@.len(),
    {
        let keys = Seq::new(self.entries@.len(), |i: int| self.entries@[i].0@);
        assert forall|k: Seq<char>| self@.dom().contains(k) <==> keys.to_set().contains(k) by {
            if self@.dom().contains(k) {
                let i = self.index_of(k);
                assert(keys[i] == k);
            }
            if keys.to_set().contains(k) {
                let i = choose|i: int| 0 <= i < keys.len() && keys[i] == k;
                assert(self.entries@[i].0@ == k);
            }
        }
        assert(self@.dom() =~= keys.to_set());
        assert forall|i: int, j: int| 0 <= i < keys.len() && 0 <= j < keys.len() && i != j implies keys[i] != keys[j] by {
            assert(self.entries@[i].0@ != self.entries@[j].0@);
        }
        assert(keys.no_duplicates());
        keys.unique_seq_to_set();
    }

    /// The position of the entry with key `key`, or `None` where there is none.
    pub fn find(&self, key: &String) -> (r: Option<usize>)
        requires
            self.wf(),
        ensures
            r is None <==> !self@.contains_key(key@),
            r matches Some(i) ==> i < self.entries@.len() && self.entries@[i as int].0@ == key@
                && i == self.index_of(key@),
    {
        let mut i: usize = 0;
        while i < self.entries.len()
            invariant
                self.wf(),
                i <= self.entries@.len(),
                forall|j: int| 0 <= j < i ==> #[trigger] self.entries@[j].0@ != key@,
            decreases self.entries@.len() - i,
        {
            if self.entries[i].0 == *key {
                proof { self.lemma_index(i as int); }
                return Some(i);
            }
            i = i + 1;
        }
        None
    }

    /// The value stored under `key`.
    pub fn get(&self, key: &String) -> (r: Option<&V>)
        requires
            self.wf(),
        ensures
            r is None <==> !self@.contains_key(key@),
            r matches Some(v) ==> *v == self@[key@],
    {
        match self.find(key) {
            None => None,
            Some(i) => {
                proof { self.lemma_index(i as int); }
                Some(&self.entries[i].1)
            }
        }
    }

    /// Stores `val` under `key`, replacing any value stored there before.
    pub fn insert(&mut self, key: String, val: V)
        requires
            old(self).wf(),
        ensures
            final(self).wf(),
            final(self)@ == old(self)@.insert(key@, val),
    {
        let ghost k = key@;
        let ghost v = val;
        match self.find(&key) {
            None => {
                let mut p: usize = 0;
                while p < self.entries.len() && compare_keys(self.entries[p].0.as_str(), key.as_str()) < 0
                    invariant
                        *self == *old(self),
                        self.wf(),
                        p <= self.entries@.len(),
                        key@ == k,
                        forall|i: int| 0 <= i < p ==> key_lt(#[trigger] self.entries@[i].0@, k),
                    decreases self.entries@.len() - p,
                {
                    p = p + 1;
                }
                proof {
                    assert forall|i: int| 0 <= i < self.entries@.len() implies #[trigger] self.entries@[i].0@ != k by {
                        if self.entries@[i].0@ == k {
                            old(self).lemma_index(i);
                        }
                    }
                }
                if p < self.entries.len() {
                    let c = compare_keys(self.entries[p].0.as_str(), key.as_str());
                    assert(c > 0);
                }
                let ghost before = self.entries@;
                self.entries.insert(p, (key, val));
                let ghost after = self.entries@;
                assert forall|i: int| 0 <= i < p implies #[trigger] after[i] == before[i] by {}
                assert forall|i: int| p < i < after.len() implies #[trigger] after[i] == before[i - 1] by {}
                assert(after[p as int].0@ == k);
                assert forall|i: int, j: int| 0 <= i < j < after.len() implies
                    key_lt(#[trigger] after[i].0@, #[trigger] after[j].0@) by {
                    if i < p && j > p {
                        assert(after[j] == before[j - 1]);
                    } else if i == p && j > p {
                        assert(after[j] == before[j - 1]);
                        if j - 1 > p {
                            lemma_key_lt_transitive(k, before[p as int].0@, before[j - 1].0@);
                        }
                    } else if i > p {
                        assert(after[i] == before[i - 1]);
                        assert(after[j] == before[j - 1]);
                    }
                }
                assert forall|i: int, j: int| 0 <= i < after.len() && 0 <= j < after.len() && i != j implies
                    #[trigger] after[i].0@ != #[trigger] after[j].0@ by {
                    if i < j {
                        lemma_key_lt_irreflexive(after[i].0@, after[j].0@);
                    } else {
                        lemma_key_lt_irreflexive(after[j].0@, after[i].0@);
                    }
                }
                assert(self@ =~= old(self)@.insert(k, v)) by {
                    self.lemma_index(p as int);
                    assert forall|kk: Seq<char>| #[trigger] self@.contains_key(kk) && kk != k implies
                        old(self)@.contains_key(kk) && self@[kk] == old(self)@[kk] by {
                        let i = self.index_of(kk);
                        let oi = if i < p { i } else { i - 1 };
                        assert(before[oi].0@ == kk);
                        old(self).lemma_index(oi);
                        self.lemma_index(i);
                    }
                    assert forall|kk: Seq<char>| #[trigger] old(self)@.contains_key(kk) implies
                        self@.contains_key(kk) by {
                        let i = old(self).index_of(kk);
                        let ni = if i < p { i } else { i + 1 };
                        assert(after[ni].0@ == kk);
                    }
                }
            },
            Some(i) => {
                proof { old(self).lemma_index(i as int); }
                self.entries.set(i, (key, val));
                assert forall|j: int| 0 <= j < self.entries@.len() && j != i implies #[trigger] self.entries@[j] == old(self).entries@[j] by {}
                assert(self@ =~= old(self)@.insert(k, v)) by {
                    self.lemma_index(i as int);
                    assert forall|kk: Seq<char>| #[trigger] self@.contains_key(kk) && kk != k implies
                        old(self)@.contains_key(kk) && self@[kk] == old(self)@[kk] by {
                        let j = self.index_of(kk);
                        old(self).lemma_index(j);
                        self.lemma_index(j);
                    }
                    assert forall|kk: Seq<char>| #[trigger] old(self)@.contains_key(kk) implies
                        self@.contains_key(kk) by {
                        let j = old(self).index_of(kk);
                        if j != i {
                            assert(self.entries@[j].0@ == kk);
                        }
                    }
                }
            }
        }
    }
}

} // verus!
