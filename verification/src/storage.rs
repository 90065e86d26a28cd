//! An in-memory key-value store with the get/put interface of the
//! non-volatile storage adapter the descriptor callbacks use.
//!
//! The store is modelled as a `Map` from key characters to byte values.
//! Exclusive access for a mutation is expressed by `&mut`: a caller that
//! holds the store mutably is the only one operating on it, which is the
//! discipline the process-wide storage handle enforces with a lock. Each
//! `get` and `put` is a single atomic step from one map state to the next.

use vstd::prelude::*;

verus! {

struct StoreEntry {
    key: String,
    value: Vec<u8>,
}

/// A byte-oriented key-value store: one value per string key, keys never
/// removed, a `put` on an existing key overwriting the prior value.
pub struct MemStorage {
    entries: Vec<StoreEntry>,
}

spec fn map_of(s: Seq<StoreEntry>) -> Map<Seq<char>, Seq<u8>>
    decreases s.len(),
{
    if s.len() == 0 {
        Map::empty()
    } else {
        map_of(s.drop_last()).insert(s.last().key@, s.last().value@)
    }
}

spec fn keys_distinct(s: Seq<StoreEntry>) -> bool {
    forall|i: int, j: int| 0 <= i < j < s.len() ==> s[i].key@ != s[j].key@
}

impl View for MemStorage {
    type V = Map<Seq<char>, Seq<u8>>;

    closed spec fn view(&self) -> Map<Seq<char>, Seq<u8>> {
        map_of(self.entries@)
    }
}

proof fn lemma_map_of_contains(s: Seq<StoreEntry>, k: Seq<char>)
    ensures
        map_of(s).contains_key(k) <==> (exists|i: int| 0 <= i < s.len() && s[i].key@ == k),
    decreases s.len(),
{
    if s.len() > 0 {
        lemma_map_of_contains(s.drop_last(), k);
        if s.last().key@ == k {
            assert(s[s.len() - 1].key@ == k);
        } else if map_of(s).contains_key(k) {
            let i = choose|i: int| 0 <= i < s.drop_last().len() && s.drop_last()[i].key@ == k;
            assert(s[i].key@ == k);
        } else {
            assert forall|i: int| 0 <= i < s.len() implies s[i].key@ != k by {
                if i < s.len() - 1 {
                    assert(s.drop_last()[i] == s[i]);
                }
            }
        }
    }
}

proof fn lemma_map_of_index(s: Seq<StoreEntry>, i: int)
    requires
        keys_distinct(s),
        0 <= i < s.len(),
    ensures
        map_of(s).contains_key(s[i].key@),
        map_of(s)[s[i].key@] == s[i].value@,
    decreases s.len(),
{
    if i < s.len() - 1 {
        assert(keys_distinct(s.drop_last())) by {
            assert forall|p: int, q: int|
                0 <= p < q < s.drop_last().len() implies s.drop_last()[p].key@
                != s.drop_last()[q].key@ by {
                assert(s.drop_last()[p] == s[p]);
                assert(s.drop_last()[q] == s[q]);
            }
        }
        lemma_map_of_index(s.drop_last(), i);
        assert(s.drop_last()[i] == s[i]);
        assert(s[i].key@ != s.last().key@);
    }
}

proof fn lemma_map_of_update(s: Seq<StoreEntry>, i: int, e: StoreEntry)
    requires
        keys_distinct(s),
        0 <= i < s.len(),
        e.key@ == s[i].key@,
    ensures
        map_of(s.update(i, e)) == map_of(s).insert(e.key@, e.value@),
    decreases s.len(),
{
    let t = s.update(i, e);
    if i == s.len() - 1 {
        assert(t.drop_last() =~= s.drop_last());
        assert(t.last() == e);
        assert(map_of(t) =~= map_of(s).insert(e.key@, e.value@));
    } else {
        assert(keys_distinct(s.drop_last())) by {
            assert forall|p: int, q: int|
                0 <= p < q < s.drop_last().len() implies s.drop_last()[p].key@
                != s.drop_last()[q].key@ by {
                assert(s.drop_last()[p] == s[p]);
                assert(s.drop_last()[q] == s[q]);
            }
        }
        lemma_map_of_update(s.drop_last(), i, e);
        assert(t.drop_last() =~= s.drop_last().update(i, e));
        assert(t.last() == s.last());
        assert(s[i].key@ != s.last().key@);
        assert(map_of(t) =~= map_of(s).insert(e.key@, e.value@));
    }
}

/// Copies a byte vector element by element.
pub(crate) fn copy_bytes(v: &Vec<u8>) -> (r: Vec<u8>)
    ensures
        r@ == v@,
{
    let mut r: Vec<u8> = Vec::new();
    let mut i: usize = 0;
    while i < v.len()
        invariant
            i <= v.len(),
            r@ == v@.subrange(0, i as int),
        decreases v.len() - i,
    {
        r.push(v[i]);
        i += 1;
        proof {
            assert(r@ =~= v@.subrange(0, i as int));
        }
    }
    proof {
        assert(r@ =~= v@);
    }
    r
}

impl MemStorage {
    /// The store's internal consistency: no key is recorded twice.
    pub closed spec fn wf(&self) -> bool {
        keys_distinct(self.entries@)
    }

    /// An empty store: no key has a value yet.
    pub fn new() -> (r: MemStorage)
        ensures
            r.wf(),
            r@ == Map::<Seq<char>, Seq<u8>>::empty(),
    {
        MemStorage { entries: Vec::new() }
    }

    /// Looks a key up: the recorded value, or `None` where the key was
    /// never written.
    pub fn get(&self, key: &String) -> (r: Option<Vec<u8>>)
        requires
            self.wf(),
        ensures
            match r {
                Some(v) => self@.contains_key(key@) && v@ == self@[key@],
                None => !self@.contains_key(key@),
            },
    {
        let mut i: usize = 0;
        while i < self.entries.len()
            invariant
                i <= self.entries.len(),
                self.wf(),
                forall|j: int| 0 <= j < i ==> self.entries@[j].key@ != key@,
            decreases self.entries.len() - i,
        {
            if self.entries[i].key == *key {
                proof {
                    lemma_map_of_index(self.entries@, i as int);
                }
                return Some(copy_bytes(&self.entries[i].value));
            }
            i += 1;
        }
        proof {
            lemma_map_of_contains(self.entries@, key@);
        }
        None
    }

    /// Records `value` under `key`, overwriting any prior value there and
    /// leaving every other key unchanged.
    pub fn put(&mut self, key: String, value: Vec<u8>)
        requires
            old(self).wf(),
        ensures
            final(self).wf(),
            final(self)@ == old(self)@.insert(key@, value@),
    {
        let mut i: usize = 0;
        while i < self.entries.len()
            invariant
                i <= self.entries.len(),
                self.wf(),
                self.entries@ == old(self).entries@,
                forall|j: int| 0 <= j < i ==> self.entries@[j].key@ != key@,
            decreases self.entries.len() - i,
        {
            if self.entries[i].key == key {
                let e = StoreEntry { key, value };
                proof {
                    lemma_map_of_update(self.entries@, i as int, e);
                }
                self.entries[i] = e;
                proof {
                    assert forall|p: int, q: int|
                        0 <= p < q < self.entries@.len() implies self.entries@[p].key@
                        != self.entries@[q].key@ by {
                        assert(old(self).entries@[p].key@ != old(self).entries@[q].key@);
                    }
                }
                return ;
            }
            i += 1;
        }
        let e = StoreEntry { key, value };
        proof {
            let s = self.entries@;
            assert(s.push(e).drop_last() =~= s);
            assert(s.push(e).last() == e);
            assert forall|p: int, q: int|
                0 <= p < q < s.push(e).len() implies s.push(e)[p].key@ != s.push(e)[q].key@ by {
                if q < s.len() {
                    assert(s[p].key@ != s[q].key@);
                }
            }
        }
        self.entries.push(e);
    }
}

} // verus!
