//! The storage port: an abstract byte-oriented key-value store, split into a
//! read half and a write half, plus a verified in-memory implementation.

use vstd::prelude::*;
use vstd::slice::slice_to_vec;

verus! {

/// The read half of the storage port.
pub trait ReadonlyStorage {
    /// Whether the store's internal invariant holds.
    spec fn inv(&self) -> bool;

    /// The stored contents, as a map from keys to byte values.
    spec fn store_view(&self) -> Map<Seq<u8>, Seq<u8>>;

    /// Reads the bytes at `key`; absence is a regular optional result.
    fn get(&self, key: &[u8]) -> (r: Option<Vec<u8>>)
        requires
            self.inv(),
        ensures
            match r {
                Some(v) => self.store_view().contains_key(key@) && v@ == self.store_view()[key@],
                None => !self.store_view().contains_key(key@),
            },
    ;
}

/// The write half of the storage port.
pub trait MutableStorage: ReadonlyStorage {
    /// Stores `value` at `key`, overwriting whatever was there.
    fn set(&mut self, key: &[u8], value: &[u8])
        requires
            old(self).inv(),
        ensures
            final(self).inv(),
            final(self).store_view() == old(self).store_view().insert(key@, value@),
    ;

    /// Removes `key`; idempotent when the key is absent.
    fn clear(&mut self, key: &[u8])
        requires
            old(self).inv(),
        ensures
            final(self).inv(),
            final(self).store_view() == old(self).store_view().remove(key@),
    ;
}

/// Clear idempotence: removing a key twice leaves the same state as removing
/// it once, so a second `clear` call finds and leaves the same absent state.
pub proof fn lemma_clear_idempotent(m: Map<Seq<u8>, Seq<u8>>, k: Seq<u8>)
    ensures
        m.remove(k).remove(k) == m.remove(k),
{
    assert(m.remove(k).remove(k) =~= m.remove(k));
}

/// Byte-wise equality of two byte strings.
fn bytes_eq(a: &[u8], b: &[u8]) -> (r: bool)
    ensures
        r <==> a@ == b@,
{
    if a.len() != b.len() {
        return false;
    }
    let n = a.len();
    let mut i: usize = 0;
    while i < n
        invariant
            i <= n,
            n == a@.len() == b@.len(),
            forall|j: int| 0 <= j < i ==> a@[j] == b@[j],
        decreases n - i,
    {
        if a[i] != b[i] {
            return false;
        }
        i += 1;
    }
    proof {
        assert(a@ =~= b@);
    }
    true
}

/// The map an association list denotes: later entries shadow earlier ones
/// (the store keeps its keys unique, so shadowing never actually happens).
pub open spec fn entries_map(s: Seq<(Vec<u8>, Vec<u8>)>) -> Map<Seq<u8>, Seq<u8>>
    decreases s.len(),
{
    if s.len() == 0 {
        Map::empty()
    } else {
        entries_map(s.drop_last()).insert(s.last().0@, s.last().1@)
    }
}

/// Each key occurs at most once in the list.
pub open spec fn distinct_keys(s: Seq<(Vec<u8>, Vec<u8>)>) -> bool {
    forall|i: int, j: int| 0 <= i < j < s.len() ==> s[i].0@ != s[j].0@
}

proof fn lemma_entries_map_contains(s: Seq<(Vec<u8>, Vec<u8>)>, k: Seq<u8>)
    ensures
        entries_map(s).contains_key(k) <==> exists|i: int| 0 <= i < s.len() && s[i].0@ == k,
    decreases s.len(),
{
    if s.len() > 0 {
        let t = s.drop_last();
        lemma_entries_map_contains(t, k);
        assert(forall|i: int| 0 <= i < t.len() ==> t[i] == s[i]);
        if entries_map(s).contains_key(k) {
            if k == s.last().0@ {
                assert(s[s.len() - 1].0@ == k);
            } else {
                let i = choose|i: int| 0 <= i < t.len() && t[i].0@ == k;
                assert(s[i].0@ == k);
            }
        }
        if exists|i: int| 0 <= i < s.len() && s[i].0@ == k {
            let i = choose|i: int| 0 <= i < s.len() && s[i].0@ == k;
            if i < s.len() - 1 {
                assert(t[i].0@ == k);
            }
        }
    }
}

proof fn lemma_entries_map_value(s: Seq<(Vec<u8>, Vec<u8>)>, i: int)
    requires
        distinct_keys(s),
        0 <= i < s.len(),
    ensures
        entries_map(s).contains_key(s[i].0@),
        entries_map(s)[s[i].0@] == s[i].1@,
    decreases s.len(),
{
    let t = s.drop_last();
    assert(forall|j: int| 0 <= j < t.len() ==> t[j] == s[j]);
    if i == s.len() - 1 {
    } else {
        assert(distinct_keys(t));
        lemma_entries_map_value(t, i);
        assert(s[i].0@ != s.last().0@);
    }
}

proof fn lemma_entries_map_remove(s: Seq<(Vec<u8>, Vec<u8>)>, i: int)
    requires
        distinct_keys(s),
        0 <= i < s.len(),
    ensures
        entries_map(s.remove(i)) == entries_map(s).remove(s[i].0@),
    decreases s.len(),
{
    let t = s.drop_last();
    let k = s[i].0@;
    assert(forall|j: int| 0 <= j < t.len() ==> t[j] == s[j]);
    if i == s.len() - 1 {
        assert(s.remove(i) =~= t);
        lemma_entries_map_contains(t, k);
        assert(!entries_map(t).contains_key(k));
        assert(entries_map(t) =~= entries_map(t).insert(k, s.last().1@).remove(k));
    } else {
        assert(distinct_keys(t));
        lemma_entries_map_remove(t, i);
        let u = s.remove(i);
        assert(u.len() == s.len() - 1);
        assert(u.drop_last() =~= t.remove(i));
        assert(u.last() == s.last());
        assert(entries_map(u) == entries_map(t.remove(i)).insert(s.last().0@, s.last().1@));
        assert(k != s.last().0@);
        assert(entries_map(t).remove(k).insert(s.last().0@, s.last().1@) =~= entries_map(t).insert(
            s.last().0@,
            s.last().1@,
        ).remove(k));
    }
}

/// An in-memory storage port, backed by an association list with unique keys.
pub struct MemStorage {
    entries: Vec<(Vec<u8>, Vec<u8>)>,
}

impl MemStorage {
    /// An empty store.
    pub fn new() -> (r: Self)
        ensures
            r.inv(),
            r.store_view() == Map::<Seq<u8>, Seq<u8>>::empty(),
    {
        MemStorage { entries: Vec::new() }
    }

    fn find_index(&self, key: &[u8]) -> (r: Option<usize>)
        ensures
            match r {
                Some(i) => i < self.entries@.len() && self.entries@[i as int].0@ == key@,
                None => forall|j: int| 0 <= j < self.entries@.len() ==> self.entries@[j].0@ != key@,
            },
    {
        let n = self.entries.len();
        let mut i: usize = 0;
        while i < n
            invariant
                i <= n,
                n == self.entries@.len(),
                forall|j: int| 0 <= j < i ==> self.entries@[j].0@ != key@,
            decreases n - i,
        {
            if bytes_eq(self.entries[i].0.as_slice(), key) {
                return Some(i);
            }
            i += 1;
        }
        None
    }
}

impl ReadonlyStorage for MemStorage {
    closed spec fn inv(&self) -> bool {
        distinct_keys(self.entries@)
    }

    closed spec fn store_view(&self) -> Map<Seq<u8>, Seq<u8>> {
        entries_map(self.entries@)
    }

    fn get(&self, key: &[u8]) -> (r: Option<Vec<u8>>) {
        match self.find_index(key) {
            Some(i) => {
                proof {
                    lemma_entries_map_value(self.entries@, i as int);
                }
                Some(slice_to_vec(self.entries[i].1.as_slice()))
            },
            None => {
                proof {
                    lemma_entries_map_contains(self.entries@, key@);
                }
                None
            },
        }
    }
}

impl MutableStorage for MemStorage {
    fn set(&mut self, key: &[u8], value: &[u8]) {
        self.clear(key);
        let ghost cleared = self.entries@;
        self.entries.push((slice_to_vec(key), slice_to_vec(value)));
        proof {
            lemma_entries_map_contains(cleared, key@);
            assert(forall|j: int| 0 <= j < cleared.len() ==> cleared[j].0@ != key@);
            assert(distinct_keys(self.entries@));
            assert(self.entries@.drop_last() =~= cleared);
            assert(entries_map(self.entries@) == entries_map(cleared).insert(key@, value@));
            assert(entries_map(cleared).insert(key@, value@) =~= old(self).store_view().insert(
                key@,
                value@,
            ));
        }
    }

    fn clear(&mut self, key: &[u8]) {
        match self.find_index(key) {
            Some(i) => {
                proof {
                    lemma_entries_map_remove(self.entries@, i as int);
                }
                let ghost before = self.entries@;
                self.entries.remove(i);
                proof {
                    assert(self.entries@ =~= before.remove(i as int));
                    assert forall|a: int, b: int|
                        0 <= a < b < self.entries@.len() implies self.entries@[a].0@
                        != self.entries@[b].0@ by {
                        let x = if a < i { a } else { a + 1 };
                        let y = if b < i { b } else { b + 1 };
                        assert(self.entries@[a] == before[x]);
                        assert(self.entries@[b] == before[y]);
                    };
                }
            },
            None => {
                proof {
                    lemma_entries_map_contains(self.entries@, key@);
                    assert(self.store_view() =~= self.store_view().remove(key@));
                }
            },
        }
    }
}

} // verus!
