use vstd::prelude::*;
use vstd::slice::slice_to_vec;

verus! {

/// Compares two byte slices for equality.
pub fn bytes_eq(a: &[u8], b: &[u8]) -> (r: bool)
    ensures
        r == (a@ == b@),
{
    if a.len() != b.len() {
        return false;
    }
    let mut i: usize = 0;
    while i < a.len()
        invariant
            a@.len() == b@.len(),
            i <= a@.len(),
            forall|j: int| 0 <= j < i ==> a@[j] == b@[j],
        decreases a@.len() - i,
    {
        if a[i] != b[i] {
            return false;
        }
        i = i + 1;
    }
    assert(a@ =~= b@);
    true
}

/// An in-memory key-value store of byte strings. Records are kept in the order
/// in which their keys were first written, each key at most once.
pub struct MemStore {
    entries: Vec<(Vec<u8>, Vec<u8>)>,
    contents: Ghost<Map<Seq<u8>, Seq<u8>>>,
}

impl MemStore {
    /// What the store holds: each key with its value.
    pub closed spec fn view(&self) -> Map<Seq<u8>, Seq<u8>> {
        self.contents@
    }

    /// The number of records, which is also the position at which the next
    /// new key will be recorded.
    pub closed spec fn spec_len(&self) -> nat {
        self.entries@.len()
    }

    /// The key recorded at position `i`.
    pub closed spec fn key_at(&self, i: int) -> Seq<u8> {
        self.entries@[i].0@
    }

    pub closed spec fn wf(&self) -> bool {
        &&& forall|i: int, j: int|
            0 <= i < j < self.entries@.len() ==> self.entries@[i].0@ != self.entries@[j].0@
        &&& forall|i: int|
            0 <= i < self.entries@.len() ==> #[trigger] self.contents@.contains_key(
                self.entries@[i].0@,
            ) && self.contents@[self.entries@[i].0@] == self.entries@[i].1@
        &&& forall|k: Seq<u8>|
            #[trigger] self.contents@.contains_key(k) ==> exists|i: int|
                0 <= i < self.entries@.len() && self.entries@[i].0@ == k
    }

    /// A store with no records.
    pub fn new() -> (r: MemStore)
        ensures
            r.wf(),
            r@ == Map::<Seq<u8>, Seq<u8>>::empty(),
            r.spec_len() == 0,
    {
        MemStore { entries: Vec::new(), contents: Ghost(Map::empty()) }
    }

    /// The number of records.
    pub fn len(&self) -> (r: usize)
        requires
            self.wf(),
        ensures
            r == self.spec_len(),
            r == self@.dom().len(),
    {
        proof {
            self.lemma_len_is_dom_len();
        }
        self.entries.len()
    }

    proof fn lemma_len_is_dom_len(&self)
        requires
            self.wf(),
        ensures
            self.entries@.len() == self@.dom().len(),
    {
        let keys = self.entries@.map_values(|e: (Vec<u8>, Vec<u8>)| e.0@);
        assert forall|i: int, j: int| 0 <= i < keys.len() && 0 <= j < keys.len() && i != j
            implies keys[i] != keys[j] by {
            if i < j {
                assert(self.entries@[i].0@ != self.entries@[j].0@);
            } else {
                assert(self.entries@[j].0@ != self.entries@[i].0@);
            }
        }
        assert(keys.no_duplicates());
        keys.unique_seq_to_set();
        assert forall|k: Seq<u8>| keys.to_set().contains(k) <==> self@.dom().contains(k) by {
            if self@.dom().contains(k) {
                let i = choose|i: int| 0 <= i < self.entries@.len() && self.entries@[i].0@ == k;
                assert(keys[i] == k);
            }
            if keys.to_set().contains(k) {
                let i = choose|i: int| 0 <= i < keys.len() && keys[i] == k;
                assert(self.contents@.contains_key(self.entries@[i].0@));
            }
        }
        assert(keys.to_set() =~= self@.dom());
    }

    fn find(&self, key: &[u8]) -> (r: Option<usize>)
        requires
            self.wf(),
        ensures
            match r {
                Some(i) => i < self.entries@.len() && self.entries@[i as int].0@ == key@,
                None => !self@.contains_key(key@),
            },
    {
        let mut i: usize = 0;
        while i < self.entries.len()
            invariant
                self.wf(),
                i <= self.entries@.len(),
                forall|j: int| 0 <= j < i ==> self.entries@[j].0@ != key@,
            decreases self.entries@.len() - i,
        {
            if bytes_eq(self.entries[i].0.as_slice(), key) {
                return Some(i);
            }
            i = i + 1;
        }
        None
    }

    /// The value under `key`, if there is one.
    pub fn get(&self, key: &[u8]) -> (r: Option<Vec<u8>>)
        requires
            self.wf(),
        ensures
            match r {
                Some(v) => self@.contains_key(key@) && v@ == self@[key@],
                None => !self@.contains_key(key@),
            },
    {
        match self.find(key) {
            Some(i) => {
                assert(self.contents@.contains_key(self.entries@[i as int].0@));
                Some(slice_to_vec(self.entries[i].1.as_slice()))
            },
            None => None,
        }
    }

    /// Whether a record is stored under `key`.
    pub fn contains(&self, key: &[u8]) -> (r: bool)
        requires
            self.wf(),
        ensures
            r == self@.contains_key(key@),
    {
        self.find(key).is_some()
    }

    /// Writes `value` under `key`, replacing any earlier value. A key that was
    /// absent is recorded after all others.
    pub fn put(&mut self, key: Vec<u8>, value: Vec<u8>)
        requires
            old(self).wf(),
        ensures
            final(self).wf(),
            final(self)@ == old(self)@.insert(key@, value@),
            old(self)@.contains_key(key@) ==> final(self).spec_len() == old(self).spec_len(),
            !old(self)@.contains_key(key@) ==> final(self).spec_len() == old(self).spec_len() + 1
                && final(self).key_at(old(self).spec_len() as int) == key@,
            forall|i: int|
                0 <= i < old(self).spec_len() ==> final(self).key_at(i) == old(self).key_at(i),
    {
        let ghost k = key@;
        let ghost v = value@;
        match self.find(key.as_slice()) {
            Some(i) => {
                let ghost before = self.entries@;
                self.entries.set(i, (key, value));
                self.contents = Ghost(self.contents@.insert(k, v));
                assert forall|j: int| 0 <= j < self.entries@.len() && j != i
                    implies self.entries@[j] == before[j] by {}
                assert forall|j: int| 0 <= j < self.entries@.len()
                    implies #[trigger] self.contents@.contains_key(self.entries@[j].0@)
                    && self.contents@[self.entries@[j].0@] == self.entries@[j].1@ by {
                    if j != i {
                        assert(old(self).contents@.contains_key(before[j].0@));
                    }
                }
                assert forall|q: Seq<u8>| #[trigger] self.contents@.contains_key(q)
                    implies exists|j: int|
                    0 <= j < self.entries@.len() && self.entries@[j].0@ == q by {
                    if q != k {
                        let j = choose|j: int| 0 <= j < before.len() && before[j].0@ == q;
                        assert(self.entries@[j].0@ == q);
                    } else {
                        assert(self.entries@[i as int].0@ == q);
                    }
                }
            },
            None => {
                let ghost before = self.entries@;
                self.entries.push((key, value));
                self.contents = Ghost(self.contents@.insert(k, v));
                assert forall|j: int| 0 <= j < before.len()
                    implies self.entries@[j] == before[j] by {}
                assert forall|j: int| 0 <= j < self.entries@.len()
                    implies #[trigger] self.contents@.contains_key(self.entries@[j].0@)
                    && self.contents@[self.entries@[j].0@] == self.entries@[j].1@ by {
                    if j < before.len() {
                        assert(old(self).contents@.contains_key(before[j].0@));
                    }
                }
                assert forall|q: Seq<u8>| #[trigger] self.contents@.contains_key(q)
                    implies exists|j: int|
                    0 <= j < self.entries@.len() && self.entries@[j].0@ == q by {
                    if q != k {
                        let j = choose|j: int| 0 <= j < before.len() && before[j].0@ == q;
                        assert(self.entries@[j].0@ == q);
                    } else {
                        assert(self.entries@[before.len() as int].0@ == q);
                    }
                }
            },
        }
    }

    /// The record at position `i`, as a copy of its key and value.
    pub fn entry(&self, i: usize) -> (r: (Vec<u8>, Vec<u8>))
        requires
            self.wf(),
            i < self.spec_len(),
        ensures
            r.0@ == self.key_at(i as int),
            self@.contains_key(r.0@),
            r.1@ == self@[r.0@],
    {
        (slice_to_vec(self.entries[i].0.as_slice()), slice_to_vec(self.entries[i].1.as_slice()))
    }
}

} // verus!
