//! The overlay handles by overlay key.
use vstd::prelude::*;

verus! {

/// Handles by key. A key is a string of bytes, and occurs at most once.
pub struct KeyIndex {
    entries: Vec<(Vec<u8>, u64)>,
}

/// Whether the key of an entry is the given one.
pub closed spec fn has_key(entries: Seq<(Vec<u8>, u64)>, key: Seq<u8>, i: int) -> bool {
    0 <= i < entries.len() && entries[i].0@ == key
}

impl View for KeyIndex {
    type V = Map<Seq<u8>, u64>;

    closed spec fn view(&self) -> Map<Seq<u8>, u64> {
        Map::new(
            |key: Seq<u8>| exists|i: int| has_key(self.entries@, key, i),
            |key: Seq<u8>| self.entries@[choose|i: int| has_key(self.entries@, key, i)].1,
        )
    }
}

/// Compares two strings of bytes.
fn same_bytes(a: &[u8], b: &[u8]) -> (same: bool)
    ensures
        same == (a@ == b@),
{
    if a.len() != b.len() {
        return false;
    }
    let mut i: usize = 0;
    while i < a.len()
        invariant
            a.len() == b.len(),
            i <= a.len(),
            forall|j: int| 0 <= j < i ==> a@[j] == b@[j],
        decreases a.len() - i,
    {
        if a[i] != b[i] {
            return false;
        }
        i += 1;
    }
    assert(a@ =~= b@);
    true
}

impl KeyIndex {
    /// No key occurs twice.
    pub closed spec fn wf(&self) -> bool {
        forall|i: int, j: int|
            0 <= i < j < self.entries@.len() ==> #[trigger] self.entries@[i].0@
                != #[trigger] self.entries@[j].0@
    }

    /// An index without keys.
    pub fn new() -> (index: Self)
        ensures
            index.wf(),
            index@ == Map::<Seq<u8>, u64>::empty(),
    {
        let index = KeyIndex { entries: Vec::new() };
        assert(index@ =~= Map::<Seq<u8>, u64>::empty());
        index
    }

    /// An entry decides what the view holds at its key.
    proof fn lemma_entry(&self, i: int)
        requires
            self.wf(),
            0 <= i < self.entries@.len(),
        ensures
            self@.contains_key(self.entries@[i].0@),
            self@[self.entries@[i].0@] == self.entries@[i].1,
    {
        let key = self.entries@[i].0@;
        assert(has_key(self.entries@, key, i));
        let j = choose|j: int| has_key(self.entries@, key, j);
        assert(has_key(self.entries@, key, j));
        assert(i == j);
    }

    /// An entry that is written over one with the same key, or behind the others,
    /// is an insertion into the view.
    proof fn lemma_insert(before: Self, after: Self, at: int)
        requires
            before.wf(),
            after.wf(),
            0 <= at < after.entries@.len(),
            at < before.entries@.len() ==> before.entries@[at].0@ == after.entries@[at].0@,
            before.entries@.len() == after.entries@.len() || (at == before.entries@.len()
                && after.entries@.len() == at + 1),
            forall|j: int|
                0 <= j < before.entries@.len() && j != at ==> #[trigger] before.entries@[j]
                    == after.entries@[j],
        ensures
            after@ == before@.insert(after.entries@[at].0@, after.entries@[at].1),
    {
        let key = after.entries@[at].0@;
        after.lemma_entry(at);
        assert forall|k: Seq<u8>| k != key && #[trigger] before@.contains_key(
            k,
        ) implies after@.contains_key(k) && after@[k] == before@[k] by {
            let j = choose|j: int| has_key(before.entries@, k, j);
            before.lemma_entry(j);
            after.lemma_entry(j);
        }
        assert forall|k: Seq<u8>| k != key && #[trigger] after@.contains_key(
            k,
        ) implies before@.contains_key(k) by {
            let j = choose|j: int| has_key(after.entries@, k, j);
            assert(before.entries@[j] == after.entries@[j]);
            before.lemma_entry(j);
        }
        assert(after@ =~= before@.insert(key, after.entries@[at].1));
    }

    /// The place of the entry with the given key.
    fn position(&self, key: &[u8]) -> (found: Option<usize>)
        requires
            self.wf(),
        ensures
            match found {
                Some(i) => has_key(self.entries@, key@, i as int),
                None => !self@.contains_key(key@),
            },
    {
        let mut i: usize = 0;
        while i < self.entries.len()
            invariant
                i <= self.entries.len(),
                forall|j: int| 0 <= j < i ==> !has_key(self.entries@, key@, j),
            decreases self.entries.len() - i,
        {
            if same_bytes(self.entries[i].0.as_slice(), key) {
                return Some(i);
            }
            i += 1;
        }
        None
    }

    /// The handle of a key.
    pub fn get(&self, key: &[u8]) -> (found: Option<u64>)
        requires
            self.wf(),
        ensures
            found == (if self@.contains_key(key@) {
                Some(self@[key@])
            } else {
                None
            }),
    {
        match self.position(key) {
            Some(i) => {
                proof {
                    self.lemma_entry(i as int);
                }
                Some(self.entries[i].1)
            },
            None => None,
        }
    }

    /// Gives a key a handle, in place of the one it had.
    pub fn insert(&mut self, key: Vec<u8>, handle: u64)
        requires
            old(self).wf(),
        ensures
            final(self).wf(),
            final(self)@ == old(self)@.insert(key@, handle),
    {
        let ghost before = *self;
        match self.position(key.as_slice()) {
            Some(i) => {
                self.entries.set(i, (key, handle));
                proof {
                    assert(self.wf());
                    Self::lemma_insert(before, *self, i as int);
                }
            },
            None => {
                self.entries.push((key, handle));
                proof {
                    let last = before.entries@.len() as int;
                    assert forall|i: int, j: int|
                        0 <= i < j < self.entries@.len() implies #[trigger] self.entries@[i].0@
                        != #[trigger] self.entries@[j].0@ by {
                        assert(self.entries@[i] == before.entries@[i]);
                        if j < last {
                            assert(self.entries@[j] == before.entries@[j]);
                        } else {
                            before.lemma_entry(i);
                        }
                    }
                    Self::lemma_insert(before, *self, last);
                }
            },
        }
    }

    /// Takes a key out.
    pub fn remove(&mut self, key: &[u8])
        requires
            old(self).wf(),
        ensures
            final(self).wf(),
            final(self)@ == old(self)@.remove(key@),
    {
        let ghost before = *self;
        match self.position(key) {
            Some(i) => {
                let _ = self.entries.remove(i);
                proof {
                    let gone = i as int;
                    let shift = |j: int| if j < gone { j } else { j + 1 };
                    assert forall|j: int| 0 <= j < self.entries@.len() implies self.entries@[j]
                        == before.entries@[shift(j)] by {}
                    assert(self.wf()) by {
                        assert forall|a: int, b: int|
                            0 <= a < b < self.entries@.len() implies #[trigger] self.entries@[a].0@
                            != #[trigger] self.entries@[b].0@ by {
                            assert(self.entries@[a] == before.entries@[shift(a)]);
                            assert(self.entries@[b] == before.entries@[shift(b)]);
                        }
                    }
                    before.lemma_entry(gone);
                    assert forall|k: Seq<u8>| #[trigger]
                        self@.contains_key(k) implies k != key@ && before@.contains_key(k)
                        && self@[k] == before@[k] by {
                        let j = choose|j: int| has_key(self.entries@, k, j);
                        self.lemma_entry(j);
                        assert(self.entries@[j] == before.entries@[shift(j)]);
                        before.lemma_entry(shift(j));
                        assert(shift(j) != gone);
                        if k == key@ {
                            assert(has_key(before.entries@, key@, gone));
                        }
                    }
                    assert forall|k: Seq<u8>|
                        k != key@ && before@.contains_key(k) implies self@.contains_key(k) by {
                        let j = choose|j: int| has_key(before.entries@, k, j);
                        let at = if j < gone { j } else { j - 1 };
                        assert(self.entries@[at] == before.entries@[j]);
                        self.lemma_entry(at);
                    }
                    assert(self@ =~= before@.remove(key@));
                }
            },
            None => {
                assert(self@ =~= before@.remove(key@));
            },
        }
    }
}

} // verus!
