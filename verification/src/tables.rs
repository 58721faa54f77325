//! Ordered in-memory tables backing the storage engine: an association table
//! keyed by block id, and the sorted canonical-chain table keyed by height.

use vstd::prelude::*;

use crate::block::BlockBody;
use crate::block::BlockReceipts;
use crate::block::FieldElement;
use crate::block::GlobalBlockId;
use crate::block::copy_vec;

verus! {

/// An association table keyed by [`GlobalBlockId`], with at most one entry
/// per key. Viewed as a mathematical map from ids to values.
pub struct IdTable<V> {
    entries: Vec<(GlobalBlockId, V)>,
}

impl<V> IdTable<V> {
    pub closed spec fn seq(&self) -> Seq<(GlobalBlockId, V)> {
        self.entries@
    }

    /// Keys are pairwise distinct.
    pub open spec fn wf(&self) -> bool {
        forall|i: int, j: int|
            0 <= i < self.seq().len() && 0 <= j < self.seq().len() && i != j ==> (#[trigger] self.seq()[i]).0 != (#[trigger] self.seq()[j]).0
    }

    /// The table as a mathematical map.
    pub open spec fn as_map(&self) -> Map<GlobalBlockId, V> {
        Map::new(
            |k: GlobalBlockId| exists|i: int| 0 <= i < self.seq().len() && (#[trigger] self.seq()[i]).0 == k,
            |k: GlobalBlockId|
                self.seq()[choose|i: int| 0 <= i < self.seq().len() && (#[trigger] self.seq()[i]).0 == k].1,
        )
    }

    /// The entry at index `i` determines the map at its key.
    pub proof fn lemma_value_at(&self, i: int)
        requires
            self.wf(),
            0 <= i < self.seq().len(),
        ensures
            self.as_map().contains_key(self.seq()[i].0),
            self.as_map()[self.seq()[i].0] == self.seq()[i].1,
    {
        let s = self.seq();
        let k = s[i].0;
        assert(0 <= i < s.len() && s[i].0 == k);
        let j = choose|j: int| 0 <= j < s.len() && (#[trigger] s[j]).0 == k;
        if i != j {
            assert(s[i].0 != s[j].0);
        }
    }

    /// Every key in the map is the key of some entry.
    pub proof fn lemma_index_of_key(&self, k: GlobalBlockId) -> (i: int)
        requires
            self.wf(),
            self.as_map().contains_key(k),
        ensures
            0 <= i < self.seq().len(),
            self.seq()[i].0 == k,
            self.as_map()[k] == self.seq()[i].1,
    {
        let s = self.seq();
        let i = choose|i: int| 0 <= i < s.len() && (#[trigger] s[i]).0 == k;
        self.lemma_value_at(i);
        i
    }

    pub fn new() -> (r: IdTable<V>)
        ensures
            r.wf(),
            r.as_map() == Map::<GlobalBlockId, V>::empty(),
    {
        let r = IdTable { entries: Vec::new() };
        proof {
            assert(r.as_map() =~= Map::<GlobalBlockId, V>::empty());
        }
        r
    }

    /// The index holding `id`, if any.
    fn find(&self, id: &GlobalBlockId) -> (r: Option<usize>)
        ensures
            match r {
                Some(i) => i < self.seq().len() && self.seq()[i as int].0 == *id,
                None => forall|j: int| 0 <= j < self.seq().len() ==> (#[trigger] self.seq()[j]).0 != *id,
            },
    {
        let mut i: usize = 0;
        while i < self.entries.len()
            invariant
                i <= self.entries.len(),
                forall|j: int| 0 <= j < i ==> (#[trigger] self.seq()[j]).0 != *id,
            decreases self.entries.len() - i,
        {
            if self.entries[i].0 == *id {
                return Some(i);
            }
            i = i + 1;
        }
        None
    }

    /// Looks the key up, returning a reference to the stored value.
    pub fn get_ref(&self, id: &GlobalBlockId) -> (r: Option<&V>)
        requires
            self.wf(),
        ensures
            match r {
                Some(v) => self.as_map().contains_key(*id) && *v == self.as_map()[*id],
                None => !self.as_map().contains_key(*id),
            },
    {
        match self.find(id) {
            Some(i) => {
                proof {
                    self.lemma_value_at(i as int);
                }
                Some(&self.entries[i].1)
            },
            None => {
                proof {
                    if self.as_map().contains_key(*id) {
                        self.lemma_index_of_key(*id);
                    }
                }
                None
            },
        }
    }

    /// Inserts or replaces the value stored under `id`.
    pub fn put(&mut self, id: GlobalBlockId, value: V)
        requires
            old(self).wf(),
        ensures
            final(self).wf(),
            final(self).as_map() == old(self).as_map().insert(id, value),
    {
        let ghost s0 = self.seq();
        match self.find(&id) {
            Some(i) => {
                self.entries.set(i, (id, value));
                proof {
                    let s1 = self.seq();
                    assert forall|a: int, b: int|
                        0 <= a < s1.len() && 0 <= b < s1.len() && a != b implies (#[trigger] s1[a]).0
                        != (#[trigger] s1[b]).0 by {
                        assert(s1[a].0 == s0[a].0);
                        assert(s1[b].0 == s0[b].0);
                    }
                    self.lemma_value_at(i as int);
                    assert forall|k: GlobalBlockId|
                        old(self).as_map().contains_key(k) && k != id implies
                        #[trigger] self.as_map().contains_key(k) && self.as_map()[k] == old(
                            self,
                        ).as_map()[k] by {
                        let j = old(self).lemma_index_of_key(k);
                        assert(j != i);
                        assert(s1[j] == s0[j]);
                        self.lemma_value_at(j);
                    }
                    assert forall|k: GlobalBlockId|
                        self.as_map().contains_key(k) && k != id implies #[trigger] old(
                            self,
                        ).as_map().contains_key(k) by {
                        let j = self.lemma_index_of_key(k);
                        assert(j != i);
                        assert(s1[j] == s0[j]);
                        old(self).lemma_value_at(j);
                    }
                    assert(self.as_map() =~= old(self).as_map().insert(id, value));
                }
            },
            None => {
                self.entries.push((id, value));
                proof {
                    let s1 = self.seq();
                    assert(s1 == s0.push((id, value)));
                    assert forall|a: int, b: int|
                        0 <= a < s1.len() && 0 <= b < s1.len() && a != b implies (#[trigger] s1[a]).0
                        != (#[trigger] s1[b]).0 by {
                        if a < s0.len() && b < s0.len() {
                            assert(s0[a].0 != s0[b].0);
                        } else if a < s0.len() {
                            assert(s0[a].0 != id);
                        } else if b < s0.len() {
                            assert(s0[b].0 != id);
                        }
                    }
                    self.lemma_value_at(s1.len() - 1);
                    assert forall|k: GlobalBlockId|
                        old(self).as_map().contains_key(k) && k != id implies
                        #[trigger] self.as_map().contains_key(k) && self.as_map()[k] == old(
                            self,
                        ).as_map()[k] by {
                        let j = old(self).lemma_index_of_key(k);
                        assert(s1[j] == s0[j]);
                        self.lemma_value_at(j);
                    }
                    assert forall|k: GlobalBlockId|
                        self.as_map().contains_key(k) && k != id implies #[trigger] old(
                            self,
                        ).as_map().contains_key(k) by {
                        let j = self.lemma_index_of_key(k);
                        assert(j < s0.len());
                        assert(s1[j] == s0[j]);
                        old(self).lemma_value_at(j);
                    }
                    assert(self.as_map() =~= old(self).as_map().insert(id, value));
                }
            },
        }
    }
}

impl<V: Copy> IdTable<V> {
    /// An exact copy of the table.
    pub fn duplicate(&self) -> (r: IdTable<V>)
        ensures
            r.seq() == self.seq(),
    {
        IdTable { entries: copy_vec(&self.entries) }
    }
}

impl IdTable<BlockBody> {
    /// A copy of the table, entry for entry, preserving each value's
    /// mathematical content.
    pub fn duplicate_bodies(&self) -> (r: IdTable<BlockBody>)
        requires
            self.wf(),
        ensures
            r.wf(),
            r.as_map().dom() == self.as_map().dom(),
            forall|k: GlobalBlockId| #[trigger]
                self.as_map().contains_key(k) ==> r.as_map()[k]@ == self.as_map()[k]@,
    {
        let mut entries: Vec<(GlobalBlockId, BlockBody)> = Vec::new();
        let mut i: usize = 0;
        while i < self.entries.len()
            invariant
                i <= self.entries.len(),
                entries@.len() == i,
                forall|j: int|
                    0 <= j < i ==> (#[trigger] entries@[j]).0 == self.seq()[j].0 && entries@[j].1@
                        == self.seq()[j].1@,
            decreases self.entries.len() - i,
        {
            let e = &self.entries[i];
            entries.push((e.0, e.1.duplicate()));
            i = i + 1;
        }
        let r = IdTable { entries };
        proof {
            Self::lemma_same_keys(self, &r);
        }
        r
    }
}

impl IdTable<BlockReceipts> {
    /// A copy of the table, entry for entry, preserving each value's
    /// mathematical content.
    pub fn duplicate_receipts(&self) -> (r: IdTable<BlockReceipts>)
        requires
            self.wf(),
        ensures
            r.wf(),
            r.as_map().dom() == self.as_map().dom(),
            forall|k: GlobalBlockId| #[trigger]
                self.as_map().contains_key(k) ==> r.as_map()[k]@.receipts == self.as_map()[k]@.receipts
                    && r.as_map()[k]@.bloom == self.as_map()[k]@.bloom,
    {
        let mut entries: Vec<(GlobalBlockId, BlockReceipts)> = Vec::new();
        let mut i: usize = 0;
        while i < self.entries.len()
            invariant
                i <= self.entries.len(),
                entries@.len() == i,
                forall|j: int|
                    0 <= j < i ==> (#[trigger] entries@[j]).0 == self.seq()[j].0 && entries@[j].1@.receipts
                        == self.seq()[j].1@.receipts && entries@[j].1@.bloom == self.seq()[j].1@.bloom,
            decreases self.entries.len() - i,
        {
            let e = &self.entries[i];
            entries.push((e.0, e.1.duplicate()));
            i = i + 1;
        }
        let r = IdTable { entries };
        proof {
            Self::lemma_same_keys(self, &r);
        }
        r
    }
}

impl<V> IdTable<V> {
    /// Two tables whose entries carry the same keys in the same order have
    /// the same well-formedness and domain, and corresponding values sit at
    /// the same index.
    proof fn lemma_same_keys(a: &IdTable<V>, b: &IdTable<V>)
        requires
            a.wf(),
            a.seq().len() == b.seq().len(),
            forall|j: int| 0 <= j < a.seq().len() ==> (#[trigger] b.seq()[j]).0 == a.seq()[j].0,
        ensures
            b.wf(),
            b.as_map().dom() == a.as_map().dom(),
            forall|k: GlobalBlockId| #[trigger]
                a.as_map().contains_key(k) ==> exists|j: int|
                    0 <= j < a.seq().len() && a.seq()[j].0 == k && a.as_map()[k] == (
                    #[trigger] a.seq()[j]).1 && b.as_map()[k] == b.seq()[j].1,
    {
        assert forall|i: int, j: int|
            0 <= i < b.seq().len() && 0 <= j < b.seq().len() && i != j implies (#[trigger] b.seq()[i]).0
            != (#[trigger] b.seq()[j]).0 by {
            assert(a.seq()[i].0 != a.seq()[j].0);
        }
        assert forall|k: GlobalBlockId| #[trigger]
            a.as_map().contains_key(k) implies b.as_map().contains_key(k) && exists|j: int|
            0 <= j < a.seq().len() && a.seq()[j].0 == k && a.as_map()[k] == (#[trigger] a.seq()[j]).1
                && b.as_map()[k] == b.seq()[j].1 by {
            let j = a.lemma_index_of_key(k);
            b.lemma_value_at(j);
            assert(0 <= j < a.seq().len() && a.seq()[j].0 == k && a.as_map()[k] == a.seq()[j].1
                && b.as_map()[k] == b.seq()[j].1);
        }
        assert forall|k: GlobalBlockId| #[trigger]
            b.as_map().contains_key(k) implies a.as_map().contains_key(k) by {
            let j = b.lemma_index_of_key(k);
            a.lemma_value_at(j);
        }
        assert(b.as_map().dom() =~= a.as_map().dom());
    }
}

/// The canonical chain: heights mapped to hashes, kept sorted by height so
/// that the tip and the backward walk are the last entries.
pub struct CanonicalChainTable {
    entries: Vec<(u64, FieldElement)>,
}

impl CanonicalChainTable {
    pub closed spec fn seq(&self) -> Seq<(u64, FieldElement)> {
        self.entries@
    }

    /// Heights are strictly increasing along the vector.
    pub open spec fn wf(&self) -> bool {
        forall|i: int, j: int|
            0 <= i < j < self.seq().len() ==> (#[trigger] self.seq()[i]).0 < (#[trigger] self.seq()[j]).0
    }

    /// The table as a mathematical map from height to hash.
    pub open spec fn as_map(&self) -> Map<u64, FieldElement> {
        Map::new(
            |n: u64| exists|i: int| 0 <= i < self.seq().len() && (#[trigger] self.seq()[i]).0 == n,
            |n: u64|
                self.seq()[choose|i: int| 0 <= i < self.seq().len() && (#[trigger] self.seq()[i]).0 == n].1,
        )
    }

    /// The entry at index `i` determines the map at its height.
    pub proof fn lemma_value_at(&self, i: int)
        requires
            self.wf(),
            0 <= i < self.seq().len(),
        ensures
            self.as_map().contains_key(self.seq()[i].0),
            self.as_map()[self.seq()[i].0] == self.seq()[i].1,
    {
        let s = self.seq();
        let n = s[i].0;
        assert(0 <= i < s.len() && s[i].0 == n);
        let j = choose|j: int| 0 <= j < s.len() && (#[trigger] s[j]).0 == n;
        if i < j {
            assert(s[i].0 < s[j].0);
        } else if j < i {
            assert(s[j].0 < s[i].0);
        }
    }

    /// Every height in the map is the height of some entry.
    pub proof fn lemma_index_of_key(&self, n: u64) -> (i: int)
        requires
            self.wf(),
            self.as_map().contains_key(n),
        ensures
            0 <= i < self.seq().len(),
            self.seq()[i].0 == n,
            self.as_map()[n] == self.seq()[i].1,
    {
        let s = self.seq();
        let i = choose|i: int| 0 <= i < s.len() && (#[trigger] s[i]).0 == n;
        self.lemma_value_at(i);
        i
    }

    pub fn new() -> (r: CanonicalChainTable)
        ensures
            r.wf(),
            r.as_map() == Map::<u64, FieldElement>::empty(),
    {
        let r = CanonicalChainTable { entries: Vec::new() };
        proof {
            assert(r.as_map() =~= Map::<u64, FieldElement>::empty());
        }
        r
    }

    /// An exact copy of the table.
    pub fn duplicate(&self) -> (r: CanonicalChainTable)
        ensures
            r.seq() == self.seq(),
    {
        CanonicalChainTable { entries: copy_vec(&self.entries) }
    }

    pub fn len_entries(&self) -> (r: usize)
        ensures
            r == self.seq().len(),
    {
        self.entries.len()
    }

    pub fn entry_at(&self, i: usize) -> (r: (u64, FieldElement))
        requires
            i < self.seq().len(),
        ensures
            r == self.seq()[i as int],
    {
        self.entries[i]
    }

    /// Looks a height up.
    pub fn seek(&self, number: u64) -> (r: Option<FieldElement>)
        requires
            self.wf(),
        ensures
            match r {
                Some(h) => self.as_map().contains_key(number) && h == self.as_map()[number],
                None => !self.as_map().contains_key(number),
            },
    {
        let mut i: usize = 0;
        while i < self.entries.len()
            invariant
                i <= self.entries.len(),
                self.wf(),
                forall|j: int| 0 <= j < i ==> (#[trigger] self.seq()[j]).0 != number,
            decreases self.entries.len() - i,
        {
            if self.entries[i].0 == number {
                proof {
                    self.lemma_value_at(i as int);
                }
                return Some(self.entries[i].1);
            }
            i = i + 1;
        }
        None
    }

    /// The entry of greatest height, if the chain is not empty.
    pub fn last(&self) -> (r: Option<(u64, FieldElement)>)
        requires
            self.wf(),
        ensures
            match r {
                Some(e) => self.as_map().contains_key(e.0) && self.as_map()[e.0] == e.1 && forall|
                    m: u64,
                |
                    #[trigger] self.as_map().contains_key(m) ==> m <= e.0,
                None => self.as_map() == Map::<u64, FieldElement>::empty(),
            },
    {
        if self.entries.len() == 0 {
            proof {
                assert(self.as_map() =~= Map::<u64, FieldElement>::empty());
            }
            None
        } else {
            let e = self.entries[self.entries.len() - 1];
            proof {
                let last: int = self.seq().len() - 1;
                self.lemma_value_at(last);
                assert forall|m: u64| #[trigger] self.as_map().contains_key(m) implies m
                    <= self.seq()[last].0 by {
                    let j = self.lemma_index_of_key(m);
                    if j < last {
                        assert(self.seq()[j].0 < self.seq()[last].0);
                    }
                }
            }
            Some(e)
        }
    }

    /// Inserts or replaces the hash stored at `number`.
    pub fn put(&mut self, number: u64, hash: FieldElement)
        requires
            old(self).wf(),
        ensures
            final(self).wf(),
            final(self).as_map() == old(self).as_map().insert(number, hash),
    {
        let ghost s0 = self.seq();
        let mut i: usize = 0;
        while i < self.entries.len() && self.entries[i].0 < number
            invariant
                i <= self.entries.len(),
                self.wf(),
                self.seq() == s0,
                forall|j: int| 0 <= j < i ==> (#[trigger] self.seq()[j]).0 < number,
            decreases self.entries.len() - i,
        {
            i = i + 1;
        }
        if i < self.entries.len() && self.entries[i].0 == number {
            self.entries.set(i, (number, hash));
            proof {
                let s1 = self.seq();
                assert forall|a: int, b: int| 0 <= a < b < s1.len() implies (#[trigger] s1[a]).0
                    < (#[trigger] s1[b]).0 by {
                    assert(s0[a].0 < s0[b].0);
                    assert(s1[a].0 == s0[a].0);
                    assert(s1[b].0 == s0[b].0);
                }
                self.lemma_value_at(i as int);
                assert forall|k: u64|
                    old(self).as_map().contains_key(k) && k != number implies
                    #[trigger] self.as_map().contains_key(k) && self.as_map()[k] == old(
                        self,
                    ).as_map()[k] by {
                    let j = old(self).lemma_index_of_key(k);
                    assert(j != i);
                    assert(s1[j] == s0[j]);
                    self.lemma_value_at(j);
                }
                assert forall|k: u64|
                    self.as_map().contains_key(k) && k != number implies #[trigger] old(
                        self,
                    ).as_map().contains_key(k) by {
                    let j = self.lemma_index_of_key(k);
                    assert(j != i);
                    assert(s1[j] == s0[j]);
                    old(self).lemma_value_at(j);
                }
                assert(self.as_map() =~= old(self).as_map().insert(number, hash));
            }
        } else {
            // every earlier entry is below `number`; the entry at `i`, if any,
            // is above it, so inserting here keeps the order
            proof {
                if i < self.seq().len() {
                    assert(self.seq()[i as int].0 > number);
                }
            }
            self.entries.insert(i, (number, hash));
            proof {
                let s1 = self.seq();
                let ii = i as int;
                assert(s1 == s0.insert(ii, (number, hash)));
                assert forall|a: int, b: int| 0 <= a < b < s1.len() implies (#[trigger] s1[a]).0
                    < (#[trigger] s1[b]).0 by {
                    if a < ii && b < ii {
                        assert(s1[a] == s0[a] && s1[b] == s0[b]);
                        assert(s0[a].0 < s0[b].0);
                    } else if a < ii && b == ii {
                        assert(s1[a] == s0[a]);
                        assert(s0[a].0 < number);
                    } else if a < ii && b > ii {
                        assert(s1[a] == s0[a] && s1[b] == s0[b - 1]);
                        assert(s0[a].0 < s0[b - 1].0);
                    } else if a == ii && b > ii {
                        assert(s1[b] == s0[b - 1]);
                        assert(ii <= b - 1 < s0.len());
                        if b - 1 > ii {
                            assert(s0[ii].0 < s0[b - 1].0);
                        }
                    } else {
                        assert(s1[a] == s0[a - 1] && s1[b] == s0[b - 1]);
                        assert(s0[a - 1].0 < s0[b - 1].0);
                    }
                }
                self.lemma_value_at(ii);
                assert forall|k: u64|
                    old(self).as_map().contains_key(k) && k != number implies
                    #[trigger] self.as_map().contains_key(k) && self.as_map()[k] == old(
                        self,
                    ).as_map()[k] by {
                    let j = old(self).lemma_index_of_key(k);
                    if j < ii {
                        assert(s1[j] == s0[j]);
                        self.lemma_value_at(j);
                    } else {
                        assert(s1[j + 1] == s0[j]);
                        self.lemma_value_at(j + 1);
                    }
                }
                assert forall|k: u64|
                    self.as_map().contains_key(k) && k != number implies #[trigger] old(
                        self,
                    ).as_map().contains_key(k) by {
                    let j = self.lemma_index_of_key(k);
                    assert(j != ii);
                    if j < ii {
                        assert(s1[j] == s0[j]);
                        old(self).lemma_value_at(j);
                    } else {
                        assert(s1[j] == s0[j - 1]);
                        old(self).lemma_value_at(j - 1);
                    }
                }
                assert(self.as_map() =~= old(self).as_map().insert(number, hash));
            }
        }
    }

    /// Removes the entry at `number`, if present.
    pub fn del(&mut self, number: u64)
        requires
            old(self).wf(),
        ensures
            final(self).wf(),
            final(self).as_map() == old(self).as_map().remove(number),
    {
        let ghost s0 = self.seq();
        let mut i: usize = 0;
        let mut found: bool = false;
        while i < self.entries.len() && !found
            invariant
                i <= self.entries.len(),
                self.seq() == s0,
                found ==> i < self.entries.len() && self.seq()[i as int].0 == number,
                !found ==> forall|j: int| 0 <= j < i ==> (#[trigger] self.seq()[j]).0 != number,
            decreases self.entries.len() - i, (if found { 0int } else { 1int }),
        {
            if self.entries[i].0 == number {
                found = true;
            } else {
                i = i + 1;
            }
        }
        if !found {
            proof {
                if self.as_map().contains_key(number) {
                    self.lemma_index_of_key(number);
                }
                assert(self.as_map() =~= old(self).as_map().remove(number));
            }
        } else {
            {
                self.entries.remove(i);
                proof {
                    let s1 = self.seq();
                    let ii = i as int;
                    assert(s1 == s0.remove(ii));
                    assert forall|a: int, b: int| 0 <= a < b < s1.len() implies (#[trigger] s1[a]).0
                        < (#[trigger] s1[b]).0 by {
                        if a < ii && b < ii {
                            assert(s0[a].0 < s0[b].0);
                        } else if a < ii {
                            assert(s1[b] == s0[b + 1]);
                            assert(s0[a].0 < s0[b + 1].0);
                        } else {
                            assert(s1[a] == s0[a + 1] && s1[b] == s0[b + 1]);
                            assert(s0[a + 1].0 < s0[b + 1].0);
                        }
                    }
                    assert forall|k: u64|
                        old(self).as_map().contains_key(k) && k != number implies
                        #[trigger] self.as_map().contains_key(k) && self.as_map()[k] == old(
                            self,
                        ).as_map()[k] by {
                        let j = old(self).lemma_index_of_key(k);
                        assert(j != ii);
                        if j < ii {
                            assert(s1[j] == s0[j]);
                            self.lemma_value_at(j);
                        } else {
                            assert(s1[j - 1] == s0[j]);
                            self.lemma_value_at(j - 1);
                        }
                    }
                    assert forall|k: u64| self.as_map().contains_key(k) implies k != number
                        && #[trigger] old(self).as_map().contains_key(k) by {
                        let j = self.lemma_index_of_key(k);
                        if j < ii {
                            assert(s1[j] == s0[j]);
                            old(self).lemma_value_at(j);
                            assert(s0[j].0 != s0[ii].0);
                        } else {
                            assert(s1[j] == s0[j + 1]);
                            old(self).lemma_value_at(j + 1);
                            assert(s0[j + 1].0 != s0[ii].0);
                        }
                    }
                    assert(self.as_map() =~= old(self).as_map().remove(number));
                }
            }
        }
    }
}

} // verus!
