//! The chain storage engine: a transactional reader/writer over five block
//! tables and the canonical-chain mapping.
//!
//! A [`DatabaseStorage`] holds the committed state. A writer is begun from
//! it, stages every mutation on its own copy, and [`StorageWriter::commit`]
//! turns the staged state into the new committed handle; a writer that is
//! dropped instead leaves the committed state untouched.

use vstd::prelude::*;

use crate::StoreError;
use crate::block::BlockBody;
use crate::block::BlockHeader;
use crate::block::BlockReceipts;
use crate::block::BlockReceiptsView;
use crate::block::BlockStatus;
use crate::block::FieldElement;
use crate::block::GlobalBlockId;
use crate::block::StateUpdate;
use crate::block::Transaction;
use crate::block::TransactionReceipt;
use crate::block::TransactionReceiptView;
use crate::block::copy_vec;
use crate::block::receipts_view;
use crate::bloom::bloom_items;
use crate::bloom::build_receipts_bloom;
use crate::bloom::raw_covers;
use crate::bloom::raw_view_items;
use crate::bloom::receipts_bloom_elems;
use crate::bloom::restore_bloom;
use crate::tables::CanonicalChainTable;
use crate::tables::IdTable;

verus! {

/// The abstract state of the store: the six tables as mathematical maps.
#[verifier::ext_equal]
pub struct StorageView {
    pub canonical: Map<u64, FieldElement>,
    pub status: Map<GlobalBlockId, BlockStatus>,
    pub headers: Map<GlobalBlockId, BlockHeader>,
    pub bodies: Map<GlobalBlockId, Seq<Transaction>>,
    pub receipts: Map<GlobalBlockId, BlockReceiptsView>,
    pub state_updates: Map<GlobalBlockId, StateUpdate>,
}

/// The id of the canonical entry at height `n`.
pub open spec fn canonical_entry_id(v: StorageView, n: u64) -> GlobalBlockId {
    GlobalBlockId { number: n, hash: v.canonical[n] }
}

/// The canonical entry at height `n` has a status row.
pub open spec fn entry_has_status(v: StorageView, n: u64) -> bool {
    v.status.contains_key(canonical_entry_id(v, n))
}

/// The canonical entry at height `n` is finalized.
pub open spec fn entry_finalized(v: StorageView, n: u64) -> bool {
    entry_has_status(v, n) && v.status[canonical_entry_id(v, n)].spec_is_finalized()
}

/// A store all of whose canonical entries have status rows.
pub open spec fn statuses_complete(v: StorageView) -> bool {
    forall|n: u64| #[trigger] v.canonical.contains_key(n) ==> entry_has_status(v, n)
}

/// The state after upserting a canonical entry.
pub open spec fn spec_extend(v: StorageView, id: GlobalBlockId) -> StorageView {
    StorageView { canonical: v.canonical.insert(id.number, id.hash), ..v }
}

/// The state after the reorg primitive: if the entry at the block's height
/// carries exactly this block's hash, the entry is removed and the block's
/// status becomes `Rejected`; otherwise nothing changes.
pub open spec fn spec_reject(v: StorageView, id: GlobalBlockId) -> StorageView {
    if v.canonical.contains_key(id.number) && v.canonical[id.number] == id.hash {
        StorageView {
            canonical: v.canonical.remove(id.number),
            status: v.status.insert(id, BlockStatus::Rejected),
            ..v
        }
    } else {
        v
    }
}

/// An object to read chain data from storage. Every method opens its own
/// snapshot of the committed state and never fails on a well-formed store,
/// except for the finalized walk on a store whose canonical entries lack
/// status rows.
pub trait StorageReader: View<V = StorageView> {
    /// The store is well formed: its tables are consistent and every
    /// persisted receipts row carries faithful Bloom parameters.
    spec fn wf(&self) -> bool;

    /// The highest canonical entry, or `None` iff the chain is empty.
    fn highest_accepted_block(&self) -> (r: Result<Option<GlobalBlockId>, StoreError>)
        requires
            self.wf(),
        ensures
            match r {
                Ok(opt) => match opt {
                    Some(id) => self@.canonical.contains_key(id.number) && id.hash
                        == self@.canonical[id.number] && forall|m: u64| #[trigger]
                        self@.canonical.contains_key(m) ==> m <= id.number,
                    None => self@.canonical == Map::<u64, FieldElement>::empty(),
                },
                Err(_) => false,
            },
    ;

    /// The canonical entry of greatest height whose status is finalized,
    /// found by walking the chain backwards from the tip. A canonical entry
    /// without a status row is a corruption error.
    fn highest_finalized_block(&self) -> (r: Result<Option<GlobalBlockId>, StoreError>)
        requires
            self.wf(),
        ensures
            match r {
                Ok(opt) => match opt {
                    Some(id) => {
                        &&& self@.canonical.contains_key(id.number)
                        &&& id.hash == self@.canonical[id.number]
                        &&& entry_finalized(self@, id.number)
                        &&& forall|n: u64|
                            #[trigger] self@.canonical.contains_key(n) && n > id.number
                                ==> entry_has_status(self@, n) && !entry_finalized(self@, n)
                    },
                    None => forall|n: u64| #[trigger]
                        self@.canonical.contains_key(n) ==> entry_has_status(self@, n)
                            && !entry_finalized(self@, n),
                },
                Err(e) => e == StoreError::Inconsistent && exists|n: u64| #[trigger]
                    self@.canonical.contains_key(n) && !entry_has_status(self@, n),
            },
            statuses_complete(self@) ==> r is Ok,
    ;

    /// The id of the canonical block at the given height, if any.
    fn canonical_block_id(&self, number: u64) -> (r: Result<Option<GlobalBlockId>, StoreError>)
        requires
            self.wf(),
        ensures
            match r {
                Ok(opt) => match opt {
                    Some(id) => self@.canonical.contains_key(number) && id == canonical_entry_id(
                        self@,
                        number,
                    ),
                    None => !self@.canonical.contains_key(number),
                },
                Err(_) => false,
            },
    ;

    /// The stored status of the block, if any.
    fn read_status(&self, id: &GlobalBlockId) -> (r: Result<Option<BlockStatus>, StoreError>)
        requires
            self.wf(),
        ensures
            match r {
                Ok(opt) => match opt {
                    Some(s) => self@.status.contains_key(*id) && s == self@.status[*id],
                    None => !self@.status.contains_key(*id),
                },
                Err(_) => false,
            },
    ;

    /// The stored header of the block, if any.
    fn read_header(&self, id: &GlobalBlockId) -> (r: Result<Option<BlockHeader>, StoreError>)
        requires
            self.wf(),
        ensures
            match r {
                Ok(opt) => match opt {
                    Some(h) => self@.headers.contains_key(*id) && h == self@.headers[*id],
                    None => !self@.headers.contains_key(*id),
                },
                Err(_) => false,
            },
    ;

    /// The block's transactions; an absent row reads as an empty body.
    fn read_body(&self, id: &GlobalBlockId) -> (r: Result<Vec<Transaction>, StoreError>)
        requires
            self.wf(),
        ensures
            match r {
                Ok(txs) => txs@ == if self@.bodies.contains_key(*id) {
                    self@.bodies[*id]
                } else {
                    Seq::<Transaction>::empty()
                },
                Err(_) => false,
            },
    ;

    /// The block's receipts and the restored Bloom filter; an absent row
    /// reads as an empty batch without a filter. The restored filter's
    /// contents are exactly the stored parameters' denotation, which cover
    /// every event address and key of the stored receipts.
    fn read_receipts(&self, id: &GlobalBlockId) -> (r: Result<
        (Vec<TransactionReceipt>, Option<bloomfilter::Bloom<FieldElement>>),
        StoreError,
    >)
        requires
            self.wf(),
        ensures
            match r {
                Ok(p) => {
                    &&& receipts_view(p.0@) == if self@.receipts.contains_key(*id) {
                        self@.receipts[*id].receipts
                    } else {
                        Seq::<TransactionReceiptView>::empty()
                    }
                    &&& match p.1 {
                        Some(b) => self@.receipts.contains_key(*id) && bloom_items(b)
                            == raw_view_items(self@.receipts[*id].bloom->Some_0)
                            && receipts_bloom_elems(self@.receipts[*id].receipts).subset_of(
                            bloom_items(b),
                        ),
                        None => !self@.receipts.contains_key(*id),
                    }
                },
                Err(_) => false,
            },
    ;

    /// The stored state update of the block, if any.
    fn read_state_update(&self, id: &GlobalBlockId) -> (r: Result<Option<StateUpdate>, StoreError>)
        requires
            self.wf(),
        ensures
            match r {
                Ok(opt) => match opt {
                    Some(s) => self@.state_updates.contains_key(*id) && s
                        == self@.state_updates[*id],
                    None => !self@.state_updates.contains_key(*id),
                },
                Err(_) => false,
            },
    ;
}

/// An object to write chain data to storage in a single transaction: every
/// mutation is staged, and becomes visible only through `commit`.
pub trait StorageWriter: View<V = StorageView> + Sized {
    /// The staged state is well formed.
    spec fn wf(&self) -> bool;

    /// Commits the staged state: it becomes the new committed handle, whose
    /// readers see every staged mutation.
    fn commit(self) -> (r: DatabaseStorage)
        requires
            self.wf(),
        ensures
            r.wf(),
            r@ == self@,
    ;

    /// Adds the block to the canonical chain, overwriting whatever hash was
    /// stored at its height.
    fn extend_canonical_chain(&mut self, id: &GlobalBlockId) -> (r: Result<(), StoreError>)
        requires
            old(self).wf(),
        ensures
            final(self).wf(),
            r is Ok,
            final(self)@ == spec_extend(old(self)@, *id),
    ;

    /// Removes the block from the canonical chain and marks it `Rejected`,
    /// provided the canonical entry at its height carries exactly its hash;
    /// otherwise this is a no-op. The block's payload rows are kept.
    fn reject_block_from_canonical_chain(&mut self, id: &GlobalBlockId) -> (r: Result<
        (),
        StoreError,
    >)
        requires
            old(self).wf(),
        ensures
            final(self).wf(),
            r is Ok,
            final(self)@ == spec_reject(old(self)@, *id),
    ;

    /// Upserts the block's status row.
    fn write_status(&mut self, id: &GlobalBlockId, status: BlockStatus) -> (r: Result<
        (),
        StoreError,
    >)
        requires
            old(self).wf(),
        ensures
            final(self).wf(),
            r is Ok,
            final(self)@ == (StorageView {
                status: old(self)@.status.insert(*id, status),
                ..old(self)@
            }),
    ;

    /// Upserts the block's header row.
    fn write_header(&mut self, id: &GlobalBlockId, header: BlockHeader) -> (r: Result<
        (),
        StoreError,
    >)
        requires
            old(self).wf(),
        ensures
            final(self).wf(),
            r is Ok,
            final(self)@ == (StorageView {
                headers: old(self)@.headers.insert(*id, header),
                ..old(self)@
            }),
    ;

    /// Upserts the block's body row.
    fn write_body(&mut self, id: &GlobalBlockId, body: BlockBody) -> (r: Result<(), StoreError>)
        requires
            old(self).wf(),
        ensures
            final(self).wf(),
            r is Ok,
            final(self)@ == (StorageView {
                bodies: old(self)@.bodies.insert(*id, body@),
                ..old(self)@
            }),
    ;

    /// Derives the Bloom parameters over the receipts' event addresses and
    /// keys, wraps them with the receipts, and upserts the block's row.
    fn write_receipts(&mut self, id: &GlobalBlockId, receipts: Vec<TransactionReceipt>) -> (r:
        Result<(), StoreError>)
        requires
            old(self).wf(),
        ensures
            final(self).wf(),
            r is Ok,
            final(self)@.receipts.contains_key(*id),
            final(self)@.receipts[*id].receipts == receipts_view(receipts@),
            final(self)@.receipts[*id].bloom is Some,
            raw_covers(final(self)@.receipts[*id].bloom->Some_0, receipts_view(receipts@)),
            final(self)@.receipts == old(self)@.receipts.insert(*id, final(self)@.receipts[*id]),
            final(self)@.canonical == old(self)@.canonical,
            final(self)@.status == old(self)@.status,
            final(self)@.headers == old(self)@.headers,
            final(self)@.bodies == old(self)@.bodies,
            final(self)@.state_updates == old(self)@.state_updates,
    ;

    /// Upserts the block's state-update row.
    fn write_state_update(&mut self, id: &GlobalBlockId, state_update: StateUpdate) -> (r: Result<
        (),
        StoreError,
    >)
        requires
            old(self).wf(),
        ensures
            final(self).wf(),
            r is Ok,
            final(self)@ == (StorageView {
                state_updates: old(self)@.state_updates.insert(*id, state_update),
                ..old(self)@
            }),
    ;
}

/// The engine handle over the committed state.
pub struct DatabaseStorage {
    pub(crate) canonical: CanonicalChainTable,
    pub(crate) status: IdTable<BlockStatus>,
    pub(crate) headers: IdTable<BlockHeader>,
    pub(crate) bodies: IdTable<BlockBody>,
    pub(crate) receipts: IdTable<BlockReceipts>,
    pub(crate) state_updates: IdTable<StateUpdate>,
}

impl View for DatabaseStorage {
    type V = StorageView;

    closed spec fn view(&self) -> StorageView {
        StorageView {
            canonical: self.canonical.as_map(),
            status: self.status.as_map(),
            headers: self.headers.as_map(),
            bodies: Map::new(
                |k: GlobalBlockId| self.bodies.as_map().contains_key(k),
                |k: GlobalBlockId| self.bodies.as_map()[k]@,
            ),
            receipts: Map::new(
                |k: GlobalBlockId| self.receipts.as_map().contains_key(k),
                |k: GlobalBlockId| self.receipts.as_map()[k]@,
            ),
            state_updates: self.state_updates.as_map(),
        }
    }
}

impl DatabaseStorage {
    /// An empty store.
    pub fn new() -> (r: DatabaseStorage)
        ensures
            r.wf(),
            r@.canonical == Map::<u64, FieldElement>::empty(),
            r@.status == Map::<GlobalBlockId, BlockStatus>::empty(),
            r@.headers == Map::<GlobalBlockId, BlockHeader>::empty(),
            r@.bodies == Map::<GlobalBlockId, Seq<Transaction>>::empty(),
            r@.receipts == Map::<GlobalBlockId, BlockReceiptsView>::empty(),
            r@.state_updates == Map::<GlobalBlockId, StateUpdate>::empty(),
    {
        let r = DatabaseStorage {
            canonical: CanonicalChainTable::new(),
            status: IdTable::new(),
            headers: IdTable::new(),
            bodies: IdTable::new(),
            receipts: IdTable::new(),
            state_updates: IdTable::new(),
        };
        proof {
            assert(r@.bodies =~= Map::<GlobalBlockId, Seq<Transaction>>::empty());
            assert(r@.receipts =~= Map::<GlobalBlockId, BlockReceiptsView>::empty());
        }
        r
    }

    /// Begins a read-write transaction: the writer stages all mutations on
    /// its own copy of the state, leaving this handle untouched until the
    /// staged state is committed.
    pub fn begin_txn(&self) -> (w: DatabaseStorageWriter)
        requires
            self.wf(),
        ensures
            w.wf(),
            w@ == self@,
    {
        let staged = DatabaseStorage {
            canonical: self.canonical.duplicate(),
            status: self.status.duplicate(),
            headers: self.headers.duplicate(),
            bodies: self.bodies.duplicate_bodies(),
            receipts: self.receipts.duplicate_receipts(),
            state_updates: self.state_updates.duplicate(),
        };
        proof {
            assert(staged@.bodies =~= self@.bodies);
            assert(staged@.receipts =~= self@.receipts);
            assert(staged@ =~= self@);
        }
        DatabaseStorageWriter { staged }
    }
}

impl StorageReader for DatabaseStorage {
    closed spec fn wf(&self) -> bool {
        &&& self.canonical.wf()
        &&& self.status.wf()
        &&& self.headers.wf()
        &&& self.bodies.wf()
        &&& self.receipts.wf()
        &&& self.state_updates.wf()
        &&& forall|id: GlobalBlockId| #[trigger]
            self@.receipts.contains_key(id) ==> self@.receipts[id].bloom is Some && raw_covers(
                self@.receipts[id].bloom->Some_0,
                self@.receipts[id].receipts,
            )
    }

    fn highest_accepted_block(&self) -> (r: Result<Option<GlobalBlockId>, StoreError>) {
        match self.canonical.last() {
            None => Ok(None),
            Some((number, hash)) => Ok(Some(GlobalBlockId::new(number, hash))),
        }
    }

    fn highest_finalized_block(&self) -> (r: Result<Option<GlobalBlockId>, StoreError>) {
        let len = self.canonical.len_entries();
        let mut i: usize = len;
        while i > 0
            invariant
                i <= len,
                len == self.canonical.seq().len(),
                self.wf(),
                forall|j: int|
                    i <= j < len ==> entry_has_status(self@, (#[trigger] self.canonical.seq()[j]).0)
                        && !entry_finalized(self@, self.canonical.seq()[j].0),
            decreases i,
        {
            i = i - 1;
            let e = self.canonical.entry_at(i);
            let id = GlobalBlockId::new(e.0, e.1);
            proof {
                self.canonical.lemma_value_at(i as int);
            }
            match self.status.get_ref(&id) {
                None => {
                    proof {
                        let n = e.0;
                        assert(self.canonical.as_map().contains_key(n));
                        assert(self@.canonical == self.canonical.as_map());
                        assert(self@.canonical[n] == e.1);
                        assert(canonical_entry_id(self@, n) == id);
                        assert(!self.status.as_map().contains_key(id));
                        assert(self@.status == self.status.as_map());
                        assert(!entry_has_status(self@, n));
                        assert(self@.canonical.contains_key(n) && !entry_has_status(self@, n));
                    }
                    return Err(StoreError::Inconsistent);
                },
                Some(st) => {
                    if st.is_finalized() {
                        proof {
                            assert forall|n: u64|
                                #[trigger] self@.canonical.contains_key(n) && n > id.number implies
                                entry_has_status(self@, n) && !entry_finalized(self@, n) by {
                                let j = self.canonical.lemma_index_of_key(n);
                                if j < i as int {
                                    assert(self.canonical.seq()[j].0 < self.canonical.seq()[i as int].0);
                                }
                            }
                        }
                        return Ok(Some(id));
                    }
                },
            }
        }
        proof {
            assert forall|n: u64| #[trigger] self@.canonical.contains_key(n) implies entry_has_status(
                self@,
                n,
            ) && !entry_finalized(self@, n) by {
                let j = self.canonical.lemma_index_of_key(n);
            }
        }
        Ok(None)
    }

    fn canonical_block_id(&self, number: u64) -> (r: Result<Option<GlobalBlockId>, StoreError>) {
        match self.canonical.seek(number) {
            None => Ok(None),
            Some(hash) => Ok(Some(GlobalBlockId::new(number, hash))),
        }
    }

    fn read_status(&self, id: &GlobalBlockId) -> (r: Result<Option<BlockStatus>, StoreError>) {
        match self.status.get_ref(id) {
            None => Ok(None),
            Some(s) => Ok(Some(*s)),
        }
    }

    fn read_header(&self, id: &GlobalBlockId) -> (r: Result<Option<BlockHeader>, StoreError>) {
        match self.headers.get_ref(id) {
            None => Ok(None),
            Some(h) => Ok(Some(*h)),
        }
    }

    fn read_body(&self, id: &GlobalBlockId) -> (r: Result<Vec<Transaction>, StoreError>) {
        match self.bodies.get_ref(id) {
            None => {
                let txs: Vec<Transaction> = Vec::new();
                proof {
                    assert(txs@ =~= Seq::<Transaction>::empty());
                }
                Ok(txs)
            },
            Some(body) => Ok(copy_vec(&body.transactions)),
        }
    }

    fn read_receipts(&self, id: &GlobalBlockId) -> (r: Result<
        (Vec<TransactionReceipt>, Option<bloomfilter::Bloom<FieldElement>>),
        StoreError,
    >) {
        match self.receipts.get_ref(id) {
            None => {
                let rs: Vec<TransactionReceipt> = Vec::new();
                proof {
                    assert(receipts_view(rs@) =~= Seq::<TransactionReceiptView>::empty());
                }
                Ok((rs, None))
            },
            Some(entry) => {
                proof {
                    assert(self.receipts.as_map().contains_key(*id));
                    assert(self@.receipts.contains_key(*id));
                    assert(*entry == self.receipts.as_map()[*id]);
                    assert(self@.receipts[*id] == self.receipts.as_map()[*id]@);
                    assert(self@.receipts[*id] == entry@);
                    assert(self@.receipts[*id].bloom is Some && raw_covers(
                        self@.receipts[*id].bloom->Some_0,
                        self@.receipts[*id].receipts,
                    ));
                }
                let rs = crate::block::copy_receipts(&entry.receipts);
                match &entry.bloom {
                    None => {
                        proof {
                            assert(self@.receipts[*id].bloom is None);
                            assert(false);
                        }
                        Err(StoreError::Inconsistent)
                    },
                    Some(raw) => {
                        proof {
                            assert(self@.receipts[*id].bloom->Some_0 == raw@);
                            assert(raw_covers(raw@, self@.receipts[*id].receipts));
                        }
                        let flt = restore_bloom(raw);
                        proof {
                            assert(flt is Some);
                        }
                        Ok((rs, flt))
                    },
                }
            },
        }
    }

    fn read_state_update(&self, id: &GlobalBlockId) -> (r: Result<Option<StateUpdate>, StoreError>) {
        match self.state_updates.get_ref(id) {
            None => Ok(None),
            Some(s) => Ok(Some(*s)),
        }
    }
}

/// A writer over one read-write transaction: it stages mutations on its own
/// copy of the state and exposes them only through `commit`.
pub struct DatabaseStorageWriter {
    staged: DatabaseStorage,
}

impl View for DatabaseStorageWriter {
    type V = StorageView;

    closed spec fn view(&self) -> StorageView {
        self.staged@
    }
}

impl StorageWriter for DatabaseStorageWriter {
    closed spec fn wf(&self) -> bool {
        self.staged.wf()
    }

    fn commit(self) -> (r: DatabaseStorage) {
        self.staged
    }

    fn extend_canonical_chain(&mut self, id: &GlobalBlockId) -> (r: Result<(), StoreError>) {
        self.staged.canonical.put(id.number, id.hash);
        proof {
            assert(self@ =~= spec_extend(old(self)@, *id));
        }
        Ok(())
    }

    fn reject_block_from_canonical_chain(&mut self, id: &GlobalBlockId) -> (r: Result<
        (),
        StoreError,
    >) {
        match self.staged.canonical.seek(id.number) {
            Some(current_hash) => {
                if current_hash == id.hash {
                    self.staged.canonical.del(id.number);
                    self.staged.status.put(*id, BlockStatus::Rejected);
                    proof {
                        assert(self@ =~= spec_reject(old(self)@, *id));
                    }
                } else {
                    proof {
                        assert(self@ =~= spec_reject(old(self)@, *id));
                    }
                }
            },
            None => {
                proof {
                    assert(self@ =~= spec_reject(old(self)@, *id));
                }
            },
        }
        Ok(())
    }

    fn write_status(&mut self, id: &GlobalBlockId, status: BlockStatus) -> (r: Result<
        (),
        StoreError,
    >) {
        self.staged.status.put(*id, status);
        proof {
            assert(self@ =~= (StorageView {
                status: old(self)@.status.insert(*id, status),
                ..old(self)@
            }));
        }
        Ok(())
    }

    fn write_header(&mut self, id: &GlobalBlockId, header: BlockHeader) -> (r: Result<
        (),
        StoreError,
    >) {
        self.staged.headers.put(*id, header);
        proof {
            assert(self@ =~= (StorageView {
                headers: old(self)@.headers.insert(*id, header),
                ..old(self)@
            }));
        }
        Ok(())
    }

    fn write_body(&mut self, id: &GlobalBlockId, body: BlockBody) -> (r: Result<(), StoreError>) {
        let ghost bv = body@;
        self.staged.bodies.put(*id, body);
        proof {
            assert(self@.bodies =~= old(self)@.bodies.insert(*id, bv));
            assert(self@ =~= (StorageView { bodies: old(self)@.bodies.insert(*id, bv), ..old(self)@ }));
        }
        Ok(())
    }

    fn write_receipts(&mut self, id: &GlobalBlockId, receipts: Vec<TransactionReceipt>) -> (r:
        Result<(), StoreError>) {
        let raw = build_receipts_bloom(&receipts);
        let entry = BlockReceipts { receipts, bloom: Some(raw) };
        let ghost ev = entry@;
        self.staged.receipts.put(*id, entry);
        proof {
            assert(self@.receipts =~= old(self)@.receipts.insert(*id, ev));
        }
        Ok(())
    }

    fn write_state_update(&mut self, id: &GlobalBlockId, state_update: StateUpdate) -> (r: Result<
        (),
        StoreError,
    >) {
        self.staged.state_updates.put(*id, state_update);
        proof {
            assert(self@ =~= (StorageView {
                state_updates: old(self)@.state_updates.insert(*id, state_update),
                ..old(self)@
            }));
        }
        Ok(())
    }
}

/// Reorg correctness: rejecting a block whose hash is the canonical entry at
/// its height removes that entry, marks the block `Rejected`, and leaves all
/// payload rows untouched.
pub proof fn lemma_reorg(v: StorageView, id: GlobalBlockId)
    requires
        v.canonical.contains_key(id.number),
        v.canonical[id.number] == id.hash,
    ensures
        !spec_reject(v, id).canonical.contains_key(id.number),
        spec_reject(v, id).status.contains_key(id),
        spec_reject(v, id).status[id] == BlockStatus::Rejected,
        spec_reject(v, id).headers == v.headers,
        spec_reject(v, id).bodies == v.bodies,
        spec_reject(v, id).receipts == v.receipts,
        spec_reject(v, id).state_updates == v.state_updates,
{
}

/// Tip monotonicity: extending the chain at a height above every canonical
/// entry makes the new block the highest accepted one.
pub proof fn lemma_tip_monotonic(v: StorageView, id: GlobalBlockId)
    requires
        forall|m: u64| #[trigger] v.canonical.contains_key(m) ==> m < id.number,
    ensures
        spec_extend(v, id).canonical.contains_key(id.number),
        spec_extend(v, id).canonical[id.number] == id.hash,
        forall|m: u64| #[trigger] spec_extend(v, id).canonical.contains_key(m) ==> m <= id.number,
{
    assert forall|m: u64| #[trigger]
        spec_extend(v, id).canonical.contains_key(m) implies m <= id.number by {
        if m != id.number {
            assert(v.canonical.contains_key(m));
        }
    }
}

/// Bloom round-trip: the Bloom parameters stored for a block cover its
/// receipts, so a filter restored from them contains every address and key
/// inserted when the receipts were written — a membership check reports each
/// of them present. `write_receipts` establishes the coverage, and
/// `read_receipts` returns a filter whose contents are exactly the stored
/// parameters' denotation.
pub proof fn lemma_bloom_round_trip(
    v: StorageView,
    id: GlobalBlockId,
    items: Set<(u64, u64, u64, u64)>,
)
    requires
        v.receipts.contains_key(id),
        v.receipts[id].bloom is Some,
        raw_covers(v.receipts[id].bloom->Some_0, v.receipts[id].receipts),
        items == raw_view_items(v.receipts[id].bloom->Some_0),
    ensures
        receipts_bloom_elems(v.receipts[id].receipts).subset_of(items),
{
}

/// The finalized walk returns the canonical entry of greatest height whose
/// status is finalized: any other finalized canonical entry sits at or below
/// the returned height.
pub proof fn lemma_finalized_greatest(v: StorageView, id: GlobalBlockId, m: u64)
    requires
        v.canonical.contains_key(id.number),
        v.canonical[id.number] == id.hash,
        entry_finalized(v, id.number),
        forall|n: u64|
            #[trigger] v.canonical.contains_key(n) && n > id.number ==> entry_has_status(v, n)
                && !entry_finalized(v, n),
        v.canonical.contains_key(m),
        entry_finalized(v, m),
    ensures
        m <= id.number,
{
    if m > id.number {
        assert(!entry_finalized(v, m));
    }
}

} // verus!
