//! The chain data model: block identifiers, statuses, and the per-block
//! records the storage engine persists.

use vstd::prelude::*;

verus! {

/// A 256-bit field element held in four 64-bit limbs.
#[derive(Clone, Copy, PartialEq, Eq, Debug, Hash, Structural)]
pub struct FieldElement {
    pub lo_lo: u64,
    pub lo_hi: u64,
    pub hi_lo: u64,
    pub hi_hi: u64,
}

impl FieldElement {
    /// The four limbs as a tuple, for use in mathematical sets and maps.
    pub open spec fn limbs(self) -> (u64, u64, u64, u64) {
        (self.lo_lo, self.lo_hi, self.hi_lo, self.hi_hi)
    }

    pub fn from_u64(v: u64) -> (r: FieldElement)
        ensures
            r == (FieldElement { lo_lo: 0u64, lo_hi: 0u64, hi_lo: 0u64, hi_hi: v }),
    {
        FieldElement { lo_lo: 0, lo_hi: 0, hi_lo: 0, hi_hi: v }
    }
}

/// A block identifier: height plus the hash that disambiguates competing
/// blocks at the same height.
#[derive(Clone, Copy, PartialEq, Eq, Debug, Hash, Structural)]
pub struct GlobalBlockId {
    pub number: u64,
    pub hash: FieldElement,
}

impl GlobalBlockId {
    pub fn new(number: u64, hash: FieldElement) -> (r: GlobalBlockId)
        ensures
            r.number == number,
            r.hash == hash,
    {
        GlobalBlockId { number, hash }
    }
}

/// The lifecycle status of a block.
#[derive(Clone, Copy, PartialEq, Eq, Debug, Structural)]
pub enum BlockStatus {
    Unspecified,
    Pending,
    AcceptedOnL2,
    AcceptedOnL1,
    Rejected,
}

impl BlockStatus {
    /// A block is finalized once it is accepted on the settlement layer.
    pub open spec fn spec_is_finalized(self) -> bool {
        self is AcceptedOnL1
    }

    pub fn is_finalized(&self) -> (r: bool)
        ensures
            r == self.spec_is_finalized(),
    {
        match self {
            BlockStatus::AcceptedOnL1 => true,
            _ => false,
        }
    }
}

/// A block header. Only the fields the engine persists are modelled.
#[derive(Clone, Copy, PartialEq, Eq, Debug, Structural)]
pub struct BlockHeader {
    pub block_hash: FieldElement,
    pub parent_block_hash: FieldElement,
    pub block_number: u64,
    pub timestamp: u64,
}

/// A transaction, identified by its hash.
#[derive(Clone, Copy, PartialEq, Eq, Debug, Structural)]
pub struct Transaction {
    pub hash: FieldElement,
    pub transaction_index: u64,
}

/// The state change a block commits to.
#[derive(Clone, Copy, PartialEq, Eq, Debug, Structural)]
pub struct StateUpdate {
    pub old_root: FieldElement,
    pub new_root: FieldElement,
}

/// An event emitted during a transaction.
#[derive(Clone, PartialEq, Eq, Debug)]
pub struct Event {
    pub from_address: Option<FieldElement>,
    pub keys: Vec<FieldElement>,
    pub data: Vec<FieldElement>,
}

/// The mathematical value of an [`Event`].
pub struct EventView {
    pub from_address: Option<FieldElement>,
    pub keys: Seq<FieldElement>,
    pub data: Seq<FieldElement>,
}

impl View for Event {
    type V = EventView;

    open spec fn view(&self) -> EventView {
        EventView { from_address: self.from_address, keys: self.keys@, data: self.data@ }
    }
}

/// A transaction receipt: the events the transaction emitted.
#[derive(Clone, PartialEq, Eq, Debug)]
pub struct TransactionReceipt {
    pub transaction_index: u64,
    pub events: Vec<Event>,
}

/// The mathematical value of a [`TransactionReceipt`].
pub struct TransactionReceiptView {
    pub transaction_index: u64,
    pub events: Seq<EventView>,
}

impl View for TransactionReceipt {
    type V = TransactionReceiptView;

    open spec fn view(&self) -> TransactionReceiptView {
        TransactionReceiptView {
            transaction_index: self.transaction_index,
            events: self.events@.map_values(|e: Event| e@),
        }
    }
}

/// The element-wise mathematical value of a sequence of receipts.
pub open spec fn receipts_view(s: Seq<TransactionReceipt>) -> Seq<TransactionReceiptView> {
    s.map_values(|r: TransactionReceipt| r@)
}

/// The transactions of one block, as persisted.
#[derive(Clone, PartialEq, Eq, Debug)]
pub struct BlockBody {
    pub transactions: Vec<Transaction>,
}

impl View for BlockBody {
    type V = Seq<Transaction>;

    open spec fn view(&self) -> Seq<Transaction> {
        self.transactions@
    }
}

/// The four SipHash keys of a serialized Bloom filter.
#[derive(Clone, Copy, PartialEq, Eq, Debug, Structural)]
pub struct HasherKeys {
    pub hash0_0: u64,
    pub hash0_1: u64,
    pub hash1_0: u64,
    pub hash1_1: u64,
}

/// Persisted Bloom filter parameters. An empty `bytes` buffer means that no
/// filter was stored.
#[derive(Clone, PartialEq, Eq, Debug)]
pub struct RawBloom {
    pub bytes: Vec<u8>,
    pub bitmap_bits: u64,
    pub number_of_hash_functions: u32,
    pub hasher_keys: Option<HasherKeys>,
}

/// The mathematical value of a [`RawBloom`].
pub struct RawBloomView {
    pub bytes: Seq<u8>,
    pub bitmap_bits: u64,
    pub number_of_hash_functions: u32,
    pub hasher_keys: Option<HasherKeys>,
}

impl View for RawBloom {
    type V = RawBloomView;

    open spec fn view(&self) -> RawBloomView {
        RawBloomView {
            bytes: self.bytes@,
            bitmap_bits: self.bitmap_bits,
            number_of_hash_functions: self.number_of_hash_functions,
            hasher_keys: self.hasher_keys,
        }
    }
}

/// The receipts of one block together with the derived Bloom parameters, as
/// persisted.
#[derive(Clone, PartialEq, Eq, Debug)]
pub struct BlockReceipts {
    pub receipts: Vec<TransactionReceipt>,
    pub bloom: Option<RawBloom>,
}

/// The mathematical value of a [`BlockReceipts`].
pub struct BlockReceiptsView {
    pub receipts: Seq<TransactionReceiptView>,
    pub bloom: Option<RawBloomView>,
}

impl View for BlockReceipts {
    type V = BlockReceiptsView;

    open spec fn view(&self) -> BlockReceiptsView {
        BlockReceiptsView {
            receipts: receipts_view(self.receipts@),
            bloom: match self.bloom {
                Some(raw) => Some(raw@),
                None => None,
            },
        }
    }
}

/// Copies a vector of copyable elements, preserving its value.
pub fn copy_vec<T: Copy>(v: &Vec<T>) -> (r: Vec<T>)
    ensures
        r@ == v@,
{
    let mut r: Vec<T> = Vec::new();
    let mut i: usize = 0;
    while i < v.len()
        invariant
            i <= v.len(),
            r@ == v@.take(i as int),
        decreases v.len() - i,
    {
        r.push(v[i]);
        proof {
            assert(v@.take(i + 1 as int) =~= v@.take(i as int).push(v@[i as int]));
        }
        i = i + 1;
    }
    proof {
        assert(v@.take(v@.len() as int) =~= v@);
    }
    r
}

impl Event {
    /// An exact copy of this event.
    pub fn duplicate(&self) -> (r: Event)
        ensures
            r@ == self@,
    {
        Event {
            from_address: self.from_address,
            keys: copy_vec(&self.keys),
            data: copy_vec(&self.data),
        }
    }
}

impl TransactionReceipt {
    /// An exact copy of this receipt.
    pub fn duplicate(&self) -> (r: TransactionReceipt)
        ensures
            r@ == self@,
    {
        let mut events: Vec<Event> = Vec::new();
        let mut i: usize = 0;
        while i < self.events.len()
            invariant
                i <= self.events.len(),
                events@.len() == i,
                forall|j: int| 0 <= j < i ==> events@[j]@ == self.events@[j]@,
            decreases self.events.len() - i,
        {
            let e = &self.events[i];
            events.push(e.duplicate());
            i = i + 1;
        }
        let r = TransactionReceipt { transaction_index: self.transaction_index, events };
        proof {
            assert(r@.events =~= self@.events);
        }
        r
    }
}

/// Copies a vector of receipts, preserving its mathematical value.
pub fn copy_receipts(v: &Vec<TransactionReceipt>) -> (r: Vec<TransactionReceipt>)
    ensures
        receipts_view(r@) == receipts_view(v@),
{
    let mut r: Vec<TransactionReceipt> = Vec::new();
    let mut i: usize = 0;
    while i < v.len()
        invariant
            i <= v.len(),
            r@.len() == i,
            forall|j: int| 0 <= j < i ==> r@[j]@ == v@[j]@,
        decreases v.len() - i,
    {
        let e = &v[i];
        r.push(e.duplicate());
        i = i + 1;
    }
    proof {
        assert(receipts_view(r@) =~= receipts_view(v@));
    }
    r
}

impl RawBloom {
    /// An exact copy of these parameters.
    pub fn duplicate(&self) -> (r: RawBloom)
        ensures
            r@ == self@,
    {
        RawBloom {
            bytes: copy_vec(&self.bytes),
            bitmap_bits: self.bitmap_bits,
            number_of_hash_functions: self.number_of_hash_functions,
            hasher_keys: self.hasher_keys,
        }
    }
}

impl BlockBody {
    /// An exact copy of this body.
    pub fn duplicate(&self) -> (r: BlockBody)
        ensures
            r@ == self@,
    {
        BlockBody { transactions: copy_vec(&self.transactions) }
    }
}

impl BlockReceipts {
    /// An exact copy of this record.
    pub fn duplicate(&self) -> (r: BlockReceipts)
        ensures
            r@.receipts == self@.receipts,
            r@.bloom == self@.bloom,
    {
        BlockReceipts {
            receipts: copy_receipts(&self.receipts),
            bloom: match &self.bloom {
                Some(raw) => Some(raw.duplicate()),
                None => None,
            },
        }
    }
}

} // verus!
