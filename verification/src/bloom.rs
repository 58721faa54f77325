//! Per-block Bloom index over receipt event addresses and keys, backed by
//! the `bloomfilter` crate behind trusted contracts.
//!
//! The filter itself is opaque: its contents are named by [`bloom_items`],
//! and the contents denoted by serialized parameters by [`raw_items`]. The
//! contracts state only what the crate guarantees: a fresh filter is empty,
//! an insertion is never lost, and reloading serialized parameters preserves
//! the denoted contents. False positives are possible, so the contracts
//! never claim that an element is absent.

use vstd::prelude::*;

use crate::block::EventView;
use crate::block::FieldElement;
use crate::block::HasherKeys;
use crate::block::RawBloom;
use crate::block::RawBloomView;
use crate::block::TransactionReceipt;
use crate::block::TransactionReceiptView;
use crate::block::receipts_view;

verus! {

#[verifier::external_type_specification]
#[verifier::external_body]
#[verifier::reject_recursive_types(T)]
pub struct ExBloom<T: ?Sized>(bloomfilter::Bloom<T>);

/// The set of inserted elements a filter is known to report as present,
/// as limb tuples.
pub uninterp spec fn bloom_items(b: bloomfilter::Bloom<FieldElement>) -> Set<(u64, u64, u64, u64)>;

/// The filter's geometry: its modulus in bits, and the bits its bit vector
/// actually stores.
pub uninterp spec fn bloom_geometry(b: bloomfilter::Bloom<FieldElement>) -> (u64, u64);

/// The contents denoted by serialized filter parameters: bitmap bytes, bit
/// count, hash-function count, and the four SipHash keys.
pub uninterp spec fn raw_items(
    bytes: Seq<u8>,
    bits: u64,
    k_num: u32,
    k00: u64,
    k01: u64,
    k10: u64,
    k11: u64,
) -> Set<(u64, u64, u64, u64)>;

/// The contents a [`RawBloomView`] denotes.
pub open spec fn raw_view_items(raw: RawBloomView) -> Set<(u64, u64, u64, u64)> {
    raw_items(
        raw.bytes,
        raw.bitmap_bits,
        raw.number_of_hash_functions,
        raw.hasher_keys->Some_0.hash0_0,
        raw.hasher_keys->Some_0.hash0_1,
        raw.hasher_keys->Some_0.hash1_0,
        raw.hasher_keys->Some_0.hash1_1,
    )
}

/// Relies on `bloomfilter::Bloom::new`: a fresh filter of `bitmap_size`
/// bytes (it panics on zero sizes) contains nothing and spans
/// `8 * bitmap_size` bits, all backed by storage.
#[verifier::external_body]
pub(crate) fn bloom_new(bitmap_size: usize, items_count: usize) -> (r: bloomfilter::Bloom<
    FieldElement,
>)
    requires
        1 <= bitmap_size,
        1 <= items_count,
        8 * bitmap_size <= u64::MAX,
    ensures
        bloom_items(r) == Set::<(u64, u64, u64, u64)>::empty(),
        bloom_geometry(r) == (((8 * bitmap_size) as u64), ((8 * bitmap_size) as u64)),
{
    bloomfilter::Bloom::new(bitmap_size, items_count)
}

/// Relies on `bloomfilter::Bloom::set`: it records the item, never removes
/// another, and leaves the geometry unchanged. It indexes bits below the
/// modulus, so the storage must cover the modulus.
#[verifier::external_body]
pub(crate) fn bloom_set(b: &mut bloomfilter::Bloom<FieldElement>, item: &FieldElement)
    requires
        1 <= bloom_geometry(*old(b)).0,
        bloom_geometry(*old(b)).0 <= bloom_geometry(*old(b)).1,
    ensures
        bloom_geometry(*final(b)) == bloom_geometry(*old(b)),
        bloom_items(*old(b)).insert(item.limbs()).subset_of(bloom_items(*final(b))),
{
    b.set(item)
}

/// Relies on `Bloom::bitmap`, `Bloom::number_of_bits`,
/// `Bloom::number_of_hash_functions` and `Bloom::sip_keys`: together they
/// serialize the filter exactly, so the serialized parameters denote the
/// filter's contents. The bitmap holds one byte per eight stored bits,
/// rounded up.
#[verifier::external_body]
pub(crate) fn bloom_to_raw(b: &bloomfilter::Bloom<FieldElement>) -> (r: RawBloom)
    ensures
        r.hasher_keys is Some,
        r.bitmap_bits == bloom_geometry(*b).0,
        r.bytes@.len() == (bloom_geometry(*b).1 + 7) / 8,
        raw_view_items(r@) == bloom_items(*b),
{
    let sip_keys = b.sip_keys();
    RawBloom {
        bytes: b.bitmap(),
        bitmap_bits: b.number_of_bits(),
        number_of_hash_functions: b.number_of_hash_functions(),
        hasher_keys: Some(
            HasherKeys {
                hash0_0: sip_keys[0].0,
                hash0_1: sip_keys[0].1,
                hash1_0: sip_keys[1].0,
                hash1_1: sip_keys[1].1,
            },
        ),
    }
}

/// Relies on `bloomfilter::Bloom::from_existing`: rebuilding a filter from
/// serialized parameters yields one whose contents are the parameters'
/// denotation, with one stored bit per bitmap byte bit.
#[verifier::external_body]
pub(crate) fn bloom_from_raw(
    bytes: &Vec<u8>,
    bitmap_bits: u64,
    k_num: u32,
    keys: &HasherKeys,
) -> (r: bloomfilter::Bloom<FieldElement>)
    requires
        8 * bytes@.len() <= usize::MAX,
    ensures
        bloom_items(r) == raw_items(
            bytes@,
            bitmap_bits,
            k_num,
            keys.hash0_0,
            keys.hash0_1,
            keys.hash1_0,
            keys.hash1_1,
        ),
        bloom_geometry(r) == (bitmap_bits, ((8 * bytes@.len()) as u64)),
{
    bloomfilter::Bloom::from_existing(
        bytes,
        bitmap_bits,
        k_num,
        [(keys.hash0_0, keys.hash0_1), (keys.hash1_0, keys.hash1_1)],
    )
}

/// The elements one event contributes to the index: its sender address, if
/// set, and each of its keys.
pub open spec fn event_elems(e: EventView) -> Set<(u64, u64, u64, u64)> {
    Set::new(
        |t: (u64, u64, u64, u64)|
            (e.from_address is Some && t == e.from_address->Some_0.limbs()) || (exists|k: int|
                0 <= k < e.keys.len() && t == (#[trigger] e.keys[k]).limbs()),
    )
}

/// The elements a block's receipts contribute to the index.
pub open spec fn receipts_bloom_elems(rs: Seq<TransactionReceiptView>) -> Set<
    (u64, u64, u64, u64),
> {
    Set::new(
        |t: (u64, u64, u64, u64)|
            exists|i: int, j: int|
                0 <= i < rs.len() && 0 <= j < (#[trigger] rs[i]).events.len() && (
                #[trigger] event_elems(rs[i].events[j])).contains(t),
    )
}

/// Serialized filter parameters that faithfully cover the given receipts:
/// every contributed element is in the denoted contents, and the geometry is
/// consistent, non-empty, and reloadable.
pub open spec fn raw_covers(raw: RawBloomView, rs: Seq<TransactionReceiptView>) -> bool {
    &&& raw.hasher_keys is Some
    &&& receipts_bloom_elems(rs).subset_of(raw_view_items(raw))
    &&& 1 <= raw.bytes.len()
    &&& 1 <= raw.bitmap_bits
    &&& raw.bitmap_bits <= 8 * raw.bytes.len()
    &&& 8 * raw.bytes.len() <= usize::MAX
}

/// Inserts every element of one event into the filter.
fn bloom_add_event(b: &mut bloomfilter::Bloom<FieldElement>, e: &crate::block::Event)
    requires
        1 <= bloom_geometry(*old(b)).0,
        bloom_geometry(*old(b)).0 <= bloom_geometry(*old(b)).1,
    ensures
        bloom_geometry(*final(b)) == bloom_geometry(*old(b)),
        bloom_items(*old(b)).union(event_elems(e@)).subset_of(bloom_items(*final(b))),
{
    if let Some(addr) = &e.from_address {
        bloom_set(b, addr);
    }
    let mut j: usize = 0;
    while j < e.keys.len()
        invariant
            j <= e.keys.len(),
            1 <= bloom_geometry(*b).0,
            bloom_geometry(*b).0 <= bloom_geometry(*b).1,
            bloom_geometry(*b) == bloom_geometry(*old(b)),
            bloom_items(*old(b)).subset_of(bloom_items(*b)),
            e@.from_address is Some ==> bloom_items(*b).contains(
                e@.from_address->Some_0.limbs(),
            ),
            forall|k: int| 0 <= k < j ==> bloom_items(*b).contains((#[trigger] e@.keys[k]).limbs()),
        decreases e.keys.len() - j,
    {
        bloom_set(b, &e.keys[j]);
        j = j + 1;
    }
    proof {
        assert forall|t: (u64, u64, u64, u64)| event_elems(e@).contains(t) implies bloom_items(
            *b,
        ).contains(t) by {
            if e@.from_address is Some && t == e@.from_address->Some_0.limbs() {
            } else {
                let k = choose|k: int| 0 <= k < e@.keys.len() && t == (#[trigger] e@.keys[k]).limbs();
                assert(bloom_items(*b).contains(e@.keys[k].limbs()));
            }
        }
    }
}

/// Inserts every element of every receipt into the filter.
fn bloom_add_receipts(b: &mut bloomfilter::Bloom<FieldElement>, rs: &Vec<TransactionReceipt>)
    requires
        1 <= bloom_geometry(*old(b)).0,
        bloom_geometry(*old(b)).0 <= bloom_geometry(*old(b)).1,
    ensures
        bloom_geometry(*final(b)) == bloom_geometry(*old(b)),
        bloom_items(*old(b)).union(receipts_bloom_elems(receipts_view(rs@))).subset_of(
            bloom_items(*final(b)),
        ),
{
    let mut i: usize = 0;
    while i < rs.len()
        invariant
            i <= rs.len(),
            1 <= bloom_geometry(*b).0,
            bloom_geometry(*b).0 <= bloom_geometry(*b).1,
            bloom_geometry(*b) == bloom_geometry(*old(b)),
            bloom_items(*old(b)).subset_of(bloom_items(*b)),
            forall|a: int, j: int|
                #![trigger event_elems(rs@[a]@.events[j])]
                0 <= a < i && 0 <= j < rs@[a]@.events.len() ==> event_elems(
                    rs@[a]@.events[j],
                ).subset_of(bloom_items(*b)),
        decreases rs.len() - i,
    {
        let receipt = &rs[i];
        let mut j: usize = 0;
        while j < receipt.events.len()
            invariant
                j <= receipt.events.len(),
                1 <= bloom_geometry(*b).0,
                bloom_geometry(*b).0 <= bloom_geometry(*b).1,
                bloom_geometry(*b) == bloom_geometry(*old(b)),
                bloom_items(*old(b)).subset_of(bloom_items(*b)),
                i < rs.len(),
                receipt == &rs@[i as int],
                forall|a: int, jj: int|
                    #![trigger event_elems(rs@[a]@.events[jj])]
                    0 <= a < i && 0 <= jj < rs@[a]@.events.len() ==> event_elems(
                        rs@[a]@.events[jj],
                    ).subset_of(bloom_items(*b)),
                forall|jj: int|
                    0 <= jj < j ==> event_elems((#[trigger] receipt@.events[jj])).subset_of(
                        bloom_items(*b),
                    ),
            decreases receipt.events.len() - j,
        {
            bloom_add_event(b, &receipt.events[j]);
            j = j + 1;
        }
        i = i + 1;
    }
    proof {
        assert forall|t: (u64, u64, u64, u64)|
            receipts_bloom_elems(receipts_view(rs@)).contains(t) implies bloom_items(*b).contains(
            t,
        ) by {
            let rv = receipts_view(rs@);
            let (a, j): (int, int) = choose|a: int, j: int|
                0 <= a < rv.len() && 0 <= j < (#[trigger] rv[a]).events.len() && (
                #[trigger] event_elems(rv[a].events[j])).contains(t);
            assert(rv[a] == rs@[a]@);
            assert(event_elems(rs@[a]@.events[j]).subset_of(bloom_items(*b)));
        }
    }
}

/// Builds the Bloom parameters for a block's receipts: a 256-byte filter
/// sized for twice the receipt count (plus one, so an empty block is legal),
/// populated from every event's address and keys.
pub fn build_receipts_bloom(receipts: &Vec<TransactionReceipt>) -> (r: RawBloom)
    ensures
        raw_covers(r@, receipts_view(receipts@)),
{
    let estimate_items = if receipts.len() < usize::MAX / 2 {
        receipts.len() * 2 + 1
    } else {
        usize::MAX
    };
    let mut bloom = bloom_new(256, estimate_items);
    bloom_add_receipts(&mut bloom, receipts);
    let raw = bloom_to_raw(&bloom);
    raw
}

/// Restores the runtime filter from persisted parameters: an empty byte
/// buffer or missing keys mean that no filter was stored.
pub fn restore_bloom(raw: &RawBloom) -> (r: Option<bloomfilter::Bloom<FieldElement>>)
    requires
        8 * raw.bytes@.len() <= usize::MAX,
    ensures
        match r {
            Some(b) => raw.bytes@.len() > 0 && raw@.hasher_keys is Some && bloom_items(b)
                == raw_view_items(raw@) && bloom_geometry(b) == (
            raw.bitmap_bits,
            ((8 * raw.bytes@.len()) as u64),
            ),
            None => raw.bytes@.len() == 0 || raw@.hasher_keys is None,
        },
{
    if raw.bytes.len() == 0 {
        return None;
    }
    match &raw.hasher_keys {
        None => None,
        Some(keys) => Some(
            bloom_from_raw(&raw.bytes, raw.bitmap_bits, raw.number_of_hash_functions, keys),
        ),
    }
}

} // verus!
