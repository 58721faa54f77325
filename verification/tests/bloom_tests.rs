use chain_indexer::block::BlockStatus;
use chain_indexer::block::Event;
use chain_indexer::block::FieldElement;
use chain_indexer::block::GlobalBlockId;
use chain_indexer::block::TransactionReceipt;
use chain_indexer::bloom::build_receipts_bloom;
use chain_indexer::bloom::restore_bloom;
use chain_indexer::storage::DatabaseStorage;
use chain_indexer::storage::StorageReader;
use chain_indexer::storage::StorageWriter;

fn fe(v: u64) -> FieldElement {
    FieldElement::from_u64(v)
}

fn receipts_with_event(from: FieldElement, keys: Vec<FieldElement>) -> Vec<TransactionReceipt> {
    vec![TransactionReceipt {
        transaction_index: 0,
        events: vec![Event { from_address: Some(from), keys, data: vec![] }],
    }]
}

#[test]
fn bloom_round_trip_reports_inserted_elements() {
    let a = fe(1001);
    let k1 = fe(1002);
    let k2 = fe(1003);
    let receipts = receipts_with_event(a, vec![k1, k2]);

    let raw = build_receipts_bloom(&receipts);
    assert!(!raw.bytes.is_empty());
    assert!(raw.hasher_keys.is_some());

    let restored = restore_bloom(&raw).expect("non-empty parameters restore a filter");
    assert!(restored.check(&a));
    assert!(restored.check(&k1));
    assert!(restored.check(&k2));
}

#[test]
fn bloom_distinguishes_unrelated_filters() {
    // Two filters built over disjoint elements must not be byte-identical:
    // the serialized bitmap really reflects what was inserted.
    let first = build_receipts_bloom(&receipts_with_event(fe(1), vec![fe(2)]));
    let empty = build_receipts_bloom(&Vec::new());
    assert!(first.bytes.iter().any(|b| *b != 0));
    assert!(empty.bytes.iter().all(|b| *b == 0));
}

#[test]
fn empty_parameters_restore_nothing() {
    let mut raw = build_receipts_bloom(&Vec::new());
    raw.bytes = Vec::new();
    assert!(restore_bloom(&raw).is_none());
}

#[test]
fn missing_hasher_keys_restore_nothing() {
    let mut raw = build_receipts_bloom(&Vec::new());
    raw.hasher_keys = None;
    assert!(restore_bloom(&raw).is_none());
}

#[test]
fn stored_bloom_round_trips_through_the_engine() {
    let a = fe(501);
    let k1 = fe(502);
    let k2 = fe(503);
    let storage = DatabaseStorage::new();
    let id = GlobalBlockId::new(100, fe(7));

    let mut writer = storage.begin_txn();
    writer.write_receipts(&id, receipts_with_event(a, vec![k1, k2])).unwrap();
    writer.write_status(&id, BlockStatus::AcceptedOnL2).unwrap();
    let storage = writer.commit();

    let (receipts, bloom) = storage.read_receipts(&id).unwrap();
    assert_eq!(receipts.len(), 1);
    let bloom = bloom.expect("receipts written through the engine carry a bloom");
    assert!(bloom.check(&a));
    assert!(bloom.check(&k1));
    assert!(bloom.check(&k2));
}
