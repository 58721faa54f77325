use chain_indexer::block::BlockBody;
use chain_indexer::block::BlockHeader;
use chain_indexer::block::BlockStatus;
use chain_indexer::block::Event;
use chain_indexer::block::FieldElement;
use chain_indexer::block::GlobalBlockId;
use chain_indexer::block::StateUpdate;
use chain_indexer::block::Transaction;
use chain_indexer::block::TransactionReceipt;
use chain_indexer::storage::DatabaseStorage;
use chain_indexer::storage::StorageReader;
use chain_indexer::storage::StorageWriter;
use chain_indexer::StoreError;

fn fe(v: u64) -> FieldElement {
    FieldElement::from_u64(v)
}

fn sample_header(id: &GlobalBlockId) -> BlockHeader {
    BlockHeader {
        block_hash: id.hash,
        parent_block_hash: fe(1),
        block_number: id.number,
        timestamp: 1_600_000_000,
    }
}

fn sample_body() -> BlockBody {
    BlockBody {
        transactions: vec![
            Transaction { hash: fe(11), transaction_index: 0 },
            Transaction { hash: fe(12), transaction_index: 1 },
        ],
    }
}

fn sample_receipts() -> Vec<TransactionReceipt> {
    vec![TransactionReceipt {
        transaction_index: 0,
        events: vec![Event {
            from_address: Some(fe(77)),
            keys: vec![fe(78), fe(79)],
            data: vec![fe(80)],
        }],
    }]
}

/// Writes a full block and commits, returning the new storage handle.
fn commit_block(storage: &DatabaseStorage, id: &GlobalBlockId, status: BlockStatus) -> DatabaseStorage {
    let mut writer = storage.begin_txn();
    writer.write_header(id, sample_header(id)).unwrap();
    writer.write_body(id, sample_body()).unwrap();
    writer.write_receipts(id, sample_receipts()).unwrap();
    writer
        .write_state_update(id, StateUpdate { old_root: fe(5), new_root: fe(6) })
        .unwrap();
    writer.write_status(id, status).unwrap();
    writer.extend_canonical_chain(id).unwrap();
    writer.commit()
}

#[test]
fn empty_store_reads_nothing() {
    let storage = DatabaseStorage::new();
    assert_eq!(storage.highest_accepted_block().unwrap(), None);
    assert_eq!(storage.highest_finalized_block().unwrap(), None);
    assert_eq!(storage.canonical_block_id(0).unwrap(), None);
}

#[test]
fn single_block_happy_path() {
    let storage = DatabaseStorage::new();
    let id = GlobalBlockId::new(21600, fe(42));
    let storage = commit_block(&storage, &id, BlockStatus::AcceptedOnL2);

    assert_eq!(storage.canonical_block_id(21600).unwrap(), Some(id));
    assert_eq!(storage.read_status(&id).unwrap(), Some(BlockStatus::AcceptedOnL2));
    assert_eq!(storage.read_body(&id).unwrap().len(), 2);
    let (receipts, bloom) = storage.read_receipts(&id).unwrap();
    assert_eq!(receipts.len(), 1);
    assert!(bloom.is_some());
    assert_eq!(storage.read_header(&id).unwrap(), Some(sample_header(&id)));
    assert_eq!(
        storage.read_state_update(&id).unwrap(),
        Some(StateUpdate { old_root: fe(5), new_root: fe(6) })
    );
    assert_eq!(storage.highest_accepted_block().unwrap(), Some(id));
}

#[test]
fn reorg_removes_canonical_entry_and_keeps_payload() {
    let storage = DatabaseStorage::new();
    let id = GlobalBlockId::new(21600, fe(42));
    let storage = commit_block(&storage, &id, BlockStatus::AcceptedOnL2);

    let mut writer = storage.begin_txn();
    writer.reject_block_from_canonical_chain(&id).unwrap();
    let storage = writer.commit();

    assert_eq!(storage.canonical_block_id(21600).unwrap(), None);
    assert_eq!(storage.read_status(&id).unwrap(), Some(BlockStatus::Rejected));
    assert_eq!(storage.read_header(&id).unwrap(), Some(sample_header(&id)));
    assert_eq!(storage.read_body(&id).unwrap().len(), 2);
}

#[test]
fn reject_with_other_hash_is_a_no_op() {
    let storage = DatabaseStorage::new();
    let id = GlobalBlockId::new(21600, fe(42));
    let storage = commit_block(&storage, &id, BlockStatus::AcceptedOnL2);

    let other = GlobalBlockId::new(21600, fe(43));
    let mut writer = storage.begin_txn();
    writer.reject_block_from_canonical_chain(&other).unwrap();
    let storage = writer.commit();

    assert_eq!(storage.canonical_block_id(21600).unwrap(), Some(id));
    assert_eq!(storage.read_status(&id).unwrap(), Some(BlockStatus::AcceptedOnL2));
}

#[test]
fn finalize_marks_highest_finalized() {
    let storage = DatabaseStorage::new();
    let id = GlobalBlockId::new(21600, fe(42));
    let storage = commit_block(&storage, &id, BlockStatus::AcceptedOnL2);

    let mut writer = storage.begin_txn();
    writer.write_status(&id, BlockStatus::AcceptedOnL1).unwrap();
    let storage = writer.commit();

    assert_eq!(storage.highest_finalized_block().unwrap(), Some(id));
}

#[test]
fn dropped_writer_leaves_no_trace() {
    let storage = DatabaseStorage::new();
    let id = GlobalBlockId::new(7, fe(9));
    {
        let mut writer = storage.begin_txn();
        writer.write_header(&id, sample_header(&id)).unwrap();
        writer.write_body(&id, sample_body()).unwrap();
        writer.write_receipts(&id, sample_receipts()).unwrap();
        writer.write_status(&id, BlockStatus::AcceptedOnL2).unwrap();
        writer.extend_canonical_chain(&id).unwrap();
        // dropped without commit
    }
    assert_eq!(storage.canonical_block_id(7).unwrap(), None);
    assert_eq!(storage.read_status(&id).unwrap(), None);
    assert_eq!(storage.read_header(&id).unwrap(), None);
    assert_eq!(storage.read_body(&id).unwrap().len(), 0);
    let (receipts, bloom) = storage.read_receipts(&id).unwrap();
    assert_eq!(receipts.len(), 0);
    assert!(bloom.is_none());
    assert_eq!(storage.highest_accepted_block().unwrap(), None);
}

#[test]
fn tip_follows_highest_extension() {
    let storage = DatabaseStorage::new();
    let lower = GlobalBlockId::new(10, fe(1));
    let higher = GlobalBlockId::new(11, fe(2));
    let storage = commit_block(&storage, &lower, BlockStatus::AcceptedOnL2);
    assert_eq!(storage.highest_accepted_block().unwrap(), Some(lower));
    let storage = commit_block(&storage, &higher, BlockStatus::AcceptedOnL2);
    assert_eq!(storage.highest_accepted_block().unwrap(), Some(higher));
}

#[test]
fn finalized_walk_picks_greatest_finalized_entry() {
    let storage = DatabaseStorage::new();
    let a = GlobalBlockId::new(1, fe(1));
    let b = GlobalBlockId::new(2, fe(2));
    let c = GlobalBlockId::new(3, fe(3));
    let storage = commit_block(&storage, &a, BlockStatus::AcceptedOnL1);
    let storage = commit_block(&storage, &b, BlockStatus::AcceptedOnL1);
    let storage = commit_block(&storage, &c, BlockStatus::AcceptedOnL2);
    assert_eq!(storage.highest_finalized_block().unwrap(), Some(b));
}

#[test]
fn canonical_entry_without_status_is_inconsistent() {
    let storage = DatabaseStorage::new();
    let id = GlobalBlockId::new(5, fe(5));
    let mut writer = storage.begin_txn();
    writer.extend_canonical_chain(&id).unwrap();
    let storage = writer.commit();
    assert_eq!(storage.highest_finalized_block(), Err(StoreError::Inconsistent));
}

#[test]
fn extend_overwrites_competing_hash_at_same_height() {
    let storage = DatabaseStorage::new();
    let first = GlobalBlockId::new(4, fe(40));
    let second = GlobalBlockId::new(4, fe(41));
    let storage = commit_block(&storage, &first, BlockStatus::AcceptedOnL2);
    let storage = commit_block(&storage, &second, BlockStatus::AcceptedOnL2);
    assert_eq!(storage.canonical_block_id(4).unwrap(), Some(second));
    assert_eq!(storage.highest_accepted_block().unwrap(), Some(second));
}

#[test]
fn last_write_wins_within_one_transaction() {
    let storage = DatabaseStorage::new();
    let id = GlobalBlockId::new(8, fe(8));
    let mut writer = storage.begin_txn();
    writer.write_status(&id, BlockStatus::Pending).unwrap();
    writer.write_status(&id, BlockStatus::AcceptedOnL2).unwrap();
    let storage = writer.commit();
    assert_eq!(storage.read_status(&id).unwrap(), Some(BlockStatus::AcceptedOnL2));
}

#[test]
fn rejected_block_can_be_recanonicalized() {
    // Payload rows survive a reorg, so a later writer can re-adopt the block.
    let storage = DatabaseStorage::new();
    let id = GlobalBlockId::new(6, fe(60));
    let storage = commit_block(&storage, &id, BlockStatus::AcceptedOnL2);

    let mut writer = storage.begin_txn();
    writer.reject_block_from_canonical_chain(&id).unwrap();
    let storage = writer.commit();
    assert_eq!(storage.canonical_block_id(6).unwrap(), None);

    let mut writer = storage.begin_txn();
    writer.write_status(&id, BlockStatus::AcceptedOnL2).unwrap();
    writer.extend_canonical_chain(&id).unwrap();
    let storage = writer.commit();
    assert_eq!(storage.canonical_block_id(6).unwrap(), Some(id));
    assert_eq!(storage.read_header(&id).unwrap(), Some(sample_header(&id)));
}

#[test]
fn empty_receipts_still_carry_a_bloom() {
    let storage = DatabaseStorage::new();
    let id = GlobalBlockId::new(9, fe(90));
    let mut writer = storage.begin_txn();
    writer.write_receipts(&id, Vec::new()).unwrap();
    let storage = writer.commit();
    let (receipts, bloom) = storage.read_receipts(&id).unwrap();
    assert_eq!(receipts.len(), 0);
    assert!(bloom.is_some());
}
