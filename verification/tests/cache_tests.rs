use absentis::cache::TransactionCache;
use absentis::errors::CacheError;
use absentis::persist::{cache_from_bytes, cache_to_bytes};
use absentis::records::{
    ActionView, Address, BlockHeaderView, LogView, ReceiptView, TraceView, TransactionView, TxHash,
    TxPart,
};

fn addr(b: u8) -> Address {
    Address::from_bytes(vec![b; 20]).unwrap()
}

fn hash(b: u8) -> TxHash {
    TxHash::from_bytes(vec![b; 32]).unwrap()
}

fn sample_transaction(h: u8, block: u64, index: u32) -> TransactionView {
    TransactionView {
        hash: hash(h),
        block_number: block,
        transaction_index: index,
        from: addr(0xaa),
        to: Some(addr(0xbb)),
        input: vec![1, 2, 3],
    }
}

fn sample_receipt(h: u8) -> ReceiptView {
    ReceiptView {
        transaction_hash: hash(h),
        contract_address: None,
        logs: vec![LogView {
            address: addr(0xcc),
            data: vec![9, 9],
            topics: vec![vec![0u8; 32]],
        }],
    }
}

fn sample_traces(h: u8) -> Vec<TraceView> {
    vec![
        TraceView {
            transaction_hash: hash(h),
            trace_address: vec![],
            action: ActionView::Reward,
        },
        TraceView {
            transaction_hash: hash(h),
            trace_address: vec![0, 1],
            action: ActionView::Create { from: addr(0xaa) },
        },
    ]
}

fn sample_block(number: u64) -> BlockHeaderView {
    BlockHeaderView { number, author: addr(0xdd) }
}

#[test]
fn inserting_the_same_part_twice_changes_nothing() {
    // merge idempotence, observed through the serialized image
    let mut once = TransactionCache::new(addr(1), 0, 1000);
    once.insert(TxPart::Transaction(sample_transaction(7, 100, 2)));
    let mut twice = TransactionCache::new(addr(1), 0, 1000);
    twice.insert(TxPart::Transaction(sample_transaction(7, 100, 2)));
    twice.insert(TxPart::Transaction(sample_transaction(7, 100, 2)));
    assert_eq!(cache_to_bytes(&once), cache_to_bytes(&twice));
    assert_eq!(once.entries.len(), 1);
}

#[test]
fn all_four_views_merge_whatever_the_order() {
    let part = |k: u8| -> TxPart {
        match k {
            0 => TxPart::Transaction(sample_transaction(7, 100, 2)),
            1 => TxPart::Receipt(sample_receipt(7)),
            2 => TxPart::Traces(hash(7), sample_traces(7)),
            _ => TxPart::BlockHeader(hash(7), sample_block(100)),
        }
    };
    let orders: Vec<[u8; 4]> = vec![[0, 1, 2, 3], [3, 2, 1, 0], [2, 0, 3, 1]];
    let mut images: Vec<Vec<u8>> = Vec::new();
    for order in &orders {
        let mut c = TransactionCache::new(addr(1), 0, 1000);
        for k in order.iter() {
            c.insert(part(*k));
        }
        assert_eq!(c.entries.len(), 1);
        let h = hash(7);
        let tx = c.get(&h).expect("the slot exists");
        assert!(tx.transaction.is_some());
        assert!(tx.receipt.is_some());
        assert!(tx.traces.is_some());
        assert!(tx.block.is_some());
        images.push(cache_to_bytes(&c));
    }
    assert_eq!(images[0], images[1]);
    assert_eq!(images[0], images[2]);
}

#[test]
fn parts_for_different_hashes_get_their_own_slots() {
    let mut c = TransactionCache::new(addr(1), 0, 1000);
    c.insert(TxPart::Transaction(sample_transaction(7, 100, 2)));
    c.insert(TxPart::Transaction(sample_transaction(8, 101, 0)));
    assert_eq!(c.entries.len(), 2);
    let h7 = hash(7);
    let h8 = hash(8);
    let h9 = hash(9);
    assert!(c.get(&h7).is_some());
    assert!(c.get(&h8).is_some());
    assert!(c.get(&h9).is_none());
}

#[test]
fn lookup_finds_the_one_transaction_at_a_position() {
    let mut c = TransactionCache::new(addr(1), 0, 1000);
    c.insert(TxPart::Transaction(sample_transaction(7, 100, 2)));
    c.insert(TxPart::Transaction(sample_transaction(8, 101, 0)));
    let found = c.lookup_by_block_and_index(100, 2).expect("no corruption");
    assert_eq!(found.map(|h| h.bytes), Some(vec![7u8; 32]));
    let absent = c.lookup_by_block_and_index(100, 3).expect("no corruption");
    assert!(absent.is_none());
}

#[test]
fn a_duplicated_position_is_a_fatal_invariant_violation() {
    let mut c = TransactionCache::new(addr(1), 0, 1000);
    c.insert(TxPart::Transaction(sample_transaction(7, 100, 2)));
    c.insert(TxPart::Transaction(sample_transaction(8, 100, 2)));
    assert!(matches!(
        c.lookup_by_block_and_index(100, 2),
        Err(CacheError::DuplicateBlockIndex)
    ));
}

#[test]
fn tx_by_blocknum_finds_a_hash_in_that_block() {
    let mut c = TransactionCache::new(addr(1), 0, 1000);
    assert!(!c.is_populated());
    c.insert(TxPart::Transaction(sample_transaction(7, 988725, 0)));
    assert!(c.is_populated());
    assert_eq!(c.tx_by_blocknum(988725).map(|h| h.bytes), Some(vec![7u8; 32]));
    assert!(c.tx_by_blocknum(1).is_none());
}

#[test]
fn persisted_cache_loads_back_identically() {
    let mut c = TransactionCache::new(addr(1), 0, 1000);
    c.insert(TxPart::Transaction(sample_transaction(7, 100, 2)));
    c.insert(TxPart::Receipt(sample_receipt(7)));
    c.insert(TxPart::Traces(hash(7), sample_traces(7)));
    c.insert(TxPart::BlockHeader(hash(7), sample_block(100)));
    c.insert(TxPart::Transaction(sample_transaction(8, 101, 0)));
    let bytes = cache_to_bytes(&c);
    let loaded = cache_from_bytes(&bytes).expect("own image loads");
    assert_eq!(loaded.address.bytes, c.address.bytes);
    assert_eq!(loaded.from_block, 0);
    assert_eq!(loaded.to_block, 1000);
    assert_eq!(loaded.entries.len(), 2);
    // the round trip is exact: re-serializing gives the same image
    assert_eq!(cache_to_bytes(&loaded), bytes);
}

#[test]
fn corrupt_persisted_bytes_are_refused() {
    assert!(matches!(
        cache_from_bytes(&[]),
        Err(CacheError::CorruptPersistedData)
    ));
    let mut c = TransactionCache::new(addr(1), 0, 1000);
    c.insert(TxPart::Transaction(sample_transaction(7, 100, 2)));
    let mut bytes = cache_to_bytes(&c);
    bytes.push(0);
    // trailing garbage is refused
    assert!(matches!(
        cache_from_bytes(&bytes),
        Err(CacheError::CorruptPersistedData)
    ));
}
