use gas_estimate::chain::{
    BlockBody, BlockBodyReader, BlockBodyWriter, BodyTables, ChainSpec, EthStorage, Header,
    StorageError, StorageLocation, StorageProvider, Withdrawal,
};

fn provider() -> StorageProvider {
    StorageProvider {
        chain_spec: ChainSpec { shanghai_time: Some(1_000), paris_block: Some(100) },
        tables: BodyTables::new(),
    }
}

fn withdrawal(index: u64) -> Withdrawal {
    Withdrawal { index, validator_index: index, address: 7, amount: 100 }
}

fn header(number: u64, timestamp: u64) -> Header {
    Header { number, timestamp }
}

fn body(
    transactions: Vec<u32>,
    ommers: Vec<Header>,
    withdrawals: Option<Vec<Withdrawal>>,
) -> BlockBody<u32> {
    BlockBody { transactions, ommers, withdrawals }
}

#[test]
fn write_then_read_roundtrip() {
    let storage = EthStorage::default();
    let mut p = provider();
    let bodies = vec![
        (
            1u64,
            Some(body(vec![11, 22], vec![header(0, 1)], None)),
        ),
        (
            200u64,
            Some(body(vec![33], Vec::new(), Some(vec![withdrawal(1)]))),
        ),
    ];
    let w = storage.write_block_bodies(&mut p, bodies, StorageLocation::Database);
    assert!(w.is_ok());

    let inputs = vec![
        (header(1, 500), vec![11u32, 22]),
        (header(200, 2_000), vec![33u32]),
    ];
    let read = storage.read_block_bodies(&p, inputs).unwrap();
    assert_eq!(read.len(), 2);
    // Block 1: before the merge and before Shanghai — stored ommers, no
    // withdrawal list.
    assert_eq!(read[0].transactions, vec![11, 22]);
    assert_eq!(read[0].ommers, vec![header(0, 1)]);
    assert!(read[0].withdrawals.is_none());
    // Block 200: past the merge and past Shanghai — no ommers, the stored
    // withdrawal list.
    assert_eq!(read[1].transactions, vec![33]);
    assert!(read[1].ommers.is_empty());
    assert_eq!(read[1].withdrawals, Some(vec![withdrawal(1)]));
}

#[test]
fn absent_bodies_and_empty_lists_write_nothing() {
    let storage = EthStorage::default();
    let mut p = provider();
    let bodies: Vec<(u64, Option<BlockBody<u32>>)> = vec![
        (5, None),
        (6, Some(body(vec![1], Vec::new(), Some(Vec::new())))),
    ];
    let w = storage.write_block_bodies(&mut p, bodies, StorageLocation::Database);
    assert!(w.is_ok());
    assert!(p.tables.ommers.is_empty());
    assert!(p.tables.withdrawals.is_empty());
}

#[test]
fn non_ascending_append_fails() {
    let storage = EthStorage::default();
    let mut p = provider();
    let bodies = vec![
        (10u64, Some(body(vec![1], vec![header(9, 1)], None))),
        (10u64, Some(body(vec![2], vec![header(9, 2)], None))),
    ];
    let w = storage.write_block_bodies(&mut p, bodies, StorageLocation::Database);
    assert_eq!(w, Err(StorageError::NonAscendingKey));
}

#[test]
fn remove_block_bodies_above_unwinds_both_tables() {
    let storage = EthStorage::default();
    let mut p = provider();
    let bodies = vec![
        (1u64, Some(body(vec![1], vec![header(0, 1)], Some(vec![withdrawal(1)])))),
        (2u64, Some(body(vec![2], vec![header(1, 1)], Some(vec![withdrawal(2)])))),
        (3u64, Some(body(vec![3], vec![header(2, 1)], Some(vec![withdrawal(3)])))),
    ];
    let w = storage.write_block_bodies(&mut p, bodies, StorageLocation::Database);
    assert!(w.is_ok());
    let r = <EthStorage as BlockBodyWriter<StorageProvider, u32>>::remove_block_bodies_above(
        &storage,
        &mut p,
        1,
        StorageLocation::Database,
    );
    assert!(r.is_ok());
    assert_eq!(p.tables.ommers.len(), 1);
    assert_eq!(p.tables.ommers[0].0, 1);
    assert_eq!(p.tables.withdrawals.len(), 1);
    assert_eq!(p.tables.withdrawals[0].0, 1);
}

#[test]
fn remove_above_rolls_a_later_write_back() {
    let storage = EthStorage::default();
    let mut p = provider();
    // Prior state: one block at the unwind height.
    let base = vec![(1u64, Some(body(vec![1], vec![header(0, 1)], Some(vec![withdrawal(1)]))))];
    assert!(storage.write_block_bodies(&mut p, base, StorageLocation::Database).is_ok());
    // A later batch, wholly above the unwind height.
    let batch = vec![
        (2u64, Some(body(vec![2], vec![header(1, 1)], Some(vec![withdrawal(2)])))),
        (3u64, Some(body(vec![3], vec![header(2, 1)], Some(vec![withdrawal(3)])))),
    ];
    assert!(storage.write_block_bodies(&mut p, batch, StorageLocation::Database).is_ok());
    assert_eq!(p.tables.ommers.len(), 3);
    // Unwinding above the height restores the prior tables exactly.
    let r = <EthStorage as BlockBodyWriter<StorageProvider, u32>>::remove_block_bodies_above(
        &storage,
        &mut p,
        1,
        StorageLocation::Database,
    );
    assert!(r.is_ok());
    assert_eq!(p.tables.ommers.len(), 1);
    assert_eq!(p.tables.ommers[0].0, 1);
    assert_eq!(p.tables.ommers[0].1.ommers, vec![header(0, 1)]);
    assert_eq!(p.tables.withdrawals.len(), 1);
    assert_eq!(p.tables.withdrawals[0].0, 1);
    assert_eq!(p.tables.withdrawals[0].1.withdrawals, vec![withdrawal(1)]);
}

#[test]
fn failed_batch_keeps_existing_entries() {
    let storage = EthStorage::default();
    let mut p = provider();
    let base = vec![(5u64, Some(body(vec![1], vec![header(4, 1)], None)))];
    assert!(storage.write_block_bodies(&mut p, base, StorageLocation::Database).is_ok());
    // The second entry appends out of order, so the batch fails; the
    // entry written before it, and the prior table, survive as a prefix.
    let batch = vec![
        (7u64, Some(body(vec![2], vec![header(6, 1)], None))),
        (6u64, Some(body(vec![3], vec![header(5, 1)], None))),
    ];
    let w = storage.write_block_bodies(&mut p, batch, StorageLocation::Database);
    assert_eq!(w, Err(StorageError::NonAscendingKey));
    assert_eq!(p.tables.ommers.len(), 2);
    assert_eq!(p.tables.ommers[0].0, 5);
    assert_eq!(p.tables.ommers[1].0, 7);
}

#[test]
fn post_shanghai_block_without_stored_withdrawals_gets_empty_list() {
    let storage = EthStorage::default();
    let p = provider();
    let inputs = vec![(header(300, 5_000), vec![9u32])];
    let read = storage.read_block_bodies(&p, inputs).unwrap();
    assert_eq!(read.len(), 1);
    assert_eq!(read[0].withdrawals, Some(Vec::new()));
    assert!(read[0].ommers.is_empty());
}

#[test]
fn hardfork_activation_predicates() {
    let cs = ChainSpec { shanghai_time: Some(1_000), paris_block: Some(100) };
    assert!(!cs.is_shanghai_active_at_timestamp(999));
    assert!(cs.is_shanghai_active_at_timestamp(1_000));
    assert!(cs.is_shanghai_active_at_timestamp(2_000));
    assert!(!cs.is_paris_active_at_block(99));
    assert!(cs.is_paris_active_at_block(100));
    let never = ChainSpec { shanghai_time: None, paris_block: None };
    assert!(!never.is_shanghai_active_at_timestamp(u64::MAX));
    assert!(!never.is_paris_active_at_block(u64::MAX));
}

#[test]
fn pre_paris_block_without_stored_ommers_gets_empty_ommers() {
    let storage = EthStorage::default();
    let p = provider();
    let inputs = vec![(header(50, 500), vec![1u32])];
    let read = storage.read_block_bodies(&p, inputs).unwrap();
    assert_eq!(read.len(), 1);
    assert!(read[0].ommers.is_empty());
    assert!(read[0].withdrawals.is_none());
}
