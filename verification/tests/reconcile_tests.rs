use absentis::cache::TransactionCache;
use absentis::errors::{ReconciliationError, TransactionValidatorError, TransportError};
use absentis::matcher::locations_of;
use absentis::reconcile::{
    parse_csv, resolve_pending, InvalidEntry, TransactionValidator, TxEntry,
};
use absentis::records::{
    ActionView, Address, LogView, ReceiptView, TraceView, TransactionView, Tx, TxHash, TxPart,
};

fn addr(b: u8) -> Address {
    Address::from_bytes(vec![b; 20]).unwrap()
}

fn hash(b: u8) -> TxHash {
    TxHash::from_bytes(vec![b; 32]).unwrap()
}

#[test]
fn csv_parses_header_and_rows() {
    let text = "blockNum,transactionIndex,location\n100,2,to\n101,0,from\n";
    let rows = parse_csv(text).expect("well-formed CSV");
    assert_eq!(rows.len(), 2);
    assert_eq!(rows[0].block_num, 100);
    assert_eq!(rows[0].transaction_index, 2);
    assert_eq!(rows[0].location, "to");
    assert_eq!(rows[1].block_num, 101);
    assert_eq!(rows[1].location, "from");
}

#[test]
fn csv_rejects_a_wrong_header() {
    assert!(matches!(
        parse_csv("block,index,location\n1,2,to"),
        Err(ReconciliationError::BadHeader)
    ));
    assert!(matches!(parse_csv(""), Err(ReconciliationError::BadHeader)));
}

#[test]
fn csv_rejects_misshapen_rows() {
    assert!(matches!(
        parse_csv("blockNum,transactionIndex,location\n1,2"),
        Err(ReconciliationError::BadRowShape)
    ));
    assert!(matches!(
        parse_csv("blockNum,transactionIndex,location\nx,2,to"),
        Err(ReconciliationError::BadNumber)
    ));
}

/// The location matcher on the designed scenario: receiver hit, one log
/// issuer hit at index zero, one nested call sender hit at trace index one.
#[test]
fn it_should_mirror() {
    let a = addr(0xaa);
    let other = addr(0xbb);
    let tx = Tx {
        transaction: Some(TransactionView {
            hash: hash(7),
            block_number: 100,
            transaction_index: 2,
            from: other.duplicate(),
            to: Some(a.duplicate()),
            input: vec![],
        }),
        receipt: Some(ReceiptView {
            transaction_hash: hash(7),
            contract_address: None,
            logs: vec![LogView { address: a.duplicate(), data: vec![], topics: vec![] }],
        }),
        traces: Some(vec![
            TraceView {
                transaction_hash: hash(7),
                trace_address: vec![],
                action: ActionView::Reward,
            },
            TraceView {
                transaction_hash: hash(7),
                trace_address: vec![],
                action: ActionView::Call {
                    from: a.duplicate(),
                    to: other.duplicate(),
                    input: vec![],
                },
            },
        ]),
        block: None,
    };
    let locations = locations_of(&tx, &a);
    assert_eq!(locations, vec!["to", "log_0_generator", "trace_1_from"]);
}

#[test]
fn matcher_labels_nested_paths_and_windows() {
    let a = addr(0xaa);
    let mut data = vec![0u8; 5];
    data.extend_from_slice(&[0xaa; 20]);
    let tx = Tx {
        transaction: None,
        receipt: Some(ReceiptView {
            transaction_hash: hash(7),
            contract_address: Some(a.duplicate()),
            logs: vec![LogView {
                address: addr(0xbb),
                data,
                topics: vec![vec![0u8; 32], [vec![0u8; 12], vec![0xaa; 20]].concat()],
            }],
        }),
        traces: Some(vec![
            TraceView {
                transaction_hash: hash(7),
                trace_address: vec![],
                action: ActionView::Reward,
            },
            TraceView {
                transaction_hash: hash(7),
                trace_address: vec![0, 2],
                action: ActionView::Suicide {
                    address: a.duplicate(),
                    refund_address: addr(0xbb),
                },
            },
        ]),
        block: None,
    };
    let locations = locations_of(&tx, &a);
    assert_eq!(
        locations,
        vec!["creation", "log_0_data", "log_0_topic_1", "trace_1_[0_2]_creation"]
    );
}

#[test]
fn miner_and_sender_rules_fire_independently() {
    let a = addr(0xaa);
    let tx = Tx {
        transaction: Some(TransactionView {
            hash: hash(7),
            block_number: 100,
            transaction_index: 2,
            from: a.duplicate(),
            to: None,
            input: vec![0xaa; 20],
        }),
        receipt: None,
        traces: None,
        block: Some(absentis::records::BlockHeaderView { number: 100, author: a.duplicate() }),
    };
    let locations = locations_of(&tx, &a);
    assert_eq!(locations, vec!["from", "input", "miner"]);
}

/// The designed reconciliation scenario: the CSV claims a position the
/// cache does not hold, and the live lookup then finds a transaction, so
/// the row is incorrect with the found hash attached.
#[test]
fn it_should_scan() {
    let cache = TransactionCache::new(addr(0xaa), 0, 1000);
    let v = TransactionValidator::new(
        "blockNum,transactionIndex,location\n100,2,to\n",
        cache,
        1000,
        addr(0xaa),
    )
    .expect("CSV parses");
    let (found, pending) = v.scan().expect("no corruption");
    assert!(found.is_empty());
    assert_eq!(pending.len(), 1);
    assert_eq!(pending[0].block_num, 100);
    assert_eq!(pending[0].transaction_index, 2);
    let entry = pending.into_iter().next().unwrap();
    let outcome = resolve_pending(entry, Ok(Some(hash(9))));
    match outcome {
        InvalidEntry::Incorrect(e, Some(h)) => {
            assert_eq!(e.block_num, 100);
            assert_eq!(h.bytes, vec![9u8; 32]);
        }
        _ => panic!("an unmatched row with a live hit is incorrect with that hash"),
    }
}

#[test]
fn a_failed_live_lookup_is_reported_not_fatal() {
    let confirmed_absent = TxEntry {
        block_num: 100,
        transaction_index: 2,
        location: String::from("to"),
    };
    match resolve_pending(confirmed_absent, Ok(None)) {
        InvalidEntry::Incorrect(_, None) => {}
        _ => panic!("a confirmed absence is a spurious row"),
    }
    let unreachable_entry = TxEntry {
        block_num: 100,
        transaction_index: 2,
        location: String::from("to"),
    };
    let outcome = resolve_pending(
        unreachable_entry,
        Err(TransportError::Failed(String::from("connection refused"))),
    );
    match &outcome {
        InvalidEntry::Unchecked(e, TransportError::Failed(m)) => {
            assert_eq!(e.block_num, 100);
            assert_eq!(m, "connection refused");
        }
        _ => panic!("a lost lookup is reported as unchecked, not as absent"),
    }
    assert_eq!(
        outcome.describe(),
        "Could not check Entry at block: 100, index: 2, location: to: connection refused"
    );
}

/// The missing scenario: the cached record derives `from`, but no CSV row
/// for that hash claims it.
#[test]
fn scan_reports_unclaimed_derived_locations_as_missing() {
    let a = addr(0xaa);
    let mut cache = TransactionCache::new(a.duplicate(), 0, 1000);
    cache.insert(TxPart::Transaction(TransactionView {
        hash: hash(7),
        block_number: 100,
        transaction_index: 2,
        from: a.duplicate(),
        to: None,
        input: vec![],
    }));
    let v = TransactionValidator::new(
        "blockNum,transactionIndex,location\n100,2,to\n",
        cache,
        1000,
        a,
    )
    .expect("CSV parses");
    let (found, pending) = v.scan().expect("no corruption");
    assert!(pending.is_empty());
    // the claimed "to" is not derived, and the derived "from" is not claimed
    assert_eq!(found.len(), 2);
    match &found[0] {
        InvalidEntry::Incorrect(e, Some(h)) => {
            assert_eq!(e.location, "to");
            assert_eq!(h.bytes, vec![7u8; 32]);
        }
        _ => panic!("the unmatched claim is incorrect with the cached hash"),
    }
    match &found[1] {
        InvalidEntry::Missing(h) => assert_eq!(h.bytes, vec![7u8; 32]),
        _ => panic!("the underived location is missing"),
    }
}

#[test]
fn scan_accepts_a_fully_claimed_record() {
    let a = addr(0xaa);
    let mut cache = TransactionCache::new(a.duplicate(), 0, 1000);
    cache.insert(TxPart::Transaction(TransactionView {
        hash: hash(7),
        block_number: 100,
        transaction_index: 2,
        from: a.duplicate(),
        to: None,
        input: vec![],
    }));
    let v = TransactionValidator::new(
        "blockNum,transactionIndex,location\n100,2,from\n",
        cache,
        1000,
        a,
    )
    .expect("CSV parses");
    let (found, pending) = v.scan().expect("no corruption");
    assert!(found.is_empty());
    assert!(pending.is_empty());
}

#[test]
fn scan_surfaces_cache_corruption_as_an_error() {
    let a = addr(0xaa);
    let mut cache = TransactionCache::new(a.duplicate(), 0, 1000);
    let mk = |h: u8| TransactionView {
        hash: hash(h),
        block_number: 100,
        transaction_index: 2,
        from: addr(0xbb),
        to: None,
        input: vec![],
    };
    cache.insert(TxPart::Transaction(mk(7)));
    cache.insert(TxPart::Transaction(mk(8)));
    let v = TransactionValidator::new(
        "blockNum,transactionIndex,location\n100,2,from\n",
        cache,
        1000,
        a,
    )
    .expect("CSV parses");
    match v.scan() {
        Err(TransactionValidatorError::Cache(_)) => {}
        _ => panic!("two slots at one position must be reported, not trusted"),
    }
}

#[test]
fn report_lines_are_rendered_exactly() {
    let e = TxEntry { block_num: 100, transaction_index: 2, location: String::from("to") };
    assert_eq!(e.describe(), "block: 100, index: 2, location: to");
    let inc = InvalidEntry::Incorrect(e, Some(hash(0xab)));
    assert_eq!(
        inc.describe(),
        "Incorrect Entry at block: 100, index: 2, location: to with hash: abababababababababababababababababababababababababababababababab"
    );
    let e2 = TxEntry { block_num: 1, transaction_index: 0, location: String::from("x") };
    let inc2 = InvalidEntry::Incorrect(e2, None);
    assert_eq!(
        inc2.describe(),
        "Incorrect Entry at block: 1, index: 0, location: x, Transaction does not exist"
    );
    let miss = InvalidEntry::Missing(hash(0x01));
    assert_eq!(
        miss.describe(),
        "Missing Transaction 0101010101010101010101010101010101010101010101010101010101010101"
    );
}

#[test]
fn rows_sharing_a_position_are_judged_once_as_a_group() {
    let a = addr(0xaa);
    let mut cache = TransactionCache::new(a.duplicate(), 0, 1000);
    cache.insert(TxPart::Transaction(TransactionView {
        hash: hash(7),
        block_number: 100,
        transaction_index: 2,
        from: a.duplicate(),
        to: None,
        input: vec![],
    }));
    // two rows claim the same position: "from" is derived, "to" is not;
    // the derived-but-unclaimed check runs once for the group
    let v = TransactionValidator::new(
        "blockNum,transactionIndex,location\n100,2,from\n100,2,to\n",
        cache,
        1000,
        a,
    )
    .expect("CSV parses");
    let (found, pending) = v.scan().expect("no corruption");
    assert!(pending.is_empty());
    assert_eq!(found.len(), 1);
    match &found[0] {
        InvalidEntry::Incorrect(e, Some(_)) => assert_eq!(e.location, "to"),
        _ => panic!("only the unmatched claim is reported"),
    }
}
