use absentis::client::{infura_url, ClientBuilder, LogLevel, MAX_PARALLEL_REQUESTS};
use absentis::errors::TransactionFinderError;
use absentis::explorer::{
    explorer_list_from_json, internal_txlist_url, merge_hash_lists, txlist_url,
};
use absentis::fetch::crawl_range;
use absentis::filter::filter_chunks;
use absentis::records::{Address, TxHash};
use absentis::errors::ClientError;
use absentis::explorer::SortType;
use absentis::filter::{ProbeStep, TraceFilterCall};
use absentis::response::{receipt_from_json, trace_from_json, traces_from_json};

#[test]
fn verbosity_flags_map_to_levels() {
    assert_eq!(LogLevel::from_occurrences(0), LogLevel::Quiet);
    assert_eq!(LogLevel::from_occurrences(1), LogLevel::Pleasant);
    assert_eq!(LogLevel::from_occurrences(2), LogLevel::Tolerable);
    assert_eq!(LogLevel::from_occurrences(3), LogLevel::InsaneMode);
    assert_eq!(LogLevel::from_occurrences(17), LogLevel::InsaneMode);
}

#[test]
fn http_configuration_needs_a_url() {
    let b = ClientBuilder::http();
    match b.build() {
        Err(ClientError::MustSpecify(what)) => assert_eq!(what, "URL"),
        _ => panic!("a URL-less configuration must name what is missing"),
    }
    let mut b2 = ClientBuilder::http();
    b2.url(String::from("http://localhost:8545"));
    let c = b2.build().expect("complete configuration");
    assert_eq!(c.url, "http://localhost:8545");
    assert_eq!(c.max_parallel, MAX_PARALLEL_REQUESTS);
    let mut b3 = ClientBuilder::http();
    b3.url(String::from("http://localhost:8545"));
    b3.max_parallel(4);
    assert_eq!(b3.build().unwrap().max_parallel, 4);
}

#[test]
fn ipc_configuration_needs_a_path() {
    let b = ClientBuilder::ipc();
    assert!(matches!(b.build(), Err(ClientError::MustSpecify(_))));
    let mut b2 = ClientBuilder::ipc();
    b2.path(String::from("/var/run/node.ipc"));
    assert_eq!(b2.build().unwrap().path, "/var/run/node.ipc");
}

#[test]
fn gateway_url_appends_the_key() {
    assert_eq!(
        infura_url("0123456789abcdef0123456789abcdef"),
        "https://mainnet.infura.io/0123456789abcdef0123456789abcdef"
    );
}

#[test]
fn sort_orders_have_wire_names() {
    assert_eq!(SortType::Ascending.to_str(), "asc");
    assert_eq!(SortType::Descending.to_str(), "des");
    assert_eq!(SortType::Unsorted.to_str(), "asc");
}

#[test]
fn spam_verdict_needs_the_window_and_the_count() {
    assert!(!TraceFilterCall::in_spam_window(2286909));
    assert!(TraceFilterCall::in_spam_window(2286910));
    assert!(TraceFilterCall::in_spam_window(2463000));
    assert!(!TraceFilterCall::in_spam_window(2463001));
    assert!(TraceFilterCall::is_spam_verdict(2300000, 251));
    assert!(!TraceFilterCall::is_spam_verdict(2300000, 250));
    assert!(!TraceFilterCall::is_spam_verdict(100, 100000));
}

#[test]
fn trace_count_probe_narrows_or_settles() {
    assert_eq!(TraceFilterCall::probe_step(5, 5, true, true), ProbeStep::Done(5));
    // trace at the midpoint, none after: the count is the midpoint
    assert_eq!(TraceFilterCall::probe_step(0, 10, true, false), ProbeStep::Done(5));
    // traces continue past the midpoint: search the upper half
    assert_eq!(
        TraceFilterCall::probe_step(0, 10, true, true),
        ProbeStep::SearchHigh(6, 10)
    );
    // nothing at the midpoint: search the lower half
    assert_eq!(
        TraceFilterCall::probe_step(0, 10, false, false),
        ProbeStep::SearchLow(0, 4)
    );
    assert_eq!(TraceFilterCall::probe_step(0, 1, false, false), ProbeStep::Done(0));
}

#[test]
fn receipt_and_trace_answers_decode_from_json() {
    let receipt_text = "{\"transactionHash\":\"0x1111111111111111111111111111111111111111111111111111111111111111\",\"contractAddress\":null,\"logs\":[{\"address\":\"0xfb6916095ca1df60bb79ce92ce3ea74c37c5d359\",\"data\":\"0x0102\",\"topics\":[\"0x2222222222222222222222222222222222222222222222222222222222222222\"]}]}";
    let v: serde_json::Value = serde_json::from_str(receipt_text).expect("test JSON parses");
    let rc = receipt_from_json(&v).expect("receipt decodes");
    assert_eq!(rc.transaction_hash.bytes, vec![0x11u8; 32]);
    assert!(rc.contract_address.is_none());
    assert_eq!(rc.logs.len(), 1);
    assert_eq!(rc.logs[0].data, vec![1, 2]);
    assert_eq!(rc.logs[0].topics[0], vec![0x22u8; 32]);

    let trace_text = "{\"transactionHash\":\"0x1111111111111111111111111111111111111111111111111111111111111111\",\"traceAddress\":[0,2],\"type\":\"call\",\"action\":{\"from\":\"0xfb6916095ca1df60bb79ce92ce3ea74c37c5d359\",\"to\":\"0xaaaaaaaaaaaaaaaaaaaaaaaaaaaaaaaaaaaaaaaa\",\"input\":\"0x\"}}";
    let tv: serde_json::Value = serde_json::from_str(trace_text).expect("test JSON parses");
    let tr = trace_from_json(&tv).expect("trace decodes");
    assert_eq!(tr.trace_address, vec![0, 2]);
    assert!(matches!(
        tr.action,
        absentis::records::ActionView::Call { .. }
    ));

    let arr_text = format!("[{}]", trace_text);
    let av: serde_json::Value = serde_json::from_str(&arr_text).expect("test JSON parses");
    let ts = traces_from_json(&av).expect("trace list decodes");
    assert_eq!(ts.len(), 1);
}

#[test]
fn explorer_urls_and_answers_round_the_boundary() {
    let a = Address::from_bytes(vec![0xfb; 20]).unwrap();
    assert_eq!(
        txlist_url(&a, 0, 1000000, absentis::explorer::SortType::Ascending),
        "http://api.etherscan.io/api?module=account&action=txlist&address=0xfbfbfbfbfbfbfbfbfbfbfbfbfbfbfbfbfbfbfbfb&startblock=0&endblock=1000000&sort=asc&apikey=YourApiKeyToken"
    );
    assert!(internal_txlist_url(&a, 0, 5, absentis::explorer::SortType::Descending)
        .contains("action=txlistinternal"));
    assert!(internal_txlist_url(&a, 0, 5, absentis::explorer::SortType::Descending)
        .contains("sort=des"));

    let body = "{\"status\":\"1\",\"result\":[{\"hash\":\"0x1111111111111111111111111111111111111111111111111111111111111111\",\"blockNumber\":\"988725\"}]}";
    let list = explorer_list_from_json(body.as_bytes()).expect("answer decodes");
    assert_eq!(list.len(), 1);
    assert_eq!(list[0].0.bytes, vec![0x11u8; 32]);
    assert_eq!(list[0].1, 988725);

    let h = |b: u8| TxHash::from_bytes(vec![b; 32]).unwrap();
    let merged = merge_hash_lists(vec![(h(1), 10)], vec![(h(2), 20)]);
    assert_eq!(merged.len(), 2);
    assert_eq!(merged[0].1, 10);
    assert_eq!(merged[1].1, 20);
}

#[test]
fn crawl_bounds_fall_back_to_latest_and_reject_backwards_ranges() {
    assert_eq!(crawl_range(Some(5), Some(10), 99), Ok((5, 10)));
    assert_eq!(crawl_range(None, None, 99), Ok((99, 99)));
    assert_eq!(crawl_range(Some(0), None, 99), Ok((0, 99)));
    assert_eq!(
        crawl_range(Some(10), Some(5), 99),
        Err(TransactionFinderError::ImpossibleTo)
    );
}

#[test]
fn filter_chunks_tile_the_whole_range() {
    let chunks = filter_chunks(2_000_000);
    assert_eq!(chunks.first().unwrap().0, 0);
    assert_eq!(chunks.last().unwrap().1, 2_000_000);
    for w in chunks.windows(2) {
        assert_eq!(w[0].1, w[1].0);
    }
    assert_eq!(filter_chunks(3), vec![(0, 3)]);
}
