use kaspa_explorer::amount::sum_wrapping;
use kaspa_explorer::balance::{
    begin, open_parsed, reconcile, utxo_info, AddressBalanceRecord, BalanceCache, BalanceError, Enumeration,
    UtxoRecord, MAX_DISPLAY_UTXOS, UTXO_TIME_BUDGET_SECS,
};
use kaspa_explorer::error::{CallFailed, ErrorKind};
use kaspa_explorer::hash::Hash32;

const ADDRESS: &str = "kaspatest:qqqqqqqqqqqqqqqqqqqqqqqqqqqqqqqqqqqqqqqqqqqqqqqqqqqqqhqrxplya";
const OTHER_ADDRESS: &str = "kaspa:qp0l70zd5x85ttwd6jv7g3s3a8llzj96d8dncn4zmhv4tlzx5k2jyqh70xmfj";

fn utxo(index: u32, amount: u64) -> UtxoRecord {
    let mut bytes = [0x11u8; 32];
    bytes[0] = 0xFE;
    UtxoRecord { transaction_id: Hash32 { bytes }, index, amount }
}

/// A whole request against a node that answers as given.
fn request(
    connected: bool,
    address: &str,
    info: Result<bool, CallFailed>,
    indexed: Result<u64, CallFailed>,
    utxos: Enumeration,
    cache: &mut BalanceCache,
) -> (Result<AddressBalanceRecord, BalanceError>, usize) {
    let mut node_calls = 0;
    let check = match begin(connected, address) {
        Ok(check) => check,
        Err(e) => return (Err(e), node_calls),
    };
    node_calls += 1;
    let fetch = match check.on_info(info) {
        Ok(fetch) => fetch,
        Err(e) => return (Err(e), node_calls),
    };
    node_calls += 1;
    let scan = match fetch.on_indexed_balance(indexed) {
        Ok(scan) => scan,
        Err(e) => return (Err(e), node_calls),
    };
    node_calls += 1;
    (Ok(scan.on_utxos(utxos, cache)), node_calls)
}

#[test]
fn computed_balance_wins_over_indexed_and_mismatch_is_no_error() {
    let mut cache = BalanceCache::new();
    let listed = Enumeration::Completed(vec![utxo(0, 300), utxo(1, 50), utxo(2, 7)]);
    let (outcome, calls) = request(true, ADDRESS, Ok(true), Ok(1_000), listed, &mut cache);
    let record = outcome.expect("a mismatch is recorded, not raised");
    assert_eq!(calls, 3);
    assert_eq!(record.balance(), 357);
    assert_eq!(record.computed_balance, Some(357));
    assert_eq!(record.indexed_balance, 1_000);
    assert!(record.discrepancy());
    assert_eq!(record.utxo_count_total, Some(3));
    assert_eq!(record.sample_utxos.len(), 3);
    assert_eq!(record.address, ADDRESS);
}

#[test]
fn agreeing_balances_are_no_discrepancy() {
    let record = reconcile("a".to_string(), 357, Enumeration::Completed(vec![utxo(0, 357)]));
    assert_eq!(record.balance(), 357);
    assert!(!record.discrepancy());
}

#[test]
fn timed_out_enumeration_yields_the_indexed_balance() {
    let mut cache = BalanceCache::new();
    let (outcome, _) =
        request(true, ADDRESS, Ok(true), Ok(1_000), Enumeration::TimedOut, &mut cache);
    let record = outcome.expect("a timeout is a degraded success");
    assert_eq!(record.computed_balance, None);
    assert_eq!(record.balance(), 1_000);
    assert_eq!(record.utxo_count_total, None);
    assert!(record.sample_utxos.is_empty());
    assert!(!record.discrepancy());
}

#[test]
fn failed_enumeration_yields_the_indexed_balance() {
    let record = reconcile(ADDRESS.to_string(), 88, Enumeration::Failed);
    assert_eq!(record.computed_balance, None);
    assert_eq!(record.balance(), 88);
    assert!(record.sample_utxos.is_empty());
}

#[test]
fn empty_enumeration_computes_zero() {
    let record = reconcile(ADDRESS.to_string(), 88, Enumeration::Completed(vec![]));
    assert_eq!(record.computed_balance, Some(0));
    assert_eq!(record.balance(), 0);
    assert_eq!(record.utxo_count_total, Some(0));
    assert!(record.discrepancy());
}

#[test]
fn unparsable_address_is_invalid_input_before_any_node_call() {
    let mut cache = BalanceCache::new();
    let (outcome, calls) = request(
        true,
        "not-a-real-address",
        Ok(true),
        Ok(1),
        Enumeration::Completed(vec![]),
        &mut cache,
    );
    let error = outcome.unwrap_err();
    assert_eq!(error, BalanceError::InvalidAddress);
    assert_eq!(error.kind(), ErrorKind::InvalidInput);
    assert_eq!(error.kind().http_status(), 400);
    assert_eq!(calls, 0);
    assert_eq!(cache.len(), 0);
}

#[test]
fn address_with_bad_checksum_or_prefix_is_invalid() {
    let bad_checksum = "kaspa:qqqqqqqqqqqqqqqqqqqqqqqqqqqqqqqqqqqqqqqqqqqqqqqqqqqqqkx9awp4l";
    let unknown_prefix = "bitcoin:qqqqqqqqqqqqqqqqqqqqqqqqqqqqqqqqqqqqqqqqqqqqqqqqqqqqqkx9awp4e";
    for text in [bad_checksum, unknown_prefix, "", ":", "kaspa:", "kaspa:b"] {
        assert_eq!(begin(true, text).unwrap_err(), BalanceError::InvalidAddress, "{text:?}");
    }
}

#[test]
fn valid_addresses_open_a_request() {
    for text in [ADDRESS, OTHER_ADDRESS] {
        let check = begin(true, text).expect("a valid address");
        assert_eq!(String::from(check.parsed()), text);
    }
}

#[test]
fn missing_connection_is_reported_before_the_address_is_read() {
    assert_eq!(begin(false, ADDRESS).unwrap_err(), BalanceError::NotConnected);
    assert_eq!(begin(false, "not-a-real-address").unwrap_err(), BalanceError::NotConnected);
    assert_eq!(BalanceError::NotConnected.kind(), ErrorKind::ServiceUnavailable);
}

#[test]
fn node_without_utxo_index_is_unavailable() {
    let mut cache = BalanceCache::new();
    let (outcome, calls) =
        request(true, ADDRESS, Ok(false), Ok(1), Enumeration::Completed(vec![]), &mut cache);
    assert_eq!(outcome.unwrap_err(), BalanceError::NotUtxoIndexed);
    assert_eq!(BalanceError::NotUtxoIndexed.kind(), ErrorKind::ServiceUnavailable);
    assert_eq!(calls, 1);
}

#[test]
fn failed_info_call_is_an_upstream_error() {
    let mut cache = BalanceCache::new();
    let (outcome, calls) = request(
        true,
        ADDRESS,
        Err(CallFailed),
        Ok(1),
        Enumeration::Completed(vec![]),
        &mut cache,
    );
    assert_eq!(outcome.unwrap_err(), BalanceError::InfoUnavailable);
    assert_eq!(BalanceError::InfoUnavailable.kind(), ErrorKind::UpstreamError);
    assert_eq!(calls, 1);
}

#[test]
fn failed_indexed_balance_call_is_an_upstream_error() {
    let mut cache = BalanceCache::new();
    let (outcome, calls) = request(
        true,
        ADDRESS,
        Ok(true),
        Err(CallFailed),
        Enumeration::Completed(vec![]),
        &mut cache,
    );
    assert_eq!(outcome.unwrap_err(), BalanceError::IndexedBalanceUnavailable);
    assert_eq!(BalanceError::IndexedBalanceUnavailable.kind(), ErrorKind::UpstreamError);
    assert_eq!(calls, 2);
    assert_eq!(cache.len(), 0);
}

#[test]
fn failures_carry_their_messages() {
    assert_eq!(BalanceError::NotConnected.message(), "Not connected to kaspad");
    assert_eq!(BalanceError::InvalidAddress.message(), "Invalid address");
    assert_eq!(BalanceError::InfoUnavailable.message(), "Failed to query kaspad info");
    assert_eq!(
        BalanceError::NotUtxoIndexed.message(),
        "Address balance requires kaspad to run with --utxoindex"
    );
    assert_eq!(
        BalanceError::IndexedBalanceUnavailable.message(),
        "Failed to fetch indexed balance (is --utxoindex enabled?)"
    );
}

#[test]
fn sample_is_capped_while_count_and_sum_cover_all() {
    let all: Vec<UtxoRecord> = (0..150).map(|i| utxo(i, 2)).collect();
    let record = reconcile(ADDRESS.to_string(), 300, Enumeration::Completed(all));
    assert_eq!(record.sample_utxos.len(), MAX_DISPLAY_UTXOS);
    assert_eq!(record.sample_utxos.len(), 100);
    assert_eq!(record.utxo_count_total, Some(150));
    assert_eq!(record.computed_balance, Some(300));
    assert_eq!(record.sample_utxos[99].script_public_key, "script_99");
    assert!(!record.discrepancy());
    assert_eq!(UTXO_TIME_BUDGET_SECS, 20);
}

#[test]
fn utxo_is_shown_by_outpoint_and_index_label() {
    let info = utxo_info(&utxo(4_000_000_000, 12));
    assert_eq!(info.outpoint, format!("fe{}:4000000000", "11".repeat(31)));
    assert_eq!(info.script_public_key, "script_4000000000");
    assert_eq!(info.amount, 12);
    assert_eq!(utxo_info(&utxo(0, 1)).script_public_key, "script_0");
}

#[test]
fn computed_sum_wraps_at_sixty_four_bits() {
    let record = reconcile(
        ADDRESS.to_string(),
        0,
        Enumeration::Completed(vec![utxo(0, u64::MAX), utxo(1, 5)]),
    );
    assert_eq!(record.computed_balance, Some(4));
    assert_eq!(sum_wrapping(&vec![u64::MAX, u64::MAX]), u64::MAX - 1);
    assert_eq!(sum_wrapping(&vec![]), 0);
    assert_eq!(sum_wrapping(&vec![1, 2, 3]), 6);
}

#[test]
fn cache_keeps_the_latest_record_of_each_address() {
    let mut cache = BalanceCache::new();
    assert!(cache.get(&ADDRESS.to_string()).is_none());

    let listed = Enumeration::Completed(vec![utxo(0, 10)]);
    request(true, ADDRESS, Ok(true), Ok(10), listed, &mut cache).0.unwrap();
    request(true, OTHER_ADDRESS, Ok(true), Ok(5), Enumeration::TimedOut, &mut cache).0.unwrap();
    assert_eq!(cache.len(), 2);
    assert_eq!(cache.get(&ADDRESS.to_string()).unwrap().balance(), 10);
    assert_eq!(cache.get(&OTHER_ADDRESS.to_string()).unwrap().balance(), 5);

    request(true, ADDRESS, Ok(true), Ok(99), Enumeration::Failed, &mut cache).0.unwrap();
    assert_eq!(cache.len(), 2);
    let latest = cache.get(&ADDRESS.to_string()).unwrap();
    assert_eq!(latest.balance(), 99);
    assert_eq!(latest.computed_balance, None);
    assert!(latest.sample_utxos.is_empty());
    assert_eq!(cache.get(&OTHER_ADDRESS.to_string()).unwrap().balance(), 5);
}

#[test]
fn parse_outcome_decides_whether_a_request_opens() {
    let parsed = kaspa_addresses::Address::try_from(ADDRESS);
    let check = open_parsed(ADDRESS, parsed).expect("a parsed address opens a request");
    assert_eq!(String::from(check.parsed()), ADDRESS);

    let refused = kaspa_addresses::Address::try_from("nope");
    assert_eq!(open_parsed("nope", refused).unwrap_err(), BalanceError::InvalidAddress);
}
