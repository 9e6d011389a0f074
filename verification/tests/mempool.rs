use std::collections::hash_map::DefaultHasher;
use std::hash::{Hash, Hasher};

use kaspa_explorer::error::CallFailed;
use kaspa_explorer::hash::Hash32;
use kaspa_explorer::mempool::{
    build_snapshot, entry_for, entry_id, first_shown, line_up, seed_for, take_window,
    MempoolEntry, MempoolEntryRecord, MempoolSnapshot, VerboseTx, DEFAULT_MAX_DISPLAY,
};
use kaspa_explorer::order::sorted_positions;
use kaspa_explorer::snapshotter::{
    MempoolCache, MempoolFetch, MempoolStep, FILTER_TRANSACTION_POOL, INCLUDE_ORPHAN_POOL,
    MAX_ATTEMPTS, RETRY_BACKOFF_MS, STALENESS_BOUND_MS,
};

fn hash(a: u8, b: u8) -> Hash32 {
    let mut bytes = [0u8; 32];
    bytes[0] = a;
    bytes[31] = b;
    Hash32 { bytes }
}

fn tx(a: u8, b: u8) -> MempoolEntryRecord {
    MempoolEntryRecord {
        verbose: Some(VerboseTx { transaction_id: hash(a, b), hash: hash(0xEE, b) }),
        input_count: a as usize,
        output_values: vec![b as u64, 1000],
    }
}

fn many(n: u8) -> Vec<MempoolEntryRecord> {
    (0..n).map(|i| tx(i.wrapping_mul(37), i)).collect()
}

fn shown(id: &str) -> MempoolEntry {
    MempoolEntry { id: id.to_string(), input_count: 0, output_count: 0, total_output_value: 0 }
}

fn ids_of(snapshot: &MempoolSnapshot) -> Vec<String> {
    snapshot.sampled_entries.iter().map(|e| e.id.clone()).collect()
}

/// The seed as std computes it when each identifier is hashed in turn.
fn std_seed(sorted_ids: &[String]) -> u64 {
    let mut hasher = DefaultHasher::new();
    for id in sorted_ids {
        Hash::hash(id, &mut hasher);
    }
    hasher.finish()
}

fn sorted_ids(records: &[MempoolEntryRecord]) -> Vec<String> {
    let mut ids: Vec<String> = records.iter().map(entry_id).collect();
    ids.sort();
    ids
}

/// What a fetch did, as a driver of the steps saw it.
struct Run {
    view: MempoolSnapshot,
    attempts: usize,
    sleeps: usize,
    size_calls: usize,
}

fn run_fetch(
    entries: &dyn Fn(usize) -> Result<Vec<MempoolEntryRecord>, CallFailed>,
    size: Result<u64, CallFailed>,
    cache: &mut MempoolCache,
    now: u64,
    max_display: usize,
) -> Run {
    let mut run = Run {
        view: MempoolSnapshot { captured_at: 0, total_size: 0, sampled_entries: vec![] },
        attempts: 0,
        sleeps: 0,
        size_calls: 0,
    };
    let mut step = MempoolStep::FetchEntries(MempoolFetch::start(max_display));
    loop {
        step = match step {
            MempoolStep::FetchEntries(fetch) => {
                let reply = entries(run.attempts);
                run.attempts += 1;
                fetch.on_entries(reply, cache, now)
            }
            MempoolStep::Sleep(backoff) => {
                run.sleeps += 1;
                backoff.on_elapsed(cache, now)
            }
            MempoolStep::FetchSize(probe) => {
                run.size_calls += 1;
                MempoolStep::Done(probe.on_size(size, now))
            }
            MempoolStep::Done(view) => {
                run.view = view;
                return run;
            }
        };
    }
}

#[test]
fn window_shows_all_entries_when_fewer_than_cap() {
    let snapshot = build_snapshot(&many(3), DEFAULT_MAX_DISPLAY, 5);
    assert_eq!(snapshot.sampled_entries.len(), 3);
    assert_eq!(snapshot.total_size, 3);
}

#[test]
fn window_shows_cap_entries_when_more_than_cap() {
    let snapshot = build_snapshot(&many(60), DEFAULT_MAX_DISPLAY, 5);
    assert_eq!(snapshot.sampled_entries.len(), 50);
    assert_eq!(snapshot.total_size, 60);
    let just_enough = build_snapshot(&many(50), 50, 5);
    assert_eq!(just_enough.sampled_entries.len(), 50);
    let none_shown = build_snapshot(&many(7), 0, 5);
    assert!(none_shown.sampled_entries.is_empty());
    assert_eq!(none_shown.total_size, 7);
}

#[test]
fn window_start_depends_on_ids_not_on_time_or_arrival() {
    let listed = many(40);
    let mut shuffled = many(40);
    shuffled.reverse();
    shuffled.swap(3, 17);
    let early = build_snapshot(&listed, 10, 1_000);
    let late = build_snapshot(&shuffled, 10, 9_999);
    assert_eq!(ids_of(&early), ids_of(&late));
    assert_ne!(early.captured_at, late.captured_at);
    assert_eq!(early.captured_at, 1_000);
    assert_eq!(late.captured_at, 9_999);
}

#[test]
fn window_is_where_the_hash_of_the_sorted_ids_points() {
    let records = many(23);
    let sorted = sorted_ids(&records);
    let start = (std_seed(&sorted) % 23) as usize;
    let snapshot = build_snapshot(&records, 5, 0);
    let expected: Vec<String> = (0..5).map(|i| sorted[(start + i) % 23].clone()).collect();
    assert_eq!(ids_of(&snapshot), expected);
}

#[test]
fn window_goes_round_at_the_end_of_the_line_up() {
    let records = many(9);
    let sorted = sorted_ids(&records);
    let start = (std_seed(&sorted) % 9) as usize;
    let snapshot = build_snapshot(&records, 9, 0);
    let mut expected = sorted.clone();
    expected.rotate_left(start);
    assert_eq!(ids_of(&snapshot), expected);
}

#[test]
fn seed_is_what_std_makes_of_the_ids_in_order() {
    let ids: Vec<String> = ["", "a", "ab", "b"].iter().map(|s| s.to_string()).collect();
    let entries: Vec<MempoolEntry> = ids.iter().map(|id| shown(id)).collect();
    assert_eq!(seed_for(&entries), std_seed(&ids));

    let mut swapped: Vec<MempoolEntry> = ids.iter().map(|id| shown(id)).collect();
    swapped.swap(0, 3);
    assert_ne!(seed_for(&swapped), seed_for(&entries));

    let joined = vec![shown("aab"), shown("b")];
    assert_ne!(seed_for(&joined), seed_for(&entries[1..].to_vec()));
    assert_eq!(seed_for(&vec![]), DefaultHasher::new().finish());
}

#[test]
fn take_window_starts_where_the_seed_points_and_goes_round() {
    let lined: Vec<MempoolEntry> = ["a", "b", "c", "d", "e"].iter().map(|id| shown(id)).collect();
    let ids = |entries: Vec<MempoolEntry>| -> Vec<String> {
        entries.into_iter().map(|e| e.id).collect()
    };
    assert_eq!(ids(take_window(&lined, 7, 3)), vec!["c", "d", "e"]);
    assert_eq!(ids(take_window(&lined, 7, 4)), vec!["c", "d", "e", "a"]);
    assert_eq!(ids(take_window(&lined, 7, 50)), vec!["c", "d", "e", "a", "b"]);
    assert_eq!(ids(take_window(&lined, 10, 2)), vec!["a", "b"]);
    assert_eq!(ids(take_window(&lined, 4, 1)), vec!["e"]);
    assert!(take_window(&lined, 4, 0).is_empty());
    assert!(take_window(&vec![], 4, 10).is_empty());
}

#[test]
fn line_up_sorts_entries_by_id() {
    let records = vec![tx(0x30, 1), tx(0x10, 2), tx(0x20, 3), tx(0x10, 4)];
    let lined = line_up(&records);
    let firsts: Vec<(String, usize)> =
        lined.iter().map(|e| (e.id[0..2].to_string(), e.input_count)).collect();
    assert_eq!(
        firsts,
        vec![
            ("10".to_string(), 0x10),
            ("10".to_string(), 0x10),
            ("20".to_string(), 0x20),
            ("30".to_string(), 0x30)
        ]
    );
    assert!(lined[0].id < lined[1].id);
    assert_eq!(lined[0].total_output_value, 1002);
    assert_eq!(entry_for(&records[0]).id, lined[3].id);
}

#[test]
fn line_up_keeps_arrival_order_among_equal_ids() {
    let mut records = vec![tx(5, 5), tx(1, 1), tx(5, 5), tx(1, 1)];
    for (i, record) in records.iter_mut().enumerate() {
        record.verbose = None;
        record.input_count = i;
    }
    let lined = line_up(&records);
    let arrivals: Vec<usize> = lined.iter().map(|e| e.input_count).collect();
    assert_eq!(arrivals, vec![0, 1, 2, 3]);
    assert!(lined.iter().all(|e| e.id.is_empty()));
}

#[test]
fn first_shown_is_seed_modulo_length() {
    assert_eq!(first_shown(7, 3), 1);
    assert_eq!(first_shown(u64::MAX, 10), 5);
    assert_eq!(first_shown(12, 12), 0);
    assert_eq!(first_shown(12345, 0), 0);
    assert_eq!(first_shown(4, 1), 0);
}

#[test]
fn entries_are_lined_up_by_id_and_ties_keep_arrival_order() {
    let ids: Vec<String> =
        ["m", "", "z", "m", "a", "", "m"].iter().map(|s| s.to_string()).collect();
    assert_eq!(sorted_positions(&ids), vec![1, 5, 4, 0, 3, 6, 2]);
    assert_eq!(sorted_positions(&vec![]), Vec::<usize>::new());
    assert_eq!(sorted_positions(&vec!["x".to_string()]), vec![0]);
    let longer: Vec<String> = ["ab", "a", "b", "aa", "B"].iter().map(|s| s.to_string()).collect();
    assert_eq!(sorted_positions(&longer), vec![4, 1, 3, 0, 2]);
}

#[test]
fn sorted_positions_agree_with_std_stable_sort() {
    let ids: Vec<String> = (0..200u32)
        .map(|i| format!("{:02x}", (i.wrapping_mul(2_654_435_761) >> 24) % 23))
        .collect();
    let mut expected: Vec<usize> = (0..ids.len()).collect();
    expected.sort_by(|&a, &b| ids[a].cmp(&ids[b]));
    assert_eq!(sorted_positions(&ids), expected);
}

#[test]
fn entry_id_prefers_transaction_id_then_hash_then_nothing() {
    let with_id = tx(0xAB, 7);
    assert_eq!(entry_id(&with_id), format!("ab{}07", "00".repeat(30)));

    let mut zero_id = tx(0, 0);
    zero_id.verbose = Some(VerboseTx { transaction_id: Hash32::zero(), hash: hash(0xCD, 1) });
    assert_eq!(entry_id(&zero_id), format!("cd{}01", "00".repeat(30)));

    let mut bare = tx(1, 1);
    bare.verbose = None;
    assert_eq!(entry_id(&bare), "");
}

#[test]
fn entry_shows_counts_and_sum_of_outputs() {
    let mut record = tx(4, 9);
    record.output_values = vec![5, 6, 7];
    let snapshot = build_snapshot(&vec![record], 10, 0);
    let entry = &snapshot.sampled_entries[0];
    assert_eq!(entry.input_count, 4);
    assert_eq!(entry.output_count, 3);
    assert_eq!(entry.total_output_value, 18);
}

#[test]
fn sum_of_outputs_wraps_at_sixty_four_bits() {
    let mut record = tx(1, 1);
    record.output_values = vec![u64::MAX, 3];
    let snapshot = build_snapshot(&vec![record], 10, 0);
    assert_eq!(snapshot.sampled_entries[0].total_output_value, 2);
}

#[test]
fn empty_mempool_is_a_success_without_retry() {
    let mut cache = MempoolCache::new();
    let run = run_fetch(&|_| Ok(vec![]), Err(CallFailed), &mut cache, 42, 50);
    assert_eq!(run.attempts, 1);
    assert_eq!(run.sleeps, 0);
    assert_eq!(run.size_calls, 0);
    assert_eq!(run.view.total_size, 0);
    assert!(run.view.sampled_entries.is_empty());
    assert_eq!(run.view.captured_at, 42);
    assert_eq!(cache.get().unwrap().captured_at, 42);
}

#[test]
fn view_comes_back_empty_when_every_call_fails_and_nothing_is_cached() {
    let mut cache = MempoolCache::new();
    let run = run_fetch(&|_| Err(CallFailed), Err(CallFailed), &mut cache, 42, 50);
    assert_eq!(run.attempts, MAX_ATTEMPTS as usize);
    assert_eq!(run.attempts, 3);
    assert_eq!(run.sleeps, 3);
    assert_eq!(run.size_calls, 1);
    assert_eq!(run.view.total_size, 0);
    assert!(run.view.sampled_entries.is_empty());
    assert!(cache.get().is_none());
}

#[test]
fn size_alone_is_reported_when_entries_fail_and_info_answers() {
    let mut cache = MempoolCache::new();
    let run = run_fetch(&|_| Err(CallFailed), Ok(731), &mut cache, 42, 50);
    assert_eq!(run.view.total_size, 731);
    assert!(run.view.sampled_entries.is_empty());
    assert_eq!(run.view.captured_at, 42);
    assert!(cache.get().is_none());
}

#[test]
fn retry_succeeds_on_a_later_attempt() {
    let mut cache = MempoolCache::new();
    let third_time = |attempt: usize| if attempt < 2 { Err(CallFailed) } else { Ok(many(4)) };
    let run = run_fetch(&third_time, Err(CallFailed), &mut cache, 42, 50);
    assert_eq!(run.attempts, 3);
    assert_eq!(run.sleeps, 2);
    assert_eq!(run.size_calls, 0);
    assert_eq!(run.view.total_size, 4);
    assert_eq!(cache.get().unwrap().total_size, 4);
}

#[test]
fn recent_snapshot_stands_in_for_a_failed_fetch() {
    let mut cache = MempoolCache::new();
    let first = run_fetch(&|_| Ok(many(6)), Err(CallFailed), &mut cache, 1_000, 50);
    let at_bound = 1_000 + STALENESS_BOUND_MS;
    let second = run_fetch(&|_| Err(CallFailed), Ok(99), &mut cache, at_bound, 50);
    assert_eq!(second.size_calls, 0);
    assert_eq!(second.view.captured_at, 1_000);
    assert_eq!(second.view.total_size, 6);
    assert_eq!(ids_of(&second.view), ids_of(&first.view));
}

#[test]
fn stale_snapshot_is_not_served() {
    let mut cache = MempoolCache::new();
    run_fetch(&|_| Ok(many(6)), Err(CallFailed), &mut cache, 1_000, 50);
    let too_late = 1_000 + STALENESS_BOUND_MS + 1;
    let second = run_fetch(&|_| Err(CallFailed), Ok(99), &mut cache, too_late, 50);
    assert_eq!(second.size_calls, 1);
    assert_eq!(second.view.total_size, 99);
    assert!(second.view.sampled_entries.is_empty());
    assert_eq!(cache.get().unwrap().captured_at, 1_000);
    assert!(cache.get_fresh(too_late).is_none());
    assert!(cache.get_fresh(too_late - 1).is_some());
    assert!(cache.get_fresh(0).is_some());
}

#[test]
fn successful_fetch_supersedes_the_cached_snapshot() {
    let mut cache = MempoolCache::new();
    run_fetch(&|_| Ok(many(6)), Err(CallFailed), &mut cache, 1_000, 50);
    run_fetch(&|_| Ok(many(2)), Err(CallFailed), &mut cache, 2_000, 50);
    let held = cache.get().unwrap();
    assert_eq!(held.captured_at, 2_000);
    assert_eq!(held.total_size, 2);
}

#[test]
fn fetch_settings_are_the_whole_mempool_and_short_waits() {
    assert!(INCLUDE_ORPHAN_POOL);
    assert!(!FILTER_TRANSACTION_POOL);
    assert_eq!(RETRY_BACKOFF_MS, 150);
    assert_eq!(STALENESS_BOUND_MS, 15_000);
    assert_eq!(DEFAULT_MAX_DISPLAY, 50);
}
