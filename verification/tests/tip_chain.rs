use std::collections::HashMap;

use kaspa_explorer::error::{CallFailed, ErrorKind};
use kaspa_explorer::hash::Hash32;
use kaspa_explorer::tip_chain::{
    block_view, distinct_hashes, next_cursor, BlockRecord, BlockView, DagTip, Difficulty,
    TipRequest, VerboseBlock, WalkStep, DEFAULT_WALK_LENGTH,
};

fn hash(n: u8) -> Hash32 {
    let mut bytes = [0u8; 32];
    bytes[31] = n;
    bytes[0] = 0xA0;
    Hash32 { bytes }
}

fn plain_block(id: u8, parents: Vec<Hash32>) -> BlockRecord {
    BlockRecord {
        hash: hash(id),
        daa_score: 1000 + id as u64,
        timestamp: 1_700_000_000_000 + id as u64,
        bits: 0x1e7f_ffff,
        parents_by_level: if parents.is_empty() { vec![] } else { vec![parents] },
        transaction_count: 1,
        verbose: None,
    }
}

fn verbose_block(id: u8, parents: Vec<Hash32>, selected: Hash32) -> BlockRecord {
    let mut block = plain_block(id, parents);
    block.verbose = Some(VerboseBlock {
        transaction_id_count: 3,
        difficulty_bits: 0x4059_0000_0000_0000,
        selected_parent_hash: selected,
    });
    block
}

/// A chain `first`, `first - 1`, .. , `1`, where each block's only parent is the next
/// and block 1 has none.
fn linear_dag(first: u8) -> HashMap<[u8; 32], BlockRecord> {
    let mut dag = HashMap::new();
    for id in 1..=first {
        let parents = if id == 1 { vec![] } else { vec![hash(id - 1)] };
        dag.insert(hash(id).bytes, plain_block(id, parents));
    }
    dag
}

fn run_walk(
    dag: &HashMap<[u8; 32], BlockRecord>,
    tip: Result<DagTip, CallFailed>,
    max_count: usize,
) -> (Result<(u64, Vec<BlockView>), ErrorKind>, usize) {
    let mut fetches = 0;
    let mut step = TipRequest::new(max_count).on_tip(tip);
    loop {
        step = match step {
            WalkStep::FetchBlock(walk) => {
                fetches += 1;
                let reply = dag.get(&walk.cursor().bytes).cloned().ok_or(CallFailed);
                walk.on_block(reply)
            }
            WalkStep::Done(response) => {
                return (Ok((response.total_count, response.blocks)), fetches)
            }
            WalkStep::Failed(kind) => return (Err(kind), fetches),
        };
    }
}

#[test]
fn walk_returns_whole_chain_shorter_than_cap() {
    let dag = linear_dag(5);
    let tip = DagTip { sink: hash(5), block_count: 123_456 };
    let (outcome, fetches) = run_walk(&dag, Ok(tip), DEFAULT_WALK_LENGTH);
    let (total, blocks) = outcome.expect("a chain that ends in a parentless block is no error");
    assert_eq!(total, 123_456);
    assert_eq!(blocks.len(), 5);
    assert_eq!(fetches, 5);
    let ids: Vec<u8> = blocks.iter().map(|b| b.hash.bytes[31]).collect();
    assert_eq!(ids, vec![5, 4, 3, 2, 1]);
    assert!(blocks[4].parent_hashes.is_empty());
}

#[test]
fn walk_never_returns_more_than_cap() {
    let dag = linear_dag(30);
    let tip = DagTip { sink: hash(30), block_count: 30 };
    let (outcome, fetches) = run_walk(&dag, Ok(tip), 20);
    let (_, blocks) = outcome.unwrap();
    assert_eq!(blocks.len(), 20);
    assert_eq!(fetches, 20);
    assert_eq!(blocks[0].hash, hash(30));
    assert_eq!(blocks[19].hash, hash(11));
}

#[test]
fn walk_of_chain_as_long_as_cap_returns_it_all() {
    let dag = linear_dag(4);
    let tip = DagTip { sink: hash(4), block_count: 4 };
    let (outcome, _) = run_walk(&dag, Ok(tip), 4);
    assert_eq!(outcome.unwrap().1.len(), 4);
}

#[test]
fn walk_with_zero_cap_fetches_no_block() {
    let dag = linear_dag(3);
    let tip = DagTip { sink: hash(3), block_count: 77 };
    let (outcome, fetches) = run_walk(&dag, Ok(tip), 0);
    let (total, blocks) = outcome.unwrap();
    assert_eq!(total, 77);
    assert!(blocks.is_empty());
    assert_eq!(fetches, 0);
}

#[test]
fn walk_fails_upstream_when_dag_info_fails() {
    let dag = linear_dag(3);
    let (outcome, fetches) = run_walk(&dag, Err(CallFailed), 20);
    assert_eq!(outcome.unwrap_err(), ErrorKind::UpstreamError);
    assert_eq!(fetches, 0);
}

#[test]
fn walk_fails_whole_when_a_block_fetch_fails() {
    let mut dag = linear_dag(6);
    dag.remove(&hash(3).bytes);
    let tip = DagTip { sink: hash(6), block_count: 6 };
    let (outcome, fetches) = run_walk(&dag, Ok(tip), 20);
    assert_eq!(outcome.unwrap_err(), ErrorKind::UpstreamError);
    assert_eq!(fetches, 4);
}

#[test]
fn walk_follows_selected_parent_before_first_parent() {
    let mut dag = HashMap::new();
    dag.insert(hash(9).bytes, verbose_block(9, vec![hash(7), hash(8)], hash(8)));
    dag.insert(hash(8).bytes, plain_block(8, vec![]));
    dag.insert(hash(7).bytes, plain_block(7, vec![]));
    let tip = DagTip { sink: hash(9), block_count: 3 };
    let (outcome, _) = run_walk(&dag, Ok(tip), 20);
    let blocks = outcome.unwrap().1;
    let ids: Vec<u8> = blocks.iter().map(|b| b.hash.bytes[31]).collect();
    assert_eq!(ids, vec![9, 8]);
}

#[test]
fn walk_falls_back_to_first_parent_when_selected_parent_is_zero() {
    let mut dag = HashMap::new();
    dag.insert(hash(9).bytes, verbose_block(9, vec![hash(7), hash(8)], Hash32::zero()));
    dag.insert(hash(8).bytes, plain_block(8, vec![]));
    dag.insert(hash(7).bytes, plain_block(7, vec![]));
    let tip = DagTip { sink: hash(9), block_count: 3 };
    let (outcome, _) = run_walk(&dag, Ok(tip), 20);
    let ids: Vec<u8> = outcome.unwrap().1.iter().map(|b| b.hash.bytes[31]).collect();
    assert_eq!(ids, vec![9, 7]);
}

#[test]
fn next_cursor_is_none_for_block_without_parents() {
    assert_eq!(next_cursor(&plain_block(1, vec![])), None);
    assert_eq!(next_cursor(&verbose_block(1, vec![], Hash32::zero())), None);
    assert_eq!(next_cursor(&verbose_block(1, vec![], hash(4))), Some(hash(4)));
    assert_eq!(next_cursor(&plain_block(1, vec![hash(2), hash(3)])), Some(hash(2)));
    let mut empty_level = plain_block(1, vec![]);
    empty_level.parents_by_level = vec![vec![], vec![hash(5)]];
    assert_eq!(next_cursor(&empty_level), None);
}

#[test]
fn parent_hashes_hold_no_duplicates() {
    let listed = vec![hash(3), hash(1), hash(3), hash(2), hash(1), hash(3)];
    let view = block_view(&plain_block(9, listed.clone()));
    assert_eq!(view.parent_hashes, vec![hash(3), hash(1), hash(2)]);
    assert_eq!(distinct_hashes(&listed), vec![hash(3), hash(1), hash(2)]);
    assert_eq!(distinct_hashes(&vec![]), Vec::<Hash32>::new());
}

#[test]
fn only_level_zero_parents_are_shown() {
    let mut block = plain_block(9, vec![hash(1)]);
    block.parents_by_level = vec![vec![hash(1), hash(2)], vec![hash(3)], vec![hash(4)]];
    assert_eq!(block_view(&block).parent_hashes, vec![hash(1), hash(2)]);
}

#[test]
fn view_takes_counts_and_difficulty_from_verbose_data_when_present() {
    let with = block_view(&verbose_block(2, vec![hash(1)], hash(1)));
    assert_eq!(with.transaction_count, 3);
    assert!(matches!(with.difficulty, Difficulty::Reported(0x4059_0000_0000_0000)));
    assert_eq!(f64::from_bits(0x4059_0000_0000_0000), 100.0);

    let without = block_view(&plain_block(2, vec![hash(1)]));
    assert_eq!(without.transaction_count, 1);
    assert!(matches!(without.difficulty, Difficulty::CompactBits(0x1e7f_ffff)));
    assert_eq!(without.hash, hash(2));
    assert_eq!(without.daa_score, 1002);
    assert_eq!(without.timestamp, 1_700_000_000_002);
}

#[test]
fn parents_text_is_none_or_comma_separated_hex() {
    let lonely = block_view(&plain_block(1, vec![]));
    assert_eq!(lonely.parents_text(), "None");

    let one = block_view(&plain_block(2, vec![hash(1)]));
    assert_eq!(one.parents_text(), format!("a0{}01", "00".repeat(30)));

    let two = block_view(&plain_block(3, vec![hash(1), hash(2), hash(1)]));
    assert_eq!(
        two.parents_text(),
        format!("a0{}01, a0{}02", "00".repeat(30), "00".repeat(30))
    );
    assert_eq!(two.hash_text(), format!("a0{}03", "00".repeat(30)));
}
