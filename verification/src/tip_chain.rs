//! The tip-chain walk: the latest blocks of the DAG as one reproducible list,
//! found by following selected-parent links back from the sink.

use crate::error::{CallFailed, ErrorKind};
use crate::hash::{lower_hex, Hash32};
use crate::text::{join, joined, texts};
use vstd::prelude::*;
use vstd::string::StringExecFns;

verus! {

/// How many blocks the dashboard asks for.
pub const DEFAULT_WALK_LENGTH: usize = 20;

/// Blocks are fetched without their transactions, to keep the answers small.
pub const INCLUDE_TRANSACTIONS: bool = false;

/// Where the DAG currently ends and how many blocks it holds.
#[derive(Clone, Copy, Debug)]
pub struct DagTip {
    pub sink: Hash32,
    pub block_count: u64,
}

/// What the node adds to a block when it has it indexed.
#[derive(Clone, Copy, Debug)]
pub struct VerboseBlock {
    pub transaction_id_count: usize,
    /// The bit pattern of the difficulty, a 64-bit floating-point number.
    pub difficulty_bits: u64,
    pub selected_parent_hash: Hash32,
}

/// A block as fetched, headers only.
#[derive(Clone, Debug)]
pub struct BlockRecord {
    pub hash: Hash32,
    pub daa_score: u64,
    pub timestamp: u64,
    pub bits: u32,
    pub parents_by_level: Vec<Vec<Hash32>>,
    pub transaction_count: usize,
    pub verbose: Option<VerboseBlock>,
}

/// The mathematical content of a [`BlockRecord`]: of the parent levels only
/// level 0 is kept, the only one the walk reads.
pub struct BlockRecordData {
    pub hash: Hash32,
    pub daa_score: u64,
    pub timestamp: u64,
    pub bits: u32,
    pub level0: Seq<Hash32>,
    pub transaction_count: usize,
    pub verbose: Option<VerboseBlock>,
}

impl View for BlockRecord {
    type V = BlockRecordData;

    open spec fn view(&self) -> BlockRecordData {
        BlockRecordData {
            hash: self.hash,
            daa_score: self.daa_score,
            timestamp: self.timestamp,
            bits: self.bits,
            level0: if self.parents_by_level@.len() > 0 {
                self.parents_by_level@[0]@
            } else {
                Seq::empty()
            },
            transaction_count: self.transaction_count,
            verbose: self.verbose,
        }
    }
}

/// Where a block's displayed difficulty comes from.
#[derive(Clone, Copy, Debug)]
pub enum Difficulty {
    /// The node's own figure, as the bit pattern of a 64-bit floating-point number.
    Reported(u64),
    /// No figure from the node: the header's compact target stands in, to be read
    /// as a number. This is an approximation, not the real difficulty.
    CompactBits(u32),
}

/// One block of the walk, as shown.
#[derive(Clone, Debug)]
pub struct BlockView {
    pub hash: Hash32,
    pub daa_score: u64,
    pub parent_hashes: Vec<Hash32>,
    pub transaction_count: usize,
    pub timestamp: u64,
    pub difficulty: Difficulty,
}

/// The mathematical content of a [`BlockView`].
pub struct BlockViewData {
    pub hash: Hash32,
    pub daa_score: u64,
    pub parent_hashes: Seq<Hash32>,
    pub transaction_count: usize,
    pub timestamp: u64,
    pub difficulty: Difficulty,
}

impl View for BlockView {
    type V = BlockViewData;

    open spec fn view(&self) -> BlockViewData {
        BlockViewData {
            hash: self.hash,
            daa_score: self.daa_score,
            parent_hashes: self.parent_hashes@,
            transaction_count: self.transaction_count,
            timestamp: self.timestamp,
            difficulty: self.difficulty,
        }
    }
}

/// `s` without repeats: each hash stays where it first stood.
pub open spec fn first_occurrences(s: Seq<Hash32>) -> Seq<Hash32>
    decreases s.len(),
{
    if s.len() == 0 {
        Seq::empty()
    } else {
        let init = first_occurrences(s.drop_last());
        if init.contains(s.last()) {
            init
        } else {
            init.push(s.last())
        }
    }
}

/// `first_occurrences` keeps exactly the hashes of its argument.
pub proof fn first_occurrences_same_members(s: Seq<Hash32>, h: Hash32)
    ensures
        first_occurrences(s).contains(h) <==> s.contains(h),
    decreases s.len(),
{
    if s.len() > 0 {
        let init = s.drop_last();
        first_occurrences_same_members(init, h);
        first_occurrences_same_members(init, s.last());
        if s.contains(h) {
            let i = choose|i: int| 0 <= i < s.len() && s[i] == h;
            if i < s.len() - 1 {
                assert(init[i] == h);
            }
        }
        if init.contains(h) {
            let i = choose|i: int| 0 <= i < init.len() && init[i] == h;
            assert(s[i] == h);
        }
        let out = first_occurrences(s);
        let prev = first_occurrences(init);
        if !prev.contains(s.last()) {
            assert(out == prev.push(s.last()));
            assert(out[out.len() - 1] == s.last());
            if out.contains(h) {
                let i = choose|i: int| 0 <= i < out.len() && out[i] == h;
                if i < prev.len() {
                    assert(prev[i] == h);
                }
            }
            if prev.contains(h) {
                let i = choose|i: int| 0 <= i < prev.len() && prev[i] == h;
                assert(out[i] == h);
            }
        }
        assert(s[s.len() - 1] == s.last());
    }
}

/// `first_occurrences` holds no hash twice.
pub proof fn first_occurrences_distinct(s: Seq<Hash32>)
    ensures
        first_occurrences(s).no_duplicates(),
    decreases s.len(),
{
    if s.len() > 0 {
        first_occurrences_distinct(s.drop_last());
    }
}

/// `first_occurrences` is never longer than its argument.
pub proof fn first_occurrences_len(s: Seq<Hash32>)
    ensures
        first_occurrences(s).len() <= s.len(),
        s.len() > 0 ==> first_occurrences(s).len() > 0 && first_occurrences(s)[0] == s[0],
    decreases s.len(),
{
    if s.len() > 0 {
        first_occurrences_len(s.drop_last());
        if s.len() == 1 {
            assert(first_occurrences(s.drop_last()) =~= Seq::empty());
        } else {
            assert(s.drop_last()[0] == s[0]);
        }
    }
}

/// What `first_occurrences` makes of a prefix stays in front when the list grows:
/// the order in which hashes were first seen is kept.
pub proof fn first_occurrences_keeps_order(s: Seq<Hash32>, n: int)
    requires
        0 <= n <= s.len(),
    ensures
        first_occurrences(s.take(n)).is_prefix_of(first_occurrences(s)),
    decreases s.len() - n,
{
    if n == s.len() {
        assert(s.take(n) =~= s);
    } else {
        first_occurrences_keeps_order(s, n + 1);
        assert(s.take(n + 1).drop_last() =~= s.take(n));
    }
}

/// Whether `list` holds `h`.
fn holds(list: &Vec<Hash32>, h: &Hash32) -> (r: bool)
    ensures
        r == list@.contains(*h),
{
    let mut i: usize = 0;
    while i < list.len()
        invariant
            i <= list.len(),
            forall|j: int| 0 <= j < i ==> list@[j] != *h,
        decreases list.len() - i,
    {
        if list[i] == *h {
            return true;
        }
        i += 1;
    }
    false
}

/// Drops every repeat of a hash, keeping the order of first appearance.
pub fn distinct_hashes(list: &Vec<Hash32>) -> (out: Vec<Hash32>)
    ensures
        out@ == first_occurrences(list@),
        out@.no_duplicates(),
{
    let mut out: Vec<Hash32> = Vec::new();
    let mut i: usize = 0;
    while i < list.len()
        invariant
            i <= list.len(),
            out@ == first_occurrences(list@.take(i as int)),
        decreases list.len() - i,
    {
        let h = list[i];
        proof {
            assert(list@.take(i + 1).drop_last() =~= list@.take(i as int));
            assert(list@.take(i + 1).last() == h);
        }
        if !holds(&out, &h) {
            out.push(h);
        }
        i += 1;
    }
    proof {
        assert(list@.take(i as int) =~= list@);
        first_occurrences_distinct(list@);
    }
    out
}

/// What a fetched block looks like on display.
pub open spec fn view_of(rec: BlockRecordData) -> BlockViewData {
    BlockViewData {
        hash: rec.hash,
        daa_score: rec.daa_score,
        parent_hashes: first_occurrences(rec.level0),
        transaction_count: match rec.verbose {
            Some(v) => v.transaction_id_count,
            None => rec.transaction_count,
        },
        timestamp: rec.timestamp,
        difficulty: match rec.verbose {
            Some(v) => Difficulty::Reported(v.difficulty_bits),
            None => Difficulty::CompactBits(rec.bits),
        },
    }
}

/// Where the walk goes after a block: to its selected parent where the node
/// names one, else to its first parent, and nowhere from a block without parents.
pub open spec fn next_hash(rec: BlockRecordData) -> Option<Hash32> {
    let parents = first_occurrences(rec.level0);
    if rec.verbose is Some && !rec.verbose->0.selected_parent_hash.is_zero_spec() {
        Some(rec.verbose->0.selected_parent_hash)
    } else if parents.len() > 0 {
        Some(parents[0])
    } else {
        None
    }
}

/// A block has no parents for the walk when the node names no selected parent
/// and lists none at level 0: only then does the walk end before its cap.
pub proof fn walk_ends_only_without_parents(rec: BlockRecordData)
    ensures
        next_hash(rec) is None <==> rec.level0.len() == 0 && (rec.verbose is None
            || rec.verbose->0.selected_parent_hash.is_zero_spec()),
{
    first_occurrences_len(rec.level0);
}

/// Builds the view of one fetched block.
pub fn block_view(rec: &BlockRecord) -> (view: BlockView)
    ensures
        view@ == view_of(rec@),
        view@.parent_hashes.no_duplicates(),
{
    let parent_hashes = if rec.parents_by_level.len() > 0 {
        distinct_hashes(&rec.parents_by_level[0])
    } else {
        proof {
            first_occurrences_distinct(Seq::empty());
        }
        Vec::new()
    };
    let (transaction_count, difficulty) = match rec.verbose {
        Some(v) => (v.transaction_id_count, Difficulty::Reported(v.difficulty_bits)),
        None => (rec.transaction_count, Difficulty::CompactBits(rec.bits)),
    };
    BlockView {
        hash: rec.hash,
        daa_score: rec.daa_score,
        parent_hashes,
        transaction_count,
        timestamp: rec.timestamp,
        difficulty,
    }
}

/// The hash to fetch after `rec`, if the walk can go on.
pub fn next_cursor(rec: &BlockRecord) -> (next: Option<Hash32>)
    ensures
        next == next_hash(rec@),
{
    match rec.verbose {
        Some(v) => {
            if !v.selected_parent_hash.is_zero() {
                return Some(v.selected_parent_hash);
            }
        },
        None => {},
    }
    proof {
        first_occurrences_len(rec@.level0);
    }
    if rec.parents_by_level.len() > 0 && rec.parents_by_level[0].len() > 0 {
        Some(rec.parents_by_level[0][0])
    } else {
        None
    }
}

/// The parents of every displayed block are pairwise distinct, whatever the
/// node listed.
pub proof fn parent_hashes_never_repeat(rec: BlockRecordData)
    ensures
        view_of(rec).parent_hashes.no_duplicates(),
        forall|h: Hash32| view_of(rec).parent_hashes.contains(h) <==> rec.level0.contains(h),
{
    first_occurrences_distinct(rec.level0);
    assert forall|h: Hash32| view_of(rec).parent_hashes.contains(h) <==> rec.level0.contains(
        h,
    ) by {
        first_occurrences_same_members(rec.level0, h);
    }
}

/// How the hashes of a list are written.
pub open spec fn hash_texts(hashes: Seq<Hash32>) -> Seq<Seq<char>> {
    Seq::new(hashes.len(), |i: int| lower_hex(hashes[i].bytes@))
}

/// How a block's parents are written: `None` where it has none, else their
/// hashes with a comma and a space between.
pub open spec fn parents_shown(parents: Seq<Hash32>) -> Seq<char> {
    if parents.len() == 0 {
        "None"@
    } else {
        joined(hash_texts(parents), ", "@)
    }
}

impl BlockView {
    /// The block's hash in hexadecimal.
    pub fn hash_text(&self) -> (text: String)
        ensures
            text@ == lower_hex(self@.hash.bytes@),
    {
        self.hash.to_hex()
    }

    /// The block's parents as one text.
    pub fn parents_text(&self) -> (text: String)
        ensures
            text@ == parents_shown(self@.parent_hashes),
    {
        if self.parent_hashes.len() == 0 {
            return String::from_str("None");
        }
        let mut parts: Vec<String> = Vec::new();
        let mut i: usize = 0;
        while i < self.parent_hashes.len()
            invariant
                i <= self.parent_hashes.len(),
                texts(parts@) == hash_texts(self.parent_hashes@.take(i as int)),
            decreases self.parent_hashes.len() - i,
        {
            let ghost before = parts@;
            let part = self.parent_hashes[i].to_hex();
            parts.push(part);
            assert(texts(parts@) =~= texts(before).push(part@));
            assert(hash_texts(self.parent_hashes@.take(i + 1)) =~= hash_texts(
                self.parent_hashes@.take(i as int),
            ).push(lower_hex(self.parent_hashes@[i as int].bytes@)));
            i += 1;
        }
        assert(self.parent_hashes@.take(i as int) =~= self.parent_hashes@);
        join(&parts, ", ")
    }
}

/// The walk's result: the DAG-wide block count and the blocks, newest first.
#[derive(Clone, Debug)]
pub struct BlocksResponse {
    pub total_count: u64,
    pub blocks: Vec<BlockView>,
}

/// The views of a list of blocks.
pub open spec fn block_views(blocks: Seq<BlockView>) -> Seq<BlockViewData> {
    Seq::new(blocks.len(), |i: int| blocks[i]@)
}

/// A walk that is waiting for the block at its cursor.
pub struct TipWalkData {
    pub max_count: nat,
    pub total_count: u64,
    pub cursor: Hash32,
    pub blocks: Seq<BlockViewData>,
}

/// What a walk does next.
pub enum WalkStepData {
    /// Fetch the block at the walk's cursor, headers only, and hand it to the walk.
    FetchBlock(TipWalkData),
    /// The walk is over.
    Done { total_count: u64, blocks: Seq<BlockViewData> },
    /// The walk was abandoned; nothing collected so far is returned.
    Failed(ErrorKind),
}

/// The first step, on the node's answer to the DAG-info call.
pub open spec fn after_tip(max_count: nat, reply: Result<DagTip, CallFailed>) -> WalkStepData {
    match reply {
        Err(_) => WalkStepData::Failed(ErrorKind::UpstreamError),
        Ok(tip) => if max_count == 0 {
            WalkStepData::Done { total_count: tip.block_count, blocks: Seq::empty() }
        } else {
            WalkStepData::FetchBlock(
                TipWalkData {
                    max_count,
                    total_count: tip.block_count,
                    cursor: tip.sink,
                    blocks: Seq::empty(),
                },
            )
        },
    }
}

/// Every later step, on the node's answer to the block fetch.
pub open spec fn after_block(
    walk: TipWalkData,
    reply: Result<BlockRecordData, CallFailed>,
) -> WalkStepData {
    match reply {
        Err(_) => WalkStepData::Failed(ErrorKind::UpstreamError),
        Ok(rec) => {
            let blocks = walk.blocks.push(view_of(rec));
            if blocks.len() < walk.max_count && next_hash(rec) is Some {
                WalkStepData::FetchBlock(
                    TipWalkData {
                        max_count: walk.max_count,
                        total_count: walk.total_count,
                        cursor: next_hash(rec)->0,
                        blocks,
                    },
                )
            } else {
                WalkStepData::Done { total_count: walk.total_count, blocks }
            }
        },
    }
}

/// A node's answer to a block fetch, as the walk's rules see it.
pub open spec fn reply_data(reply: Result<BlockRecord, CallFailed>) -> Result<
    BlockRecordData,
    CallFailed,
> {
    match reply {
        Ok(rec) => Ok(rec@),
        Err(e) => Err(e),
    }
}

/// A walk that has not asked for the DAG's tip yet.
#[derive(Debug)]
pub struct TipRequest {
    max_count: usize,
}

/// A walk in progress: it waits for the block at its cursor.
#[derive(Debug)]
pub struct TipWalk {
    max_count: usize,
    total_count: u64,
    cursor: Hash32,
    blocks: Vec<BlockView>,
}

/// What the caller does next for a walk.
#[derive(Debug)]
pub enum WalkStep {
    /// Fetch the block at the walk's cursor, headers only, and hand it to
    /// [`TipWalk::on_block`].
    FetchBlock(TipWalk),
    /// The walk is over.
    Done(BlocksResponse),
    /// The walk was abandoned; nothing collected so far is returned.
    Failed(ErrorKind),
}

impl View for TipWalk {
    type V = TipWalkData;

    closed spec fn view(&self) -> TipWalkData {
        TipWalkData {
            max_count: self.max_count as nat,
            total_count: self.total_count,
            cursor: self.cursor,
            blocks: block_views(self.blocks@),
        }
    }
}

impl View for WalkStep {
    type V = WalkStepData;

    open spec fn view(&self) -> WalkStepData {
        match self {
            WalkStep::FetchBlock(walk) => WalkStepData::FetchBlock(walk@),
            WalkStep::Done(response) => WalkStepData::Done {
                total_count: response.total_count,
                blocks: block_views(response.blocks@),
            },
            WalkStep::Failed(kind) => WalkStepData::Failed(*kind),
        }
    }
}

impl TipWalkData {
    /// A walk in progress still has room for the block it waits for.
    pub open spec fn valid(self) -> bool {
        self.blocks.len() < self.max_count
    }
}

impl WalkStepData {
    /// What holds of every step that a walk can reach.
    pub open spec fn valid(self, max_count: nat) -> bool {
        match self {
            WalkStepData::FetchBlock(walk) => walk.valid() && walk.max_count == max_count,
            WalkStepData::Done { blocks, .. } => blocks.len() <= max_count,
            WalkStepData::Failed(_) => true,
        }
    }
}

impl TipRequest {
    /// A walk that will collect at most `max_count` blocks. The caller begins
    /// by asking the node for its DAG info.
    pub fn new(max_count: usize) -> (request: TipRequest)
        ensures
            request.max_count() == max_count,
    {
        TipRequest { max_count }
    }

    /// The cap this walk was made with.
    pub closed spec fn max_count(&self) -> usize {
        self.max_count
    }

    /// Takes the answer to the DAG-info call: the walk starts at the sink, or
    /// fails where the call failed.
    pub fn on_tip(self, reply: Result<DagTip, CallFailed>) -> (step: WalkStep)
        ensures
            step@ == after_tip(self.max_count() as nat, reply),
            step@.valid(self.max_count() as nat),
    {
        match reply {
            Err(_) => WalkStep::Failed(ErrorKind::UpstreamError),
            Ok(tip) => {
                let blocks: Vec<BlockView> = Vec::new();
                assert(block_views(blocks@) =~= Seq::empty());
                if self.max_count == 0 {
                    WalkStep::Done(BlocksResponse { total_count: tip.block_count, blocks })
                } else {
                    WalkStep::FetchBlock(
                        TipWalk {
                            max_count: self.max_count,
                            total_count: tip.block_count,
                            cursor: tip.sink,
                            blocks,
                        },
                    )
                }
            },
        }
    }
}

impl TipWalk {
    #[verifier::type_invariant]
    spec fn has_room(self) -> bool {
        self.blocks@.len() < self.max_count
    }

    /// The hash of the block to fetch next.
    pub fn cursor(&self) -> (h: Hash32)
        ensures
            h == self@.cursor,
    {
        self.cursor
    }

    /// Takes the answer to the block fetch: the block joins the list, and the
    /// walk goes on to its selected parent, ends, or fails where the fetch failed.
    pub fn on_block(self, reply: Result<BlockRecord, CallFailed>) -> (step: WalkStep)
        ensures
            self@.valid(),
            step@ == after_block(self@, reply_data(reply)),
            step@.valid(self@.max_count),
    {
        proof {
            use_type_invariant(&self);
        }
        match reply {
            Err(_) => WalkStep::Failed(ErrorKind::UpstreamError),
            Ok(rec) => {
                let view = block_view(&rec);
                let next = next_cursor(&rec);
                let ghost before = self.blocks@;
                let max_count = self.max_count;
                let total_count = self.total_count;
                let mut blocks = self.blocks;
                blocks.push(view);
                assert(block_views(blocks@) =~= block_views(before).push(view_of(rec@)));
                if blocks.len() < max_count {
                    match next {
                        Some(cursor) => {
                            return WalkStep::FetchBlock(
                                TipWalk { max_count, total_count, cursor, blocks },
                            );
                        },
                        None => {},
                    }
                }
                WalkStep::Done(BlocksResponse { total_count, blocks })
            },
        }
    }
}

/// A node that answers every fetch from one unchanging set of blocks: the block
/// stored under the hash, or a failure where it stores none.
pub open spec fn node_answer(dag: Map<Hash32, BlockRecordData>, hash: Hash32) -> Result<
    BlockRecordData,
    CallFailed,
> {
    if dag.dom().contains(hash) {
        Ok(dag[hash])
    } else {
        Err(CallFailed)
    }
}

/// How many more blocks a step may still fetch.
pub open spec fn fetches_left(step: WalkStepData) -> nat {
    match step {
        WalkStepData::FetchBlock(walk) => if walk.valid() {
            (walk.max_count - walk.blocks.len()) as nat
        } else {
            0
        },
        _ => 0,
    }
}

/// Where a walk ends when every fetch is answered by `dag`.
pub open spec fn walk_outcome(dag: Map<Hash32, BlockRecordData>, step: WalkStepData) -> WalkStepData
    decreases fetches_left(step),
{
    match step {
        WalkStepData::FetchBlock(walk) => if walk.valid() {
            walk_outcome(dag, after_block(walk, node_answer(dag, walk.cursor)))
        } else {
            step
        },
        _ => step,
    }
}

/// The views of a list of fetched blocks.
pub open spec fn chain_views(chain: Seq<BlockRecordData>) -> Seq<BlockViewData> {
    Seq::new(chain.len(), |i: int| view_of(chain[i]))
}

/// `chain` lies in `dag` and each block but the last leads the walk to the next.
pub open spec fn is_linked_chain(
    dag: Map<Hash32, BlockRecordData>,
    chain: Seq<BlockRecordData>,
) -> bool {
    &&& chain.len() > 0
    &&& forall|i: int|
        0 <= i < chain.len() ==> dag.dom().contains(#[trigger] chain[i].hash) && dag[chain[i].hash]
            == chain[i]
    &&& forall|i: int|
        0 <= i < chain.len() - 1 ==> next_hash(#[trigger] chain[i]) == Some(chain[i + 1].hash)
}

/// From any step a walk can reach, it ends, in a failure or with at most
/// `max_count` blocks.
pub proof fn walk_ends_within_cap(
    dag: Map<Hash32, BlockRecordData>,
    step: WalkStepData,
    max_count: nat,
)
    requires
        step.valid(max_count),
    ensures
        !(walk_outcome(dag, step) is FetchBlock),
        walk_outcome(dag, step).valid(max_count),
    decreases fetches_left(step),
{
    if let WalkStepData::FetchBlock(walk) = step {
        walk_ends_within_cap(dag, after_block(walk, node_answer(dag, walk.cursor)), max_count);
    }
}

/// A walk never returns more than `max_count` blocks, whatever the DAG holds
/// and whatever the DAG-info call answered.
pub proof fn walk_never_exceeds_cap(
    dag: Map<Hash32, BlockRecordData>,
    max_count: nat,
    tip: Result<DagTip, CallFailed>,
)
    ensures
        match walk_outcome(dag, after_tip(max_count, tip)) {
            WalkStepData::FetchBlock(_) => false,
            WalkStepData::Done { blocks, .. } => blocks.len() <= max_count,
            WalkStepData::Failed(kind) => kind == ErrorKind::UpstreamError,
        },
{
    let first = after_tip(max_count, tip);
    walk_ends_within_cap(dag, first, max_count);
    walk_fails_upstream_only(dag, first);
}

/// A walk that does not start in a failure of another kind fails, if at all,
/// with `UpstreamError`.
pub proof fn walk_fails_upstream_only(dag: Map<Hash32, BlockRecordData>, step: WalkStepData)
    requires
        step is Failed ==> step->Failed_0 == ErrorKind::UpstreamError,
    ensures
        walk_outcome(dag, step) is Failed ==> walk_outcome(dag, step)->Failed_0
            == ErrorKind::UpstreamError,
    decreases fetches_left(step),
{
    if let WalkStepData::FetchBlock(walk) = step {
        if walk.valid() {
            walk_fails_upstream_only(dag, after_block(walk, node_answer(dag, walk.cursor)));
        }
    }
}

/// One step of a walk that stands at block `k` of a linked chain, with the
/// blocks before it collected.
proof fn walk_takes_chain_block(
    dag: Map<Hash32, BlockRecordData>,
    chain: Seq<BlockRecordData>,
    max_count: nat,
    total_count: u64,
    k: int,
)
    requires
        is_linked_chain(dag, chain),
        0 <= k < chain.len(),
        k < max_count,
    ensures
        after_block(
            TipWalkData {
                max_count,
                total_count,
                cursor: chain[k].hash,
                blocks: chain_views(chain.take(k)),
            },
            node_answer(dag, chain[k].hash),
        ) == if k + 1 < max_count && next_hash(chain[k]) is Some {
            WalkStepData::FetchBlock(
                TipWalkData {
                    max_count,
                    total_count,
                    cursor: next_hash(chain[k])->0,
                    blocks: chain_views(chain.take(k + 1)),
                },
            )
        } else {
            WalkStepData::Done { total_count, blocks: chain_views(chain.take(k + 1)) }
        },
{
    let here = chain[k];
    assert(dag.dom().contains(here.hash) && dag[here.hash] == here);
    assert(chain_views(chain.take(k)).push(view_of(here)) =~= chain_views(chain.take(k + 1)));
}

/// A walk that stands at block `k` of a linked chain, with the blocks before
/// it collected, collects the rest of the chain as far as the cap allows.
proof fn walk_follows_chain(
    dag: Map<Hash32, BlockRecordData>,
    chain: Seq<BlockRecordData>,
    max_count: nat,
    total_count: u64,
    k: int,
)
    requires
        is_linked_chain(dag, chain),
        0 <= k < chain.len(),
        k < max_count,
        chain.len() < max_count ==> next_hash(chain.last()) is None,
    ensures
        walk_outcome(
            dag,
            WalkStepData::FetchBlock(
                TipWalkData {
                    max_count,
                    total_count,
                    cursor: chain[k].hash,
                    blocks: chain_views(chain.take(k)),
                },
            ),
        ) == (WalkStepData::Done {
            total_count,
            blocks: chain_views(
                chain.take(
                    if chain.len() <= max_count {
                        chain.len() as int
                    } else {
                        max_count as int
                    },
                ),
            ),
        }),
    decreases chain.len() - k,
{
    let walk = TipWalkData {
        max_count,
        total_count,
        cursor: chain[k].hash,
        blocks: chain_views(chain.take(k)),
    };
    let next = after_block(walk, node_answer(dag, walk.cursor));
    walk_takes_chain_block(dag, chain, max_count, total_count, k);
    assert(walk.valid());
    assert(walk_outcome(dag, WalkStepData::FetchBlock(walk)) == walk_outcome(dag, next));
    if k < chain.len() - 1 {
        let here = chain[k];
        assert(next_hash(here) == Some(chain[k + 1].hash));
        if k + 1 < max_count {
            walk_follows_chain(dag, chain, max_count, total_count, k + 1);
        } else {
            assert(walk_outcome(dag, next) == next);
        }
    } else {
        assert(chain[k] == chain.last());
        assert(walk_outcome(dag, next) == next);
    }
}

/// On a DAG whose selected-parent chain from the sink has fewer blocks than
/// the cap and ends in a block without parents, the walk returns exactly that
/// chain, newest first, and no error.
pub proof fn linear_chain_is_walked_whole(
    dag: Map<Hash32, BlockRecordData>,
    tip: DagTip,
    max_count: nat,
    chain: Seq<BlockRecordData>,
)
    requires
        is_linked_chain(dag, chain),
        chain[0].hash == tip.sink,
        next_hash(chain.last()) is None,
        chain.len() < max_count,
    ensures
        walk_outcome(dag, after_tip(max_count, Ok(tip))) == (WalkStepData::Done {
            total_count: tip.block_count,
            blocks: chain_views(chain),
        }),
        chain_views(chain).len() == chain.len(),
{
    assert(chain_views(chain.take(0)) =~= Seq::empty());
    assert(chain.take(chain.len() as int) =~= chain);
    walk_follows_chain(dag, chain, max_count, tip.block_count, 0);
}

/// On a DAG whose selected-parent chain from the sink is at least as long as
/// the cap, the walk returns the first `max_count` blocks of it.
pub proof fn long_chain_is_cut_at_cap(
    dag: Map<Hash32, BlockRecordData>,
    tip: DagTip,
    max_count: nat,
    chain: Seq<BlockRecordData>,
)
    requires
        is_linked_chain(dag, chain),
        chain[0].hash == tip.sink,
        0 < max_count <= chain.len(),
    ensures
        walk_outcome(dag, after_tip(max_count, Ok(tip))) == (WalkStepData::Done {
            total_count: tip.block_count,
            blocks: chain_views(chain.take(max_count as int)),
        }),
{
    assert(chain_views(chain.take(0)) =~= Seq::empty());
    assert(chain.take(chain.len() as int) =~= chain);
    walk_follows_chain(dag, chain, max_count, tip.block_count, 0);
}

} // verus!
