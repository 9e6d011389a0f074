//! The mempool view: a snapshot of the node's pending transactions, shown
//! through a window that is fixed by the identifiers alone.

use crate::amount::{sum_wrapping, wrapped_total};
use crate::hash::{lower_hex, Hash32};
use crate::order::{
    display_order, display_order_exists, display_order_ignores_arrival, is_display_order, picked,
    sorted_positions,
};
use crate::text::texts;
use std::collections::hash_map::DefaultHasher;
use std::hash::Hasher;
use vstd::prelude::*;
use vstd::std_specs::hash::DefaultHasherAdditionalSpecFns;
use vstd::string::StringSliceAdditionalSpecFns;
use vstd::utf8::encode_utf8;

verus! {

/// How many entries the dashboard shows.
pub const DEFAULT_MAX_DISPLAY: usize = 50;

/// What the node adds to a pending transaction when it has it indexed.
#[derive(Clone, Copy, Debug)]
pub struct VerboseTx {
    pub transaction_id: Hash32,
    pub hash: Hash32,
}

/// One pending transaction as the node lists it.
#[derive(Debug)]
pub struct MempoolEntryRecord {
    pub verbose: Option<VerboseTx>,
    pub input_count: usize,
    pub output_values: Vec<u64>,
}

/// The mathematical content of a [`MempoolEntryRecord`].
pub struct MempoolEntryRecordData {
    pub verbose: Option<VerboseTx>,
    pub input_count: usize,
    pub output_values: Seq<u64>,
}

impl View for MempoolEntryRecord {
    type V = MempoolEntryRecordData;

    open spec fn view(&self) -> MempoolEntryRecordData {
        MempoolEntryRecordData {
            verbose: self.verbose,
            input_count: self.input_count,
            output_values: self.output_values@,
        }
    }
}

/// One pending transaction as shown.
#[derive(Debug)]
pub struct MempoolEntry {
    pub id: String,
    pub input_count: usize,
    pub output_count: usize,
    pub total_output_value: u64,
}

/// The mathematical content of a [`MempoolEntry`].
pub struct MempoolEntryData {
    pub id: Seq<char>,
    pub input_count: usize,
    pub output_count: usize,
    pub total_output_value: u64,
}

impl View for MempoolEntry {
    type V = MempoolEntryData;

    open spec fn view(&self) -> MempoolEntryData {
        MempoolEntryData {
            id: self.id@,
            input_count: self.input_count,
            output_count: self.output_count,
            total_output_value: self.total_output_value,
        }
    }
}

impl Clone for MempoolEntry {
    fn clone(&self) -> (copy: MempoolEntry)
        ensures
            copy@ == self@,
    {
        MempoolEntry {
            id: self.id.clone(),
            input_count: self.input_count,
            output_count: self.output_count,
            total_output_value: self.total_output_value,
        }
    }
}

/// The identifier of an entry: the transaction id in hexadecimal; where the
/// node left that zero, its hash of the transaction; and the empty text where
/// the node added nothing.
pub open spec fn id_of(rec: MempoolEntryRecordData) -> Seq<char> {
    match rec.verbose {
        Some(v) => if !v.transaction_id.is_zero_spec() {
            lower_hex(v.transaction_id.bytes@)
        } else {
            lower_hex(v.hash.bytes@)
        },
        None => Seq::empty(),
    }
}

/// How an entry is shown.
pub open spec fn entry_of(rec: MempoolEntryRecordData) -> MempoolEntryData {
    MempoolEntryData {
        id: id_of(rec),
        input_count: rec.input_count,
        output_count: rec.output_values.len() as usize,
        total_output_value: wrapped_total(rec.output_values),
    }
}

/// The views of a list of records.
pub open spec fn record_views(records: Seq<MempoolEntryRecord>) -> Seq<MempoolEntryRecordData> {
    Seq::new(records.len(), |i: int| records[i]@)
}

/// The identifiers of a list of records, as listed.
pub open spec fn record_ids(records: Seq<MempoolEntryRecordData>) -> Seq<Seq<char>> {
    Seq::new(records.len(), |i: int| id_of(records[i]))
}

/// The views of a list of entries.
pub open spec fn entry_views(entries: Seq<MempoolEntry>) -> Seq<MempoolEntryData> {
    Seq::new(entries.len(), |i: int| entries[i]@)
}

/// Computes the identifier of an entry.
pub fn entry_id(rec: &MempoolEntryRecord) -> (id: String)
    ensures
        id@ == id_of(rec@),
{
    match rec.verbose {
        Some(v) => {
            if !v.transaction_id.is_zero() {
                v.transaction_id.to_hex()
            } else {
                v.hash.to_hex()
            }
        },
        None => String::new(),
    }
}

/// The entries in display order: by identifier, entries with the same
/// identifier in the order the node listed them.
pub open spec fn lined_up(records: Seq<MempoolEntryRecordData>) -> Seq<MempoolEntryData> {
    Seq::new(
        records.len(),
        |k: int| entry_of(records[display_order(record_ids(records))[k] as int]),
    )
}

/// The identifiers of a list of entries, as listed.
pub open spec fn entry_ids(entries: Seq<MempoolEntryData>) -> Seq<Seq<char>> {
    Seq::new(entries.len(), |k: int| entries[k].id)
}

/// What hashing the identifiers one after the other writes to the hasher:
/// for each the bytes of the text, then one byte `0xff`.
pub open spec fn id_writes(ids: Seq<Seq<char>>) -> Seq<Seq<u8>>
    decreases ids.len(),
{
    if ids.len() == 0 {
        Seq::empty()
    } else {
        id_writes(ids.drop_last()).push(encode_utf8(ids.last())).push(seq![0xffu8])
    }
}

/// The seed of a window: what std's default hasher, freshly made, makes of
/// the identifiers in display order.
pub open spec fn seed_of(ids_in_order: Seq<Seq<char>>) -> u64 {
    DefaultHasher::spec_finish(id_writes(ids_in_order))
}

/// Where the window starts among `len` lined-up entries.
pub open spec fn window_start(seed: u64, len: nat) -> nat {
    if len == 0 {
        0
    } else {
        seed as nat % len
    }
}

/// How many entries the window shows.
pub open spec fn window_len(max_display: nat, len: nat) -> nat {
    if max_display <= len {
        max_display
    } else {
        len
    }
}

/// The window: `count` neighbours in the line-up from `start` on, going round
/// to the front where the line-up ends.
pub open spec fn window(lined: Seq<MempoolEntryData>, start: nat, count: nat) -> Seq<
    MempoolEntryData,
> {
    Seq::new(count, |i: int| lined[(start + i) % (lined.len() as int)])
}

/// Where the window of a list of records starts.
pub open spec fn start_of(records: Seq<MempoolEntryRecordData>) -> nat {
    window_start(seed_of(entry_ids(lined_up(records))), records.len())
}

/// A snapshot of the mempool.
#[derive(Debug)]
pub struct MempoolSnapshot {
    /// When the snapshot was made, in milliseconds of the caller's clock.
    pub captured_at: u64,
    /// How many transactions the mempool held, shown or not.
    pub total_size: u64,
    pub sampled_entries: Vec<MempoolEntry>,
}

/// The mathematical content of a [`MempoolSnapshot`].
pub struct MempoolSnapshotData {
    pub captured_at: u64,
    pub total_size: u64,
    pub sampled_entries: Seq<MempoolEntryData>,
}

impl View for MempoolSnapshot {
    type V = MempoolSnapshotData;

    open spec fn view(&self) -> MempoolSnapshotData {
        MempoolSnapshotData {
            captured_at: self.captured_at,
            total_size: self.total_size,
            sampled_entries: entry_views(self.sampled_entries@),
        }
    }
}

impl Clone for MempoolSnapshot {
    fn clone(&self) -> (copy: MempoolSnapshot)
        ensures
            copy@ == self@,
    {
        let mut sampled_entries: Vec<MempoolEntry> = Vec::new();
        let mut i: usize = 0;
        while i < self.sampled_entries.len()
            invariant
                i <= self.sampled_entries.len(),
                entry_views(sampled_entries@) == entry_views(self.sampled_entries@.take(i as int)),
            decreases self.sampled_entries.len() - i,
        {
            let ghost before = sampled_entries@;
            let entry = self.sampled_entries[i].clone();
            sampled_entries.push(entry);
            assert(entry_views(sampled_entries@) =~= entry_views(before).push(entry@));
            assert(entry_views(self.sampled_entries@.take(i + 1)) =~= entry_views(
                self.sampled_entries@.take(i as int),
            ).push(self.sampled_entries@[i as int]@));
            i += 1;
        }
        assert(self.sampled_entries@.take(i as int) =~= self.sampled_entries@);
        MempoolSnapshot {
            captured_at: self.captured_at,
            total_size: self.total_size,
            sampled_entries,
        }
    }
}

/// The snapshot made of a successful fetch at time `now`.
pub open spec fn snapshot_of(
    records: Seq<MempoolEntryRecordData>,
    max_display: nat,
    now: u64,
) -> MempoolSnapshotData {
    MempoolSnapshotData {
        captured_at: now,
        total_size: records.len() as u64,
        sampled_entries: window(
            lined_up(records),
            start_of(records),
            window_len(max_display, records.len()),
        ),
    }
}

/// Builds the entry shown for a record whose identifier is at hand.
fn entry_with_id(rec: &MempoolEntryRecord, id: &String) -> (entry: MempoolEntry)
    requires
        id@ == id_of(rec@),
    ensures
        entry@ == entry_of(rec@),
{
    MempoolEntry {
        id: id.clone(),
        input_count: rec.input_count,
        output_count: rec.output_values.len(),
        total_output_value: sum_wrapping(&rec.output_values),
    }
}

/// Builds the entry shown for a record.
pub fn entry_for(rec: &MempoolEntryRecord) -> (entry: MempoolEntry)
    ensures
        entry@ == entry_of(rec@),
{
    let id = entry_id(rec);
    entry_with_id(rec, &id)
}

/// Lines the entries up for display: by identifier, entries with the same
/// identifier in the order the node listed them.
pub fn line_up(records: &Vec<MempoolEntryRecord>) -> (lined: Vec<MempoolEntry>)
    ensures
        entry_views(lined@) == lined_up(record_views(records@)),
{
    let ghost all = record_ids(record_views(records@));
    let mut ids: Vec<String> = Vec::new();
    let mut i: usize = 0;
    while i < records.len()
        invariant
            i <= records.len(),
            all == record_ids(record_views(records@)),
            texts(ids@) == all.take(i as int),
        decreases records.len() - i,
    {
        let ghost before = ids@;
        let id = entry_id(&records[i]);
        ids.push(id);
        assert(texts(ids@) =~= texts(before).push(id@));
        assert(all.take(i + 1) =~= all.take(i as int).push(id_of(records@[i as int]@)));
        i += 1;
    }
    assert(all.take(i as int) =~= all);
    let order = sorted_positions(&ids);
    let ghost target = lined_up(record_views(records@));
    let mut lined: Vec<MempoolEntry> = Vec::new();
    let mut k: usize = 0;
    while k < order.len()
        invariant
            k <= order.len(),
            order@.len() == records@.len(),
            ids@.len() == records@.len(),
            texts(ids@) == record_ids(record_views(records@)),
            order@ == display_order(record_ids(record_views(records@))),
            is_display_order(texts(ids@), order@),
            target == lined_up(record_views(records@)),
            entry_views(lined@) == target.take(k as int),
        decreases order.len() - k,
    {
        let position = order[k];
        proof {
            assert(0 <= order@[k as int] < records@.len());
            assert(texts(ids@)[position as int] == record_ids(record_views(records@))[position as int]);
        }
        let entry = entry_with_id(&records[position], &ids[position]);
        let ghost before = lined@;
        lined.push(entry);
        proof {
            assert(entry_views(lined@) =~= entry_views(before).push(entry@));
            assert(target[k as int] == entry_of(record_views(records@)[position as int]));
            assert(target.take(k + 1) =~= target.take(k as int).push(target[k as int]));
        }
        k += 1;
    }
    assert(target.take(k as int) =~= target);
    lined
}

/// Hashes the identifiers of the entries, in the order given, as std hashes
/// one string after another into a fresh default hasher.
pub fn seed_for(entries: &Vec<MempoolEntry>) -> (seed: u64)
    ensures
        seed == seed_of(entry_ids(entry_views(entries@))),
{
    let ghost ids = entry_ids(entry_views(entries@));
    let mut hasher = DefaultHasher::new();
    let end: [u8; 1] = [0xff];
    let mut k: usize = 0;
    while k < entries.len()
        invariant
            k <= entries.len(),
            ids == entry_ids(entry_views(entries@)),
            hasher@ == id_writes(ids.take(k as int)),
            end@ == seq![0xffu8],
        decreases entries.len() - k,
    {
        let id = &entries[k].id;
        proof {
            assert(ids.take(k + 1).drop_last() =~= ids.take(k as int));
            assert(ids.take(k + 1).last() == id@);
        }
        hasher.write(id.as_str().as_bytes());
        hasher.write(end.as_slice());
        k += 1;
    }
    assert(ids.take(k as int) =~= ids);
    hasher.finish()
}

/// The position in the line-up at which the window starts.
pub fn first_shown(seed: u64, len: usize) -> (start: usize)
    ensures
        start == window_start(seed, len as nat),
        len > 0 ==> start < len,
{
    if len == 0 {
        0
    } else {
        (seed % (len as u64)) as usize
    }
}

/// Takes the window out of the line-up: at most `max_display` entries from
/// the one the seed points at, going round at the end.
pub fn take_window(lined: &Vec<MempoolEntry>, seed: u64, max_display: usize) -> (sampled: Vec<
    MempoolEntry,
>)
    ensures
        entry_views(sampled@) == window(
            entry_views(lined@),
            window_start(seed, lined@.len()),
            window_len(max_display as nat, lined@.len()),
        ),
{
    let len = lined.len();
    let count = if max_display <= len {
        max_display
    } else {
        len
    };
    let start = first_shown(seed, len);
    let ghost target = window(
        entry_views(lined@),
        window_start(seed, lined@.len()),
        window_len(max_display as nat, lined@.len()),
    );
    let mut sampled: Vec<MempoolEntry> = Vec::new();
    let mut i: usize = 0;
    while i < count
        invariant
            i <= count <= len,
            len == lined@.len(),
            len > 0 ==> start < len,
            start == window_start(seed, lined@.len()),
            count == window_len(max_display as nat, lined@.len()),
            target == window(
                entry_views(lined@),
                window_start(seed, lined@.len()),
                window_len(max_display as nat, lined@.len()),
            ),
            entry_views(sampled@) == target.take(i as int),
        decreases count - i,
    {
        let at = if i < len - start {
            start + i
        } else {
            i - (len - start)
        };
        proof {
            if i < len - start {
                vstd::arithmetic::div_mod::lemma_small_mod((start + i) as nat, len as nat);
            } else {
                vstd::arithmetic::div_mod::lemma_mod_sub_multiples_vanish(
                    (start + i) as int,
                    len as int,
                );
                vstd::arithmetic::div_mod::lemma_small_mod((start + i - len) as nat, len as nat);
            }
            assert(at == (start + i) % (len as int));
        }
        let entry = lined[at].clone();
        let ghost before = sampled@;
        sampled.push(entry);
        proof {
            assert(entry_views(sampled@) =~= entry_views(before).push(entry@));
            assert(target[i as int] == entry_views(lined@)[at as int]);
            assert(target.take(i + 1) =~= target.take(i as int).push(target[i as int]));
        }
        i += 1;
    }
    assert(target.take(i as int) =~= target);
    sampled
}

/// Makes the snapshot of a successful fetch: the entries are lined up by
/// identifier, the identifiers hashed to a seed, and the window taken where
/// the seed points.
pub fn build_snapshot(records: &Vec<MempoolEntryRecord>, max_display: usize, now: u64) -> (snapshot:
    MempoolSnapshot)
    ensures
        snapshot@ == snapshot_of(record_views(records@), max_display as nat, now),
{
    let lined = line_up(records);
    let seed = seed_for(&lined);
    let sampled_entries = take_window(&lined, seed, max_display);
    MempoolSnapshot { captured_at: now, total_size: records.len() as u64, sampled_entries }
}

/// The identifiers of the line-up are the identifiers given, in display order.
pub proof fn line_up_sorts_the_ids(records: Seq<MempoolEntryRecordData>)
    requires
        records.len() <= usize::MAX,
    ensures
        entry_ids(lined_up(records)) == picked(
            record_ids(records),
            display_order(record_ids(records)),
        ),
        is_display_order(record_ids(records), display_order(record_ids(records))),
{
    let ids = record_ids(records);
    display_order_exists(ids);
    let order = display_order(ids);
    assert forall|k: int| 0 <= k < records.len() implies entry_ids(lined_up(records))[k] == picked(
        ids,
        order,
    )[k] by {
        assert(0 <= order[k] < records.len());
    }
    assert(entry_ids(lined_up(records)) =~= picked(ids, order));
}

/// The window shows `max_display` entries, or all of them where there are
/// fewer; and the snapshot counts them all and carries the time it was made at.
pub proof fn window_length_is_the_smaller(
    records: Seq<MempoolEntryRecordData>,
    max_display: nat,
    now: u64,
)
    ensures
        snapshot_of(records, max_display, now).sampled_entries.len() == if max_display
            <= records.len() {
            max_display
        } else {
            records.len()
        },
        snapshot_of(records, max_display, now).captured_at == now,
        records.len() <= u64::MAX ==> snapshot_of(records, max_display, now).total_size
            == records.len(),
{
}

/// Two fetches that hold the same identifiers as often start their windows
/// at the same position, whenever each was made and however each was listed.
pub proof fn window_start_is_fixed_by_ids(
    first: Seq<MempoolEntryRecordData>,
    second: Seq<MempoolEntryRecordData>,
)
    requires
        first.len() <= usize::MAX,
        record_ids(first).to_multiset() == record_ids(second).to_multiset(),
    ensures
        first.len() == second.len(),
        start_of(first) == start_of(second),
        entry_ids(lined_up(first)) == entry_ids(lined_up(second)),
{
    vstd::seq_lib::to_multiset_len(record_ids(first));
    vstd::seq_lib::to_multiset_len(record_ids(second));
    display_order_ignores_arrival(record_ids(first), record_ids(second));
    line_up_sorts_the_ids(first);
    line_up_sorts_the_ids(second);
}

/// The window shows neighbours of the line-up: the entries shown are those
/// that follow one another in display order from the start on, going round at
/// the end; and the start lies in the line-up.
pub proof fn window_is_contiguous(
    records: Seq<MempoolEntryRecordData>,
    max_display: nat,
    now: u64,
    i: int,
)
    requires
        0 < records.len(),
        0 <= i < window_len(max_display, records.len()),
    ensures
        snapshot_of(records, max_display, now).sampled_entries[i] == lined_up(records)[(start_of(
            records,
        ) + i) % (records.len() as int)],
        start_of(records) < records.len(),
{
    let n = records.len() as int;
    vstd::arithmetic::div_mod::lemma_mod_bound(
        seed_of(entry_ids(lined_up(records))) as int,
        n,
    );
}

} // verus!
