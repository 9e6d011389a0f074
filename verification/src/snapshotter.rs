//! Fetching the mempool view: a few attempts, then the last snapshot while it
//! is recent, then the bare size. A view always comes back.

use crate::error::CallFailed;
use crate::mempool::{
    build_snapshot, record_views, snapshot_of, MempoolEntry, MempoolEntryRecord,
    MempoolEntryRecordData, MempoolSnapshot, MempoolSnapshotData,
};
use vstd::prelude::*;

verus! {

/// How often the entries are asked for before the fetch falls back.
pub const MAX_ATTEMPTS: u8 = 3;

/// How long to wait after a failed attempt, in milliseconds.
pub const RETRY_BACKOFF_MS: u64 = 150;

/// Up to which age a cached snapshot stands in for a failed fetch, in milliseconds.
pub const STALENESS_BOUND_MS: u64 = 15_000;

/// The entries are asked for with the orphan pool included,
pub const INCLUDE_ORPHAN_POOL: bool = true;

/// and with the transaction pool not filtered out: the whole mempool.
pub const FILTER_TRANSACTION_POOL: bool = false;

/// Whether a snapshot made at `captured_at` may still be served at `now`. A
/// clock that went back makes no snapshot older.
pub open spec fn is_fresh(snapshot: MempoolSnapshotData, now: u64) -> bool {
    now <= snapshot.captured_at || now - snapshot.captured_at <= STALENESS_BOUND_MS
}

/// The last snapshot made of a successful fetch, if there was one.
#[derive(Debug)]
pub struct MempoolCache {
    slot: Option<MempoolSnapshot>,
}

impl View for MempoolCache {
    type V = Option<MempoolSnapshotData>;

    closed spec fn view(&self) -> Option<MempoolSnapshotData> {
        match self.slot {
            Some(snapshot) => Some(snapshot@),
            None => None,
        }
    }
}

impl MempoolCache {
    /// A cache that holds nothing yet.
    pub fn new() -> (cache: MempoolCache)
        ensures
            cache@ is None,
    {
        MempoolCache { slot: None }
    }

    /// A copy of the snapshot held.
    pub fn get(&self) -> (held: Option<MempoolSnapshot>)
        ensures
            match held {
                Some(snapshot) => self@ == Some(snapshot@),
                None => self@ is None,
            },
    {
        match &self.slot {
            Some(snapshot) => Some(snapshot.clone()),
            None => None,
        }
    }

    /// A copy of the snapshot held, if it may still be served at `now`.
    pub fn get_fresh(&self, now: u64) -> (held: Option<MempoolSnapshot>)
        ensures
            match held {
                Some(snapshot) => self@ == Some(snapshot@) && is_fresh(snapshot@, now),
                None => self@ is None || !is_fresh(self@->0, now),
            },
    {
        match &self.slot {
            Some(snapshot) => {
                if now <= snapshot.captured_at || now - snapshot.captured_at
                    <= STALENESS_BOUND_MS {
                    Some(snapshot.clone())
                } else {
                    None
                }
            },
            None => None,
        }
    }

    /// Puts `snapshot` in place of whatever was held.
    pub fn replace(&mut self, snapshot: MempoolSnapshot)
        ensures
            final(self)@ == Some(snapshot@),
    {
        self.slot = Some(snapshot);
    }
}

/// How far a fetch has come: the cap on shown entries it was started with,
/// and how many attempts have failed.
pub struct AttemptData {
    pub max_display: nat,
    pub failures: nat,
}

/// What a fetch does next.
pub enum MempoolStepData {
    /// Ask the node for the entries of the whole mempool.
    FetchEntries(AttemptData),
    /// Wait `RETRY_BACKOFF_MS`.
    Sleep(AttemptData),
    /// Ask the node for its info, for the mempool's size.
    FetchSize,
    /// The view to return.
    Done(MempoolSnapshotData),
}

impl MempoolStepData {
    /// What holds of every step that a fetch can reach.
    pub open spec fn valid(self) -> bool {
        match self {
            MempoolStepData::FetchEntries(attempt) => attempt.failures < MAX_ATTEMPTS,
            MempoolStepData::Sleep(attempt) => 1 <= attempt.failures <= MAX_ATTEMPTS,
            _ => true,
        }
    }

    /// A bound on the steps still to come.
    pub open spec fn steps_left(self) -> nat {
        match self {
            MempoolStepData::FetchEntries(attempt) => (2 * (MAX_ATTEMPTS - attempt.failures)
                + 1) as nat,
            MempoolStepData::Sleep(attempt) => (2 * (MAX_ATTEMPTS - attempt.failures) + 2) as nat,
            MempoolStepData::FetchSize => 1,
            MempoolStepData::Done(_) => 0,
        }
    }
}

/// The view that reports a size and shows nothing.
pub open spec fn size_only(total_size: u64, now: u64) -> MempoolSnapshotData {
    MempoolSnapshotData { captured_at: now, total_size, sampled_entries: Seq::empty() }
}

/// The step after the node answered, or failed to answer, the call for the
/// entries: any answer is a success, an empty one too.
pub open spec fn after_entries(
    attempt: AttemptData,
    reply: Result<Seq<MempoolEntryRecordData>, CallFailed>,
    now: u64,
) -> MempoolStepData {
    match reply {
        Ok(records) => MempoolStepData::Done(snapshot_of(records, attempt.max_display, now)),
        Err(_) => MempoolStepData::Sleep(
            AttemptData { max_display: attempt.max_display, failures: attempt.failures + 1 },
        ),
    }
}

/// The step after the wait that follows a failed attempt: another attempt
/// while there is one left, else the cached snapshot if it is recent, else the
/// call for the size.
pub open spec fn after_sleep(
    attempt: AttemptData,
    cached: Option<MempoolSnapshotData>,
    now: u64,
) -> MempoolStepData {
    if attempt.failures < MAX_ATTEMPTS {
        MempoolStepData::FetchEntries(attempt)
    } else if cached is Some && is_fresh(cached->0, now) {
        MempoolStepData::Done(cached->0)
    } else {
        MempoolStepData::FetchSize
    }
}

/// The view after the call for the size: the size where the node gave it,
/// zero where not, and no entries.
pub open spec fn after_size(reply: Result<u64, CallFailed>, now: u64) -> MempoolSnapshotData {
    match reply {
        Ok(total_size) => size_only(total_size, now),
        Err(_) => size_only(0, now),
    }
}

/// A node's answer to the call for the entries, as the fetch's rules see it.
pub open spec fn entries_reply(reply: Result<Vec<MempoolEntryRecord>, CallFailed>) -> Result<
    Seq<MempoolEntryRecordData>,
    CallFailed,
> {
    match reply {
        Ok(records) => Ok(record_views(records@)),
        Err(e) => Err(e),
    }
}

/// A fetch that is about to ask for the entries.
#[derive(Debug)]
pub struct MempoolFetch {
    max_display: usize,
    failures: u8,
}

/// A fetch that waits after a failed attempt.
#[derive(Debug)]
pub struct Backoff {
    max_display: usize,
    failures: u8,
}

/// A fetch that is about to ask for the mempool's size.
#[derive(Debug)]
pub struct SizeProbe {
    max_display: usize,
}

/// What the caller does next for a fetch.
#[derive(Debug)]
pub enum MempoolStep {
    /// Call the node for the entries, with `INCLUDE_ORPHAN_POOL` and
    /// `FILTER_TRANSACTION_POOL`, and hand the outcome to [`MempoolFetch::on_entries`].
    FetchEntries(MempoolFetch),
    /// Wait `RETRY_BACKOFF_MS`, then call [`Backoff::on_elapsed`].
    Sleep(Backoff),
    /// Call the node for its info and hand the mempool size to [`SizeProbe::on_size`].
    FetchSize(SizeProbe),
    /// Return this view.
    Done(MempoolSnapshot),
}

impl View for MempoolFetch {
    type V = AttemptData;

    closed spec fn view(&self) -> AttemptData {
        AttemptData { max_display: self.max_display as nat, failures: self.failures as nat }
    }
}

impl View for Backoff {
    type V = AttemptData;

    closed spec fn view(&self) -> AttemptData {
        AttemptData { max_display: self.max_display as nat, failures: self.failures as nat }
    }
}

impl View for MempoolStep {
    type V = MempoolStepData;

    open spec fn view(&self) -> MempoolStepData {
        match self {
            MempoolStep::FetchEntries(fetch) => MempoolStepData::FetchEntries(fetch@),
            MempoolStep::Sleep(backoff) => MempoolStepData::Sleep(backoff@),
            MempoolStep::FetchSize(_) => MempoolStepData::FetchSize,
            MempoolStep::Done(snapshot) => MempoolStepData::Done(snapshot@),
        }
    }
}

impl MempoolFetch {
    #[verifier::type_invariant]
    spec fn has_attempts_left(self) -> bool {
        self.failures < MAX_ATTEMPTS
    }

    /// A fetch that will show at most `max_display` entries. The caller
    /// begins by asking the node for the entries.
    pub fn start(max_display: usize) -> (fetch: MempoolFetch)
        ensures
            fetch@ == (AttemptData { max_display: max_display as nat, failures: 0 }),
    {
        MempoolFetch { max_display, failures: 0 }
    }

    /// Takes the outcome of the call for the entries. An answer ends the
    /// fetch: the snapshot made of it at `now` replaces the cached one and is
    /// the view. A failure leaves the cache as it is and asks for a wait.
    pub fn on_entries(
        self,
        reply: Result<Vec<MempoolEntryRecord>, CallFailed>,
        cache: &mut MempoolCache,
        now: u64,
    ) -> (step: MempoolStep)
        ensures
            step@ == after_entries(self@, entries_reply(reply), now),
            step@.valid(),
            step@.steps_left() < MempoolStepData::FetchEntries(self@).steps_left(),
            final(cache)@ == match step@ {
                MempoolStepData::Done(snapshot) => Some(snapshot),
                _ => old(cache)@,
            },
    {
        proof {
            use_type_invariant(&self);
        }
        match reply {
            Ok(records) => {
                let snapshot = build_snapshot(&records, self.max_display, now);
                cache.replace(snapshot.clone());
                MempoolStep::Done(snapshot)
            },
            Err(_) => MempoolStep::Sleep(
                Backoff { max_display: self.max_display, failures: self.failures + 1 },
            ),
        }
    }
}

impl Backoff {
    #[verifier::type_invariant]
    spec fn follows_a_failure(self) -> bool {
        1 <= self.failures <= MAX_ATTEMPTS
    }

    /// Called when the wait is over. While an attempt is left the entries are
    /// asked for again. After the last one the cached snapshot is the view if
    /// it is recent at `now`; else the node is asked for the bare size.
    pub fn on_elapsed(self, cache: &MempoolCache, now: u64) -> (step: MempoolStep)
        ensures
            step@ == after_sleep(self@, cache@, now),
            step@.valid(),
            step@.steps_left() < MempoolStepData::Sleep(self@).steps_left(),
    {
        proof {
            use_type_invariant(&self);
        }
        if self.failures < MAX_ATTEMPTS {
            MempoolStep::FetchEntries(
                MempoolFetch { max_display: self.max_display, failures: self.failures },
            )
        } else {
            match cache.get_fresh(now) {
                Some(snapshot) => MempoolStep::Done(snapshot),
                None => MempoolStep::FetchSize(SizeProbe { max_display: self.max_display }),
            }
        }
    }
}

impl SizeProbe {
    /// Takes the outcome of the call for the size and makes the last-resort
    /// view: the size where there is one, zero where not, and no entries. The
    /// cache is not touched.
    pub fn on_size(self, reply: Result<u64, CallFailed>, now: u64) -> (snapshot: MempoolSnapshot)
        ensures
            snapshot@ == after_size(reply, now),
    {
        let total_size = match reply {
            Ok(size) => size,
            Err(_) => 0,
        };
        let sampled_entries: Vec<MempoolEntry> = Vec::new();
        assert(crate::mempool::entry_views(sampled_entries@) =~= Seq::empty());
        MempoolSnapshot { captured_at: now, total_size, sampled_entries }
    }
}

/// A node that answers every call of one fetch the same way.
pub struct NodeModel {
    pub entries: Result<Seq<MempoolEntryRecordData>, CallFailed>,
    pub mempool_size: Result<u64, CallFailed>,
}

/// The view a fetch ends in from `step` on, against a node that keeps
/// answering as `node` does, a cache that holds `cached`, and a clock that
/// reads `now`.
pub open spec fn view_served(
    node: NodeModel,
    cached: Option<MempoolSnapshotData>,
    now: u64,
    step: MempoolStepData,
) -> MempoolSnapshotData
    decreases step.steps_left(),
{
    match step {
        MempoolStepData::FetchEntries(attempt) => if step.valid() {
            view_served(node, cached, now, after_entries(attempt, node.entries, now))
        } else {
            after_size(node.mempool_size, now)
        },
        MempoolStepData::Sleep(attempt) => if step.valid() {
            view_served(node, cached, now, after_sleep(attempt, cached, now))
        } else {
            after_size(node.mempool_size, now)
        },
        MempoolStepData::FetchSize => after_size(node.mempool_size, now),
        MempoolStepData::Done(snapshot) => snapshot,
    }
}

/// The first step of a fetch.
pub open spec fn first_step(max_display: nat) -> MempoolStepData {
    MempoolStepData::FetchEntries(AttemptData { max_display, failures: 0 })
}

/// Every step brings a fetch nearer its end: no fetch goes on for ever, and
/// none makes more than `MAX_ATTEMPTS` attempts.
pub proof fn every_step_nears_the_end(
    attempt: AttemptData,
    reply: Result<Seq<MempoolEntryRecordData>, CallFailed>,
    cached: Option<MempoolSnapshotData>,
    now: u64,
)
    ensures
        MempoolStepData::FetchEntries(attempt).valid() ==> after_entries(attempt, reply, now).valid()
            && after_entries(attempt, reply, now).steps_left() < MempoolStepData::FetchEntries(
            attempt,
        ).steps_left(),
        MempoolStepData::Sleep(attempt).valid() ==> after_sleep(attempt, cached, now).valid()
            && after_sleep(attempt, cached, now).steps_left() < MempoolStepData::Sleep(
            attempt,
        ).steps_left(),
{
}

/// The steps of a fetch whose every attempt fails: it waits after each and
/// gives up after `MAX_ATTEMPTS`.
proof fn failing_attempts_run_out(
    node: NodeModel,
    cached: Option<MempoolSnapshotData>,
    now: u64,
    max_display: nat,
)
    requires
        node.entries is Err,
    ensures
        view_served(node, cached, now, first_step(max_display)) == view_served(
            node,
            cached,
            now,
            after_sleep(
                AttemptData { max_display, failures: MAX_ATTEMPTS as nat },
                cached,
                now,
            ),
        ),
{
    let fetch = |failures: nat| MempoolStepData::FetchEntries(AttemptData { max_display, failures });
    let sleep = |failures: nat| MempoolStepData::Sleep(AttemptData { max_display, failures });
    let served = |step: MempoolStepData| view_served(node, cached, now, step);
    assert(served(fetch(0)) == served(sleep(1)));
    assert(served(sleep(1)) == served(fetch(1)));
    assert(served(fetch(1)) == served(sleep(2)));
    assert(served(sleep(2)) == served(fetch(2)));
    assert(served(fetch(2)) == served(sleep(3)));
    assert(served(sleep(3)) == served(
        after_sleep(AttemptData { max_display, failures: 3 }, cached, now),
    ));
}

/// Against a node that fails every call, with no snapshot cached, the view
/// still comes back: it counts nothing and shows nothing.
pub proof fn failing_node_without_cache_gives_empty_view(
    node: NodeModel,
    now: u64,
    max_display: nat,
)
    requires
        node.entries is Err,
        node.mempool_size is Err,
    ensures
        view_served(node, None, now, first_step(max_display)) == size_only(0, now),
        view_served(node, None, now, first_step(max_display)).total_size == 0,
        view_served(node, None, now, first_step(max_display)).sampled_entries.len() == 0,
{
    failing_attempts_run_out(node, None, now, max_display);
}

/// Against a node that fails every attempt, a snapshot that is still recent
/// is served as it was cached.
pub proof fn failing_node_serves_recent_snapshot(
    node: NodeModel,
    cached: MempoolSnapshotData,
    now: u64,
    max_display: nat,
)
    requires
        node.entries is Err,
        is_fresh(cached, now),
    ensures
        view_served(node, Some(cached), now, first_step(max_display)) == cached,
{
    failing_attempts_run_out(node, Some(cached), now, max_display);
}

/// Against a node that fails every attempt, with no recent snapshot cached,
/// the view reports the size the node's info gives, or zero, and shows nothing.
pub proof fn failing_node_reports_bare_size(
    node: NodeModel,
    cached: Option<MempoolSnapshotData>,
    now: u64,
    max_display: nat,
)
    requires
        node.entries is Err,
        cached is None || !is_fresh(cached->0, now),
    ensures
        view_served(node, cached, now, first_step(max_display)) == after_size(
            node.mempool_size,
            now,
        ),
        view_served(node, cached, now, first_step(max_display)).sampled_entries.len() == 0,
{
    failing_attempts_run_out(node, cached, now, max_display);
}

/// Against a node that answers, the view is the snapshot of its answer,
/// whatever is cached; an empty mempool gives an empty view at once.
pub proof fn answering_node_gives_its_snapshot(
    node: NodeModel,
    cached: Option<MempoolSnapshotData>,
    now: u64,
    max_display: nat,
)
    requires
        node.entries is Ok,
    ensures
        view_served(node, cached, now, first_step(max_display)) == snapshot_of(
            node.entries->Ok_0,
            max_display,
            now,
        ),
        node.entries->Ok_0.len() == 0 ==> view_served(
            node,
            cached,
            now,
            first_step(max_display),
        ).total_size == 0 && view_served(
            node,
            cached,
            now,
            first_step(max_display),
        ).sampled_entries.len() == 0,
{
    let step = after_entries(AttemptData { max_display, failures: 0 }, node.entries, now);
    assert(view_served(node, cached, now, first_step(max_display)) == view_served(
        node,
        cached,
        now,
        step,
    ));
}

} // verus!
