//! The connectivity tracker: the peer view of the last successful contact,
//! kept for the times the node cannot be reached.

use vstd::prelude::*;
use vstd::string::StringExecFns;

verus! {

/// One peer as shown.
#[derive(Debug)]
pub struct PeerInfo {
    pub id: String,
    pub address: String,
    pub connected: bool,
    pub last_seen: String,
}

/// The mathematical content of a [`PeerInfo`].
pub struct PeerInfoData {
    pub id: Seq<char>,
    pub address: Seq<char>,
    pub connected: bool,
    pub last_seen: Seq<char>,
}

impl View for PeerInfo {
    type V = PeerInfoData;

    open spec fn view(&self) -> PeerInfoData {
        PeerInfoData {
            id: self.id@,
            address: self.address@,
            connected: self.connected,
            last_seen: self.last_seen@,
        }
    }
}

impl Clone for PeerInfo {
    fn clone(&self) -> (copy: PeerInfo)
        ensures
            copy@ == self@,
    {
        PeerInfo {
            id: self.id.clone(),
            address: self.address.clone(),
            connected: self.connected,
            last_seen: self.last_seen.clone(),
        }
    }
}

/// The views of a list of peers.
pub open spec fn peer_views(peers: Seq<PeerInfo>) -> Seq<PeerInfoData> {
    Seq::new(peers.len(), |i: int| peers[i]@)
}

/// What a liveness check found.
#[derive(Clone, Copy, Debug, PartialEq, Eq, Structural)]
pub enum Liveness {
    /// The node answered.
    Reachable,
    /// The node was called and did not answer.
    CallFailed,
    /// The process holds no connection to call the node on.
    NotConnected,
}

/// What is known of the link to the node.
#[derive(Clone, Copy, Debug, PartialEq, Eq, Structural)]
pub enum LinkStatus {
    /// The node has never been reached.
    Unknown,
    /// The last check reached the node.
    Connected,
    /// The node was reached once, and the last check did not reach it.
    Disconnected,
}

/// The state of a tracker: the peers of the last successful contact, and the
/// link's status.
pub struct TrackerData {
    pub cached: Seq<PeerInfoData>,
    pub status: LinkStatus,
}

/// This process's own node, as shown while it answers.
pub open spec fn self_entry(server_url: Seq<char>) -> PeerInfoData {
    PeerInfoData { id: "local"@, address: server_url, connected: true, last_seen: "now"@ }
}

/// The network's well-known peer, listed beside the own node while that answers.
pub open spec fn known_peer() -> PeerInfoData {
    PeerInfoData {
        id: "peer-82.166.83.140"@,
        address: "82.166.83.140:16311"@,
        connected: true,
        last_seen: "recent"@,
    }
}

/// This process's own node, as shown when it cannot be reached and nothing
/// is cached.
pub open spec fn lost_entry(server_url: Seq<char>, liveness: Liveness) -> PeerInfoData {
    PeerInfoData {
        id: "local-node"@,
        address: server_url,
        connected: false,
        last_seen: if liveness == Liveness::CallFailed {
            "error"@
        } else {
            "disconnected"@
        },
    }
}

/// The peers shown after a successful contact.
pub open spec fn reached_peers(server_url: Seq<char>) -> Seq<PeerInfoData> {
    seq![self_entry(server_url), known_peer()]
}

/// The state of a tracker after a check.
pub open spec fn after_check(before: TrackerData, server_url: Seq<char>, liveness: Liveness) -> TrackerData {
    if liveness == Liveness::Reachable {
        TrackerData { cached: reached_peers(server_url), status: LinkStatus::Connected }
    } else {
        TrackerData {
            cached: before.cached,
            status: if before.status == LinkStatus::Unknown {
                LinkStatus::Unknown
            } else {
                LinkStatus::Disconnected
            },
        }
    }
}

/// The peers shown after a check: those just seen where the node answered;
/// where not, those cached, or the own node alone, marked as lost, where
/// nothing is cached.
pub open spec fn shown(before: TrackerData, server_url: Seq<char>, liveness: Liveness) -> Seq<
    PeerInfoData,
> {
    if liveness == Liveness::Reachable {
        reached_peers(server_url)
    } else if before.cached.len() > 0 {
        before.cached
    } else {
        seq![lost_entry(server_url, liveness)]
    }
}

/// The state of a tracker that has made no check yet.
pub open spec fn untried() -> TrackerData {
    TrackerData { cached: Seq::empty(), status: LinkStatus::Unknown }
}

/// Remembers the peer view of the last successful contact.
#[derive(Debug)]
pub struct ConnectivityTracker {
    cached: Vec<PeerInfo>,
    status: LinkStatus,
}

impl View for ConnectivityTracker {
    type V = TrackerData;

    closed spec fn view(&self) -> TrackerData {
        TrackerData { cached: peer_views(self.cached@), status: self.status }
    }
}

/// Copies a list of peers.
fn copy_peers(peers: &Vec<PeerInfo>) -> (copy: Vec<PeerInfo>)
    ensures
        peer_views(copy@) == peer_views(peers@),
{
    let mut copy: Vec<PeerInfo> = Vec::new();
    let mut i: usize = 0;
    while i < peers.len()
        invariant
            i <= peers.len(),
            peer_views(copy@) == peer_views(peers@.take(i as int)),
        decreases peers.len() - i,
    {
        let ghost before = copy@;
        let peer = peers[i].clone();
        copy.push(peer);
        assert(peer_views(copy@) =~= peer_views(before).push(peer@));
        assert(peer_views(peers@.take(i + 1)) =~= peer_views(peers@.take(i as int)).push(
            peers@[i as int]@,
        ));
        i += 1;
    }
    assert(peers@.take(i as int) =~= peers@);
    copy
}

impl ConnectivityTracker {
    /// A tracker that has made no check yet.
    pub fn new() -> (tracker: ConnectivityTracker)
        ensures
            tracker@ == untried(),
    {
        let tracker = ConnectivityTracker { cached: Vec::new(), status: LinkStatus::Unknown };
        assert(peer_views(tracker.cached@) =~= Seq::empty());
        tracker
    }

    /// What is known of the link.
    pub fn status(&self) -> (status: LinkStatus)
        ensures
            status == self@.status,
    {
        self.status
    }

    /// A copy of the peers cached.
    pub fn cached(&self) -> (peers: Vec<PeerInfo>)
        ensures
            peer_views(peers@) == self@.cached,
    {
        copy_peers(&self.cached)
    }

    /// Takes the outcome of a liveness check and gives the peers to show. A
    /// successful contact replaces the cache; a failed one leaves it as it is.
    pub fn observe(&mut self, server_url: &str, liveness: Liveness) -> (peers: Vec<PeerInfo>)
        ensures
            final(self)@ == after_check(old(self)@, server_url@, liveness),
            peer_views(peers@) == shown(old(self)@, server_url@, liveness),
    {
        match liveness {
            Liveness::Reachable => {
                let mut peers: Vec<PeerInfo> = Vec::new();
                peers.push(
                    PeerInfo {
                        id: String::from_str("local"),
                        address: String::from_str(server_url),
                        connected: true,
                        last_seen: String::from_str("now"),
                    },
                );
                peers.push(
                    PeerInfo {
                        id: String::from_str("peer-82.166.83.140"),
                        address: String::from_str("82.166.83.140:16311"),
                        connected: true,
                        last_seen: String::from_str("recent"),
                    },
                );
                assert(peer_views(peers@) =~= reached_peers(server_url@));
                self.cached = copy_peers(&peers);
                self.status = LinkStatus::Connected;
                peers
            },
            _ => {
                if self.status != LinkStatus::Unknown {
                    self.status = LinkStatus::Disconnected;
                }
                if self.cached.len() > 0 {
                    copy_peers(&self.cached)
                } else {
                    let last_seen = match liveness {
                        Liveness::CallFailed => String::from_str("error"),
                        _ => String::from_str("disconnected"),
                    };
                    let mut peers: Vec<PeerInfo> = Vec::new();
                    peers.push(
                        PeerInfo {
                            id: String::from_str("local-node"),
                            address: String::from_str(server_url),
                            connected: false,
                            last_seen,
                        },
                    );
                    assert(peer_views(peers@) =~= seq![lost_entry(server_url@, liveness)]);
                    peers
                }
            },
        }
    }
}

/// A first check that reaches the node shows the own node, marked connected;
/// a check after it that does not reach the node shows the same peers again,
/// unchanged, whatever address it is made with.
pub proof fn cache_outlives_an_outage(
    server_url: Seq<char>,
    later_url: Seq<char>,
    outage: Liveness,
)
    requires
        outage != Liveness::Reachable,
    ensures
        shown(untried(), server_url, Liveness::Reachable)[0] == self_entry(server_url),
        self_entry(server_url).connected,
        shown(after_check(untried(), server_url, Liveness::Reachable), later_url, outage) == shown(
            untried(),
            server_url,
            Liveness::Reachable,
        ),
        after_check(after_check(untried(), server_url, Liveness::Reachable), later_url, outage).cached
            == after_check(untried(), server_url, Liveness::Reachable).cached,
        after_check(after_check(untried(), server_url, Liveness::Reachable), later_url, outage).status
            == LinkStatus::Disconnected,
{
}

/// A tracker that never reached the node shows the own node alone, marked
/// not connected, and stays as it was.
pub proof fn unreached_node_is_shown_lost(server_url: Seq<char>, outage: Liveness)
    requires
        outage != Liveness::Reachable,
    ensures
        shown(untried(), server_url, outage) == seq![lost_entry(server_url, outage)],
        !lost_entry(server_url, outage).connected,
        after_check(untried(), server_url, outage) == untried(),
{
}

/// The cache always holds the peers of the most recent successful contact:
/// a check that fails never changes it, and one that succeeds replaces it.
/// The link is known as connected exactly after a check that succeeded.
pub proof fn cache_follows_successes(before: TrackerData, server_url: Seq<char>, liveness: Liveness)
    ensures
        liveness != Liveness::Reachable ==> after_check(before, server_url, liveness).cached
            == before.cached,
        liveness == Liveness::Reachable ==> after_check(before, server_url, liveness).cached
            == reached_peers(server_url),
        after_check(before, server_url, liveness).status == LinkStatus::Connected <==> liveness
            == Liveness::Reachable,
        shown(before, server_url, liveness).len() > 0,
{
}

} // verus!
