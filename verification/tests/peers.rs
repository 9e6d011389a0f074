use kaspa_explorer::peers::{ConnectivityTracker, LinkStatus, Liveness, PeerInfo};

fn shape(peers: &[PeerInfo]) -> Vec<(String, String, bool, String)> {
    peers
        .iter()
        .map(|p| (p.id.clone(), p.address.clone(), p.connected, p.last_seen.clone()))
        .collect()
}

#[test]
fn reachable_node_is_shown_connected_and_outage_serves_the_same_view() {
    let mut tracker = ConnectivityTracker::new();
    let first = tracker.observe("127.0.0.1:16210", Liveness::Reachable);
    assert_eq!(
        shape(&first)[0],
        ("local".to_string(), "127.0.0.1:16210".to_string(), true, "now".to_string())
    );
    assert_eq!(tracker.status(), LinkStatus::Connected);

    let during_outage = tracker.observe("127.0.0.1:16210", Liveness::CallFailed);
    assert_eq!(shape(&during_outage), shape(&first));
    assert!(!during_outage.is_empty());
    assert_eq!(tracker.status(), LinkStatus::Disconnected);

    let without_client = tracker.observe("127.0.0.1:16210", Liveness::NotConnected);
    assert_eq!(shape(&without_client), shape(&first));
    assert_eq!(shape(&tracker.cached()), shape(&first));
}

#[test]
fn reachable_node_lists_the_known_peer_second() {
    let mut tracker = ConnectivityTracker::new();
    let peers = tracker.observe("node:1", Liveness::Reachable);
    assert_eq!(peers.len(), 2);
    assert_eq!(
        shape(&peers)[1],
        (
            "peer-82.166.83.140".to_string(),
            "82.166.83.140:16311".to_string(),
            true,
            "recent".to_string()
        )
    );
}

#[test]
fn unreached_node_is_shown_as_single_lost_entry() {
    let mut tracker = ConnectivityTracker::new();
    let after_error = tracker.observe("node:1", Liveness::CallFailed);
    assert_eq!(
        shape(&after_error),
        vec![("local-node".to_string(), "node:1".to_string(), false, "error".to_string())]
    );
    let without_client = tracker.observe("node:1", Liveness::NotConnected);
    assert_eq!(
        shape(&without_client),
        vec![("local-node".to_string(), "node:1".to_string(), false, "disconnected".to_string())]
    );
    assert_eq!(tracker.status(), LinkStatus::Unknown);
    assert!(tracker.cached().is_empty());
}

#[test]
fn later_contact_supersedes_the_cached_view() {
    let mut tracker = ConnectivityTracker::new();
    tracker.observe("old:1", Liveness::Reachable);
    tracker.observe("old:1", Liveness::CallFailed);
    let fresh = tracker.observe("new:2", Liveness::Reachable);
    assert_eq!(fresh[0].address, "new:2");
    assert_eq!(tracker.status(), LinkStatus::Connected);
    let cached = tracker.observe("new:2", Liveness::CallFailed);
    assert_eq!(cached[0].address, "new:2");
    assert!(cached[0].connected);
}
