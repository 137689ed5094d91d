use torrent_engine::controller::WorkerStatusMessage;
use torrent_engine::status::StatusTracker;
use torrent_engine::tracker::{parse_compact_peers, Peer};

fn event(connected: bool, id: u32) -> WorkerStatusMessage {
    WorkerStatusMessage { connected, id }
}

#[test]
fn counter_follows_transitions() {
    let mut tracker = StatusTracker::new();
    assert_eq!(tracker.connected_count(), 0);

    // A connect of an unknown peer is a transition.
    assert!(tracker.apply_status(&event(true, 1)));
    assert_eq!(tracker.connected_count(), 1);

    // A duplicate connect is suppressed.
    assert!(!tracker.apply_status(&event(true, 1)));
    assert_eq!(tracker.connected_count(), 1);

    // A second peer connects.
    assert!(tracker.apply_status(&event(true, 2)));
    assert_eq!(tracker.connected_count(), 2);

    // A disconnect of a connected peer is a transition.
    assert!(tracker.apply_status(&event(false, 1)));
    assert_eq!(tracker.connected_count(), 1);

    // A duplicate disconnect is suppressed.
    assert!(!tracker.apply_status(&event(false, 1)));
    assert_eq!(tracker.connected_count(), 1);

    // A reconnect counts again.
    assert!(tracker.apply_status(&event(true, 1)));
    assert_eq!(tracker.connected_count(), 2);
}

#[test]
fn disconnect_of_unknown_peer_is_suppressed() {
    // Every peer starts in the disconnected state, so the first
    // disconnect event changes nothing.
    let mut tracker = StatusTracker::new();
    assert!(!tracker.apply_status(&event(false, 9)));
    assert_eq!(tracker.connected_count(), 0);
}

#[test]
fn compact_peers_parse_into_endpoints() {
    let bytes = vec![
        192, 168, 0, 1, 0x1A, 0xE1, // 192.168.0.1:6881
        10, 0, 0, 2, 0x00, 0x50, // 10.0.0.2:80
    ];
    let peers = parse_compact_peers(&bytes).expect("twelve bytes are two records");
    assert_eq!(peers.len(), 2);
    assert_eq!(peers[0], Peer { ip: 0xC0A80001, port: 6881 });
    assert_eq!(peers[1], Peer { ip: 0x0A000002, port: 80 });
}

#[test]
fn compact_peers_reject_ragged_input() {
    assert!(parse_compact_peers(&vec![1, 2, 3, 4, 5]).is_none());
    assert!(parse_compact_peers(&vec![0u8; 13]).is_none());
}

#[test]
fn compact_peers_empty_list() {
    let peers = parse_compact_peers(&Vec::new()).expect("zero records");
    assert!(peers.is_empty());
    let d: Peer = Default::default();
    assert_eq!(d, Peer { ip: 0, port: 0 });
}
