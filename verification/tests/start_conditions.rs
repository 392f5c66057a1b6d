use zenoh_wasm::start_conditions::{PeerConnector, StartConditions};

#[test]
fn start_is_released_when_every_connector_terminates() {
    let mut sc = StartConditions::new();
    assert!(sc.all_terminated());
    let a = sc.add_peer_connector();
    let b = sc.add_peer_connector();
    assert_eq!((a, b), (0, 1));
    assert!(!sc.terminate_peer_connector(a));
    assert!(!sc.terminate_peer_connector(7));
    assert!(sc.terminate_peer_connector(b));
}

#[test]
fn connectors_of_a_peer_are_not_added_twice() {
    let mut sc = StartConditions::new();
    sc.add_peer_connector_zid(42);
    sc.add_peer_connector_zid(42);
    assert!(sc.terminate_peer_connector_zid(42));
    sc.add_peer_connector_zid(43);
    assert!(!sc.all_terminated());
}

#[test]
fn terminating_an_unknown_peer_records_it() {
    let mut sc = StartConditions::new();
    let idx = sc.add_peer_connector();
    assert!(!sc.terminate_peer_connector_zid(5));
    sc.set_peer_connector_zid(idx, 5);
    assert!(sc.terminate_peer_connector_zid(5));
}

#[test]
fn set_zid_out_of_range_changes_nothing() {
    let mut sc = StartConditions::new();
    sc.set_peer_connector_zid(3, 1);
    assert!(sc.all_terminated());
    let c = PeerConnector { zid: Some(1), terminated: true };
    assert_eq!(c, PeerConnector { zid: Some(1), terminated: true });
}
