use std::time::Duration;
use zenoh_wasm::bindings::{client_config, open_config, WasmSubscriber};
use zenoh_wasm::text::to_decimal;
use zenoh_wasm::time::{next_timer_delay, sleep, timeout_result, Elapsed, Race};
use zenoh_wasm::ws_link::{
    close_event_message, endpoint_to_url, error_event_message, LinkError, LinkManagerUnicastWs,
    LinkAuthId, OpenCheck, WsEvent, WsLinkDescriptor, WS_DEFAULT_MTU,
};

fn link() -> WsLinkDescriptor {
    WsLinkDescriptor::new("127.0.0.1:7447", "ws/127.0.0.1:7447".to_string())
}

#[test]
fn urls_of_endpoints() {
    assert_eq!(endpoint_to_url("127.0.0.1:7447"), "ws://127.0.0.1:7447");
    assert_eq!(endpoint_to_url("ws://host:1"), "ws://host:1");
    assert_eq!(endpoint_to_url("wss://host:1/path"), "wss://host:1/path");
    assert_eq!(endpoint_to_url("ws:/x"), "ws://ws:/x");
    assert_eq!(endpoint_to_url(""), "ws://");
}

#[test]
fn link_properties() {
    let l = link();
    assert_eq!(l.url(), "ws://127.0.0.1:7447");
    assert_eq!(l.get_src(), "ws/0.0.0.0:0");
    assert_eq!(l.get_dst(), "ws/127.0.0.1:7447");
    assert_eq!(l.to_text(), "ws/0.0.0.0:0 => ws/127.0.0.1:7447");
    assert_eq!(l.get_mtu(), WS_DEFAULT_MTU);
    assert!(l.is_reliable());
    assert!(!l.is_streamed());
    assert!(l.get_interface_names().is_empty());
    assert_eq!(l.get_auth_id(), LinkAuthId::Ws);
}

#[test]
fn socket_event_messages() {
    assert_eq!(error_event_message("refused"), "WebSocket error: refused");
    assert_eq!(close_event_message(1006, ""), "WebSocket closed with code 1006");
    assert_eq!(close_event_message(1000, "bye"), "WebSocket closed with code 1000: bye");
    assert_eq!(to_decimal(0), "0");
    assert_eq!(to_decimal(65535), "65535");
}

#[test]
fn waiting_for_the_socket_to_open() {
    let l = link();
    assert!(matches!(l.open_check(1), OpenCheck::Open));
    assert!(matches!(l.open_check(0), OpenCheck::AwaitSignal));
    match l.open_check(2) {
        OpenCheck::Fail(e) => assert_eq!(e.message(), "WebSocket link is closing: ws://127.0.0.1:7447"),
        _ => panic!("closing"),
    }
    match l.open_check(3) {
        OpenCheck::Fail(e) => assert_eq!(e.message(), "WebSocket link is closed: ws://127.0.0.1:7447"),
        _ => panic!("closed"),
    }
    match l.open_check(9) {
        OpenCheck::Fail(e) => assert_eq!(e.message(), "WebSocket link is in unexpected state 9: ws://127.0.0.1:7447"),
        _ => panic!("unexpected"),
    }
    assert!(l.open_signal_outcome(Ok(Ok(()))).is_ok());
    match l.open_signal_outcome(Ok(Err("WebSocket error: x".to_string()))) {
        Err(e) => assert_eq!(e.message(), "WebSocket error: x"),
        Ok(()) => panic!("failed open"),
    }
    match l.open_signal_outcome(Err("receiving on a closed channel".to_string())) {
        Err(e) => assert_eq!(
            e.message(),
            "WebSocket open wait failed for ws://127.0.0.1:7447: receiving on a closed channel"
        ),
        Ok(()) => panic!("dropped signal"),
    }
}

#[test]
fn receiving_events() {
    let l = link();
    assert_eq!(l.receive_outcome(Ok(WsEvent::Binary(vec![1, 2]))).unwrap(), vec![1, 2]);
    match l.receive_outcome(Ok(WsEvent::Error("WebSocket closed with code 1000".to_string()))) {
        Err(e) => assert_eq!(e.message(), "WebSocket closed with code 1000"),
        Ok(_) => panic!("error event"),
    }
    match l.receive_outcome(Err("receiving on a closed channel".to_string())) {
        Err(e) => assert_eq!(
            e.message(),
            "Error when receiving from WebSocket link ws/0.0.0.0:0 => ws/127.0.0.1:7447: receiving on a closed channel"
        ),
        Ok(_) => panic!("dropped channel"),
    }
}

#[test]
fn reading_exactly() {
    let l = link();
    assert_eq!(l.read_exact_step(0, 10, 4).unwrap(), 4);
    match l.read_exact_step(4, 10, 0) {
        Err(LinkError::NoBytes { link }) => assert_eq!(link, "ws/0.0.0.0:0 => ws/127.0.0.1:7447"),
        _ => panic!("no bytes"),
    }
}

#[test]
fn a_browser_link_manager_cannot_listen() {
    let m = LinkManagerUnicastWs::new();
    match m.new_listener(&"ws/0.0.0.0:7447".to_string()) {
        Err(e) => assert_eq!(
            e.message(),
            "WebSocket listeners are not available in browser wasm targets: ws/0.0.0.0:7447"
        ),
        Ok(_) => panic!("listener"),
    }
    assert!(m.del_listener(&"ws/0.0.0.0:7447".to_string()).is_err());
    assert!(m.get_listeners().is_empty());
    assert!(m.get_locators().is_empty());
}

#[test]
fn sleeping_and_timing_out() {
    assert_eq!(sleep(Duration::from_millis(1500)), 1500);
    assert_eq!(sleep(Duration::from_secs(2)), 2000);
    assert_eq!(sleep(Duration::from_nanos(1)), 1);
    assert_eq!(sleep(Duration::from_nanos(2_000_001)), 3);
    assert_eq!(sleep(Duration::ZERO), 0);
    assert_eq!(sleep(Duration::from_secs(30 * 86400)), 2_592_000_000);
    assert_eq!(next_timer_delay(0), (0, 0));
    assert_eq!(next_timer_delay(1500), (1500, 0));
    assert_eq!(next_timer_delay(2_592_000_000), (i32::MAX, 2_592_000_000 - i32::MAX as u128));
    let mut remaining = 10 * i32::MAX as u128 + 5;
    let mut total = 0u128;
    while remaining > 0 {
        let (d, r) = next_timer_delay(remaining);
        assert!(d > 0);
        total += d as u128;
        remaining = r;
    }
    assert_eq!(total, 10 * i32::MAX as u128 + 5);
    assert_eq!(timeout_result(Race::Finished(5)), Ok(5));
    assert_eq!(timeout_result::<u8>(Race::DeadlinePassed), Err(Elapsed));
    assert_eq!(Elapsed.message(), "deadline has elapsed");
}

#[test]
fn opening_a_session_on_one_endpoint() {
    let entries = open_config(&"ws/127.0.0.1:7447".to_string()).unwrap();
    assert_eq!(entries.len(), 2);
    assert_eq!(entries[0].key, "mode");
    assert_eq!(entries[0].value, "\"client\"");
    assert_eq!(entries[1].key, "connect/endpoints");
    assert_eq!(entries[1].value, "[\"ws/127.0.0.1:7447\"]");
    let plain = open_config(&"a".to_string()).unwrap();
    assert_eq!(plain[1].value, "[\"a\"]");
    let controls = open_config(&"\u{1}\n\\".to_string()).unwrap();
    assert_eq!(controls[1].value, "[\"\\u0001\\n\\\\\"]");
    let quoted = open_config(&"a\"b".to_string()).unwrap();
    assert_eq!(quoted[1].value, "[\"a\\\"b\"]");
    let direct = client_config("\"x\"");
    assert_eq!(direct[1].value, "[\"x\"]");
}

#[test]
fn a_subscription_is_undeclared_once() {
    let mut sub = WasmSubscriber::new(17u32, "demo/**".to_string());
    assert_eq!(sub.key_expr(), Some("demo/**".to_string()));
    assert_eq!(sub.take_for_undeclare(), Some(17));
    assert_eq!(sub.key_expr(), None);
    assert_eq!(sub.take_for_undeclare(), None);
}

#[test]
fn socket_failures_name_the_link() {
    let l = link();
    assert_eq!(
        l.create_error("SyntaxError".to_string()).message(),
        "Can not create WebSocket link to ws://127.0.0.1:7447: SyntaxError"
    );
    assert_eq!(
        l.shutdown_error("InvalidAccessError".to_string()).message(),
        "WebSocket link shutdown ws/0.0.0.0:0 => ws/127.0.0.1:7447: InvalidAccessError"
    );
    assert_eq!(
        l.write_error("InvalidStateError".to_string()).message(),
        "Write error on WebSocket link ws/0.0.0.0:0 => ws/127.0.0.1:7447: InvalidStateError"
    );
}

#[test]
fn a_url_leads_to_itself() {
    for address in ["127.0.0.1:7447", "ws://a:1", "wss://b:2", ""] {
        let url = endpoint_to_url(address);
        assert!(url.starts_with("ws://") || url.starts_with("wss://"));
        assert_eq!(endpoint_to_url(&url), url);
    }
}
