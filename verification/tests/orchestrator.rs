use zenoh_wasm::endpoints::{EndPointGroup, SessionEndpoints};
use zenoh_wasm::orchestrator::{
    first_connected, ConnectTarget, DialAction, MultiLinkStep, OrchestratorError, RetryRun,
    Runtime, RuntimeConfig, StartPlan, WhatAmI,
};

fn s(x: &str) -> String {
    x.to_string()
}

fn runtime(whatami: WhatAmI, groups: Vec<Vec<&str>>) -> Runtime {
    Runtime {
        whatami,
        zid: 1,
        closed: false,
        config: RuntimeConfig {
            listen_endpoints: vec![],
            connect_endpoints: groups
                .into_iter()
                .map(|g| EndPointGroup { endpoints: g.into_iter().map(s).collect(), one_of: false })
                .collect(),
            multicast_scouting: false,
            wait_connect_scouted: true,
            scouting_delay_ms: 500,
            gossip: false,
            wait_declares: false,
            global_connect_timeout_ms: 0,
        },
    }
}

fn target(e: &str, retry_timeout_zero: bool, exit_on_failure: bool) -> ConnectTarget {
    ConnectTarget { endpoint: s(e), retry_timeout_zero, exit_on_failure }
}

#[test]
fn a_client_without_peers_cannot_start() {
    let rt = runtime(WhatAmI::Client, vec![]);
    assert_eq!(rt.start_plan(), Err(OrchestratorError::NoPeerSpecified));
    let rt = runtime(WhatAmI::Client, vec![vec!["ws/a:1"]]);
    assert_eq!(rt.start_plan(), Ok(StartPlan { single_link: true, sleep_after_connect_ms: None }));
}

#[test]
fn peers_and_routers_wait_for_scouting() {
    let rt = runtime(WhatAmI::Peer, vec![vec!["ws/a:1"]]);
    assert_eq!(rt.start_plan(), Ok(StartPlan { single_link: false, sleep_after_connect_ms: Some(500) }));
    let rt = runtime(WhatAmI::Peer, vec![]);
    assert_eq!(rt.start_plan(), Ok(StartPlan { single_link: false, sleep_after_connect_ms: None }));
    let rt = runtime(WhatAmI::Router, vec![]);
    assert_eq!(rt.start_plan(), Ok(StartPlan { single_link: false, sleep_after_connect_ms: Some(500) }));
}

#[test]
fn warnings() {
    assert_eq!(
        Runtime::warn_scouting(true),
        Some(s("multicast scouting is not available on wasm32-unknown-unknown; configure explicit ws connect endpoints"))
    );
    assert_eq!(Runtime::warn_scouting(false), None);
    assert!(Runtime::warn_listeners(&vec![s("ws/0.0.0.0:7447")]));
    assert!(!Runtime::warn_listeners(&vec![]));
    assert!(Runtime::warn_if_oneof(&EndPointGroup { endpoints: vec![], one_of: true }));
}

#[test]
fn a_client_stops_at_the_first_group_that_connects() {
    let mut rt = runtime(WhatAmI::Client, vec![]);
    rt.config.global_connect_timeout_ms = 1000;
    let groups = vec![
        vec![target("ws/a:1", true, false), target("ws/b:2", false, false)],
        vec![target("ws/c:3", true, false)],
        vec![target("ws/d:4", true, false)],
    ];
    let mut run = rt.single_link_connect(&groups);
    let plan = run.next_group().unwrap();
    assert_eq!(plan.once, vec![s("ws/a:1")]);
    assert_eq!(plan.with_retry, vec![s("ws/b:2")]);
    run.record_group(&vec![false], false);
    assert_eq!(run.result(), Err(OrchestratorError::UnableToConnect));
    let plan = run.next_group().unwrap();
    assert_eq!(plan.once, vec![s("ws/c:3")]);
    run.record_group(&vec![true], false);
    assert!(run.next_group().is_none());
    assert_eq!(run.result(), Ok(()));
}

#[test]
fn a_zero_global_timeout_tries_everything_once() {
    let rt = runtime(WhatAmI::Client, vec![]);
    let plan = rt.plan_group(&vec![target("ws/a:1", false, false), target("ws/b:2", false, true)]);
    assert_eq!(plan.once, vec![s("ws/a:1"), s("ws/b:2")]);
    assert!(plan.with_retry.is_empty());
    assert_eq!(rt.connect_deadline_ms(), None);
}

#[test]
fn multi_link_steps() {
    let mut rt = runtime(WhatAmI::Router, vec![]);
    rt.config.global_connect_timeout_ms = 1000;
    assert_eq!(rt.connect_deadline_ms(), Some(1000));
    let once = target("ws/a:1", true, true);
    assert_eq!(rt.multi_link_step(&once), MultiLinkStep::ConnectOnce);
    assert!(Runtime::multi_link_aborts(MultiLinkStep::ConnectOnce, &once, false));
    assert!(!Runtime::multi_link_aborts(MultiLinkStep::ConnectOnce, &once, true));
    let wait = target("ws/b:2", false, true);
    assert_eq!(rt.multi_link_step(&wait), MultiLinkStep::RetryUntilConnected);
    assert!(Runtime::multi_link_aborts(MultiLinkStep::RetryUntilConnected, &wait, false));
    let bg = target("ws/c:3", false, false);
    assert_eq!(rt.multi_link_step(&bg), MultiLinkStep::SpawnConnector);
    assert!(!Runtime::multi_link_aborts(MultiLinkStep::SpawnConnector, &bg, false));
}

#[test]
fn retries_collect_the_peers_reached() {
    let run = RetryRun::new(vec![], false);
    assert!(run.is_done());
    assert_eq!(run.finish(), Err(OrchestratorError::PeerConnectorTerminated));
    assert_eq!(
        OrchestratorError::PeerConnectorTerminated.message(""),
        "Peer connector terminated without connecting to any endpoint"
    );

    let mut run = RetryRun::new(vec![s("ws/a:1"), s("ws/b:2")], true);
    assert!(!run.is_done());
    run.record(&s("ws/b:2"), None);
    assert_eq!(run.pending_peers(), &vec![s("ws/a:1"), s("ws/b:2")]);
    run.record(&s("ws/b:2"), Some(9));
    assert!(run.is_done());
    assert_eq!(run.pending_peers(), &vec![s("ws/a:1")]);
    let zids = run.finish().unwrap();
    assert_eq!(zids, vec![9]);
    assert_eq!(first_connected(&zids), 9);

    let mut run = RetryRun::new(vec![s("ws/a:1"), s("ws/a:1"), s("ws/b:2")], false);
    run.record(&s("ws/a:1"), Some(3));
    assert!(!run.is_done());
    run.record(&s("ws/b:2"), Some(4));
    assert!(!run.is_done());
    assert_eq!(run.pending_peers(), &vec![s("ws/a:1")]);
    run.record(&s("ws/a:1"), Some(5));
    assert!(run.is_done());
    assert_eq!(run.finish(), Ok(vec![3, 4, 5]));
}

#[test]
fn orchestrator_errors_read_as_the_runtime_reports_them() {
    assert_eq!(
        OrchestratorError::NoPeerSpecified.message("[]"),
        "No peer specified and multicast scouting is not available on wasm32-unknown-unknown"
    );
    assert_eq!(
        OrchestratorError::UnableToConnect.message("[\"ws/a:1\"]"),
        "Unable to connect to any of [\"ws/a:1\"]! "
    );
    assert_eq!(
        OrchestratorError::ConnectTimeout.message("[\"ws/a:1\"]"),
        "Unable to connect to any of [\"ws/a:1\"]. Timeout!"
    );
}

#[test]
fn dialing_a_peer_tries_locators_in_order() {
    let rt = runtime(WhatAmI::Peer, vec![]);
    let mut dial = rt.dial_peer(7, false, vec![s("ws/x:1"), s("ws/y:2")]);
    assert!(matches!(dial.next_action(), DialAction::Try(l) if l == "ws/x:1"));
    dial.record(false);
    assert!(matches!(dial.next_action(), DialAction::Try(l) if l == "ws/y:2"));
    dial.record(true);
    assert!(matches!(dial.next_action(), DialAction::Connected));
    let mut dial = rt.dial_peer(7, false, vec![s("ws/x:1")]);
    dial.record(false);
    assert!(matches!(dial.next_action(), DialAction::GiveUp));
    let dial = rt.dial_peer(1, false, vec![s("ws/x:1")]);
    assert!(matches!(dial.next_action(), DialAction::Connected));
    let dial = rt.dial_peer(8, true, vec![]);
    assert!(matches!(dial.next_action(), DialAction::Connected));
}

#[test]
fn a_closed_session_reconnects_a_client_to_every_configured_peer() {
    let rt = runtime(WhatAmI::Client, vec![vec!["ws/a:1", "ws/b:2"], vec!["ws/c:3"]]);
    let mut session = SessionEndpoints::new();
    assert!(rt.closed_session(&mut session).is_none());
    session.insert(s("ws/b:2"));
    let plan = rt.closed_session(&mut session).unwrap();
    assert_eq!(plan.peers, vec![s("ws/a:1"), s("ws/b:2"), s("ws/c:3")]);
    assert!(plan.stop_after_first);
    assert!(session.contains(&s("ws/b:2")));
}

#[test]
fn a_closed_session_reconnects_a_peer_to_its_own_endpoints() {
    let rt = runtime(WhatAmI::Peer, vec![vec!["ws/a:1", "ws/b:2"], vec!["ws/c:3"]]);
    let mut session = SessionEndpoints::new();
    session.insert(s("ws/c:3"));
    session.insert(s("ws/z:9"));
    let plan = rt.closed_session(&mut session).unwrap();
    assert_eq!(plan.peers, vec![s("ws/c:3")]);
    assert!(!plan.stop_after_first);
    assert!(session.is_empty());
    let mut session = SessionEndpoints::new();
    session.insert(s("ws/z:9"));
    assert!(rt.closed_session(&mut session).is_none());
    assert!(session.is_empty());
}

#[test]
fn a_closed_runtime_reconnects_nothing() {
    let mut rt = runtime(WhatAmI::Peer, vec![vec!["ws/a:1"]]);
    rt.closed = true;
    let mut session = SessionEndpoints::new();
    session.insert(s("ws/a:1"));
    assert!(rt.closed_session(&mut session).is_none());
    assert!(!rt.closed_link(&mut session, &s("ws/a:1")));
    assert!(session.contains(&s("ws/a:1")));
}

#[test]
fn a_closed_link_is_reconnected_once() {
    let rt = runtime(WhatAmI::Router, vec![vec!["ws/a:1"]]);
    let mut session = SessionEndpoints::new();
    session.insert(s("ws/a:1"));
    session.insert(s("ws/q:5"));
    assert!(!rt.closed_link(&mut session, &s("ws/q:5")));
    assert!(session.contains(&s("ws/q:5")));
    assert!(rt.closed_link(&mut session, &s("ws/a:1")));
    assert!(!rt.closed_link(&mut session, &s("ws/a:1")));
    let client = runtime(WhatAmI::Client, vec![vec!["ws/a:1"]]);
    let mut session = SessionEndpoints::new();
    session.insert(s("ws/a:1"));
    assert!(!client.closed_link(&mut session, &s("ws/a:1")));
}

#[test]
fn background_connectors_report_their_end_unless_gossiping() {
    let mut rt = runtime(WhatAmI::Peer, vec![]);
    assert!(rt.connector_terminates());
    rt.config.wait_declares = true;
    assert!(!rt.connector_terminates());
    rt.whatami = WhatAmI::Router;
    assert!(rt.connector_terminates());
    rt.config.gossip = true;
    assert!(!rt.connector_terminates());
    assert!(rt.global_timeout_zero());
}

#[test]
fn a_router_tries_every_endpoint_until_a_fatal_failure() {
    let mut rt = runtime(WhatAmI::Router, vec![]);
    rt.config.global_connect_timeout_ms = 1000;
    let groups = vec![
        vec![target("ws/a:1", true, false), target("ws/b:2", false, false)],
        vec![target("ws/c:3", false, true), target("ws/d:4", true, true)],
    ];
    let mut run = rt.multi_link_connect(&groups);
    let (t, step) = run.next_target().unwrap();
    assert_eq!((t.endpoint.as_str(), step), ("ws/a:1", MultiLinkStep::ConnectOnce));
    assert!(!run.record(false));
    let (t, step) = run.next_target().unwrap();
    assert_eq!((t.endpoint.as_str(), step), ("ws/b:2", MultiLinkStep::SpawnConnector));
    assert!(!run.record(true));
    let (t, step) = run.next_target().unwrap();
    assert_eq!((t.endpoint.as_str(), step), ("ws/c:3", MultiLinkStep::RetryUntilConnected));
    assert!(run.record(false));
    assert!(run.failed());
    assert!(run.next_target().is_none());

    let mut run = rt.multi_link_connect(&groups);
    for _ in 0..4 {
        assert!(run.next_target().is_some());
        assert!(!run.record(true));
    }
    assert!(run.next_target().is_none());
    assert!(!run.failed());
}
