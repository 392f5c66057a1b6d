use zenoh_wasm::endpoints::{flatten_groups, EndPointGroup, SessionEndpoints};

fn s(x: &str) -> String {
    x.to_string()
}

#[test]
fn session_endpoints_behave_as_a_set() {
    let mut set = SessionEndpoints::new();
    assert!(set.is_empty());
    assert!(set.insert(s("ws/a:1")));
    assert!(!set.insert(s("ws/a:1")));
    assert!(set.insert(s("ws/b:2")));
    assert!(set.contains(&s("ws/b:2")));
    assert!(set.remove(&s("ws/a:1")));
    assert!(!set.remove(&s("ws/a:1")));
    assert!(!set.contains(&s("ws/a:1")));
    let all = set.take_all();
    assert_eq!(all, vec![s("ws/b:2")]);
    assert!(set.is_empty());
}

#[test]
fn groups_flatten_in_order() {
    let groups = vec![
        EndPointGroup { endpoints: vec![s("ws/a:1"), s("ws/b:2")], one_of: false },
        EndPointGroup { endpoints: vec![], one_of: true },
        EndPointGroup { endpoints: vec![s("ws/c:3")], one_of: false },
    ];
    assert_eq!(flatten_groups(&groups), vec![s("ws/a:1"), s("ws/b:2"), s("ws/c:3")]);
}
