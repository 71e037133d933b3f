use docker_manager::resolve::node_filter_map;
use docker_manager::resolve::collect_containers;
use docker_manager::resolve::resolve_candidates;
use docker_manager::resolve::FindContainerResult;
use docker_manager::resolve::NodeError;

#[test]
fn test_node_filter_map() {
    let container_id = String::from("123123123");
    let original: Vec<(String, Result<String, NodeError>, String)> = vec![
        (
            "123123123".into(),
            Ok("123123123".into()),
            "123123123".into(),
        ),
        (
            "123123123".into(),
            Ok("123123123".into()),
            "123123123".into(),
        ),
        (
            "123123123".into(),
            Ok("123123123".into()),
            "123123123".into(),
        ),
        (
            "asdjkfhas".into(),
            Ok("asdjkfhas".into()),
            "asdjkfhas".into(),
        ),
    ];

    let new = original
        .into_iter()
        .filter_map(|(hostname, result, _)| {
            node_filter_map((&hostname, &result), &container_id)
        })
        .collect::<Vec<(String, String, String)>>();

    let correct: Vec<(String, String, String)> = vec![
        ("123123123".into(), "123123123".into(), "123123123".into()),
        ("123123123".into(), "123123123".into(), "123123123".into()),
        ("123123123".into(), "123123123".into(), "123123123".into()),
    ];

    assert_eq!(new, correct);
}

#[test]
fn failed_probe_contributes_nothing() {
    let result: Result<String, NodeError> =
        Err(NodeError::SessionError("n1".into(), "timed out".into()));
    assert!(node_filter_map(("n1", &result), "web1").is_none());
}

#[test]
fn missing_id_contributes_nothing() {
    let result: Result<String, NodeError> = Ok("n1\nother rows only\n".into());
    assert!(node_filter_map(("n1", &result), "web1").is_none());
}

#[test]
fn first_matching_row_is_kept() {
    let result: Result<String, NodeError> = Ok("n1\nweb1 first row\nweb1 second row\n".into());
    let t = node_filter_map(("n1", &result), "web1").unwrap();
    assert_eq!(t.0, "n1");
    assert_eq!(t.1, "web1 first row");
    assert_eq!(t.2, "web1");
}

#[test]
fn candidates_come_per_id_in_probe_order() {
    let ids: Vec<String> = vec!["x".into(), "y".into()];
    let probes: Vec<Vec<(String, Result<String, NodeError>)>> = vec![
        vec![
            ("node1".into(), Ok("node1\nx running\n".into())),
            ("node2".into(), Ok("node2\nnothing\n".into())),
        ],
        vec![
            ("node1".into(), Ok("node1\nnothing\n".into())),
            ("node2".into(), Ok("node2\ny running\n".into())),
        ],
    ];
    let cands = resolve_candidates(&ids, &probes);
    assert_eq!(cands.len(), 2);
    assert_eq!(cands[0].host_address, "node1");
    assert_eq!(cands[0].node_address, "node1");
    assert_eq!(cands[0].container_id, "x");
    assert_eq!(cands[0].first_matching_line, "x running");
    assert_eq!(cands[1].host_address, "node2");
    assert_eq!(cands[1].container_id, "y");
}

#[test]
fn grouping_merges_one_host() {
    let ids: Vec<String> = vec!["x".into(), "y".into()];
    let probes: Vec<Vec<(String, Result<String, NodeError>)>> = vec![
        vec![("node1".into(), Ok("node1\nx running\n".into()))],
        vec![("node1".into(), Ok("node1\ny running\n".into()))],
    ];
    let containers = collect_containers(&ids, &probes);
    assert_eq!(containers.len(), 1);
    assert_eq!(containers[0].hostname(), "node1");
    assert_eq!(containers[0].node(), "node1");
    assert_eq!(containers[0].id(), vec!["x", "y"]);
}

#[test]
fn find_container_result_drains_from_the_back() {
    let ids: Vec<String> = vec!["x".into(), "y".into()];
    let probes: Vec<Vec<(String, Result<String, NodeError>)>> = vec![
        vec![("node1".into(), Ok("node1\nx running\n".into()))],
        vec![("node2".into(), Ok("node2\ny running\n".into()))],
    ];
    let mut batch = FindContainerResult { containers: collect_containers(&ids, &probes) };
    let last = batch.next().unwrap();
    assert_eq!(last.hostname(), "node2");
    let first = batch.next().unwrap();
    assert_eq!(first.hostname(), "node1");
    assert!(batch.next().is_none());
}

#[test]
fn node_error_message_names_the_node() {
    let e = NodeError::SessionError("abc".into(), "connection refused".into());
    assert_eq!(e.message(), "[NodeError] abc: connection refused");
}
