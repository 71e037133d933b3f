use docker_manager::command::InternalCommand;
use docker_manager::directory::Client;
use docker_manager::dispatch::aggregate;
use docker_manager::dispatch::broadcast_calls;
use docker_manager::dispatch::plan_of;
use docker_manager::dispatch::route;
use docker_manager::dispatch::CommandError;
use docker_manager::dispatch::DispatchPlan;
use docker_manager::dispatch::ExecutionOutcome;
use docker_manager::dispatch::RouteDecision;
use docker_manager::resolve::resolve_candidates;
use docker_manager::resolve::NodeError;
use docker_manager::command::captured_text;

fn logs_command(container_id: &str) -> InternalCommand {
    InternalCommand::Logs {
        container_id: container_id.into(),
        details: false,
        follow: false,
        since: None,
        tail: None,
        timestamps: false,
        until: None,
    }
}

#[test]
fn test_command_error_multiple_found_diplay() {
    let error = CommandError::MutlipleNodesFound(vec!["abc".into(), "def".into()]);

    let correct_string: String =
        "Multiple nodes found with matching criteria:\nabc\ndef".into();

    assert_eq!(correct_string, error.message());
}

#[test]
fn test_command_error_no_node_found_diplay() {
    let error = CommandError::NoNodesFound("some_container_id".into());

    let correct_string: String =
        "No node found containing the following container: some_container_id".into();

    assert_eq!(correct_string, error.message());
}

#[test]
fn no_nodes_for_any_message_joins_ids() {
    let error = CommandError::NoMultipleNodesFound(vec!["x".into(), "y".into()]);
    assert_eq!(
        error.message(),
        "No nodes found containing the following containers:\nx\ny"
    );
}

#[test]
fn broadcast_commands_skip_resolution() {
    let ps = InternalCommand::Ps {
        all: true,
        filter: None,
        format: None,
        last: false,
        latests: false,
        no_trunc: false,
        quiet: false,
        size: false,
    };
    assert!(matches!(plan_of(&ps), DispatchPlan::Broadcast));
    match plan_of(&logs_command("web1")) {
        DispatchPlan::Resolve(ids) => assert_eq!(ids, vec!["web1".to_string()]),
        DispatchPlan::Broadcast => panic!("a logs fetch resolves first"),
    }
}

#[test]
fn zero_candidates_is_terminal() {
    match route(logs_command("web1"), &Vec::new()) {
        RouteDecision::Fail(CommandError::NoNodesFound(id)) => assert_eq!(id, "web1"),
        _ => panic!("zero candidates must end in a no-node error"),
    }
}

#[test]
fn scenario_logs_routes_to_the_single_owner() {
    // Exactly one node's listing row contains "web1".
    let ids: Vec<String> = vec!["web1".into()];
    let probes: Vec<Vec<(String, Result<String, NodeError>)>> = vec![vec![
        ("node1".into(), Ok("node1\nweb1 running\n".into())),
        ("node2".into(), Ok("node2\nother\n".into())),
    ]];
    let cands = resolve_candidates(&ids, &probes);
    assert_eq!(cands.len(), 1);
    match route(logs_command("web1"), &cands) {
        RouteDecision::Calls(calls) => {
            assert_eq!(calls.len(), 1);
            assert_eq!(calls[0].node, "node1");
            assert!(calls[0].command.reads_stderr());
        },
        RouteDecision::Fail(_) => panic!("one candidate routes the call"),
    }
    // The logs payload comes from standard error whatever the exit status.
    assert_eq!(
        captured_text("node1", false, "out", "the logs", true),
        "node1\nthe logs"
    );
    assert_eq!(
        captured_text("node1", true, "out", "the logs", true),
        "node1\nthe logs"
    );
}

#[test]
fn scenario_ambiguous_stop_executes_nowhere() {
    // Two distinct nodes both report a row containing "db".
    let ids: Vec<String> = vec!["db".into()];
    let probes: Vec<Vec<(String, Result<String, NodeError>)>> = vec![vec![
        ("node1".into(), Ok("node1\ndb-row-node1\n".into())),
        ("node2".into(), Ok("node2\ndb-row-node2\n".into())),
    ]];
    let cands = resolve_candidates(&ids, &probes);
    assert_eq!(cands.len(), 2);
    match route(InternalCommand::Stop { container_id: "db".into() }, &cands) {
        RouteDecision::Fail(CommandError::MutlipleNodesFound(rows)) => {
            assert_eq!(rows, vec!["db-row-node1".to_string(), "db-row-node2".to_string()]);
        },
        _ => panic!("an ambiguous single-target command must not execute"),
    }
}

#[test]
fn scenario_restart_fans_out_independently() {
    // "x" matches on node1 and "y" matches on node2.
    let ids: Vec<String> = vec!["x".into(), "y".into()];
    let probes: Vec<Vec<(String, Result<String, NodeError>)>> = vec![
        vec![
            ("node1".into(), Ok("node1\nx running\n".into())),
            ("node2".into(), Ok("node2\nnothing\n".into())),
        ],
        vec![
            ("node1".into(), Ok("node1\nnothing\n".into())),
            ("node2".into(), Ok("node2\ny running\n".into())),
        ],
    ];
    let cands = resolve_candidates(&ids, &probes);
    let restart = InternalCommand::Restart { time: None, container_id: vec!["x".into(), "y".into()] };
    let calls = match route(restart, &cands) {
        RouteDecision::Calls(calls) => calls,
        RouteDecision::Fail(_) => panic!("matched candidates fan out"),
    };
    assert_eq!(calls.len(), 2);
    assert_eq!(calls[0].node, "node1");
    assert_eq!(calls[1].node, "node2");
    match &calls[0].command {
        InternalCommand::Restart { time, container_id } => {
            assert!(time.is_none());
            assert_eq!(container_id, &vec!["x".to_string()]);
        },
        _ => panic!("a scoped restart stays a restart"),
    }
    match &calls[1].command {
        InternalCommand::Restart { container_id, .. } => {
            assert_eq!(container_id, &vec!["y".to_string()]);
        },
        _ => panic!("a scoped restart stays a restart"),
    }

    // node1 fails while node2 succeeds: the aggregate keeps both, not an
    // all-or-nothing result.
    let outcomes = vec![
        ExecutionOutcome::Failure(NodeError::SessionError("node1".into(), "refused".into())),
        ExecutionOutcome::Success("node2\nok".into()),
    ];
    let results = aggregate(outcomes);
    assert_eq!(results.len(), 2);
    assert!(results[0].is_err());
    assert_eq!(results[1].as_ref().unwrap(), "node2\nok");
}

#[test]
fn multi_target_without_matches_is_terminal() {
    let rm = InternalCommand::Rm {
        container_id: vec!["x".into(), "y".into()],
        force: false,
        volumes: false,
    };
    match route(rm, &Vec::new()) {
        RouteDecision::Fail(CommandError::NoMultipleNodesFound(ids)) => {
            assert_eq!(ids, vec!["x".to_string(), "y".to_string()]);
        },
        _ => panic!("zero candidates across all ids must be terminal"),
    }
}

#[test]
fn scenario_slow_node_fails_alone() {
    // A fleet of twelve nodes; one connection attempt times out.  Every
    // other node still reports, and the aggregate holds one outcome per
    // node.
    let mut contents = String::new();
    for i in 0..12 {
        contents.push_str(&format!("Host n{}\n", i));
    }
    let client = Client::from_config(&contents, None).unwrap();
    let ps = InternalCommand::Ps {
        all: false,
        filter: None,
        format: None,
        last: false,
        latests: false,
        no_trunc: false,
        quiet: false,
        size: false,
    };
    let calls = broadcast_calls(&client, &ps);
    assert_eq!(calls.len(), 12);

    let mut outcomes: Vec<ExecutionOutcome> = Vec::new();
    for (i, call) in calls.iter().enumerate() {
        if i == 7 {
            outcomes.push(ExecutionOutcome::Failure(NodeError::SessionError(
                call.node.clone(),
                "connect timeout".into(),
            )));
        } else {
            outcomes.push(ExecutionOutcome::Success(format!("{}\nrows", call.node)));
        }
    }
    let results = aggregate(outcomes);
    assert_eq!(results.len(), 12);
    let failures = results.iter().filter(|r| r.is_err()).count();
    assert_eq!(failures, 1);
    assert!(results[7].is_err());
}

#[test]
fn broadcast_cardinality_is_stable() {
    let client = Client::from_config("Host a\nHost b\nHost c\n", None).unwrap();
    let images = InternalCommand::Images {
        all: false,
        digest: false,
        filter: None,
        format: None,
        no_trunc: false,
        quiet: false,
    };
    let first = broadcast_calls(&client, &images);
    let second = broadcast_calls(&client, &images);
    assert_eq!(first.len(), 3);
    assert_eq!(first.len(), second.len());
}
