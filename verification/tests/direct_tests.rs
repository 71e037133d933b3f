use docker_manager::direct::direct_args;
use docker_manager::direct::parse_meminfo;
use docker_manager::direct::pick_deploy_node;
use docker_manager::direct::run_args;
use docker_manager::direct::NodeMemory;

#[test]
fn direct_args_name_command_and_container() {
    assert_eq!(direct_args("stop", "web1"), vec!["stop", "web1"]);
    assert_eq!(direct_args("inspect", "db"), vec!["inspect", "db"]);
}

#[test]
fn run_args_skip_empty_values() {
    let env: Vec<String> = vec!["".into(), "A=1".into()];
    assert_eq!(
        run_args("img:latest", "web", "", "always", &env),
        vec!["run", "-d", "--name", "web", "--restart", "always", "-e", "A=1", "img:latest"]
    );
}

#[test]
fn run_args_keep_port_and_order() {
    let env: Vec<String> = Vec::new();
    assert_eq!(
        run_args("img", "", "80:80", "", &env),
        vec!["run", "-d", "-p", "80:80", "img"]
    );
}

#[test]
fn deploy_picks_least_used_node() {
    let reports = vec![
        NodeMemory { node: "a".into(), memtotal: 100, memfree: 50 },
        NodeMemory { node: "b".into(), memtotal: 100, memfree: 80 },
        NodeMemory { node: "c".into(), memtotal: 100, memfree: 80 },
    ];
    let picked = pick_deploy_node(&reports).unwrap();
    // Twenty kilobytes in use on b and c; the earlier report wins the tie.
    assert_eq!(picked.node, "b");
}

#[test]
fn deploy_with_no_reports_picks_nothing() {
    assert!(pick_deploy_node(&Vec::new()).is_none());
}

#[test]
fn meminfo_reads_the_kilobyte_counts() {
    let text = "MemTotal:       16384256 kB\nMemFree:         8192128 kB\nBuffers: 10 kB\n";
    let m = parse_meminfo("node1", text).unwrap();
    assert_eq!(m.node, "node1");
    assert_eq!(m.memtotal, 16384256);
    assert_eq!(m.memfree, 8192128);
}

#[test]
fn meminfo_without_the_pair_reads_nothing() {
    assert!(parse_meminfo("node1", "Buffers: 10 kB\n").is_none());
    assert!(parse_meminfo("node1", "MemTotal: 10 kB\nBuffers: 2 kB\nMemFree: 5 kB\n").is_none());
    assert!(parse_meminfo("node1", "MemTotal: many kB\nMemFree: 5 kB\n").is_none());
}
