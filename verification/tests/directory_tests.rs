use docker_manager::directory::Client;
use docker_manager::directory::ConfigError;

#[test]
fn test_from_config() {
    let contents = "Host abc\nHost def\n#Host xyz\nHost ghi\n";
    let client = match Client::from_config(contents, Some(".*")) {
        Ok(c) => c,
        Err(_) => panic!("pattern must compile"),
    };
    let correct_nodes: Vec<String> = vec!["abc".into(), "def".into(), "ghi".into()];

    let nodes: Vec<String> = client
        .nodes
        .iter()
        .map(|node| node.address.clone())
        .collect();

    assert_eq!(correct_nodes, nodes);
}

#[test]
fn test_from_config_regex() {
    let contents = "Host regex_pattern\nHost abc\nHost regex_patterndef\nHost regex_patternghi\n";
    let client = match Client::from_config(contents, Some("regex_pattern.*")) {
        Ok(c) => c,
        Err(_) => panic!("pattern must compile"),
    };
    let correct_nodes: Vec<String> = vec![
        "regex_pattern".into(),
        "regex_patterndef".into(),
        "regex_patternghi".into(),
    ];

    let nodes: Vec<String> = client
        .nodes
        .iter()
        .map(|node| node.address.clone())
        .collect();

    assert_eq!(correct_nodes, nodes);
}

#[test]
fn test_client_info() {
    let contents = "Host abc\nHost def\n#Host xyz\nHost ghi\n";
    let client = match Client::from_config(contents, Some(".*")) {
        Ok(c) => c,
        Err(_) => panic!("pattern must compile"),
    };
    let correct_hostnames: Vec<String> = vec!["abc".into(), "def".into(), "ghi".into()];

    let info = client.nodes_info();
    assert_eq!(info.len(), correct_hostnames.len());
    let mut index = 0;
    for (hostname, node) in info {
        assert_eq!(&correct_hostnames[index], hostname);
        assert_eq!(correct_hostnames[index], node.address);
        index += 1;
    }
}

#[test]
fn scenario_commented_host_excluded() {
    let contents = "Host a\nHost b\n#Host c\n";
    let client = match Client::from_config(contents, None) {
        Ok(c) => c,
        Err(_) => panic!("absent pattern never fails"),
    };
    let nodes: Vec<String> = client
        .nodes
        .iter()
        .map(|node| node.address.clone())
        .collect();
    let correct: Vec<String> = vec!["a".into(), "b".into()];
    assert_eq!(correct, nodes);
}

#[test]
fn pattern_filters_host_names() {
    let contents = "Host abc\nHost def\n";
    let client = match Client::from_config(contents, Some("abc")) {
        Ok(c) => c,
        Err(_) => panic!("pattern must compile"),
    };
    let nodes: Vec<String> = client
        .nodes
        .iter()
        .map(|node| node.address.clone())
        .collect();
    let correct: Vec<String> = vec!["abc".into()];
    assert_eq!(correct, nodes);
}

#[test]
fn invalid_pattern_is_refused() {
    let contents = "Host abc\n";
    match Client::from_config(contents, Some("(")) {
        Ok(_) => panic!("an unclosed group must not compile"),
        Err(ConfigError::InvalidPattern(p)) => assert_eq!(p, "("),
    }
}

#[test]
fn collapsed_spaces_and_markers() {
    let contents = "Host   spaced\nHostile other\nnothing here\nHost\n";
    let client = match Client::from_config(contents, None) {
        Ok(c) => c,
        Err(_) => panic!("absent pattern never fails"),
    };
    let nodes: Vec<String> = client
        .nodes
        .iter()
        .map(|node| node.address.clone())
        .collect();
    // Repeated spaces collapse; `Hostile` is not the marker token; a marker
    // with no following token declares nothing.
    let correct: Vec<String> = vec!["spaced".into()];
    assert_eq!(correct, nodes);
}

#[test]
fn indented_host_line_counts() {
    let client = match Client::from_config("  Host indented\n", None) {
        Ok(c) => c,
        Err(_) => panic!("absent pattern never fails"),
    };
    let nodes: Vec<String> = client
        .nodes
        .iter()
        .map(|node| node.address.clone())
        .collect();
    let correct: Vec<String> = vec!["indented".into()];
    assert_eq!(correct, nodes);
}

#[test]
fn unreadable_config_gives_empty_fleet() {
    let client = match Client::from_config("", None) {
        Ok(c) => c,
        Err(_) => panic!("absent pattern never fails"),
    };
    assert_eq!(client.nodes.len(), 0);
}
