use docker_manager::command::captured_text;
use docker_manager::command::command_args;
use docker_manager::command::ExecutionMode;
use docker_manager::command::InternalCommand;
use docker_manager::command::System;
use docker_manager::command::SystemCommand;
use docker_manager::flags::ExecFlags;
use docker_manager::flags::ImagesFlags;
use docker_manager::flags::LogsFlags;
use docker_manager::flags::PsFlags;
use docker_manager::flags::RmFlags;

#[test]
fn logs_flags_render_in_fixed_order() {
    let f = LogsFlags::new(true, false, Some("1h".into()), None, true, Some("2h".into()));
    assert_eq!(
        f.flags(),
        vec!["-d", "--since", "1h", "--timestamps", "--until", "2h"]
    );
}

#[test]
fn empty_string_optionals_are_absent() {
    let f = LogsFlags::new(false, false, Some("".into()), Some("".into()), false, None);
    assert!(f.since.is_none());
    assert!(f.tail.is_none());
    assert_eq!(f.flags(), Vec::<String>::new());
}

#[test]
fn exec_flags_render_lists_in_input_order() {
    let f = ExecFlags::new(
        true,
        Some("ctrl-p".into()),
        Some(vec!["A=1".into(), "B=2".into()]),
        None,
        false,
        true,
        Some("root".into()),
        None,
    );
    assert_eq!(
        f.flags(),
        vec![
            "-d",
            "--privileged",
            "--detach-keys",
            "ctrl-p",
            "-e",
            "A=1",
            "-e",
            "B=2",
            "--user",
            "root"
        ]
    );
}

#[test]
fn images_flags_render_in_fixed_order() {
    let f = ImagesFlags::new(true, true, Some("dangling=true".into()), None, true, true);
    assert_eq!(
        f.flags(),
        vec!["-", "--digest", "--filter", "dangling=true", "--no-trunc", "--quiet"]
    );
}

#[test]
fn ps_flags_render_each_set_flag_once() {
    let f = PsFlags::new(true, None, None, true, true, true, true, true);
    assert_eq!(
        f.flags(),
        vec!["-a", "--last", "--latests", "--no_trunc", "--quiet", "--size"]
    );
}

#[test]
fn rm_flags_render_in_fixed_order() {
    let f = RmFlags::new(true, true);
    assert_eq!(f.flags(), vec!["-f", "-v"]);
    assert_eq!(RmFlags::new(false, false).flags(), Vec::<String>::new());
}

fn exec_command() -> InternalCommand {
    InternalCommand::Exec {
        container_id: "web1".into(),
        command: vec!["ls".into(), "-l".into()],
        detach: false,
        detach_keys: None,
        env: Some(vec!["A=1".into()]),
        env_file: None,
        interactive: false,
        privileged: false,
        user: None,
        workdir: Some("/srv".into()),
    }
}

#[test]
fn exec_translation_appends_body_verbatim() {
    assert_eq!(
        command_args(&exec_command()),
        vec!["exec", "-e", "A=1", "--workdir", "/srv", "web1", "ls", "-l"]
    );
}

#[test]
fn translation_is_deterministic() {
    assert_eq!(command_args(&exec_command()), command_args(&exec_command()));
}

#[test]
fn restart_translation_defaults_the_wait() {
    let cmd = InternalCommand::Restart {
        time: None,
        container_id: vec!["a".into(), "b".into()],
    };
    assert_eq!(command_args(&cmd), vec!["restart", "a", "b", "--time", "10"]);
    let timed = InternalCommand::Restart { time: Some("5".into()), container_id: vec!["a".into()] };
    assert_eq!(command_args(&timed), vec!["restart", "a", "--time", "5"]);
}

#[test]
fn rm_translation_puts_flags_after_ids() {
    let cmd = InternalCommand::Rm {
        container_id: vec!["a".into()],
        force: true,
        volumes: false,
    };
    assert_eq!(command_args(&cmd), vec!["rm", "a", "-f"]);
}

#[test]
fn start_translation_attaches_on_request() {
    let cmd = InternalCommand::Start { attach: true, container_id: vec!["a".into()] };
    assert_eq!(command_args(&cmd), vec!["start", "a", "-a"]);
}

#[test]
fn stop_translation_names_the_container() {
    let cmd = InternalCommand::Stop { container_id: "db".into() };
    assert_eq!(command_args(&cmd), vec!["stop", "db"]);
}

#[test]
fn logs_translation_marks_follow_mode() {
    let cmd = InternalCommand::Logs {
        container_id: "web1".into(),
        details: false,
        follow: true,
        since: None,
        tail: Some("50".into()),
        timestamps: false,
        until: None,
    };
    assert_eq!(command_args(&cmd), vec!["logs", "--tail", "50", "-f", "web1"]);
    assert!(matches!(cmd.execution_mode(), ExecutionMode::Streaming));
}

#[test]
fn interactive_exec_streams() {
    let cmd = InternalCommand::Exec {
        container_id: "web1".into(),
        command: vec!["sh".into()],
        detach: false,
        detach_keys: None,
        env: None,
        env_file: None,
        interactive: true,
        privileged: false,
        user: None,
        workdir: None,
    };
    assert!(matches!(cmd.execution_mode(), ExecutionMode::Streaming));
    assert_eq!(command_args(&cmd), vec!["exec", "-i", "web1", "sh"]);
}

#[test]
fn system_translation_renders_each_subcommand() {
    let df = InternalCommand::System(System {
        command: SystemCommand::Df { format: Some("table".into()), verbose: true },
    });
    assert_eq!(command_args(&df), vec!["system", "df", "--format", "table", "-v"]);

    let prune = InternalCommand::System(System {
        command: SystemCommand::Prune {
            all: true,
            filter: Some("until=24h".into()),
            force: true,
            volumes: false,
        },
    });
    assert_eq!(
        command_args(&prune),
        vec!["system", "prune", "--all", "--filter", "until=24h", "--force"]
    );

    let info = InternalCommand::System(System {
        command: SystemCommand::Info { format: None },
    });
    assert_eq!(command_args(&info), vec!["system", "info"]);

    let events = InternalCommand::System(System {
        command: SystemCommand::Events {
            filter: None,
            format: None,
            since: Some("1h".into()),
            until: None,
        },
    });
    assert_eq!(command_args(&events), vec!["system", "events", "--since", "1h"]);
}

#[test]
fn captured_text_selects_by_exit_status() {
    assert_eq!(captured_text("n1", true, "out", "err", false), "n1\nout");
    assert_eq!(captured_text("n1", false, "out", "err", false), "n1\nerr");
}
