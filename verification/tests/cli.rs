use dev_server_proxy::cli::{log_tail, plan_action, split_lines, Action, Args, Command};
use dev_server_proxy::types::{default_port, Config};
use std::path::PathBuf;

fn args(command: Option<Command>, config: Option<&str>, port: Option<u16>) -> Args {
    Args {
        command,
        config: config.map(PathBuf::from),
        port,
        log_level: "info".to_string(),
    }
}

#[test]
fn plan_subcommands() {
    match plan_action(args(
        Some(Command::Start { config: PathBuf::from("a.json"), port: Some(3000) }),
        Some("ignored.json"),
        Some(1),
    )) {
        Action::StartServer { config, port } => {
            assert_eq!(config, PathBuf::from("a.json"));
            assert_eq!(port, Some(3000));
        }
        _ => panic!("expected start"),
    }
    assert!(matches!(plan_action(args(Some(Command::Help), None, None)), Action::ShowHelp));
    assert!(matches!(
        plan_action(args(Some(Command::Log { lines: 50 }), None, None)),
        Action::ShowLogs { lines: 50 }
    ));
}

#[test]
fn plan_without_subcommand() {
    match plan_action(args(None, Some("proxy.config.json"), Some(3000))) {
        Action::StartServer { config, port } => {
            assert_eq!(config, PathBuf::from("proxy.config.json"));
            assert_eq!(port, Some(3000));
        }
        _ => panic!("expected start"),
    }
    assert!(matches!(plan_action(args(None, None, Some(3000))), Action::ShowHelp));
}

#[test]
fn lines_like_std() {
    for text in ["", "a", "a\n", "a\nb", "a\r\nb\r\n", "\n\n", "foo\nbar\n\r\nbaz\r", "x\ry\n", "é\n\r"] {
        let expected: Vec<String> = text.lines().map(|s| s.to_string()).collect();
        assert_eq!(split_lines(text), expected, "{:?}", text);
    }
}

#[test]
fn tail_of_log() {
    let content = "1\n2\n3\n4\n";
    assert_eq!(log_tail(content, 2), vec!["3".to_string(), "4".to_string()]);
    assert_eq!(log_tail(content, 10).len(), 4);
    assert_eq!(log_tail(content, 0).len(), 0);
    assert_eq!(log_tail("", 3).len(), 0);
}

#[test]
fn port_defaults_and_overrides() {
    assert_eq!(default_port(), 8080);
    let mut config = Config {
        server_name: "s".to_string(),
        default_target: "http://localhost:8080".to_string(),
        port: default_port(),
        websocket: None,
        locations: Vec::new(),
    };
    config.override_port(None);
    assert_eq!(config.port, 8080);
    config.override_port(Some(3000));
    assert_eq!(config.port, 3000);
}
