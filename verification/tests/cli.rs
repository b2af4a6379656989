use scsl_core::cli_args::{
    AgentCommand, Cli, Command, GameCommand, MirrorCommand, ModrinthCommand, ServerCommand,
    ServerFilesCommand, SettingsCommand,
};
use scsl_core::error::CoreError;

fn args(items: &[&str]) -> Vec<String> {
    items.iter().map(|s| s.to_string()).collect()
}

#[test]
fn parses_global_options_and_server_show() {
    let cli = Cli::parse(args(&["--db", "/tmp/a.db", "--demo", "server", "show", "abc"]))
        .expect("should parse");
    assert_eq!(cli.db, Some("/tmp/a.db".to_string()));
    assert_eq!(cli.working_path, None);
    assert!(cli.demo);
    match cli.command {
        Command::Server(ServerCommand::Show(a)) => assert_eq!(a.id, "abc"),
        _ => panic!("wrong command"),
    }
}

#[test]
fn later_global_option_overrides_earlier() {
    let cli = Cli::parse(args(&[
        "--working-path", "/a", "--working-path", "/b", "server", "list",
    ]))
    .expect("should parse");
    assert_eq!(cli.working_path, Some("/b".to_string()));
    assert!(matches!(cli.command, Command::Server(ServerCommand::List)));
}

#[test]
fn reports_missing_command() {
    assert_eq!(
        Cli::parse(args(&[])).err(),
        Some(CoreError::validation("missing command"))
    );
    assert_eq!(
        Cli::parse(args(&["--db"])).err(),
        Some(CoreError::validation("missing value for --db"))
    );
}

#[test]
fn reports_unknown_commands() {
    assert_eq!(
        Cli::parse(args(&["nope"])).err(),
        Some(CoreError::validation("unknown command: nope"))
    );
    assert_eq!(
        Cli::parse(args(&["server", "fly"])).err(),
        Some(CoreError::validation("unknown server command: fly"))
    );
    assert_eq!(
        Cli::parse(args(&["agent", "fly"])).err(),
        Some(CoreError::validation("unknown agent command: fly"))
    );
}

#[test]
fn reports_unexpected_trailing_argument() {
    assert_eq!(
        Cli::parse(args(&["server", "list", "extra"])).err(),
        Some(CoreError::validation("unexpected argument: extra"))
    );
}

#[test]
fn requires_flag_in_place() {
    assert_eq!(
        Cli::parse(args(&["server", "local-start", "id", "--other", "x"])).err(),
        Some(CoreError::validation("expected --java-path, got --other"))
    );
    assert_eq!(
        Cli::parse(args(&["server", "local-start", "id"])).err(),
        Some(CoreError::validation("missing --java-path"))
    );
    assert_eq!(
        Cli::parse(args(&["server", "local-start", "id", "--java-path"])).err(),
        Some(CoreError::validation("missing value for --java-path"))
    );
}

#[test]
fn parses_logs_line_counts() {
    let cli = Cli::parse(args(&["server", "logs", "id"])).expect("should parse");
    match cli.command {
        Command::Server(ServerCommand::Logs(a)) => assert_eq!(a.lines, 50),
        _ => panic!("wrong command"),
    }
    let cli = Cli::parse(args(&["server", "logs", "id", "--lines", "5", "-n", "7"]))
        .expect("should parse");
    match cli.command {
        Command::Server(ServerCommand::Logs(a)) => {
            assert_eq!(a.id, "id");
            assert_eq!(a.lines, 7);
        }
        _ => panic!("wrong command"),
    }
    assert_eq!(
        Cli::parse(args(&["server", "logs", "id", "-n", "x"])).err(),
        Some(CoreError::validation("invalid lines value: invalid digit found in string"))
    );
}

#[test]
fn parses_local_log_poll_offsets() {
    let cli = Cli::parse(args(&[
        "server", "local-log-poll", "id", "--current-file-path", "/l.log", "--offset", "12",
    ]))
    .expect("should parse");
    match cli.command {
        Command::Server(ServerCommand::LocalLogPoll(a)) => {
            assert_eq!(a.current_file_path, Some("/l.log".to_string()));
            assert_eq!(a.offset, 12);
        }
        _ => panic!("wrong command"),
    }
    let cli = Cli::parse(args(&["server", "local-log-poll", "id", "--offset", "bad"]))
        .expect("should parse");
    match cli.command {
        Command::Server(ServerCommand::LocalLogPoll(a)) => assert_eq!(a.offset, 0),
        _ => panic!("wrong command"),
    }
}

#[test]
fn parses_switches_and_nested_commands() {
    let cli = Cli::parse(args(&["server", "interrupt", "id", "--force", "--force"]))
        .expect("should parse");
    match cli.command {
        Command::Server(ServerCommand::Interrupt(a)) => assert!(a.force),
        _ => panic!("wrong command"),
    }
    let cli = Cli::parse(args(&["server", "files", "import", "id", "--source", "/m.jar"]))
        .expect("should parse");
    match cli.command {
        Command::Server(ServerCommand::Files(ServerFilesCommand::Import(a))) => {
            assert_eq!(a.source, "/m.jar");
            assert_eq!(a.directory, "");
        }
        _ => panic!("wrong command"),
    }
}

#[test]
fn parses_modrinth_search_options() {
    let cli = Cli::parse(args(&["modrinth", "search"])).expect("should parse");
    match cli.command {
        Command::Modrinth(ModrinthCommand::Search(a)) => {
            assert_eq!(a.index, "relevance");
            assert_eq!(a.offset, 0);
            assert_eq!(a.limit, 20);
            assert_eq!(a.query, None);
        }
        _ => panic!("wrong command"),
    }
    let cli = Cli::parse(args(&[
        "modrinth", "search", "--limit", "-3", "--query", "sodium", "--offset", "10",
    ]))
    .expect("should parse");
    match cli.command {
        Command::Modrinth(ModrinthCommand::Search(a)) => {
            assert_eq!(a.limit, -3);
            assert_eq!(a.offset, 10);
            assert_eq!(a.query, Some("sodium".to_string()));
        }
        _ => panic!("wrong command"),
    }
    assert_eq!(
        Cli::parse(args(&["modrinth", "search", "--offset", "1.5"])).err(),
        Some(CoreError::validation("invalid offset: invalid digit found in string"))
    );
    assert_eq!(
        Cli::parse(args(&["modrinth", "search", "--limit", "99999999999"])).err(),
        Some(CoreError::validation("invalid limit: number too large to fit in target type"))
    );
}

#[test]
fn parses_mirror_and_game_commands() {
    let cli = Cli::parse(args(&["mirror", "polars-core-items", "--core-type-id", "-4", "--base-url"]))
        .expect("should parse");
    match cli.command {
        Command::Mirror(MirrorCommand::PolarsCoreItems(a)) => {
            assert_eq!(a.core_type_id, -4);
            assert_eq!(a.base_url, None);
        }
        _ => panic!("wrong command"),
    }
    assert_eq!(
        Cli::parse(args(&["mirror", "polars-core-items", "--core-type-id", ""])).err(),
        Some(CoreError::validation("invalid core type id: cannot parse integer from empty string"))
    );
    let cli = Cli::parse(args(&[
        "game", "backup-create", "--source-root", "/s", "--output-path", "/o.zip", "--keep-count", "3",
    ]))
    .expect("should parse");
    match cli.command {
        Command::Game(GameCommand::BackupCreate(a)) => assert_eq!(a.keep_count, Some(3)),
        _ => panic!("wrong command"),
    }
    assert_eq!(
        Cli::parse(args(&[
            "game", "backup-create", "--source-root", "/s", "--output-path", "/o.zip", "--keep-count", "-1",
        ]))
        .err(),
        Some(CoreError::validation("invalid keep count: invalid digit found in string"))
    );
    let cli = Cli::parse(args(&["game", "server-addresses-read", "--path", "/s.dat"])).expect("should parse");
    match cli.command {
        Command::Game(GameCommand::ServerAddressesRead(a)) => assert_eq!(a.path, "/s.dat"),
        _ => panic!("wrong command"),
    }
}

#[test]
fn parses_settings_and_agent_commands() {
    let cli = Cli::parse(args(&["settings", "write", "--scope", "game", "--json", "{}"]))
        .expect("should parse");
    match cli.command {
        Command::Settings(SettingsCommand::Write(a)) => {
            assert_eq!(a.scope, "game");
            assert_eq!(a.json, "{}");
        }
        _ => panic!("wrong command"),
    }
    let cli = Cli::parse(args(&["agent", "ensure"])).expect("should parse");
    assert!(matches!(cli.command, Command::Agent(AgentCommand::Ensure)));
}
