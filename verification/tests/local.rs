use scsl_core::error::CoreError;
use scsl_core::inmemory::sample_local_server;
use scsl_core::local::{
    effective_log_offset, interrupt_script, is_listed_server_file, map_copy_error,
    parse_server_properties, poll_log_file, read_local_log_update, resolve_below, send_command_script,
    server_properties_text, start_outcome, LocalServerRuntime,
};

#[test]
fn resolves_paths_inside_server_directories() {
    let runtime = LocalServerRuntime::new("/work");
    let server = sample_local_server();
    assert_eq!(
        runtime.resolve_server_path(&server, "./mods//a.jar"),
        Ok("/work/servers/Local Demo/mods/a.jar".to_string())
    );
    assert_eq!(runtime.resolve_server_path(&server, ""), Ok("/work/servers/Local Demo".to_string()));
    assert_eq!(
        resolve_below("/srv", "a/../../etc"),
        Err(CoreError::validation("invalid server-relative path: a/../../etc"))
    );
    assert_eq!(
        resolve_below("/srv", "/etc/passwd"),
        Err(CoreError::validation("invalid server-relative path: /etc/passwd"))
    );
}

#[test]
fn lists_log_candidates_in_order() {
    let runtime = LocalServerRuntime::new("/work");
    let c = runtime.local_log_candidates("/srv/a");
    assert_eq!(c[0], "/srv/a/scsl-server.log");
    assert_eq!(c[1], "/srv/a/logs/latest.log");
    assert_eq!(c[2], "/srv/a/latest.log");
    assert_eq!(c[3], "/srv/a/server.log");
}

#[test]
fn hides_dot_files_and_eula() {
    assert!(is_listed_server_file("server.properties"));
    assert!(!is_listed_server_file(".scsl"));
    assert!(!is_listed_server_file("EULA.TXT"));
}

#[test]
fn reads_and_writes_server_properties() {
    let props = parse_server_properties("# comment\nmotd = Hello = World\n\nonline-mode=false\nmotd=Again\nnoequals\n");
    let mut pairs: Vec<(String, String)> = props.entries.iter().map(|(k, v)| (k.clone(), v.clone())).collect();
    pairs.sort();
    assert_eq!(
        pairs,
        vec![("motd".to_string(), "Again".to_string()), ("online-mode".to_string(), "false".to_string())]
    );
    assert_eq!(
        server_properties_text(&vec![("a".to_string(), "1".to_string()), ("b".to_string(), "2".to_string())]),
        "a=1\nb=2\n"
    );
    assert_eq!(server_properties_text(&Vec::new()), "");
}

#[test]
fn writes_console_scripts() {
    assert_eq!(
        send_command_script("/s/.scsl.stdin", "say 'hi'"),
        "test -p '/s/.scsl.stdin' && printf '%s\\n' 'say '\"'\"'hi'\"'\"'' > '/s/.scsl.stdin'"
    );
    assert!(interrupt_script("/s", true).starts_with("cd '/s' && if test -f .scsl.pid; then"));
    assert!(interrupt_script("/s", true).ends_with("echo __SCSL_PID_MISSING__; fi"));
    assert!(interrupt_script("/s", false).contains("sleep 8"));
}

#[test]
fn reads_start_outcomes() {
    assert_eq!(start_outcome("ok __SCSL_STARTED__"), Ok(()));
    assert_eq!(
        start_outcome("__SCSL_ALREADY_RUNNING__ __SCSL_STARTED__"),
        Err(CoreError::runtime("server is already running"))
    );
    assert_eq!(
        start_outcome(""),
        Err(CoreError::runtime("local server start failed; check scsl-server.log"))
    );
    assert_eq!(
        map_copy_error("denied", "/a", "/b"),
        CoreError::runtime("failed to copy /a to /b: denied")
    );
}

#[test]
fn follows_log_files() {
    assert_eq!(effective_log_offset(Some("/l"), "/l", 9), 9);
    assert_eq!(effective_log_offset(Some("/m"), "/l", 9), 0);
    assert_eq!(effective_log_offset(None, "/l", 9), 0);
    let bytes = b"hello\nworld\n".to_vec();
    assert_eq!(read_local_log_update(&bytes, 12, 6), ("world\n".to_string(), 12));
    assert_eq!(read_local_log_update(&bytes, 12, 40), (String::new(), 12));
    assert_eq!(read_local_log_update(&vec![0x66, 0xff], 2, 0), ("f\u{fffd}".to_string(), 2));
}

#[test]
fn polls_continue_in_the_same_log_file_only() {
    let bytes = b"hello\nworld\n".to_vec();
    let same = poll_log_file("/s/latest.log".to_string(), Some("/s/latest.log"), 6, &bytes, 12);
    assert_eq!(same.file_path, Some("/s/latest.log".to_string()));
    assert_eq!(same.appended_text, "world\n");
    assert_eq!(same.next_offset, 12);
    let other = poll_log_file("/s/latest.log".to_string(), Some("/s/old.log"), 6, &bytes, 12);
    assert_eq!(other.appended_text, "hello\nworld\n");
    let first = poll_log_file("/s/latest.log".to_string(), None, 6, &bytes, 12);
    assert_eq!(first.appended_text, "hello\nworld\n");
    assert_eq!(first.next_offset, 12);
}

#[test]
fn written_properties_read_back() {
    let written = vec![
        ("enable-rcon".to_string(), "false".to_string()),
        ("motd".to_string(), "A Minecraft Server".to_string()),
        ("rcon.password".to_string(), String::new()),
    ];
    let read = parse_server_properties(&server_properties_text(&written));
    assert_eq!(read.entries, written);
}

#[test]
fn a_property_with_an_empty_key_reads_back() {
    let written = vec![(String::new(), "x".to_string()), ("motd".to_string(), "hi".to_string())];
    let read = parse_server_properties(&server_properties_text(&written));
    assert_eq!(read.entries, written);
}
