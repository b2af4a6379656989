use scsl_core::local::parse_port_processes;
use scsl_core::text::split_whitespace;

#[test]
fn splits_text_into_words() {
    assert_eq!(split_whitespace("  a \t bb\nc  "), vec!["a".to_string(), "bb".to_string(), "c".to_string()]);
    assert!(split_whitespace(" \u{3000} ").is_empty());
    assert!(split_whitespace("").is_empty());
}

#[test]
fn reads_lsof_listings() {
    let output = b"COMMAND   PID USER   FD   TYPE DEVICE SIZE/OFF NODE NAME\njava    4242 alice   51u  IPv6 0x1 0t0 TCP *:25565 (LISTEN)\nshort 1\nbad   x   bob\n";
    let processes = parse_port_processes(output);
    assert_eq!(processes.len(), 1);
    assert_eq!(processes[0].pid, 4242);
    assert_eq!(processes[0].command, "java");
    assert_eq!(processes[0].user, "alice");
    assert!(parse_port_processes(b"").is_empty());
    assert!(parse_port_processes(b"COMMAND PID USER\n").is_empty());
}
