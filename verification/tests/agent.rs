use scsl_core::agent::schedule_may_act;
use scsl_core::agent::{
    build_agent_schedule_command, default_true, extract_server_message, fire_token,
    matches_keyword, minute_token, sanitize_console_line, should_fire_time_schedule, xml_escape,
    AgentSchedule, AgentScheduleAction, AgentScheduleTime, AgentScheduleTrigger, BackgroundAgent,
};
use scsl_core::error::CoreError;

fn schedule(keyword: &str, ignore_case: bool, is_regex: bool) -> AgentSchedule {
    AgentSchedule {
        id: "s1".to_string(),
        is_enabled: true,
        trigger: AgentScheduleTrigger::ConsoleKeyword,
        action: AgentScheduleAction::Command,
        time: AgentScheduleTime { hour: 6, minute: 30 },
        weekdays: vec![2, 4],
        command: "  say {{line}} / {{raw}} / {{rawLine}}  ".to_string(),
        keyword: keyword.to_string(),
        keyword_ignore_case: ignore_case,
        keyword_is_regex: is_regex,
    }
}

#[test]
fn escapes_xml_text() {
    assert_eq!(xml_escape("a&b<c>\"d'"), "a&amp;b&lt;c&gt;&quot;d&apos;");
}

#[test]
fn extracts_server_messages() {
    assert_eq!(
        extract_server_message("[12:00:00] [Server thread/INFO]: [Server] hello there "),
        "hello there"
    );
    assert_eq!(extract_server_message("[Server]: a [Server]: b"), "b");
    assert_eq!(extract_server_message("  plain line  "), "plain line");
    assert_eq!(extract_server_message("x [Server] "), "x [Server]");
}

#[test]
fn strips_terminal_escapes() {
    assert_eq!(sanitize_console_line("\u{1b}[32mgreen\u{1b}[0m text"), "green text");
}

#[test]
fn builds_schedule_commands() {
    let s = schedule("", true, false);
    assert_eq!(build_agent_schedule_command(&s, Some("hi")), "say hi / hi / hi");
    assert_eq!(
        build_agent_schedule_command(&s, None),
        "say {{line}} / {{raw}} / {{rawLine}}"
    );
}

#[test]
fn fires_timed_schedules_on_listed_weekdays() {
    let mut s = schedule("", true, false);
    assert!(should_fire_time_schedule(&s, 6, 30, 2));
    assert!(!should_fire_time_schedule(&s, 6, 30, 3));
    assert!(!should_fire_time_schedule(&s, 6, 31, 2));
    s.weekdays = Vec::new();
    assert!(should_fire_time_schedule(&s, 6, 30, 7));
}

#[test]
fn matches_keywords() {
    assert_eq!(matches_keyword(&schedule("  ", true, false), "anything"), Ok(false));
    assert_eq!(matches_keyword(&schedule("Joined", true, false), "Steve joined the game"), Ok(true));
    assert_eq!(matches_keyword(&schedule("Joined", false, false), "Steve joined the game"), Ok(false));
    assert_eq!(matches_keyword(&schedule("^st.ve", true, true), "Steve left"), Ok(true));
    assert_eq!(matches_keyword(&schedule("^st.ve", false, true), "Steve left"), Ok(false));
    match matches_keyword(&schedule("(", false, true), "x") {
        Err(CoreError::Validation(m)) => assert!(m.starts_with("invalid schedule regex: ")),
        _ => panic!("expected a validation error"),
    }
}

#[test]
fn consumes_console_lines_and_keeps_the_rest() {
    let mut agent = BackgroundAgent::new();
    assert_eq!(agent.consume_console_lines("a", "one\r\ntwo\npar"), vec!["one".to_string(), "two".to_string()]);
    assert_eq!(agent.consume_console_lines("b", "other"), Vec::<String>::new());
    assert_eq!(agent.consume_console_lines("a", "tial\n\n"), vec!["partial".to_string()]);
    assert_eq!(agent.consume_console_lines("b", "\n"), vec!["other".to_string()]);
}

#[test]
fn claims_each_minute_once() {
    let mut agent = BackgroundAgent::new();
    let minute = minute_token(2024, 5, 6, 7, 8);
    assert_eq!(minute, "2024-5-6-7-8");
    assert!(agent.begin_minute(&minute));
    assert!(!agent.begin_minute(&minute));
    assert!(agent.claim_time_firing("s1", &minute));
    assert!(!agent.claim_time_firing("s1", &minute));
    assert!(agent.claim_time_firing("s1", "2024-5-6-7-9"));
    assert_eq!(fire_token("s1", &minute), "s1-2024-5-6-7-8");
    assert!(default_true());
}

#[test]
fn records_log_positions() {
    let mut agent = BackgroundAgent::new();
    agent.record_log_position("a", Some("/x.log".to_string()), 10);
    agent.record_log_position("a", None, 0);
    assert_eq!(agent.last_local_log_file_path.entries.len(), 1);
    assert_eq!(agent.last_local_log_file_path.entries[0].1, "");
    assert_eq!(agent.last_local_log_offset.entries[0].1, 0);
}

#[test]
fn schedules_wait_half_a_second_before_acting_again() {
    assert!(schedule_may_act(None));
    assert!(!schedule_may_act(Some(499)));
    assert!(schedule_may_act(Some(500)));
}
