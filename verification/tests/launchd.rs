use scsl_core::agent::{
    agent_log_path, agent_plist_path, agent_service_target, has_console_schedules,
    is_due_time_schedule, launch_agent_plist, launchctl_domain, AgentSchedule, AgentScheduleAction,
    AgentScheduleTime, AgentScheduleTrigger, AGENT_LABEL,
};

fn timed(enabled: bool, trigger: AgentScheduleTrigger, weekdays: Vec<u32>) -> AgentSchedule {
    AgentSchedule {
        id: "t".to_string(),
        is_enabled: enabled,
        trigger,
        action: AgentScheduleAction::Restart,
        time: AgentScheduleTime { hour: 4, minute: 0 },
        weekdays,
        command: String::new(),
        keyword: String::new(),
        keyword_ignore_case: true,
        keyword_is_regex: false,
    }
}

#[test]
fn names_the_launchd_domain_and_service() {
    assert_eq!(launchctl_domain("501\n"), "gui/501");
    assert_eq!(
        agent_service_target("gui/501"),
        "gui/501/org.dcstudio.swiftcraftserverlauncher.scsl-agent"
    );
    assert_eq!(
        agent_plist_path("/Users/me"),
        "/Users/me/Library/LaunchAgents/org.dcstudio.swiftcraftserverlauncher.scsl-agent.plist"
    );
    assert_eq!(agent_log_path("/w", true), "/w/logs/scsl-agent.stdout.log");
    assert_eq!(agent_log_path("/w/", false), "/w/logs/scsl-agent.stderr.log");
}

#[test]
fn writes_the_agent_property_list() {
    let plist = launch_agent_plist("/Apps/A&B/scsl", "/w/out.log", "/w/err<1>.log");
    let expected = format!(
        "<?xml version=\"1.0\" encoding=\"UTF-8\"?>\n<!DOCTYPE plist PUBLIC \"-//Apple//DTD PLIST 1.0//EN\" \"http://www.apple.com/DTDs/PropertyList-1.0.dtd\">\n<plist version=\"1.0\">\n<dict>\n  <key>Label</key>\n  <string>{}</string>\n  <key>ProgramArguments</key>\n  <array>\n    <string>/Apps/A&amp;B/scsl</string>\n    <string>agent</string>\n    <string>run</string>\n  </array>\n  <key>RunAtLoad</key>\n  <true/>\n  <key>KeepAlive</key>\n  <true/>\n  <key>StandardOutPath</key>\n  <string>/w/out.log</string>\n  <key>StandardErrorPath</key>\n  <string>/w/err&lt;1&gt;.log</string>\n</dict>\n</plist>\n",
        AGENT_LABEL
    );
    assert_eq!(plist, expected);
}

#[test]
fn picks_due_timed_schedules() {
    let every_day = timed(true, AgentScheduleTrigger::Time, vec![]);
    assert!(is_due_time_schedule(&every_day, 4, 0, 3));
    assert!(!is_due_time_schedule(&every_day, 4, 1, 3));
    let sundays = timed(true, AgentScheduleTrigger::Time, vec![1]);
    assert!(is_due_time_schedule(&sundays, 4, 0, 1));
    assert!(!is_due_time_schedule(&sundays, 4, 0, 2));
    let disabled = timed(false, AgentScheduleTrigger::Time, vec![]);
    assert!(!is_due_time_schedule(&disabled, 4, 0, 1));
    let console = timed(true, AgentScheduleTrigger::ConsoleKeyword, vec![]);
    assert!(!is_due_time_schedule(&console, 4, 0, 1));
}

#[test]
fn reads_logs_only_for_console_schedules() {
    assert!(!has_console_schedules(&vec![timed(true, AgentScheduleTrigger::Time, vec![])]));
    assert!(!has_console_schedules(&vec![timed(false, AgentScheduleTrigger::ConsoleKeyword, vec![])]));
    assert!(has_console_schedules(&vec![
        timed(true, AgentScheduleTrigger::Time, vec![]),
        timed(true, AgentScheduleTrigger::ConsoleKeyword, vec![]),
    ]));
}
