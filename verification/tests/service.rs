use scsl_core::error::CoreError;
use scsl_core::inmemory::{sample_local_server, InMemoryRuntime, InMemoryStore};
use scsl_core::model::{LogQuery, ServerStatus};
use scsl_core::service::ScslCore;

#[test]
fn save_server_rejects_missing_required_fields() {
    let store = InMemoryStore::default();
    let runtime = InMemoryRuntime::default();
    let mut core = ScslCore::new(store, runtime);

    let mut invalid = sample_local_server();
    invalid.name.clear();

    let error = core
        .save_server(invalid)
        .expect_err("server should be rejected");
    assert_eq!(error, CoreError::validation("server name cannot be empty"));
}

#[test]
fn start_stop_and_restart_server_use_runtime_port() {
    let server = sample_local_server();
    let store = InMemoryStore::with_servers(vec![server.duplicate()]);
    let runtime = InMemoryRuntime::with_server(
        &server.id,
        ServerStatus::Stopped,
        vec!["boot".to_string()],
    );
    let mut core = ScslCore::new(store, runtime);

    assert_eq!(
        core.start_server(&server.id).expect("start should succeed"),
        ServerStatus::Running
    );
    assert_eq!(
        core.stop_server(&server.id).expect("stop should succeed"),
        ServerStatus::Stopped
    );
    assert_eq!(
        core.restart_server(&server.id)
            .expect("restart should succeed"),
        ServerStatus::Running
    );
}

#[test]
fn server_logs_returns_a_tail_snapshot() {
    let server = sample_local_server();
    let store = InMemoryStore::with_servers(vec![server.duplicate()]);
    let runtime = InMemoryRuntime::with_server(
        &server.id,
        ServerStatus::Running,
        vec![
            "line-1".to_string(),
            "line-2".to_string(),
            "line-3".to_string(),
        ],
    );
    let core = ScslCore::new(store, runtime);

    let logs = core
        .server_logs(&server.id, LogQuery::tail(2))
        .expect("logs should succeed");

    assert_eq!(logs.status, ServerStatus::Running);
    assert_eq!(logs.lines, vec!["line-2".to_string(), "line-3".to_string()]);
}

#[test]
fn remote_servers_are_rejected_in_the_first_milestone() {
    let mut remote_server = sample_local_server();
    remote_server.node_id = "remote-node-1".to_string();
    let store = InMemoryStore::with_servers(vec![remote_server.duplicate()]);
    let runtime =
        InMemoryRuntime::with_server(&remote_server.id, ServerStatus::Stopped, Vec::new());
    let mut core = ScslCore::new(store, runtime);

    let error = core
        .start_server(&remote_server.id)
        .expect_err("remote start should be rejected");
    assert_eq!(
        error,
        CoreError::unsupported(
            "remote-node orchestration is intentionally deferred in the first Rust core milestone",
        )
    );
}
