use scsl_core::error::CoreError;
use scsl_core::http::{
    default_host, default_port, http_status, log_lines_or_default, parse_listen_args,
    player_list_or_empty, server_summary, service_name, split_lines, HttpError, ListenRequest,
};
use scsl_core::inmemory::sample_local_server;
use scsl_core::model::ServerType;

#[test]
fn answers_errors_with_status_codes() {
    assert_eq!(http_status(&CoreError::validation("x")), 400);
    assert_eq!(http_status(&CoreError::not_found("server", "a")), 404);
    assert_eq!(http_status(&CoreError::unsupported("x")), 501);
    assert_eq!(http_status(&CoreError::storage("x")), 500);
    assert_eq!(http_status(&CoreError::runtime("x")), 500);
}

#[test]
fn has_service_defaults() {
    assert_eq!(default_host(), "127.0.0.1");
    assert_eq!(default_port(), 31800);
    assert_eq!(service_name(), "scsl-http");
    assert_eq!(log_lines_or_default(None), 200);
    assert_eq!(log_lines_or_default(Some(3)), 3);
}

#[test]
fn splits_console_lines() {
    assert_eq!(
        split_lines("a  \r\n\n  b\n   \nc"),
        vec!["a".to_string(), "  b".to_string(), "c".to_string()]
    );
}

#[test]
fn reads_missing_player_lists_as_empty() {
    assert_eq!(player_list_or_empty(Ok("[1]".to_string())), Ok("[1]".to_string()));
    assert_eq!(player_list_or_empty(Err(CoreError::runtime("gone"))), Ok("[]".to_string()));
    assert_eq!(player_list_or_empty(Err(CoreError::not_found("file", "x"))), Ok("[]".to_string()));
    assert_eq!(
        player_list_or_empty(Err(CoreError::validation("bad"))),
        Err(CoreError::validation("bad"))
    );
}

#[test]
fn summarizes_servers() {
    let s = server_summary(sample_local_server());
    assert_eq!(s.id, "local-demo");
    assert_eq!(s.server_type, ServerType::Paper);
    assert_eq!(s.game_version, "1.21.1");
}

fn words(items: &[&str]) -> Vec<String> {
    items.iter().map(|item| item.to_string()).collect()
}

fn listen_target(items: &[&str]) -> Result<Option<(String, u16)>, String> {
    parse_listen_args(&words(items)).map(|request| match request {
        ListenRequest::Listen(args) => Some((args.host, args.port)),
        ListenRequest::Help => None,
    })
}

#[test]
fn reads_the_listen_address() {
    assert_eq!(listen_target(&[]), Ok(Some(("127.0.0.1".to_string(), 31800))));
    assert_eq!(
        listen_target(&["--host", "0.0.0.0", "--port", "8080"]),
        Ok(Some(("0.0.0.0".to_string(), 8080)))
    );
    assert_eq!(listen_target(&["--port", "1", "--port", "2"]), Ok(Some(("127.0.0.1".to_string(), 2))));
    assert_eq!(listen_target(&["-h", "--bogus"]), Ok(None));
    assert_eq!(listen_target(&["--help"]), Ok(None));
}

#[test]
fn refuses_bad_listen_arguments() {
    assert_eq!(listen_target(&["--host"]), Err("missing value for --host".to_string()));
    assert_eq!(listen_target(&["--port"]), Err("missing value for --port".to_string()));
    assert_eq!(listen_target(&["--port", "70000"]), Err("number too large to fit in target type".to_string()));
    assert_eq!(listen_target(&["--port", "x"]), Err("invalid digit found in string".to_string()));
    assert_eq!(listen_target(&["serve"]), Err("unexpected argument: serve".to_string()));
}

#[test]
fn answers_an_error_with_its_status_and_text() {
    assert_eq!(
        HttpError(CoreError::not_found("server", "a")).answer(),
        (404, "server not found: a".to_string())
    );
    assert_eq!(HttpError(CoreError::unsupported("x")).answer(), (501, "unsupported: x".to_string()));
}
