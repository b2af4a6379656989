use scsl_core::launch::{
    append_no_gui_if_needed, shell_quote, split_args, ForgeLaunchArtifacts, ServerLaunchKind,
    ServerLaunchPlanner,
};
use scsl_core::model::{ServerInstance, ServerType};

#[test]
fn appends_no_gui_to_custom_commands() {
    assert_eq!(
        append_no_gui_if_needed("java -jar server.jar"),
        "java -jar server.jar nogui"
    );
    assert_eq!(
        append_no_gui_if_needed("java -jar server.jar nogui"),
        "java -jar server.jar nogui"
    );
}

#[test]
fn splits_quoted_arguments() {
    assert_eq!(
        split_args("-Dfoo='hello world' -Xmx2G"),
        vec!["-Dfoo=hello world".to_string(), "-Xmx2G".to_string()]
    );
}

#[test]
fn quotes_shell_values() {
    assert_eq!(shell_quote("a'b"), "'a'\"'\"'b'");
}

fn sample_server(server_type: ServerType) -> ServerInstance {
    let mut server = ServerInstance::new("server-1", "Server One", "Server One", server_type, "1.21.1", "server.jar");
    server.java_path = "/usr/bin/java".to_string();
    server.xms = 1024;
    server.xmx = 2048;
    server.jvm_arguments = "-Dfile.encoding=UTF-8".to_string();
    server
}

fn artifacts(run_script_exists: bool) -> ForgeLaunchArtifacts {
    ForgeLaunchArtifacts { run_script_exists, unix_args_file: None, forge_server_jar: None }
}

#[test]
fn plans_standard_jar_launch() {
    let plan = ServerLaunchPlanner::new("/tmp/scsl-launch")
        .plan(&sample_server(ServerType::Paper), &artifacts(false))
        .expect("plan should build");
    assert_eq!(plan.kind, ServerLaunchKind::Jar);
    assert!(plan.launch_command.contains("-Xmx2048M"));
    assert!(plan.launch_command.contains("server.jar"));
    assert!(plan.launch_command.contains("nogui"));
}

#[test]
fn prefers_forge_run_script() {
    let plan = ServerLaunchPlanner::new("/tmp/scsl-launch")
        .plan(&sample_server(ServerType::Forge), &artifacts(true))
        .expect("plan should build");
    assert_eq!(plan.kind, ServerLaunchKind::ForgeRunScript);
    assert_eq!(plan.launch_command, "env JAVA_HOME='/usr' ./run.sh nogui");
}
