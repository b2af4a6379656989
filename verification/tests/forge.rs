use scsl_core::forge::{has_launch_artifacts, is_installer_jar, select_forge_server_jar, ForgeInstallerPlanner};
use scsl_core::launch::ForgeLaunchArtifacts;
use scsl_core::model::{ServerInstance, ServerType};

#[test]
fn detects_installer_jars() {
    assert!(is_installer_jar("forge-1.20.1-47.4.0-installer.jar"));
    assert!(!is_installer_jar("forge-1.20.1-47.4.0-server.jar"));
}

#[test]
fn detects_launch_artifacts() {
    let empty = ForgeLaunchArtifacts { run_script_exists: false, unix_args_file: None, forge_server_jar: None };
    assert!(!has_launch_artifacts(&empty));
    let with_script = ForgeLaunchArtifacts { run_script_exists: true, unix_args_file: None, forge_server_jar: None };
    assert!(has_launch_artifacts(&with_script));
}

#[test]
fn finds_forge_server_jar() {
    let names = vec!["eula.txt".to_string(), "forge-1.20.1-47.4.0-server.jar".to_string()];
    assert_eq!(
        select_forge_server_jar(&names).map(|index| names[index].as_str()),
        Some("forge-1.20.1-47.4.0-server.jar")
    );
}

#[test]
fn builds_install_plan_for_installer_without_artifacts() {
    let mut server =
        ServerInstance::new("server-1", "Forge Server", "forge-server", ServerType::Forge, "1.20.1", "forge-installer.jar");
    server.java_path = "/usr/bin/java".to_string();
    let plan = ForgeInstallerPlanner::new("/tmp/scsl-forge")
        .install_plan(&server, false, true)
        .expect("plan should resolve")
        .expect("install should be needed");
    assert_eq!(plan.java_path, "/usr/bin/java");
    assert_eq!(
        plan.command_line(),
        vec![
            "/usr/bin/java".to_string(),
            "-jar".to_string(),
            "/tmp/scsl-forge/servers/forge-server/forge-installer.jar".to_string(),
            "--installServer".to_string(),
        ]
    );
}
