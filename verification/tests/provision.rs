use scsl_core::error::CoreError;
use scsl_core::inmemory::sample_local_server;
use scsl_core::inventory::ServerInventoryAnalyzer;
use scsl_core::local::parse_server_properties;
use scsl_core::model::{ConsoleMode, ServerType};
use scsl_core::provision::{
    apply_local_console_properties, server_from_create_request, server_port, ServerCreateRequest,
    ServerCreateSource,
};

fn request(source: ServerCreateSource) -> ServerCreateRequest {
    ServerCreateRequest {
        id: "id-1".to_string(),
        name: "Name".to_string(),
        directory_name: "dir".to_string(),
        icon_name: "icon".to_string(),
        icon_image_file_name: None,
        server_type: ServerType::Fabric,
        game_version: "1.21.1".to_string(),
        loader_version: "0.16".to_string(),
        launch_command: None,
        java_path: "/java".to_string(),
        jvm_arguments: Some("-Dx=1".to_string()),
        xms: None,
        xmx: Some(4096),
        console_mode: None,
        rcon_port: None,
        rcon_password: Some("pw".to_string()),
        accept_eula: true,
        source,
    }
}

#[test]
fn builds_servers_from_create_requests() {
    let s = server_from_create_request(&request(ServerCreateSource::CustomJar {
        source_path: "/tmp/jars/custom.jar".to_string(),
    }))
    .expect("server should build");
    assert_eq!(s.server_jar, "custom.jar");
    assert_eq!(s.xms, 0);
    assert_eq!(s.xmx, 4096);
    assert_eq!(s.rcon_port, 25575);
    assert_eq!(s.console_mode, ConsoleMode::Rcon);
    assert_eq!(s.jvm_arguments, "-Dx=1");
    assert_eq!(s.launch_command, "");
    assert!(s.is_local());
    let s = server_from_create_request(&request(ServerCreateSource::Download {
        url: "https://x/s.jar".to_string(),
        file_name: "server-1.jar".to_string(),
        sha1: None,
    }))
    .expect("server should build");
    assert_eq!(s.server_jar, "server-1.jar");
    let mut blank = request(ServerCreateSource::CustomJar { source_path: "/".to_string() });
    blank.name = "  ".to_string();
    assert_eq!(
        server_from_create_request(&blank).err(),
        Some(CoreError::validation("server create request is missing required fields"))
    );
    let root = request(ServerCreateSource::CustomJar { source_path: "/".to_string() });
    assert_eq!(server_from_create_request(&root).expect("server should build").server_jar, "server.jar");
}

#[test]
fn writes_console_settings_and_reads_ports() {
    let mut props = parse_server_properties("server-port=25570\nenable-rcon=true\n");
    assert_eq!(server_port(&props), 25570);
    let mut server = sample_local_server();
    server.rcon_password = "secret".to_string();
    apply_local_console_properties(&mut props, &server);
    let mut pairs: Vec<(String, String)> = props.entries.iter().map(|(k, v)| (k.clone(), v.clone())).collect();
    pairs.sort();
    assert_eq!(
        pairs,
        vec![
            ("enable-rcon".to_string(), "false".to_string()),
            ("rcon.password".to_string(), "secret".to_string()),
            ("rcon.port".to_string(), "25575".to_string()),
            ("server-port".to_string(), "25570".to_string()),
        ]
    );
    assert_eq!(server_port(&parse_server_properties("server-port=abc")), 25565);
}

#[test]
fn reports_local_servers_without_directories() {
    let analyzer = ServerInventoryAnalyzer::new("/work/servers");
    let local = sample_local_server();
    let mut remote = sample_local_server();
    remote.node_id = "remote".to_string();
    remote.name = "Remote".to_string();
    let mut other = sample_local_server();
    other.name = "Other".to_string();
    assert_eq!(analyzer.server_dir(&local), "/work/servers/Local Demo");
    assert_eq!(
        analyzer.corrupted_local_server_names(&vec![local, remote, other], &vec![true, false, false]),
        vec!["Other".to_string()]
    );
}

#[test]
fn reports_missing_local_server_directories() {
    let analyzer = ServerInventoryAnalyzer::new("/tmp/scsl-inventory/servers");
    let server = |id: &str, name: &str, directory: &str| {
        scsl_core::model::ServerInstance::new(id, name, directory, ServerType::Paper, "1.21.1", "server.jar")
    };
    let valid = server("valid", "Valid", "exists");
    let missing = server("missing", "Missing", "missing");
    let mut remote = server("remote", "Remote", "remote-missing");
    remote.node_id = "remote-node".to_string();
    let dir_exists: Vec<bool> = [&valid, &missing, &remote]
        .iter()
        .map(|s| analyzer.server_dir(s) == "/tmp/scsl-inventory/servers/exists")
        .collect();
    assert_eq!(
        analyzer.corrupted_local_server_names(&vec![valid, missing, remote], &dir_exists),
        vec!["Missing".to_string()]
    );
}

#[test]
fn keeps_latest_duplicate_by_node_and_name() {
    let keys = vec!["local::Same Name".to_string(), "local::Same Name".to_string()];
    let (kept, set_aside) = scsl_core::inventory::dedupe_by_key(&keys, &vec![10, 20]);
    assert_eq!(kept, vec![1]);
    assert_eq!(set_aside, vec![0]);
}

#[test]
fn keeps_the_first_of_servers_played_at_once_and_new_keys_in_order() {
    let keys: Vec<String> = ["a", "b", "a", "b", "c"].iter().map(|k| k.to_string()).collect();
    let (kept, set_aside) = scsl_core::inventory::dedupe_by_key(&keys, &vec![5, 1, 5, 3, 0]);
    assert_eq!(kept, vec![0, 3, 4]);
    assert_eq!(set_aside, vec![2, 1]);
}
