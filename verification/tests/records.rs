use scsl_core::model::{ConsoleMode, ServerInstance, ServerRecord, ServerType, LOCAL_NODE_ID};

fn record() -> ServerRecord {
    ServerRecord {
        id: "s1".to_string(),
        name: "Survival".to_string(),
        directory_name: None,
        icon_name: None,
        icon_image_file_name: None,
        server_type: ServerType::Fabric,
        game_version: "1.21.1".to_string(),
        loader_version: None,
        server_jar: "server.jar".to_string(),
        launch_command: None,
        last_played_bits: None,
        java_path: None,
        jvm_arguments: None,
        xms: None,
        xmx: None,
        node_id: None,
        console_mode: None,
        rcon_port: None,
        rcon_password: None,
    }
}

#[test]
fn fills_defaults_of_stored_servers() {
    let server = ServerInstance::from_record(record());
    assert_eq!(server.directory_name, "Survival");
    assert_eq!(server.icon_name, "server.rack");
    assert_eq!(server.node_id, LOCAL_NODE_ID);
    assert!(server.console_mode == ConsoleMode::Rcon);
    assert_eq!(server.rcon_port, 25575);
    assert_eq!(server.loader_version, "");
    assert_eq!(server.xms, 0);
    assert_eq!(server.last_played_bits, 0);
}

#[test]
fn keeps_stored_values() {
    let mut r = record();
    r.directory_name = Some("survival-dir".to_string());
    r.node_id = Some("remote".to_string());
    r.console_mode = Some(ConsoleMode::Direct);
    r.rcon_port = Some(25580);
    r.xmx = Some(4096);
    r.last_played_bits = Some(1.5f64.to_bits());
    let server = ServerInstance::from_record(r);
    assert_eq!(server.directory_name, "survival-dir");
    assert_eq!(server.node_id, "remote");
    assert!(server.console_mode == ConsoleMode::Direct);
    assert_eq!(server.rcon_port, 25580);
    assert_eq!(server.xmx, 4096);
    assert_eq!(f64::from_bits(server.last_played_bits), 1.5);
}

fn text_field(v: &serde_json::Value, key: &str) -> Option<String> {
    v.get(key).and_then(|x| x.as_str()).map(|s| s.to_string())
}

fn i32_field(v: &serde_json::Value, key: &str) -> Option<i32> {
    v.get(key).and_then(|x| x.as_i64()).map(|n| n as i32)
}

fn server_type_of(name: &str) -> ServerType {
    match name {
        "vanilla" => ServerType::Vanilla,
        "fabric" => ServerType::Fabric,
        "forge" => ServerType::Forge,
        "paper" => ServerType::Paper,
        _ => ServerType::Custom,
    }
}

#[test]
fn decodes_swift_server_instance_json() {
    let json = r#"{
        "id": "server-1",
        "name": "Paper Demo",
        "directoryName": "Paper Demo",
        "iconName": "server.rack",
        "iconImageFileName": null,
        "serverType": "paper",
        "gameVersion": "1.21.1",
        "loaderVersion": "",
        "serverJar": "server.jar",
        "launchCommand": "",
        "lastPlayed": 1710000000.5,
        "javaPath": "java",
        "jvmArguments": "-Dfile.encoding=UTF-8",
        "xms": 1024,
        "xmx": 2048,
        "nodeId": "00000000-0000-0000-0000-000000000001",
        "consoleMode": "rcon",
        "rconPort": 25575,
        "rconPassword": ""
    }"#;
    let v: serde_json::Value = serde_json::from_str(json).expect("json should decode");
    let record = ServerRecord {
        id: text_field(&v, "id").unwrap(),
        name: text_field(&v, "name").unwrap(),
        directory_name: text_field(&v, "directoryName"),
        icon_name: text_field(&v, "iconName"),
        icon_image_file_name: text_field(&v, "iconImageFileName"),
        server_type: server_type_of(&text_field(&v, "serverType").unwrap()),
        game_version: text_field(&v, "gameVersion").unwrap(),
        loader_version: text_field(&v, "loaderVersion"),
        server_jar: text_field(&v, "serverJar").unwrap(),
        launch_command: text_field(&v, "launchCommand"),
        last_played_bits: v.get("lastPlayed").and_then(|x| x.as_f64()).map(f64::to_bits),
        java_path: text_field(&v, "javaPath"),
        jvm_arguments: text_field(&v, "jvmArguments"),
        xms: i32_field(&v, "xms"),
        xmx: i32_field(&v, "xmx"),
        node_id: text_field(&v, "nodeId"),
        console_mode: text_field(&v, "consoleMode").map(|m| if m == "direct" { ConsoleMode::Direct } else { ConsoleMode::Rcon }),
        rcon_port: i32_field(&v, "rconPort"),
        rcon_password: text_field(&v, "rconPassword"),
    };
    let server = ServerInstance::from_record(record);

    assert_eq!(server.id, "server-1");
    assert!(server.server_type == ServerType::Paper);
    assert!(server.console_mode == ConsoleMode::Rcon);
    assert_eq!(server.jvm_arguments, "-Dfile.encoding=UTF-8");
    assert_eq!(server.xmx, 2048);
}
