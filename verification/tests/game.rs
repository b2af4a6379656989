use scsl_core::error::CoreError;
use scsl_core::game::{
    build_game_launch_plan, build_processor_command, extract_processor_client_value,
    maven_coordinate_to_full_path, maven_coordinate_to_relative_path,
    maven_coordinate_to_relative_path_for_url, parse_environment_variables,
    parse_maven_coordinate_with_at_symbol, process_processor_placeholders,
    processor_classpath_entry, processor_jar_candidate, replace_game_launch_placeholders,
    split_cli_args, GameLaunchPlayer, GameLaunchRequest,
};

#[test]
fn maps_maven_coordinates_to_paths() {
    assert_eq!(
        maven_coordinate_to_relative_path("net.fabricmc:fabric-loader:0.15.11"),
        Some("net/fabricmc/fabric-loader/0.15.11/fabric-loader-0.15.11.jar".to_string())
    );
    assert_eq!(
        maven_coordinate_to_relative_path("org.lwjgl:lwjgl:3.3.1:natives-macos"),
        Some("org/lwjgl/lwjgl/3.3.1/lwjgl-3.3.1-natives-macos.jar".to_string())
    );
    assert_eq!(
        maven_coordinate_to_relative_path("a.b:c:cls:x:9.9"),
        Some("a/b/c/9.9/c-9.9-x.jar".to_string())
    );
    assert_eq!(maven_coordinate_to_relative_path("a:b"), None);
}

#[test]
fn maps_at_symbol_coordinates() {
    assert_eq!(
        parse_maven_coordinate_with_at_symbol("de.oceanlabs.mcp:mcp_config:1.20.1@zip"),
        "de/oceanlabs/mcp/mcp_config/1.20.1/mcp_config-1.20.1.zip"
    );
    assert_eq!(
        parse_maven_coordinate_with_at_symbol("net.minecraft:client:1.20.1:mappings@txt"),
        "net/minecraft/client/1.20.1/client-1.20.1-mappings.txt"
    );
    assert_eq!(
        parse_maven_coordinate_with_at_symbol("g:a:1:zip"),
        "g/a/1/a-1.zip"
    );
    assert_eq!(parse_maven_coordinate_with_at_symbol("g:a"), "g:a");
    assert_eq!(maven_coordinate_to_relative_path_for_url("plain"), "plain");
}

#[test]
fn joins_maven_paths_under_libraries() {
    assert_eq!(
        maven_coordinate_to_full_path("net.fabricmc:fabric-loader:0.15.11", "/libs"),
        "/libs/net/fabricmc/fabric-loader/0.15.11/fabric-loader-0.15.11.jar"
    );
}

#[test]
fn parses_environment_lines() {
    let env = parse_environment_variables("A=1\n  B = x=y \n\nnoequals\r\nA=2\r\n");
    let mut pairs: Vec<(String, String)> = env.entries.iter().map(|(k, v)| (k.clone(), v.clone())).collect();
    pairs.sort();
    assert_eq!(
        pairs,
        vec![("A".to_string(), "2".to_string()), ("B ".to_string(), " x=y".to_string())]
    );
}

#[test]
fn splits_cli_arguments_like_launch_arguments() {
    assert_eq!(
        split_cli_args("-Xmx2G \"-Dname=a b\"  x"),
        vec!["-Xmx2G".to_string(), "-Dname=a b".to_string(), "x".to_string()]
    );
}

fn request(player: Option<GameLaunchPlayer>) -> GameLaunchRequest {
    GameLaunchRequest {
        java_path: "  /usr/bin/java ".to_string(),
        launch_command: vec!["-Xms${xms}M".to_string(), "--username".to_string(), "${auth_player_name}".to_string()],
        xms: 512,
        xmx: 2048,
        jvm_arguments: "-Da=1 -Db=2".to_string(),
        working_directory: "/game".to_string(),
        environment_variables: "K=V".to_string(),
        player,
    }
}

#[test]
fn fills_launch_placeholders() {
    let req = request(Some(GameLaunchPlayer {
        id: "uuid".to_string(),
        name: "Steve".to_string(),
        access_token: "tok".to_string(),
        xuid: "x".to_string(),
    }));
    assert_eq!(
        replace_game_launch_placeholders("${xmx}/${auth_player_name}/${auth_xuid}".to_string(), &req),
        "2048/Steve/x"
    );
    let req = request(None);
    assert_eq!(
        replace_game_launch_placeholders("${auth_player_name}".to_string(), &req),
        "${auth_player_name}"
    );
}

#[test]
fn plans_game_launches() {
    let plan = build_game_launch_plan(request(None)).expect("plan should build");
    assert_eq!(plan.java_path, "/usr/bin/java");
    assert_eq!(
        plan.arguments,
        vec![
            "-Da=1".to_string(),
            "-Db=2".to_string(),
            "-Xms512M".to_string(),
            "--username".to_string(),
            "${auth_player_name}".to_string()
        ]
    );
    assert_eq!(plan.working_directory, "/game");
    assert_eq!(plan.environment.entries.len(), 1);
    let mut blank = request(None);
    blank.java_path = "   ".to_string();
    assert_eq!(
        build_game_launch_plan(blank).err(),
        Some(CoreError::validation("game java path must not be empty"))
    );
}

#[test]
fn resolves_processor_values() {
    assert_eq!(
        extract_processor_client_value("[net.minecraft:client:1.20.1:slim]", "/libs"),
        Some("/libs/net/minecraft/client/1.20.1/client-1.20.1-slim.jar".to_string())
    );
    assert_eq!(
        extract_processor_client_value("[plain]", "/libs"),
        Some("plain".to_string())
    );
    assert_eq!(
        extract_processor_client_value("{MAPPINGS}", "/libs"),
        Some("{MAPPINGS}".to_string())
    );
    assert_eq!(
        extract_processor_client_value("g:a:1", "/libs"),
        Some("/libs/g/a/1/a-1.jar".to_string())
    );
}

#[test]
fn fills_processor_placeholders() {
    let data = vec![
        ("MAPPINGS".to_string(), "g:m:1@txt".to_string()),
        ("PATCHED".to_string(), "/abs/patched.jar".to_string()),
    ];
    assert_eq!(
        process_processor_placeholders("{SIDE}-{VERSION}-{MAPPINGS}-{PATCHED}", "1.20.1", "/libs", Some(&data)),
        "client-1.20.1-/libs/g/m/1/m-1.txt-/abs/patched.jar"
    );
    assert_eq!(process_processor_placeholders("plain", "1.20.1", "/libs", None), "plain");
}

#[test]
fn builds_processor_commands() {
    let cp = vec!["/a.jar".to_string(), "/b.jar".to_string()];
    let args = vec!["--side".to_string(), "{SIDE}".to_string()];
    assert_eq!(
        build_processor_command(&cp, "Main", Some(&args), "1.20.1", "/libs", None),
        vec![
            "-cp".to_string(),
            "/a.jar:/b.jar".to_string(),
            "Main".to_string(),
            "--side".to_string(),
            "client".to_string()
        ]
    );
}

#[test]
fn locates_processor_jars() {
    assert_eq!(
        processor_jar_candidate(Some("g.h:a:1"), "/libs"),
        Ok("/libs/g/h/a/1/a-1.jar".to_string())
    );
    assert_eq!(
        processor_jar_candidate(None, "/libs"),
        Err(CoreError::validation("processor jar is missing"))
    );
    assert_eq!(
        processor_jar_candidate(Some("bad"), "/libs"),
        Err(CoreError::validation("invalid processor maven coordinate: bad"))
    );
    assert_eq!(processor_classpath_entry("x/y.jar", "/libs"), "/libs/x/y.jar");
    assert_eq!(processor_classpath_entry("g:a:1", "/libs"), "/libs/g/a/1/a-1.jar");
}
