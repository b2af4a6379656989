use scsl_core::payload::parse_headers_json;
use scsl_core::payload::string_list_json;
use scsl_core::payload::properties_from_json;
use scsl_core::payload::{dependency_source, DependencyRef, DependencySource};
use scsl_core::error::CoreError;
use scsl_core::payload::{
    custom_bool, custom_core_versions, custom_cores, custom_detail, custom_game_versions,
    custom_resolve_value, custom_root, custom_string, custom_string_array, get,
    modrinth_json_version_matches, release_version_positions, required_dependencies,
    string_list, JsonNumber, JsonValue,
};

fn text(s: &str) -> JsonValue {
    JsonValue::Text(s.to_string())
}

fn number(n: i64) -> JsonValue {
    JsonValue::Number(JsonNumber { text: n.to_string(), integer: Some(n) })
}

fn obj(members: Vec<(&str, JsonValue)>) -> JsonValue {
    JsonValue::Object(members.into_iter().map(|(k, v)| (k.to_string(), v)).collect())
}

fn members(v: &JsonValue) -> &Vec<(String, JsonValue)> {
    match v {
        JsonValue::Object(m) => m,
        _ => panic!("not an object"),
    }
}

fn is_text(v: Option<&JsonValue>, expected: &str) -> bool {
    matches!(v, Some(JsonValue::Text(s)) if s == expected)
}

#[test]
fn resolves_dotted_key_paths() {
    let root = obj(vec![(
        "data",
        obj(vec![("items", JsonValue::Array(vec![text("a"), obj(vec![("name", text("b"))])]))]),
    )]);
    assert!(is_text(custom_resolve_value(&root, "data.items.0"), "a"));
    assert!(is_text(custom_resolve_value(&root, "data.items.1.name"), "b"));
    assert!(custom_resolve_value(&root, "data.items.2").is_none());
    assert!(custom_resolve_value(&root, "data.missing").is_none());
    assert!(matches!(custom_resolve_value(&root, "  "), Some(JsonValue::Object(_))));
    // an index does not look up an object member
    let keyed = obj(vec![("0", text("zero"))]);
    assert!(custom_resolve_value(&keyed, "0").is_none());
}

#[test]
fn unwraps_data_when_configured() {
    let payload = obj(vec![("data", text("inner"))]);
    assert!(matches!(custom_root(&payload, true), JsonValue::Text(s) if s == "inner"));
    assert!(matches!(custom_root(&payload, false), JsonValue::Object(_)));
    let bare = text("x");
    assert!(matches!(custom_root(&bare, true), JsonValue::Text(s) if s == "x"));
    assert!(is_text(get(&payload, "data"), "inner"));
}

#[test]
fn reads_members_as_text_and_flags() {
    let dict = obj(vec![
        ("s", text("hello")),
        ("n", number(42)),
        ("b", JsonValue::Bool(true)),
        ("z", JsonValue::Null),
        ("yes", text("yes")),
        ("big", JsonValue::Number(JsonNumber { text: "1.5".to_string(), integer: None })),
    ]);
    let m = members(&dict);
    assert_eq!(custom_string(m, "s"), "hello");
    assert_eq!(custom_string(m, "n"), "42");
    assert_eq!(custom_string(m, "b"), "true");
    assert_eq!(custom_string(m, "z"), "");
    assert_eq!(custom_string(m, "missing"), "");
    assert!(custom_bool(m, "b"));
    assert!(custom_bool(m, "n"));
    assert!(custom_bool(m, "yes"));
    assert!(!custom_bool(m, "s"));
    assert!(!custom_bool(m, "big"));
    assert!(!custom_bool(m, "z"));
}

#[test]
fn reads_arrays_of_versions() {
    let versions = JsonValue::Array(vec![text("1.21"), number(120), JsonValue::Bool(false), text("1.20")]);
    assert_eq!(
        custom_string_array(&versions),
        Ok(vec!["1.21".to_string(), "120".to_string(), "1.20".to_string()])
    );
    assert_eq!(
        custom_string_array(&text("nope")),
        Err(CoreError::runtime("custom mirror versions payload is not an array"))
    );
    let root = obj(vec![("versions", versions)]);
    assert_eq!(custom_game_versions(&root, "versions").unwrap().len(), 3);
    assert_eq!(
        custom_game_versions(&root, "other"),
        Err(CoreError::runtime("custom mirror versions payload is missing"))
    );
}

#[test]
fn lists_the_cores_of_a_custom_mirror() {
    let root = obj(vec![(
        "cores",
        JsonValue::Array(vec![
            obj(vec![("name", text("Paper")), ("tag", text("server")), ("recommend", number(1))]),
            obj(vec![("name", text("")), ("tag", text("skip"))]),
            text("not an object"),
            obj(vec![("name", text("Vanilla")), ("tag", text(""))]),
        ]),
    )]);
    let cores = custom_cores(&root, "cores", "name", "tag", "recommend").unwrap();
    assert_eq!(cores.len(), 2);
    assert_eq!(cores[0].name, "Paper");
    assert_eq!(cores[0].tag, Some("server".to_string()));
    assert!(cores[0].recommend);
    assert_eq!(cores[1].name, "Vanilla");
    assert_eq!(cores[1].tag, None);
    assert!(!cores[1].recommend);
    assert!(cores[1].homepage.is_none() && cores[1].mc_versions.is_none());
    // a missing path falls back to the reply itself, which is no array here
    assert_eq!(
        custom_cores(&root, "missing", "name", "tag", "recommend").err(),
        Some(CoreError::runtime("custom mirror cores payload is not an array"))
    );
}

#[test]
fn lists_core_versions_without_repetition() {
    let root = obj(vec![(
        "builds",
        JsonValue::Array(vec![
            obj(vec![("v", text("b2"))]),
            obj(vec![("v", text("b1"))]),
            obj(vec![("v", text("b2"))]),
            obj(vec![("v", text(""))]),
        ]),
    )]);
    assert_eq!(custom_core_versions(&root, "builds", "v"), Ok(vec!["b2".to_string(), "b1".to_string()]));
    assert_eq!(
        custom_core_versions(&root, "nothing", "v"),
        Err(CoreError::runtime("custom mirror builds payload is missing"))
    );
    let flat = obj(vec![("builds", text("x"))]);
    assert_eq!(
        custom_core_versions(&flat, "builds", "v"),
        Err(CoreError::runtime("custom mirror builds payload is not an array"))
    );
}

#[test]
fn reads_a_build_detail() {
    let root = obj(vec![("url", text("https://x/a.jar")), ("file", text("a.jar")), ("sha1", text(""))]);
    let detail = custom_detail(&root, "url", "file", "sha1").unwrap();
    assert_eq!(detail.download_url, "https://x/a.jar");
    assert_eq!(detail.filename, "a.jar");
    assert_eq!(detail.sha1, None);
    let partial = obj(vec![("url", text("https://x/a.jar"))]);
    assert_eq!(
        custom_detail(&partial, "url", "file", "sha1").err(),
        Some(CoreError::runtime("custom mirror detail payload is missing download url or filename"))
    );
    assert_eq!(
        custom_detail(&text("x"), "url", "file", "sha1").err(),
        Some(CoreError::runtime("custom mirror detail payload is not an object"))
    );
}

#[test]
fn keeps_release_game_versions() {
    let payload = JsonValue::Array(vec![
        obj(vec![("version", text("24w10a")), ("version_type", text("snapshot"))]),
        obj(vec![("version", text("1.20.4")), ("version_type", text("release"))]),
        obj(vec![("version", text("1.20.3"))]),
        obj(vec![("version", text("1.20.2")), ("version_type", text("release"))]),
    ]);
    assert_eq!(release_version_positions(&payload), vec![1, 3]);
    assert_eq!(release_version_positions(&text("x")), Vec::<usize>::new());
}

#[test]
fn matches_modrinth_versions_from_json() {
    let version = obj(vec![
        ("game_versions", JsonValue::Array(vec![text("1.20.1"), number(5)])),
        ("loaders", JsonValue::Array(vec![text("fabric")])),
    ]);
    assert_eq!(string_list(&version, "game_versions"), vec!["1.20.1".to_string()]);
    let selected = vec!["1.20.1".to_string()];
    assert!(modrinth_json_version_matches(&version, &selected, &vec!["fabric".to_string()], "mod"));
    assert!(!modrinth_json_version_matches(&version, &selected, &vec!["forge".to_string()], "mod"));
    assert!(modrinth_json_version_matches(&version, &selected, &vec!["forge".to_string()], "shader"));
}

#[test]
fn lists_required_dependencies() {
    let version = obj(vec![(
        "dependencies",
        JsonValue::Array(vec![
            obj(vec![("dependency_type", text("required")), ("project_id", text("P1"))]),
            obj(vec![("dependency_type", text("optional")), ("project_id", text("P2"))]),
            obj(vec![
                ("dependency_type", text("required")),
                ("project_id", text("P3")),
                ("version_id", text("V3")),
            ]),
            obj(vec![("dependency_type", text("required"))]),
        ]),
    )]);
    let deps = required_dependencies(&version);
    assert_eq!(deps.len(), 2);
    assert_eq!(deps[0].project_id, "P1");
    assert_eq!(deps[0].version_id, None);
    assert_eq!(deps[1].project_id, "P3");
    assert_eq!(deps[1].version_id, Some("V3".to_string()));
    assert!(required_dependencies(&text("x")).is_empty());
}

#[test]
fn reads_header_json() {
    assert_eq!(parse_headers_json(None), Ok(vec![]));
    assert_eq!(parse_headers_json(Some("  ")), Ok(vec![]));
    assert_eq!(
        parse_headers_json(Some(r#"{"User-Agent":"x","Accept":"y"}"#)),
        Ok(vec![("Accept".to_string(), "y".to_string()), ("User-Agent".to_string(), "x".to_string())])
    );
    match parse_headers_json(Some("[1]")) {
        Err(scsl_core::error::CoreError::Validation(m)) => assert!(m.starts_with("invalid headers json: ")),
        other => panic!("unexpected {other:?}"),
    }
}

#[test]
fn reads_string_list_json() {
    assert_eq!(string_list_json(r#"["1.20.1","1.21"]"#, "selected versions"), Ok(vec!["1.20.1".to_string(), "1.21".to_string()]));
    match string_list_json("{}", "selected loaders") {
        Err(scsl_core::error::CoreError::Validation(m)) => assert!(m.starts_with("invalid selected loaders json: ")),
        other => panic!("unexpected {other:?}"),
    }
}

#[test]
fn reads_properties_json() {
    let props = properties_from_json(r#"{"motd":"Hello","max-players":20,"level-seed":null,"online-mode":false}"#)
        .expect("an object");
    let mut entries = props.entries.clone();
    entries.sort();
    assert_eq!(
        entries,
        vec![
            ("level-seed".to_string(), String::new()),
            ("max-players".to_string(), "20".to_string()),
            ("motd".to_string(), "Hello".to_string()),
            ("online-mode".to_string(), "false".to_string()),
        ]
    );
    assert_eq!(
        properties_from_json("[1]").map(|r| r.entries),
        Err(scsl_core::error::CoreError::validation("properties json must be an object"))
    );
    assert!(matches!(properties_from_json("{"), Err(scsl_core::error::CoreError::Validation(_))));
}

#[test]
fn finds_dependencies_by_version_or_project() {
    let by_version = DependencyRef { project_id: "p".to_string(), version_id: Some("v".to_string()) };
    assert!(matches!(dependency_source(&by_version), DependencySource::Version(u) if u == "https://api.modrinth.com/v2/version/v"));
    let by_project = DependencyRef { project_id: "p".to_string(), version_id: None };
    assert!(matches!(dependency_source(&by_project), DependencySource::FirstMatchingVersion(u) if u == "https://api.modrinth.com/v2/project/p/version"));
}
