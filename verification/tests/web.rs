use scsl_core::web::{custom_url, download_file_name, modrinth_search_url, modrinth_version_matches, url_encode};

fn v(items: &[&str]) -> Vec<String> {
    items.iter().map(|s| s.to_string()).collect()
}

#[test]
fn percent_encodes_bytes() {
    assert_eq!(url_encode("a b/ü~"), "a%20b%2F%C3%BC~");
    assert_eq!(url_encode("AZaz09-_.~"), "AZaz09-_.~");
}

#[test]
fn builds_modrinth_search_urls() {
    assert_eq!(
        modrinth_search_url("relevance", 0, 500, &Some("sodium mod".to_string()), &Some("  ".to_string())),
        "https://api.modrinth.com/v2/search?index=relevance&offset=0&limit=100&query=sodium%20mod"
    );
    assert_eq!(
        modrinth_search_url("downloads", -5, 0, &None, &Some("[[\"x\"]]".to_string())),
        "https://api.modrinth.com/v2/search?index=downloads&offset=-5&limit=1&facets=%5B%5B%22x%22%5D%5D"
    );
}

#[test]
fn filters_modrinth_versions() {
    let games = v(&["1.20.1", "1.20.2"]);
    let loaders = v(&["fabric"]);
    assert!(modrinth_version_matches(&games, &loaders, &v(&["1.20.1"]), &v(&["fabric"]), "mod"));
    assert!(!modrinth_version_matches(&games, &loaders, &v(&["1.19"]), &v(&["fabric"]), "mod"));
    assert!(!modrinth_version_matches(&games, &loaders, &v(&[]), &v(&["forge"]), "mod"));
    assert!(modrinth_version_matches(&games, &loaders, &v(&[]), &v(&["forge"]), "shader"));
    assert!(!modrinth_version_matches(&games, &loaders, &v(&[]), &v(&["fabric"]), "datapack"));
    assert!(modrinth_version_matches(&games, &v(&["datapack"]), &v(&[]), &v(&[]), "datapack"));
    assert!(modrinth_version_matches(&games, &loaders, &v(&[]), &v(&[]), "mod"));
}

#[test]
fn names_downloads_after_their_address() {
    assert_eq!(download_file_name("https://x/y/server-1.jar"), "server-1.jar");
    assert_eq!(download_file_name("https://x/y/"), "server.jar");
    assert_eq!(download_file_name("plain.jar"), "plain.jar");
}

#[test]
fn resolves_custom_mirror_templates() {
    assert_eq!(
        custom_url("https://m.example", "/{core}/{mc_version}", "Paper", "1.21", "1").expect("url should build"),
        "https://m.example/Paper/1.21"
    );
}
