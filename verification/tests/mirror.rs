use scsl_core::mirror::{
    custom_mirror_url, fastmirror_core_detail_url, fastmirror_core_name, fastmirror_server_type,
    normalize_fastmirror_base_url, normalize_polars_download_url, polars_core_items_url,
    unique_strings,
};
use scsl_core::model::ServerType;

#[test]
fn maps_fastmirror_core_names() {
    assert_eq!(fastmirror_core_name(ServerType::Paper), "Paper");
    assert_eq!(fastmirror_server_type("forge"), Some(ServerType::Forge));
    assert_eq!(fastmirror_server_type("custom"), None);
}

#[test]
fn normalizes_fastmirror_base_url() {
    assert_eq!(
        normalize_fastmirror_base_url(Some("https://mirror.example")),
        "https://mirror.example/api/v3"
    );
    assert_eq!(
        normalize_fastmirror_base_url(Some("https://mirror.example/api/v3/")),
        "https://mirror.example/api/v3"
    );
}

#[test]
fn builds_fastmirror_detail_url() {
    assert_eq!(
        fastmirror_core_detail_url(Some("https://mirror.example"), "Paper", "1.21.1", "123"),
        "https://mirror.example/api/v3/Paper/1.21.1/123"
    );
}

#[test]
fn normalizes_polars_urls() {
    assert_eq!(
        normalize_polars_download_url("http://example.com/server.jar"),
        "https://example.com/server.jar"
    );
    assert_eq!(
        polars_core_items_url(Some("https://mirror.example/root/"), 42),
        "https://mirror.example/root/42"
    );
}

#[test]
fn builds_custom_mirror_urls() {
    assert_eq!(
        custom_mirror_url(
            "https://mirror.example/api",
            "/cores/{core}/{mc_version}/{core_version}",
            "Paper",
            "1.21.1",
            "123"
        )
        .expect("url should build"),
        "https://mirror.example/api/cores/Paper/1.21.1/123"
    );
    assert_eq!(
        custom_mirror_url(
            "https://mirror.example/api",
            "https://cdn.example/{core}.jar",
            "Paper",
            "1.21.1",
            "123"
        )
        .expect("url should build"),
        "https://cdn.example/Paper.jar"
    );
}

#[test]
fn keeps_unique_strings_in_order() {
    assert_eq!(
        unique_strings(vec!["a".to_string(), "b".to_string(), "a".to_string()]),
        vec!["a".to_string(), "b".to_string()]
    );
}

#[test]
fn normalized_fastmirror_roots_are_stable() {
    for given in [None, Some(""), Some("https://Mirror.example/API/V3///"), Some("https://mirror.example/")] {
        let root = normalize_fastmirror_base_url(given);
        assert_eq!(normalize_fastmirror_base_url(Some(&root)), root);
        assert!(!root.ends_with('/'));
        assert!(root.to_lowercase().contains("/api/v3"));
    }
    assert_eq!(normalize_fastmirror_base_url(None), "https://download.fastmirror.net/api/v3");
    assert_eq!(normalize_fastmirror_base_url(Some("")), normalize_fastmirror_base_url(None));
}

#[test]
fn fastmirror_kinds_ignore_case() {
    for name in ["Vanilla", "PAPER", "fabric", "Forge", "Custom", "Spigot"] {
        assert_eq!(fastmirror_server_type(&name.to_lowercase()), fastmirror_server_type(name));
    }
    assert_eq!(fastmirror_server_type(fastmirror_core_name(ServerType::Custom)), None);
}

#[test]
fn unique_strings_keep_first_occurrences_in_order() {
    let given: Vec<String> = ["b", "a", "b", "c", "a"].iter().map(|s| s.to_string()).collect();
    assert_eq!(unique_strings(given), vec!["b".to_string(), "a".to_string(), "c".to_string()]);
}
