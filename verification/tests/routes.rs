use scsl_core::error::CoreError;
use scsl_core::mirror::{fastmirror_core_versions_url, fastmirror_game_versions_url};
use scsl_core::versions::{download_route, paper_server_download, DownloadRoute, PaperBuild, PaperDownload, PAPER_USER_AGENT};

fn build(channel: &str, downloads: Vec<(&str, &str, &str)>) -> PaperBuild {
    PaperBuild {
        channel: channel.to_string(),
        downloads: downloads
            .into_iter()
            .map(|(k, n, u)| (k.to_string(), PaperDownload { name: n.to_string(), url: u.to_string() }))
            .collect(),
    }
}

#[test]
fn routes_mirror_sources() {
    assert!(download_route(" FastMirror ") == Ok(DownloadRoute::FastMirror));
    assert!(download_route("polars") == Ok(DownloadRoute::Direct));
    assert!(download_route("custom") == Ok(DownloadRoute::Direct));
    assert!(download_route("official") == Ok(DownloadRoute::Official));
    assert!(download_route("   ") == Ok(DownloadRoute::Official));
    assert!(download_route("MCSL") == Err(CoreError::validation("unsupported mirror source: mcsl")));
}

#[test]
fn picks_the_first_stable_paper_build() {
    let builds = vec![
        build("experimental", vec![("server:default", "exp.jar", "https://x/exp.jar")]),
        build("STABLE", vec![("mojang-mappings", "m.jar", "https://x/m.jar"), ("server:default", "paper-1.jar", "https://x/paper-1.jar")]),
        build("stable", vec![("server:default", "paper-0.jar", "https://x/paper-0.jar")]),
    ];
    assert_eq!(
        paper_server_download(&builds),
        Ok(("paper-1.jar".to_string(), "https://x/paper-1.jar".to_string()))
    );
    assert_eq!(
        paper_server_download(&vec![build("beta", vec![])]),
        Err(CoreError::runtime("paper stable build not found"))
    );
    assert_eq!(
        paper_server_download(&vec![build("stable", vec![("other", "o", "u")])]),
        Err(CoreError::runtime("paper server download not found"))
    );
    assert_eq!(PAPER_USER_AGENT, "SwiftCraftServerLauncher/1.0");
}

#[test]
fn builds_fastmirror_listing_urls() {
    assert_eq!(
        fastmirror_game_versions_url(None, " Paper "),
        "https://download.fastmirror.net/api/v3/Paper"
    );
    assert_eq!(
        fastmirror_core_versions_url(Some("https://m.example/"), "Paper", " 1.21 "),
        "https://m.example/api/v3/Paper/1.21?offset=0&limit=25"
    );
}
