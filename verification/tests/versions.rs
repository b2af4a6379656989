use scsl_core::error::CoreError;
use scsl_core::model::ServerType;
use scsl_core::registry::Registry;
use scsl_core::versions::{
    fabric_game_versions, fastmirror_core, forge_game_versions, forge_loader_versions,
    game_version_catalogue, latest_forge_loader, loader_kind, mojang_game_versions,
    pick_stable_version, text_less, version_manifest_url, GameVersionCatalogue, LoaderKind,
};

fn v(items: &[&str]) -> Vec<String> {
    items.iter().map(|s| s.to_string()).collect()
}

#[test]
fn picks_catalogues_by_server_type() {
    assert!(game_version_catalogue(" Paper ") == Ok(GameVersionCatalogue::Mojang));
    assert!(game_version_catalogue("FABRIC") == Ok(GameVersionCatalogue::Fabric));
    assert!(game_version_catalogue("forge") == Ok(GameVersionCatalogue::Forge));
    assert!(
        game_version_catalogue(" Bukkit ")
            == Err(CoreError::validation("game versions are unsupported for server type: bukkit"))
    );
    assert!(loader_kind("Forge", "loader versions are") == Ok(LoaderKind::Forge));
    assert!(
        loader_kind("paper", "latest loader is")
            == Err(CoreError::validation("latest loader is unsupported for server type: paper"))
    );
}

#[test]
fn filters_release_and_stable_versions() {
    let ids = v(&["1.21", "24w10a", "1.20"]);
    let kinds = v(&["release", "snapshot", "release"]);
    assert_eq!(mojang_game_versions(&ids, &kinds, false), v(&["1.21", "1.20"]));
    assert_eq!(mojang_game_versions(&ids, &kinds, true), ids);
    assert_eq!(fabric_game_versions(&ids, &vec![false, true, false], false), v(&["24w10a"]));
}

#[test]
fn picks_loaders() {
    assert_eq!(pick_stable_version(&v(&["0.2", "0.1"]), &vec![false, true], "none"), Ok("0.1".to_string()));
    assert_eq!(pick_stable_version(&v(&["0.2", "0.1"]), &vec![false, false], "none"), Ok("0.2".to_string()));
    assert_eq!(pick_stable_version(&v(&[]), &vec![], "none"), Err(CoreError::runtime("none")));
    let mut promos: Registry<String> = Registry::new();
    promos.insert("1.20.1-latest".to_string(), "47.4.1".to_string());
    assert_eq!(latest_forge_loader(&promos, "1.20.1"), Ok("47.4.1".to_string()));
    promos.insert("1.20.1-recommended".to_string(), "47.4.0".to_string());
    assert_eq!(latest_forge_loader(&promos, "1.20.1"), Ok("47.4.0".to_string()));
    assert_eq!(latest_forge_loader(&promos, "1.19"), Err(CoreError::runtime("forge loader version not found")));
}

#[test]
fn finds_versions_in_manifests() {
    let ids = v(&["1.20", "1.21"]);
    let loaders = vec![v(&["a"]), v(&["b", "c"])];
    assert_eq!(forge_loader_versions(&ids, &loaders, "1.21"), Ok(v(&["b", "c"])));
    assert_eq!(
        forge_loader_versions(&ids, &loaders, "1.9"),
        Err(CoreError::runtime("forge loader versions not found for 1.9"))
    );
    assert_eq!(version_manifest_url(&ids, &v(&["u0", "u1"]), "1.20"), Ok("u0".to_string()));
    assert_eq!(
        version_manifest_url(&ids, &v(&["u0", "u1"]), "2"),
        Err(CoreError::runtime("minecraft version not found: 2"))
    );
}

#[test]
fn orders_forge_versions_newest_first() {
    let keys = v(&["1.19.2-latest", "1.20.1-latest", "1.20.1-recommended", "misc", "1.9-latest-latest"]);
    assert_eq!(forge_game_versions(&keys), v(&["1.9", "1.20.1", "1.19.2"]));
    assert!(text_less("1.10", "1.9"));
    assert!(!text_less("b", "a"));
    assert!(text_less("a", "ab"));
}

#[test]
fn chooses_fastmirror_cores() {
    assert_eq!(fastmirror_core(ServerType::Paper, "1", None), Ok("Paper".to_string()));
    assert_eq!(fastmirror_core(ServerType::Paper, "1", Some("  Folia ")), Ok("Folia".to_string()));
    assert_eq!(
        fastmirror_core(ServerType::Custom, "1", None),
        Err(CoreError::validation("custom jar does not have a download target"))
    );
    assert_eq!(
        fastmirror_core(ServerType::Forge, " ", None),
        Err(CoreError::validation("loader version cannot be empty"))
    );
}
