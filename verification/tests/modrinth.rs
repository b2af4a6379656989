use scsl_core::cli_args::{
    ModrinthCommand, ModrinthGameVersionsArgs, ModrinthIdArgs, ModrinthLoaderNameArgs,
    ModrinthLoaderProfileArgs, ModrinthMinecraftVersionArgs,
};
use scsl_core::web::{launcher_meta_url, modrinth_request, project_versions_url, version_url, ModrinthRequest};

fn fetched(r: ModrinthRequest) -> String {
    match r {
        ModrinthRequest::Fetch(u) => u,
        _ => panic!("not a plain fetch"),
    }
}

#[test]
fn addresses_modrinth_commands() {
    assert_eq!(
        fetched(modrinth_request(&ModrinthCommand::Project(ModrinthIdArgs { id: "sodium".to_string() }))),
        "https://api.modrinth.com/v2/project/sodium"
    );
    assert_eq!(
        fetched(modrinth_request(&ModrinthCommand::VersionInfo(ModrinthMinecraftVersionArgs { version: "1.21".to_string() }))),
        "https://launcher-meta.modrinth.com/minecraft/v0/versions/1.21.json"
    );
    assert_eq!(
        fetched(modrinth_request(&ModrinthCommand::LoaderManifest(ModrinthLoaderNameArgs { loader: "fabric".to_string() }))),
        launcher_meta_url("fabric", "manifest")
    );
    assert_eq!(
        fetched(modrinth_request(&ModrinthCommand::LoaderProfile(ModrinthLoaderProfileArgs {
            loader: "forge".to_string(),
            version: "1.20.1-47.2.0".to_string(),
        }))),
        "https://launcher-meta.modrinth.com/forge/v0/versions/1.20.1-47.2.0.json"
    );
    assert_eq!(fetched(modrinth_request(&ModrinthCommand::Loaders)), "https://api.modrinth.com/v2/tag/loader");
    assert_eq!(fetched(modrinth_request(&ModrinthCommand::Categories)), "https://api.modrinth.com/v2/tag/category");
    match modrinth_request(&ModrinthCommand::GameVersions(ModrinthGameVersionsArgs { include_snapshots: false })) {
        ModrinthRequest::GameVersions(u, s) => {
            assert_eq!(u, "https://api.modrinth.com/v2/tag/game_version");
            assert!(!s);
        },
        _ => panic!("expected a game-version request"),
    }
    assert_eq!(project_versions_url("abc"), "https://api.modrinth.com/v2/project/abc/version");
    assert_eq!(version_url("V1"), "https://api.modrinth.com/v2/version/V1");
}
