use scsl_core::download::{
    fabric_server_jar_target, forge_installer_target, java_component_for_major,
    mirror_direct_target, ResourceDownloadPlanner, ResourceType,
};
use std::path::PathBuf;

#[test]
fn builds_mirror_direct_target() {
    let target = mirror_direct_target("server.jar", "https://example.com/server.jar")
        .expect("target should build");

    assert_eq!(target.file_name, "server.jar");
    assert_eq!(target.url, "https://example.com/server.jar");
    assert!(target.sha1.is_none());
}

#[test]
fn rejects_invalid_mirror_direct_target() {
    assert!(mirror_direct_target("", "https://example.com/server.jar").is_err());
    assert!(mirror_direct_target("server.jar", "not-a-url").is_err());
}

#[test]
fn builds_forge_installer_target() {
    let target = forge_installer_target("1.20.1", "47.4.0").expect("target should build");

    assert_eq!(target.file_name, "forge-1.20.1-47.4.0-installer.jar");
    assert_eq!(
        target.url,
        "https://maven.minecraftforge.net/net/minecraftforge/forge/1.20.1-47.4.0/forge-1.20.1-47.4.0-installer.jar"
    );
}

#[test]
fn builds_fabric_server_jar_target() {
    let target =
        fabric_server_jar_target("1.21.1", "0.16.10", "1.0.1").expect("target should build");

    assert_eq!(target.file_name, "fabric-server-1.21.1-0.16.10.jar");
    assert_eq!(
        target.url,
        "https://meta.fabricmc.net/v2/versions/loader/1.21.1/0.16.10/1.0.1/server/jar"
    );
}

#[test]
fn maps_java_components() {
    assert_eq!(java_component_for_major(21), Some("java-runtime-delta"));
    assert_eq!(java_component_for_major(25), Some("java-runtime-epsilon"));
    assert_eq!(java_component_for_major(99), None);
}

#[test]
fn resolves_mod_resource_destination() {
    let planner = ResourceDownloadPlanner::new("/tmp/scsl");
    let path = planner
        .resource_destination("Demo", ResourceType::Mod, "fabric-api.jar")
        .expect("path should resolve");

    assert_eq!(
        PathBuf::from(path),
        PathBuf::from("/tmp/scsl/profiles/Demo/mods/fabric-api.jar")
    );
}

#[test]
fn routes_resourcepack_jars_to_mods_like_swift_app() {
    let planner = ResourceDownloadPlanner::new("/tmp/scsl");
    let path = planner
        .resource_destination("Demo", ResourceType::Resourcepack, "optifine.jar")
        .expect("path should resolve");

    assert_eq!(
        PathBuf::from(path),
        PathBuf::from("/tmp/scsl/profiles/Demo/mods/optifine.jar")
    );
}
