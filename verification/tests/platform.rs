use scsl_core::error::CoreError;
use scsl_core::http::AppState;
use scsl_core::store::{
    env_path, optional_env_path, platform_app_data_dir, platform_paths, resolve_app_paths,
    HostPlatform, LocalAppServerStore, PlatformEnv,
};

fn env(home: Option<&str>, appdata: Option<&str>, local: Option<&str>, xdg: Option<&str>) -> PlatformEnv {
    PlatformEnv {
        home: home.map(|s| s.to_string()),
        appdata: appdata.map(|s| s.to_string()),
        local_appdata: local.map(|s| s.to_string()),
        xdg_data_home: xdg.map(|s| s.to_string()),
    }
}

#[test]
fn places_data_per_platform() {
    assert_eq!(
        platform_app_data_dir(HostPlatform::MacOs, &env(Some("/Users/a"), None, None, None)),
        Ok("/Users/a/Library/Application Support/SwiftCraftServerLauncher".to_string())
    );
    assert_eq!(
        platform_app_data_dir(HostPlatform::Other, &env(Some("/home/a"), None, None, Some("/xdg"))),
        Ok("/xdg/SwiftCraftServerLauncher".to_string())
    );
    assert_eq!(
        platform_app_data_dir(HostPlatform::Other, &env(Some("/home/a"), None, None, Some(""))),
        Ok("/home/a/.local/share/SwiftCraftServerLauncher".to_string())
    );
    assert_eq!(
        platform_app_data_dir(HostPlatform::Windows, &env(None, None, Some("L"), None)),
        Ok("L/SwiftCraftServerLauncher".to_string())
    );
    assert_eq!(
        platform_app_data_dir(HostPlatform::Windows, &env(None, Some(""), None, None)),
        Err(CoreError::storage("failed to resolve Windows app data directory"))
    );
    assert_eq!(
        platform_app_data_dir(HostPlatform::Other, &env(None, None, None, None)),
        Err(CoreError::storage("failed to resolve required environment variable: HOME"))
    );
}

#[test]
fn reads_required_variables() {
    assert_eq!(optional_env_path(&Some(String::new())), None);
    assert_eq!(env_path("HOME", &Some("/h".to_string())), Ok("/h".to_string()));
    assert_eq!(
        env_path("X", &None),
        Err(CoreError::storage("failed to resolve required environment variable: X"))
    );
}

#[test]
fn chooses_database_and_working_paths() {
    let paths = platform_paths(HostPlatform::Other, &env(Some("/h"), None, None, None)).expect("paths should resolve");
    assert_eq!(paths.db_path, "/h/.local/share/SwiftCraftServerLauncher/data/data.db");
    let store = LocalAppServerStore::new("/d.db", "/w");
    let chosen = resolve_app_paths(None, None, Some("  ".to_string()), &store);
    assert_eq!((chosen.db_path.as_str(), chosen.working_path.as_str()), ("/d.db", "/w"));
    let chosen = resolve_app_paths(Some("/x.db".to_string()), None, Some("/saved".to_string()), &store);
    assert_eq!((chosen.db_path.as_str(), chosen.working_path.as_str()), ("/x.db", "/saved"));
    let chosen = resolve_app_paths(None, Some("/given".to_string()), Some("/saved".to_string()), &store);
    assert_eq!(chosen.working_path, "/given");
    let state = AppState::for_platform(HostPlatform::Other, &env(Some("/h"), None, None, None)).expect("state should resolve");
    assert_eq!(state.working_path, "/h/.local/share/SwiftCraftServerLauncher");
}
