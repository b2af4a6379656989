use scsl_core::store::{app_name, platform_app_data_dir, HostPlatform, LocalAppServerStore, PlatformEnv};
use std::path::PathBuf;

fn linux_env() -> PlatformEnv {
    PlatformEnv {
        home: Some("/home/tester".to_string()),
        appdata: None,
        local_appdata: None,
        xdg_data_home: None,
    }
}

#[test]
fn current_platform_paths_match_app_convention() {
    let env = linux_env();
    let store =
        LocalAppServerStore::for_platform(HostPlatform::Other, &env).expect("store should resolve");
    let app_dir = platform_app_data_dir(HostPlatform::Other, &env).expect("app dir should resolve");
    assert_eq!(
        PathBuf::from(store.db_path()),
        PathBuf::from(&app_dir).join("data").join("data.db")
    );
    assert_eq!(store.working_path(), app_dir);
    assert!(store.working_path().contains(app_name()));
}
