use scsl_core::error::CoreError;
use scsl_core::provision::{
    artifact_is_zip, check_server_directory, custom_jar_name, downloaded_jar_name, extension_of,
    extracted_server_jar, is_jar_file, precreated_directory_allowed,
};

fn v(items: &[&str]) -> Vec<String> {
    items.iter().map(|s| s.to_string()).collect()
}

#[test]
fn reads_path_extensions() {
    assert_eq!(extension_of("/a/b/server.JAR"), Some("JAR".to_string()));
    assert_eq!(extension_of("/a/b/archive.tar.gz"), Some("gz".to_string()));
    assert_eq!(extension_of("/a/.hidden"), None);
    assert_eq!(extension_of("/a/noext"), None);
    assert_eq!(extension_of("/a/trailing."), Some(String::new()));
    assert!(artifact_is_zip("/d/pack.ZiP"));
    assert!(!artifact_is_zip("/d/server.jar"));
    assert!(is_jar_file("mods/x.Jar"));
    assert!(!is_jar_file("mods/x.jar.disabled"));
}

#[test]
fn names_artifacts() {
    assert_eq!(downloaded_jar_name("/srv/paper-1.21.jar"), Ok("paper-1.21.jar".to_string()));
    assert_eq!(
        downloaded_jar_name("/"),
        Err(CoreError::runtime("downloaded artifact does not have a file name"))
    );
    assert_eq!(custom_jar_name("/home/me/custom.jar"), Ok("custom.jar".to_string()));
    assert_eq!(
        custom_jar_name(".."),
        Err(CoreError::validation("custom jar path does not have a file name"))
    );
}

#[test]
fn picks_the_first_extracted_jar() {
    assert_eq!(extracted_server_jar(&v(&["mods/b.jar", "a/server.jar", "libraries/x.jar"])), Ok("a/server.jar".to_string()));
    assert_eq!(
        extracted_server_jar(&Vec::new()),
        Err(CoreError::runtime("zip archive did not contain a server jar"))
    );
}

#[test]
fn allows_directories_holding_only_icons() {
    assert!(precreated_directory_allowed(&Vec::new()));
    assert!(precreated_directory_allowed(&v(&[".scsl-server-icon.png"])));
    assert!(!precreated_directory_allowed(&v(&[".scsl-server-icon.png", "world"])));
    assert_eq!(check_server_directory(false, &v(&["world"]), "dir"), Ok(()));
    assert_eq!(check_server_directory(true, &v(&[".scsl-server-icon.jpg"]), "dir"), Ok(()));
    assert_eq!(
        check_server_directory(true, &v(&["world"]), "dir"),
        Err(CoreError::validation("server directory already exists: dir"))
    );
}
