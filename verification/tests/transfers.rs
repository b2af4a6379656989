use scsl_core::download::{
    download_parent, download_temp_path, file_curl_args, integrity_java_path,
    jar_help_output_intact, resource_curl_args, sha1_from_shasum, sha1_to_check, verify_sha1,
};
use scsl_core::error::CoreError;
use scsl_core::inmemory::sample_local_server;

fn v(items: &[&str]) -> Vec<String> {
    items.iter().map(|s| s.to_string()).collect()
}

#[test]
fn checks_jars_with_the_servers_java() {
    let mut server = sample_local_server();
    server.java_path = "  /opt/java/bin/java ".to_string();
    assert_eq!(integrity_java_path(&server), "/opt/java/bin/java");
    server.java_path = "   ".to_string();
    assert_eq!(integrity_java_path(&server), "java");
}

#[test]
fn judges_jar_help_output() {
    assert!(jar_help_output_intact(b"usage: server [options]", b""));
    assert!(!jar_help_output_intact(b"", b"Error: Invalid or corrupt jarfile server.jar"));
    assert!(!jar_help_output_intact(b"INVALID OR CORRUPT JARFILE", b""));
}

#[test]
fn reads_shasum_output() {
    assert_eq!(
        sha1_from_shasum(true, b"da39a3ee5e6b4b0d3255bfef95601890afd80709  /tmp/f\n", b""),
        Ok("da39a3ee5e6b4b0d3255bfef95601890afd80709".to_string())
    );
    assert_eq!(
        sha1_from_shasum(true, b"  \n", b""),
        Err(CoreError::runtime("sha1 command returned empty output"))
    );
    assert_eq!(
        sha1_from_shasum(false, b"", b" shasum: /tmp/f: No such file \n"),
        Err(CoreError::runtime("shasum: /tmp/f: No such file"))
    );
}

#[test]
fn checks_download_destinations() {
    assert_eq!(download_parent("https://x/a.jar", "/srv/a.jar"), Ok("/srv".to_string()));
    assert_eq!(download_parent("ftp://x/a.jar", "/srv/a.jar"), Err(CoreError::validation("invalid download url")));
    assert_eq!(
        download_parent("https://x/a.jar", "/"),
        Err(CoreError::validation("download destination must have a parent directory"))
    );
}

#[test]
fn names_temporary_download_files() {
    assert_eq!(download_temp_path("/srv/server.jar"), "/srv/server.jar.download");
    assert_eq!(download_temp_path("/srv/server"), "/srv/server..download");
}

#[test]
fn builds_curl_arguments() {
    let headers = vec![("User-Agent".to_string(), "SCSL/1.0".to_string())];
    assert_eq!(
        resource_curl_args("/t.download", &headers, "https://x/y"),
        v(&["-L", "--fail", "--silent", "--show-error", "--output", "/t.download", "-H", "User-Agent: SCSL/1.0", "https://x/y"])
    );
    assert_eq!(
        file_curl_args("/t.download", &headers, "https://x/y"),
        v(&["-L", "--fail", "--silent", "--show-error", "-H", "User-Agent: SCSL/1.0", "--output", "/t.download", "https://x/y"])
    );
    assert_eq!(
        file_curl_args("/t", &Vec::new(), "https://x"),
        v(&["-L", "--fail", "--silent", "--show-error", "--output", "/t", "https://x"])
    );
}

#[test]
fn compares_checksums_without_case() {
    assert!(!sha1_to_check(None));
    assert!(!sha1_to_check(Some("  ")));
    assert!(sha1_to_check(Some("abc")));
    assert_eq!(verify_sha1(" ABCDEF ", "abcdef"), Ok(()));
    assert_eq!(
        verify_sha1("abc", "abd"),
        Err(CoreError::runtime("sha1 mismatch: expected abc, got abd"))
    );
}
