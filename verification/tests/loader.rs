use scsl_core::error::CoreError;
use scsl_core::game::{
    build_loader_classpath, main_class_from_manifest, process_loader_placeholders,
    processor_failure, LoaderLibrary,
};

fn lib(name: Option<&str>, in_classpath: bool, artifact: Option<&str>) -> LoaderLibrary {
    LoaderLibrary {
        name: name.map(|s| s.to_string()),
        include_in_classpath: in_classpath,
        artifact_path: artifact.map(|s| s.to_string()),
    }
}

#[test]
fn builds_loader_classpaths() {
    let libs = vec![
        lib(Some("net.fabricmc:fabric-loader:0.15.11"), true, Some("net/fabricmc/loader.jar")),
        lib(Some("bad"), true, None),
        lib(None, false, Some("skipped.jar")),
        lib(Some("org.ow2.asm:asm:9.6"), false, Some("asm.jar")),
    ];
    assert_eq!(
        build_loader_classpath(Some(&libs), "/libs", false),
        Ok("/libs/net/fabricmc/fabric-loader/0.15.11/fabric-loader-0.15.11.jar:/libs/org/ow2/asm/asm/9.6/asm-9.6.jar".to_string())
    );
    assert_eq!(
        build_loader_classpath(Some(&libs), "/libs", true),
        Ok("/libs/net/fabricmc/loader.jar".to_string())
    );
    assert_eq!(build_loader_classpath(Some(&Vec::new()), "/libs", false), Ok(String::new()));
    assert_eq!(
        build_loader_classpath(None, "/libs", false),
        Err(CoreError::validation("loader json must contain libraries array"))
    );
}

#[test]
fn fills_the_game_version_into_library_names() {
    let names = vec![Some("net.minecraft:server:${modrinth.gameVersion}".to_string()), None];
    assert_eq!(
        process_loader_placeholders(Some(&names), "1.20.1"),
        Ok(vec![Some("net.minecraft:server:1.20.1".to_string()), None])
    );
    assert_eq!(
        process_loader_placeholders(None, "1.20.1"),
        Err(CoreError::validation("loader json must contain libraries array"))
    );
}

#[test]
fn reads_the_main_class_of_a_manifest() {
    assert_eq!(
        main_class_from_manifest("Manifest-Version: 1.0\r\n  Main-Class:  net.minecraftforge.Installer \r\n"),
        Ok("net.minecraftforge.Installer".to_string())
    );
    assert_eq!(
        main_class_from_manifest("Manifest-Version: 1.0\n"),
        Err(CoreError::runtime("processor manifest missing Main-Class"))
    );
}

#[test]
fn reports_failed_processors() {
    assert_eq!(
        processor_failure(Some(2), b" out \n", b""),
        CoreError::runtime("processor execution failed (exit code 2): out")
    );
    assert_eq!(
        processor_failure(None, b"", b"boom"),
        CoreError::runtime("processor execution failed (exit code -1): boom")
    );
    assert_eq!(
        processor_failure(Some(1), b"a", b"b"),
        CoreError::runtime("processor execution failed (exit code 1): a\nb")
    );
}
