use scsl_core::saves::{
    archive_entry_relative, backup_entry_prefix, dat_server, is_hashed_resource,
    litematica_full_metadata, litematica_summary, nbt_payload, parse_server_host_and_port,
    server_address_entry, sort_by_path, zulu_prefix, LitematicaMetadataNbt, LitematicaSizeNbt,
    NbtNumber, ServerAddressEntry, ServerDatServer,
};
use scsl_core::error::CoreError;

fn v(items: &[&str]) -> Vec<String> {
    items.iter().map(|s| s.to_string()).collect()
}

#[test]
fn places_archive_entries_below_their_prefix() {
    let prefix = backup_entry_prefix("Survival");
    assert_eq!(prefix, "servers/Survival/");
    assert_eq!(archive_entry_relative("servers/Survival/world/level.dat", &prefix), Some("world/level.dat".to_string()));
    assert_eq!(archive_entry_relative("servers\\Survival\\eula.txt", &prefix), Some("eula.txt".to_string()));
    assert_eq!(archive_entry_relative("servers/Survival/", &prefix), None);
    assert_eq!(archive_entry_relative("servers/Creative/x", &prefix), None);
    assert_eq!(
        archive_entry_relative("servers/Survival/servers/Survival/x", &prefix),
        Some("x".to_string())
    );
}

#[test]
fn finds_the_zulu_runtime_folder() {
    let names = v(&[
        "readme.txt",
        "zulu21.30-ca-jre21.0.1-macosx_aarch64/",
        "zulu21.30-ca-jre21.0.1-macosx_aarch64/zulu-21.jre/Contents/Home/bin/java",
    ]);
    assert_eq!(zulu_prefix(&names), Some("zulu21.30-ca-jre21.0.1-macosx_aarch64/zulu-21.jre/".to_string()));
    assert_eq!(zulu_prefix(&v(&["a/b/c", "x.txt"])), None);
    assert_eq!(zulu_prefix(&v(&["\\zulu-17.jre\\bin"])), Some("zulu-17.jre/".to_string()));
}

#[test]
fn hashes_only_resource_archives() {
    assert!(is_hashed_resource("/mods/a.jar"));
    assert!(is_hashed_resource("/mods/a.ZIP"));
    assert!(is_hashed_resource("/mods/a.jar.disable"));
    assert!(!is_hashed_resource("/mods/readme.md"));
    assert!(!is_hashed_resource("/mods/noext"));
}

#[test]
fn sorts_resource_hashes_by_path() {
    let entries = vec![
        ("/m/b.jar".to_string(), "2".to_string()),
        ("/m/a.jar".to_string(), "1".to_string()),
        ("/m/c.jar".to_string(), "3".to_string()),
    ];
    let sorted = sort_by_path(entries);
    assert_eq!(
        sorted,
        vec![
            ("/m/a.jar".to_string(), "1".to_string()),
            ("/m/b.jar".to_string(), "2".to_string()),
            ("/m/c.jar".to_string(), "3".to_string()),
        ]
    );
    assert!(sort_by_path::<u8>(Vec::new()).is_empty());
}

#[test]
fn converts_the_servers_list() {
    let stored = ServerDatServer {
        name: "Home".to_string(),
        ip: "mc.example.com:25570".to_string(),
        hidden: 0,
        icon: Some("aWNvbg==".to_string()),
        prevents_chat_reports: 1,
    };
    let entry = server_address_entry(&stored);
    assert_eq!(entry.name, "Home");
    assert_eq!(entry.address, "mc.example.com");
    assert_eq!(entry.port, 25570);
    assert!(!entry.hidden);
    assert!(entry.accept_textures);
    assert_eq!(entry.icon, Some("aWNvbg==".to_string()));
    assert_eq!(entry.id.len(), 36);
    let back = dat_server(&entry);
    assert_eq!(back.ip, "mc.example.com:25570");
    assert_eq!(back.hidden, 0);
    assert_eq!(back.prevents_chat_reports, 1);

    let entry = ServerAddressEntry {
        id: "x".to_string(),
        name: "Lan".to_string(),
        address: "192.168.1.5".to_string(),
        port: 0,
        hidden: true,
        icon: Some("  ".to_string()),
        accept_textures: false,
    };
    let stored = dat_server(&entry);
    assert_eq!(stored.ip, "192.168.1.5");
    assert_eq!(stored.hidden, 1);
    assert_eq!(stored.icon, None);
    assert_eq!(stored.prevents_chat_reports, 0);
}

#[test]
fn stored_addresses_read_back() {
    let entry = ServerAddressEntry {
        id: String::new(),
        name: "v6".to_string(),
        address: "[::1]".to_string(),
        port: 25565,
        hidden: false,
        icon: None,
        accept_textures: false,
    };
    let stored = dat_server(&entry);
    assert_eq!(parse_server_host_and_port(&stored.ip), ("[::1]".to_string(), 25565));
}

#[test]
fn unpacks_gzip_nbt() {
    assert_eq!(nbt_payload(&[10, 0, 0, 0]), Ok(vec![10, 0, 0, 0]));
    // gzip of the bytes 0a 00 00 00
    let gz: [u8; 24] = [
        0x1f, 0x8b, 0x08, 0x00, 0x00, 0x00, 0x00, 0x00, 0x02, 0xff, 0xe3, 0x62, 0x60, 0x60, 0x00,
        0x00, 0x78, 0x3f, 0xf9, 0x4e, 0x04, 0x00, 0x00, 0x00,
    ];
    assert_eq!(nbt_payload(&gz), Ok(vec![10, 0, 0, 0]));
    let broken = nbt_payload(&[0x1f, 0x8b, 0x00]);
    match broken {
        Err(CoreError::Runtime(m)) => assert!(m.starts_with("failed to decompress nbt file: ")),
        other => panic!("unexpected {:?}", other),
    }
}

#[test]
fn describes_litematica_schematics() {
    let meta = LitematicaMetadataNbt {
        name: None,
        author: Some("Alex".to_string()),
        description: None,
        version: Some("6".to_string()),
        region_count: Some(NbtNumber::I32(2)),
        total_blocks: Some(NbtNumber::I64(4294967297)),
        time_created: Some(NbtNumber::I64(1700000000000)),
        time_modified: None,
        total_volume: Some(NbtNumber::I32(1000)),
        enclosing_size: Some(LitematicaSizeNbt { x: NbtNumber::I32(10), y: NbtNumber::I32(5), z: NbtNumber::I64(20) }),
    };
    let full = litematica_full_metadata(&meta, "/schematics/castle.litematic");
    assert_eq!(full.name, "castle");
    assert_eq!(full.author, "Alex");
    assert_eq!(full.description, "");
    assert_eq!(full.time_created, 1700000000000);
    assert_eq!(full.time_modified, 0);
    assert_eq!(full.total_volume, 1000);
    assert_eq!(full.total_blocks, 1);
    assert_eq!((full.enclosing_size.x, full.enclosing_size.y, full.enclosing_size.z), (10, 5, 20));
    assert_eq!(full.region_count, 2);
    let summary = litematica_summary(&meta);
    assert_eq!(summary.author, Some("Alex".to_string()));
    assert_eq!(summary.description, None);
    assert_eq!(summary.version, Some("6".to_string()));
    assert_eq!(summary.region_count, Some(2));
    assert_eq!(summary.total_blocks, Some(1));
}

#[test]
fn sorts_listed_server_files() {
    let entries = vec![
        ("world/level.dat".to_string(), (false, Some(120u64))),
        ("mods".to_string(), (true, None)),
        ("eula.txt".to_string(), (false, Some(10u64))),
    ];
    let sorted = sort_by_path(entries);
    let names: Vec<&str> = sorted.iter().map(|(p, _)| p.as_str()).collect();
    assert_eq!(names, vec!["eula.txt", "mods", "world/level.dat"]);
    assert_eq!(sorted[1].1, (true, None));
}
