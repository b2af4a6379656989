use scsl_core::saves::{
    backup_server_name_from_path, build_stable_server_id, default_name_from_path,
    parse_server_host_and_port, uuid_bytes_to_string, NbtNumber,
};

#[test]
fn splits_hosts_and_ports() {
    assert_eq!(parse_server_host_and_port("mc.example.com:25566"), ("mc.example.com".to_string(), 25566));
    assert_eq!(parse_server_host_and_port("mc.example.com"), ("mc.example.com".to_string(), 0));
    assert_eq!(parse_server_host_and_port("host:0"), ("host:0".to_string(), 0));
    assert_eq!(parse_server_host_and_port("[::1]:x"), ("[::1]:x".to_string(), 0));
    assert_eq!(parse_server_host_and_port("a:b:7"), ("a:b".to_string(), 7));
}

#[test]
fn writes_uuids() {
    let bytes: [u8; 16] = [0x00, 0x11, 0x22, 0x33, 0x44, 0x55, 0x66, 0x77, 0x88, 0x99, 0xaa, 0xbb, 0xcc, 0xdd, 0xee, 0xff];
    assert_eq!(uuid_bytes_to_string(bytes), "00112233-4455-6677-8899-aabbccddeeff");
}

#[test]
fn derives_stable_server_ids() {
    assert_eq!(
        build_stable_server_id("My Server", "mc.example.com", 25565),
        "57e1a0fd-46a5-5ae5-9917-18a814526fd7"
    );
    assert_eq!(build_stable_server_id("Lobby", "127.0.0.1", 0), "8cf8ad0f-e6f9-51f9-9e11-f03b550e2421");
}

#[test]
fn converts_nbt_numbers() {
    assert_eq!(NbtNumber::I64(0x1_0000_0005).as_i32(), 5);
    assert_eq!(NbtNumber::I32(-7).as_i64(), -7);
    assert_eq!(NbtNumber::I32(9).as_i32(), 9);
}

#[test]
fn finds_server_names_in_backups() {
    assert_eq!(backup_server_name_from_path("./servers/Alpha/world/level.dat"), Some("Alpha".to_string()));
    assert_eq!(backup_server_name_from_path("././servers//Beta/"), Some("Beta".to_string()));
    assert_eq!(backup_server_name_from_path("servers/.hidden/x"), None);
    assert_eq!(backup_server_name_from_path("worlds/Alpha"), None);
    assert_eq!(backup_server_name_from_path("servers"), None);
}

#[test]
fn names_files_after_their_stem() {
    assert_eq!(default_name_from_path("/schematics/castle.litematic"), "castle");
    assert_eq!(default_name_from_path("/"), "");
}
