use scsl_core::error::CoreError;
use scsl_core::inmemory::sample_local_server;
use scsl_core::rcon::{
    decode_rcon_payload, encode_rcon_packet, rcon_auth_outcome, rcon_auth_packet,
    rcon_command_outcome, rcon_command_packet, rcon_endpoint, rcon_payload_length, RconPacket,
};
use scsl_core::registry::Registry;

#[test]
fn encodes_a_login_packet() {
    assert_eq!(
        encode_rcon_packet(101, 3, "pw"),
        vec![12, 0, 0, 0, 101, 0, 0, 0, 3, 0, 0, 0, b'p', b'w', 0, 0]
    );
    assert_eq!(rcon_auth_packet("pw"), encode_rcon_packet(101, 3, "pw"));
    assert_eq!(rcon_command_packet("list"), encode_rcon_packet(102, 2, "list"));
}

#[test]
fn encodes_negative_ids_in_twos_complement() {
    let bytes = encode_rcon_packet(-1, 2, "");
    assert_eq!(bytes, vec![10, 0, 0, 0, 255, 255, 255, 255, 2, 0, 0, 0, 0, 0]);
}

#[test]
fn reads_back_what_was_sent() {
    let bytes = encode_rcon_packet(102, 2, "say héllo");
    let length = rcon_payload_length([bytes[0], bytes[1], bytes[2], bytes[3]]).unwrap();
    assert_eq!(length, bytes.len() - 4);
    let packet = decode_rcon_payload(&bytes[4..]);
    assert_eq!(packet.request_id, 102);
    assert_eq!(packet.body, "say héllo");
}

#[test]
fn refuses_short_or_negative_lengths() {
    assert_eq!(
        rcon_payload_length([9, 0, 0, 0]),
        Err(CoreError::runtime("invalid rcon packet length"))
    );
    assert_eq!(
        rcon_payload_length([255, 255, 255, 255]),
        Err(CoreError::runtime("invalid rcon packet length"))
    );
    assert_eq!(rcon_payload_length([10, 0, 0, 0]), Ok(10));
    assert_eq!(rcon_payload_length([0, 1, 0, 0]), Ok(256));
}

#[test]
fn decodes_invalid_utf8_lossily() {
    let payload = [7, 0, 0, 0, 0, 0, 0, 0, b'o', 0xff, b'k', 0, 0];
    let packet = decode_rcon_payload(&payload);
    assert_eq!(packet.request_id, 7);
    assert_eq!(packet.body, "o\u{fffd}k");
}

#[test]
fn checks_reply_ids() {
    let login = RconPacket { request_id: 101, body: String::new() };
    assert_eq!(rcon_auth_outcome(&login), Ok(()));
    let refused = RconPacket { request_id: -1, body: String::new() };
    assert_eq!(rcon_auth_outcome(&refused), Err(CoreError::validation("rcon authentication failed")));
    let reply = RconPacket { request_id: 102, body: "There are 0 players".to_string() };
    assert_eq!(rcon_command_outcome(reply), Ok("There are 0 players".to_string()));
    let stray = RconPacket { request_id: 5, body: "x".to_string() };
    assert_eq!(rcon_command_outcome(stray), Err(CoreError::runtime("unexpected rcon response id")));
}

#[test]
fn finds_the_rcon_endpoint_of_a_local_server() {
    let mut server = sample_local_server();
    let mut props: Registry<String> = Registry::new();
    props.insert("rcon.port".to_string(), "25580".to_string());
    props.insert("rcon.password".to_string(), "  secret ".to_string());
    assert_eq!(rcon_endpoint(&server, &props), Ok((25580, "secret".to_string())));

    let mut props: Registry<String> = Registry::new();
    props.insert("rcon.port".to_string(), "not a port".to_string());
    server.rcon_password = " fallback ".to_string();
    server.rcon_port = 70000;
    assert_eq!(rcon_endpoint(&server, &props), Ok((70000u32 as u16, "fallback".to_string())));

    server.rcon_password = "   ".to_string();
    assert_eq!(
        rcon_endpoint(&server, &Registry::new()),
        Err(CoreError::validation(
            "rcon password is missing; configure rcon.password in server.properties first"
        ))
    );

    server.node_id = "remote-1".to_string();
    assert_eq!(
        rcon_endpoint(&server, &Registry::new()),
        Err(CoreError::unsupported("local rcon currently supports local servers only"))
    );
}
