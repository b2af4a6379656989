//! The RCON wire format: how a request is framed as bytes, how a reply is read back,
//! and what the two replies of an exchange (login, then command) must carry.

use vstd::prelude::*;
use vstd::utf8::{decode_utf8, encode_utf8, valid_utf8};
use crate::error::{CoreError, CoreErrorView};
use crate::game::text_map_view;
use crate::local::{decode_utf8_lossy, utf8_lossy};
use crate::model::{server_is_local, ServerInstance, ServerInstanceView};
use crate::numbers::{parse_u16, u16_of};
use crate::registry::Registry;
use crate::text::{trim, trim_seq};

verus! {

/// The request id of the login packet.
pub const RCON_AUTH_ID: i32 = 101;
/// The packet type of a login.
pub const RCON_AUTH_TYPE: i32 = 3;
/// The request id of the command packet.
pub const RCON_COMMAND_ID: i32 = 102;
/// The packet type of a command.
pub const RCON_COMMAND_TYPE: i32 = 2;

/// A reply read from the server: the id of the request it answers and its text.
pub struct RconPacket {
    pub request_id: i32,
    pub body: String,
}

/// The four little-endian bytes of `v`.
pub open spec fn le32(v: u32) -> Seq<u8> {
    seq![
        (v % 256) as u8,
        ((v / 256) % 256) as u8,
        ((v / 65536) % 256) as u8,
        (v / 16777216) as u8,
    ]
}

/// The number that four little-endian bytes stand for.
pub open spec fn from_le32(b: Seq<u8>) -> u32 {
    (b[0] + 256 * b[1] + 65536 * b[2] + 16777216 * b[3]) as u32
}

/// The length field of a packet whose body has `n` bytes: id, type, body and the two
/// closing zero bytes, kept to 32 bits.
pub open spec fn rcon_length_field(n: nat) -> u32 {
    ((n + 10) % 4294967296) as u32
}

/// A request on the wire: length, request id, packet type (each as four
/// little-endian bytes), the body, and two zero bytes.
pub open spec fn rcon_packet_bytes(request_id: i32, packet_type: i32, body: Seq<u8>) -> Seq<u8> {
    le32(rcon_length_field(body.len())) + le32(request_id as u32) + le32(packet_type as u32)
        + body + seq![0u8, 0u8]
}

/// The payload length announced by the first four bytes of a reply.
pub open spec fn rcon_length_value(b: Seq<u8>) -> i32 {
    from_le32(b) as i32
}

/// The text of a reply's payload: the bytes after id and type, without the two
/// closing bytes.
pub open spec fn rcon_body_bytes(payload: Seq<u8>) -> Seq<u8> {
    payload.subrange(8, payload.len() - 2)
}

/// `bytes` followed by the little-endian bytes of `v`.
fn push_le32(bytes: &mut Vec<u8>, v: u32)
    ensures
        final(bytes)@ == old(bytes)@ + le32(v),
{
    bytes.push((v % 256) as u8);
    bytes.push(((v / 256) % 256) as u8);
    bytes.push(((v / 65536) % 256) as u8);
    bytes.push((v / 16777216) as u8);
    assert(final(bytes)@ =~= old(bytes)@ + le32(v));
}

/// The bytes that send `body` as a packet of type `packet_type` with id `request_id`.
pub fn encode_rcon_packet(request_id: i32, packet_type: i32, body: &str) -> (r: Vec<u8>)
    ensures
        r@ == rcon_packet_bytes(request_id, packet_type, encode_utf8(body@)),
{
    let body_bytes = body.as_bytes();
    let n: u64 = body_bytes.len() as u64;
    let length: u32 = ((n % 4294967296 + 10) % 4294967296) as u32;
    assert(length == rcon_length_field(body_bytes@.len())) by {
        assert((n % 4294967296 + 10) % 4294967296 == (n + 10) % 4294967296) by (nonlinear_arith);
    }
    let mut packet: Vec<u8> = Vec::new();
    push_le32(&mut packet, length);
    push_le32(&mut packet, request_id as u32);
    push_le32(&mut packet, packet_type as u32);
    let ghost head = packet@;
    let mut i: usize = 0;
    while i < body_bytes.len()
        invariant
            i <= body_bytes@.len(),
            packet@ == head + body_bytes@.take(i as int),
        decreases body_bytes@.len() - i,
    {
        packet.push(body_bytes[i]);
        i = i + 1;
        assert(packet@ =~= head + body_bytes@.take(i as int));
    }
    packet.push(0u8);
    packet.push(0u8);
    assert(body_bytes@.take(i as int) =~= body_bytes@);
    assert(packet@ =~= rcon_packet_bytes(request_id, packet_type, encode_utf8(body@)));
    packet
}

/// The login packet for `password`.
pub fn rcon_auth_packet(password: &str) -> (r: Vec<u8>)
    ensures
        r@ == rcon_packet_bytes(RCON_AUTH_ID, RCON_AUTH_TYPE, encode_utf8(password@)),
{
    encode_rcon_packet(RCON_AUTH_ID, RCON_AUTH_TYPE, password)
}

/// The packet that runs `command`.
pub fn rcon_command_packet(command: &str) -> (r: Vec<u8>)
    ensures
        r@ == rcon_packet_bytes(RCON_COMMAND_ID, RCON_COMMAND_TYPE, encode_utf8(command@)),
{
    encode_rcon_packet(RCON_COMMAND_ID, RCON_COMMAND_TYPE, command)
}

/// The payload length a reply announces, refused below ten bytes (id, type and the
/// two closing bytes).
pub fn rcon_payload_length(length_bytes: [u8; 4]) -> (r: Result<usize, CoreError>)
    ensures
        match r {
            Ok(n) => rcon_length_value(length_bytes@) >= 10 && n == rcon_length_value(length_bytes@),
            Err(e) => rcon_length_value(length_bytes@) < 10
                && e@ == CoreErrorView::Runtime("invalid rcon packet length"@),
        },
{
    let v: u32 = length_bytes[0] as u32 + 256 * (length_bytes[1] as u32)
        + 65536 * (length_bytes[2] as u32) + 16777216 * (length_bytes[3] as u32);
    let length: i32 = v as i32;
    if length < 10 {
        return Err(CoreError::runtime("invalid rcon packet length"));
    }
    Ok(length as usize)
}

/// The reply held in a payload of at least ten bytes: the id in its first four bytes
/// and its text read as UTF-8.
pub fn decode_rcon_payload(payload: &[u8]) -> (r: RconPacket)
    requires
        payload@.len() >= 10,
    ensures
        r.request_id == from_le32(payload@.take(4)) as i32,
        r.body@ == utf8_lossy(rcon_body_bytes(payload@)),
        valid_utf8(rcon_body_bytes(payload@)) ==> r.body@ == decode_utf8(rcon_body_bytes(payload@)),
{
    let v: u32 = payload[0] as u32 + 256 * (payload[1] as u32) + 65536 * (payload[2] as u32)
        + 16777216 * (payload[3] as u32);
    let body_bytes = vstd::slice::slice_subrange(payload, 8, payload.len() - 2);
    RconPacket { request_id: v as i32, body: decode_utf8_lossy(body_bytes) }
}

/// The outcome of the login: refused unless the reply answers the login request.
pub fn rcon_auth_outcome(reply: &RconPacket) -> (r: Result<(), CoreError>)
    ensures
        r is Ok <==> reply.request_id == RCON_AUTH_ID,
        r matches Err(e) ==> e@ == CoreErrorView::Validation("rcon authentication failed"@),
{
    if reply.request_id != RCON_AUTH_ID {
        return Err(CoreError::validation("rcon authentication failed"));
    }
    Ok(())
}

/// The outcome of the command: its reply text, unless the reply answers another
/// request.
pub fn rcon_command_outcome(reply: RconPacket) -> (r: Result<String, CoreError>)
    ensures
        match r {
            Ok(text) => reply.request_id == RCON_COMMAND_ID && text@ == reply.body@,
            Err(e) => reply.request_id != RCON_COMMAND_ID
                && e@ == CoreErrorView::Runtime("unexpected rcon response id"@),
        },
{
    if reply.request_id != RCON_COMMAND_ID {
        return Err(CoreError::runtime("unexpected rcon response id"));
    }
    Ok(reply.body)
}

/// The port and password a local server's console is reached with: the `rcon.port`
/// of its properties when that reads as a port, else its own RCON port kept to 16 bits;
/// the trimmed `rcon.password` when not empty, else its own password trimmed. Servers
/// of other nodes are refused, and so is a missing password.
pub open spec fn spec_rcon_endpoint(server: ServerInstanceView, props: Map<Seq<char>, Seq<char>>) -> Result<(int, Seq<char>), CoreErrorView> {
    if !server_is_local(server) {
        Err(CoreErrorView::Unsupported("local rcon currently supports local servers only"@))
    } else {
        let port = if props.contains_key("rcon.port"@) {
            match u16_of(props["rcon.port"@]) {
                Some(p) => p,
                None => (server.rcon_port as u16) as int,
            }
        } else {
            (server.rcon_port as u16) as int
        };
        let from_props = if props.contains_key("rcon.password"@) {
            trim_seq(props["rcon.password"@])
        } else {
            Seq::empty()
        };
        let password = if from_props.len() > 0 {
            from_props
        } else {
            trim_seq(server.rcon_password)
        };
        if password.len() == 0 {
            Err(CoreErrorView::Validation("rcon password is missing; configure rcon.password in server.properties first"@))
        } else {
            Ok((port, password))
        }
    }
}

/// The port and password a local server's console is reached with, from the server
/// and its properties.
pub fn rcon_endpoint(server: &ServerInstance, properties: &Registry<String>) -> (r: Result<(u16, String), CoreError>)
    requires
        properties.wf(),
    ensures
        ({
            let expected = spec_rcon_endpoint(server@, text_map_view(properties.map()));
            match r {
                Ok((port, password)) => expected == Ok::<(int, Seq<char>), CoreErrorView>((port as int, password@)),
                Err(e) => expected == Err::<(int, Seq<char>), CoreErrorView>(e@),
            }
        }),
{
    if !server.is_local() {
        return Err(CoreError::unsupported("local rcon currently supports local servers only"));
    }
    let port: u16 = match properties.get("rcon.port") {
        Some(v) => match parse_u16(v.as_str()) {
            Ok(p) => p,
            Err(_) => server.rcon_port as u16,
        },
        None => server.rcon_port as u16,
    };
    let from_props = match properties.get("rcon.password") {
        Some(v) => trim(v.as_str()),
        None => String::new(),
    };
    let password = if !from_props.as_str().is_empty() {
        from_props
    } else {
        trim(server.rcon_password.as_str())
    };
    if password.as_str().is_empty() {
        return Err(CoreError::validation("rcon password is missing; configure rcon.password in server.properties first"));
    }
    Ok((port, password))
}

/// Reading four little-endian bytes gives back the number they were written from.
pub proof fn lemma_le32_roundtrip(v: u32)
    ensures
        from_le32(le32(v)) == v,
{
    let w: u64 = v as u64;
    assert(w % 256 + 256 * ((w / 256) % 256) + 65536 * ((w / 65536) % 256) + 16777216 * (w / 16777216)
        == w) by (bit_vector)
        requires
            w < 4294967296,
    ;
    assert(w % 256 == v % 256 && (w / 256) % 256 == (v / 256) % 256 && (w / 65536) % 256 == (v
        / 65536) % 256 && w / 16777216 == v / 16777216);
}

/// A packet read back: its length field announces exactly the bytes that follow it,
/// at least ten of them; the payload answers the request id that was sent; and its
/// text is the body that was sent, for any body short enough for the length field.
pub proof fn lemma_rcon_packet_roundtrip(request_id: i32, packet_type: i32, body: Seq<char>)
    requires
        encode_utf8(body).len() + 10 <= i32::MAX,
    ensures
        ({
            let p = rcon_packet_bytes(request_id, packet_type, encode_utf8(body));
            let payload = p.skip(4);
            &&& rcon_length_value(p.take(4)) >= 10
            &&& rcon_length_value(p.take(4)) == payload.len()
            &&& from_le32(payload.take(4)) as i32 == request_id
            &&& valid_utf8(rcon_body_bytes(payload))
            &&& decode_utf8(rcon_body_bytes(payload)) == body
        }),
{
    let bytes = encode_utf8(body);
    let n = bytes.len();
    let p = rcon_packet_bytes(request_id, packet_type, bytes);
    let payload = p.skip(4);
    let len = rcon_length_field(n);
    assert(len == n + 10);
    lemma_le32_roundtrip(len);
    assert(p.take(4) =~= le32(len));
    let id = request_id as u32;
    lemma_le32_roundtrip(id);
    assert(payload.take(4) =~= le32(id));
    assert((request_id as u32) as i32 == request_id) by (bit_vector);
    assert(len as i32 == n + 10) by {
        assert(len <= i32::MAX);
    }
    assert(rcon_body_bytes(payload) =~= bytes);
    vstd::utf8::encode_utf8_valid_utf8(body);
    vstd::utf8::encode_utf8_decode_utf8(body);
}

} // verus!
