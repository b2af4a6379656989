//! Saved game data: server addresses and their stable ids, numbers read from NBT, and
//! names found in backups and file paths.

use vstd::prelude::*;
use vstd::utf8::encode_utf8;
use crate::cli_args::ov;
use crate::error::{CoreError, CoreErrorView};
use crate::numbers::{i32_of, parse_i32};
use crate::text::{
    append, chars_of, has_prefix, i64_to_decimal, int_decimal, last_occurrence, nat_decimal, occurs_at,
    occurs_at_exec, owned, push_char, rfind, split_char, split_seq, str_eq, string_of_range,
};

verus! {

// ---------------------------------------------------------------------------
// Server addresses
// ---------------------------------------------------------------------------

/// A server address split into host and port: at its last `:` when what follows reads
/// as a positive `i32`, otherwise the whole address with port 0.
pub open spec fn host_and_port_seq(ip: Seq<char>) -> (Seq<char>, int) {
    match last_occurrence(ip, ":"@) {
        Some(i) => match i32_of(ip.skip(i + 1)) {
            Some(p) => if p > 0 {
                (ip.take(i), p)
            } else {
                (ip, 0)
            },
            None => (ip, 0),
        },
        None => (ip, 0),
    }
}

/// A server address split into host and port.
pub fn parse_server_host_and_port(ip: &str) -> (r: (String, i32))
    ensures
        (r.0@, r.1 as int) == host_and_port_seq(ip@),
{
    let cs = chars_of(ip);
    let colon = chars_of(":");
    if let Some(i) = rfind(&cs, &colon) {
        proof {
            reveal_strlit(":");
        }
        let n = cs.len();
        assert(i + 1 <= n);
        let port_text = string_of_range(&cs, i + 1, cs.len());
        assert(port_text@ == ip@.skip(i + 1));
        if let Ok(port) = parse_i32(port_text.as_str()) {
            if port > 0 {
                let host = string_of_range(&cs, 0, i);
                assert(host@ == ip@.take(i as int));
                return (host, port);
            }
        }
    }
    (owned(ip), 0)
}

/// The lower-case hexadecimal digit of a value below 16.
pub open spec fn hex_lower(d: int) -> char {
    if d < 10 {
        (48 + d) as char
    } else {
        (87 + d) as char
    }
}

/// Bytes in lower-case hexadecimal, two digits each.
pub open spec fn hex_run(bs: Seq<u8>) -> Seq<char>
    decreases bs.len(),
{
    if bs.len() == 0 {
        Seq::empty()
    } else {
        hex_run(bs.drop_last()) + seq![hex_lower((bs.last() / 16) as int), hex_lower((bs.last() % 16) as int)]
    }
}

/// Sixteen bytes written as a UUID: hexadecimal in groups of 4, 2, 2, 2 and 6 bytes
/// joined by `-`.
pub open spec fn uuid_seq(b: Seq<u8>) -> Seq<char> {
    hex_run(b.subrange(0, 4)) + "-"@ + hex_run(b.subrange(4, 6)) + "-"@ + hex_run(b.subrange(6, 8)) + "-"@
        + hex_run(b.subrange(8, 10)) + "-"@ + hex_run(b.subrange(10, 16))
}

/// The lower-case hexadecimal digit of `d`.
fn hex_digit(d: u8) -> (c: char)
    requires
        d < 16,
    ensures
        c == hex_lower(d as int),
{
    if d < 10 {
        (48 + d) as char
    } else {
        (87 + d) as char
    }
}

/// Appends `bytes[from..to]` in hexadecimal.
fn append_hex(out: &mut String, bytes: &[u8; 16], from: usize, to: usize)
    requires
        from <= to <= 16,
    ensures
        final(out)@ == old(out)@ + hex_run(bytes@.subrange(from as int, to as int)),
{
    let ghost start = out@;
    let mut i: usize = from;
    assert(bytes@.subrange(from as int, from as int) =~= Seq::<u8>::empty());
    while i < to
        invariant
            from <= i <= to <= 16,
            bytes@.len() == 16,
            out@ == start + hex_run(bytes@.subrange(from as int, i as int)),
        decreases to - i,
    {
        let b = bytes[i];
        assert(bytes@.subrange(from as int, i + 1).drop_last() =~= bytes@.subrange(from as int, i as int));
        assert(bytes@.subrange(from as int, i + 1).last() == b);
        let ghost before = out@;
        push_char(out, hex_digit(b / 16));
        push_char(out, hex_digit(b % 16));
        assert(out@ =~= before + seq![hex_lower((b / 16) as int), hex_lower((b % 16) as int)]);
        i += 1;
    }
}

/// Sixteen bytes written as a UUID.
pub fn uuid_bytes_to_string(bytes: [u8; 16]) -> (r: String)
    ensures
        r@ == uuid_seq(bytes@),
{
    let mut out = String::new();
    append_hex(&mut out, &bytes, 0, 4);
    assert(Seq::<char>::empty() + hex_run(bytes@.subrange(0, 4)) =~= hex_run(bytes@.subrange(0, 4)));
    append(&mut out, "-");
    append_hex(&mut out, &bytes, 4, 6);
    append(&mut out, "-");
    append_hex(&mut out, &bytes, 6, 8);
    append(&mut out, "-");
    append_hex(&mut out, &bytes, 8, 10);
    append(&mut out, "-");
    append_hex(&mut out, &bytes, 10, 16);
    out
}

/// The SHA-256 digest of `data`.
pub uninterp spec fn sha256_of(data: Seq<u8>) -> Seq<u8>;

/// `sha2::Sha256::digest`: the contract claims that the digest is the named function of
/// the data and is 32 bytes long, as SHA-256 digests are.
#[verifier::external_body]
fn sha256_digest(data: &[u8]) -> (r: Vec<u8>)
    ensures
        r@ == sha256_of(data@),
        r@.len() == 32,
{
    <sha2::Sha256 as sha2::Digest>::digest(data).to_vec()
}

/// The text a server's stable id is derived from.
pub open spec fn server_id_source(name: Seq<char>, address: Seq<char>, port: int) -> Seq<char> {
    name + "|"@ + address + "|"@ + int_decimal(port)
}

/// The first 16 bytes of a digest marked as a version 5 UUID of the RFC 4122 variant.
pub open spec fn uuid_stamp(d: Seq<u8>) -> Seq<u8> {
    d.take(16).update(6, (d[6] & 0x0Fu8) | 0x50u8).update(8, (d[8] & 0x3Fu8) | 0x80u8)
}

/// The id of a saved server: a UUID made of the SHA-256 digest of its name, address and
/// port.
pub fn build_stable_server_id(name: &str, address: &str, port: i32) -> (r: String)
    ensures
        r@ == uuid_seq(uuid_stamp(sha256_of(encode_utf8(server_id_source(name@, address@, port as int))))),
{
    let mut content = owned(name);
    append(&mut content, "|");
    append(&mut content, address);
    append(&mut content, "|");
    append(&mut content, i64_to_decimal(port as i64).as_str());
    let d = sha256_digest(content.as_str().as_bytes());
    let bytes: [u8; 16] = [
        d[0],
        d[1],
        d[2],
        d[3],
        d[4],
        d[5],
        (d[6] & 0x0F) | 0x50,
        d[7],
        (d[8] & 0x3F) | 0x80,
        d[9],
        d[10],
        d[11],
        d[12],
        d[13],
        d[14],
        d[15],
    ];
    assert(bytes@ =~= uuid_stamp(d@));
    uuid_bytes_to_string(bytes)
}

// ---------------------------------------------------------------------------
// The game's list of servers (`servers.dat`)
// ---------------------------------------------------------------------------

/// A server of the game's multiplayer list as stored in `servers.dat`.
pub struct ServerDatServer {
    pub name: String,
    pub ip: String,
    pub hidden: i8,
    pub icon: Option<String>,
    pub prevents_chat_reports: i8,
}

/// A server of the game's multiplayer list as the launcher shows it.
pub struct ServerAddressEntry {
    pub id: String,
    pub name: String,
    pub address: String,
    pub port: i32,
    pub hidden: bool,
    pub icon: Option<String>,
    pub accept_textures: bool,
}

/// The stable id of a server with this name, address and port.
pub open spec fn stable_id_seq(name: Seq<char>, address: Seq<char>, port: int) -> Seq<char> {
    uuid_seq(uuid_stamp(sha256_of(encode_utf8(server_id_source(name, address, port)))))
}

/// The view of an optional string.
pub open spec fn opt_text(o: Option<String>) -> Option<Seq<char>> {
    match o {
        Some(s) => Some(s@),
        None => None,
    }
}

/// The entry shown for a stored server: its address split into host and port, its
/// stable id, and its flags read as set when not zero.
pub fn server_address_entry(server: &ServerDatServer) -> (r: ServerAddressEntry)
    ensures
        (r.address@, r.port as int) == host_and_port_seq(server.ip@),
        r.id@ == stable_id_seq(server.name@, r.address@, r.port as int),
        r.name@ == server.name@,
        r.hidden == (server.hidden != 0),
        opt_text(r.icon) == opt_text(server.icon),
        r.accept_textures == (server.prevents_chat_reports != 0),
{
    let (address, port) = parse_server_host_and_port(server.ip.as_str());
    let id = build_stable_server_id(server.name.as_str(), address.as_str(), port);
    let icon = match &server.icon {
        Some(i) => Some(owned(i.as_str())),
        None => None,
    };
    ServerAddressEntry {
        id,
        name: owned(server.name.as_str()),
        address,
        port,
        hidden: server.hidden != 0,
        icon,
        accept_textures: server.prevents_chat_reports != 0,
    }
}

/// The address stored for an entry: `host:port` when the port is positive, else the
/// host alone.
pub open spec fn stored_ip_seq(address: Seq<char>, port: int) -> Seq<char> {
    if port > 0 {
        address + ":"@ + int_decimal(port)
    } else {
        address
    }
}

/// The icon kept for an entry: none when it is blank.
pub open spec fn kept_icon(icon: Option<Seq<char>>) -> Option<Seq<char>> {
    match icon {
        Some(i) => if crate::text::trim_seq(i).len() == 0 {
            None
        } else {
            Some(i)
        },
        None => None,
    }
}

/// The stored form of an entry: address and port joined, flags as 1 or 0, a blank icon
/// dropped.
pub fn dat_server(entry: &ServerAddressEntry) -> (r: ServerDatServer)
    ensures
        r.name@ == entry.name@,
        r.ip@ == stored_ip_seq(entry.address@, entry.port as int),
        r.hidden == (if entry.hidden { 1i8 } else { 0i8 }),
        opt_text(r.icon) == kept_icon(opt_text(entry.icon)),
        r.prevents_chat_reports == (if entry.accept_textures { 1i8 } else { 0i8 }),
{
    let ip = if entry.port > 0 {
        let mut t = owned(entry.address.as_str());
        append(&mut t, ":");
        append(&mut t, i64_to_decimal(entry.port as i64).as_str());
        t
    } else {
        owned(entry.address.as_str())
    };
    let icon = match &entry.icon {
        Some(i) => if crate::text::is_blank(i.as_str()) {
            None
        } else {
            Some(owned(i.as_str()))
        },
        None => None,
    };
    ServerDatServer {
        name: owned(entry.name.as_str()),
        ip,
        hidden: if entry.hidden { 1 } else { 0 },
        icon,
        prevents_chat_reports: if entry.accept_textures { 1 } else { 0 },
    }
}

/// The decimal digits of a number read back give the number.
pub proof fn lemma_decimal_digits(n: nat)
    ensures
        crate::numbers::all_digits(nat_decimal(n)),
        crate::numbers::digits_value(nat_decimal(n)) == n,
    decreases n,
{
    let s = nat_decimal(n);
    let u = ((n % 10) + 48) as u32;
    assert((u as char) as u32 == u);
    if n < 10 {
        assert(s == seq![crate::text::digit_char(n)]);
        assert(s.drop_last() =~= Seq::<char>::empty());
        assert(crate::numbers::digits_value(Seq::<char>::empty()) == 0);
        assert(s.last() as u32 == u);
    } else {
        lemma_decimal_digits(n / 10);
        let d = crate::text::digit_char(n % 10);
        assert(s == nat_decimal(n / 10).push(d));
        assert(s.drop_last() =~= nat_decimal(n / 10));
        assert(forall|i: int| 0 <= i < s.len() ==> crate::numbers::is_digit(#[trigger] s[i])) by {
            assert forall|i: int| 0 <= i < s.len() implies crate::numbers::is_digit(#[trigger] s[i]) by {
                if i < s.len() - 1 {
                    assert(s[i] == nat_decimal(n / 10)[i]);
                }
            }
        }
    }
}

/// A positive number printed in decimal reads back as an `i32` when it fits.
pub proof fn lemma_decimal_reads_back(n: int)
    requires
        0 < n <= i32::MAX,
    ensures
        i32_of(int_decimal(n)) == Some(n),
        !int_decimal(n).contains(':'),
{
    lemma_decimal_digits(n as nat);
    let s = int_decimal(n);
    assert(s[0] != '+' && s[0] != '-') by {
        assert(crate::numbers::is_digit(s[0]));
    }
    assert(!s.contains(':')) by {
        if s.contains(':') {
            let k = choose|k: int| 0 <= k < s.len() && s[k] == ':';
            assert(crate::numbers::is_digit(s[k]));
        }
    }
}

/// What is stored for an entry with a positive port reads back as its address and
/// port, whatever the address holds (colons included).
pub proof fn lemma_server_address_roundtrip(address: Seq<char>, port: int)
    requires
        0 < port <= i32::MAX,
    ensures
        host_and_port_seq(stored_ip_seq(address, port)) == (address, port),
{
    lemma_decimal_reads_back(port);
    let digits = int_decimal(port);
    let ip = address + ":"@ + digits;
    let i = address.len() as int;
    assert(":"@ == seq![':']) by {
        reveal_strlit(":");
    }
    assert(occurs_at(ip, ":"@, i)) by {
        assert(ip.subrange(i, i + 1) =~= ":"@);
    }
    assert forall|j: int| i < j implies !occurs_at(ip, ":"@, j) by {
        if occurs_at(ip, ":"@, j) {
            assert(ip[j] == ':') by {
                assert(ip.subrange(j, j + 1)[0] == ip[j]);
            }
            assert(ip[j] == digits[j - i - 1]);
            assert(digits.contains(':'));
        }
    }
    assert(crate::text::contains_seq(ip, ":"@));
    let w = choose|k: int| occurs_at(ip, ":"@, k) && forall|j: int| k < j ==> !occurs_at(ip, ":"@, j);
    assert(w == i) by {
        if w < i {
            assert(!occurs_at(ip, ":"@, i));
        }
    }
    assert(ip.skip(i + 1) =~= digits);
    assert(ip.take(i) =~= address);
}

// ---------------------------------------------------------------------------
// NBT numbers
// ---------------------------------------------------------------------------

/// A number read from NBT data, stored as an `i32` or an `i64`.
#[derive(Clone, Copy)]
pub enum NbtNumber {
    I32(i32),
    I64(i64),
}

impl NbtNumber {
    /// The number as an `i32`, an `i64` cut to its low 32 bits.
    pub fn as_i32(self) -> (r: i32)
        ensures
            r == match self {
                NbtNumber::I32(v) => v,
                NbtNumber::I64(v) => v as i32,
            },
    {
        match self {
            NbtNumber::I32(value) => value,
            NbtNumber::I64(value) => value as i32,
        }
    }

    /// The number as an `i64`.
    pub fn as_i64(self) -> (r: i64)
        ensures
            r == match self {
                NbtNumber::I32(v) => v as i64,
                NbtNumber::I64(v) => v,
            },
    {
        match self {
            NbtNumber::I32(value) => value as i64,
            NbtNumber::I64(value) => value,
        }
    }
}

/// The number as an `i32` (an `i64` cut to its low 32 bits).
pub open spec fn nbt_i32(n: NbtNumber) -> i32 {
    match n {
        NbtNumber::I32(v) => v,
        NbtNumber::I64(v) => v as i32,
    }
}

/// The number as an `i64`.
pub open spec fn nbt_i64(n: NbtNumber) -> i64 {
    match n {
        NbtNumber::I32(v) => v as i64,
        NbtNumber::I64(v) => v,
    }
}

// ---------------------------------------------------------------------------
// NBT files
// ---------------------------------------------------------------------------

/// The bytes that `flate2`'s `GzDecoder`, read to its end, gives for `data`, when it
/// reads them without error.
pub uninterp spec fn gunzipped(data: Seq<u8>) -> Option<Seq<u8>>;

/// The message of the error `GzDecoder` stops with on `data` otherwise.
pub uninterp spec fn gunzip_error_text(data: Seq<u8>) -> Seq<char>;

/// `flate2::read::GzDecoder` read to its end: the contract claims only that the bytes,
/// or the message of the error, are the named functions of the input.
#[verifier::external_body]
fn gunzip(data: &[u8]) -> (r: Result<Vec<u8>, String>)
    ensures
        match r {
            Ok(b) => gunzipped(data@) == Some(b@),
            Err(m) => gunzipped(data@) is None && m@ == gunzip_error_text(data@),
        },
{
    let mut decoder = flate2::read::GzDecoder::new(data);
    let mut out: Vec<u8> = Vec::new();
    match std::io::Read::read_to_end(&mut decoder, &mut out) {
        Ok(_) => Ok(out),
        Err(e) => Err(e.to_string()),
    }
}

/// Whether data starts with the gzip magic bytes `1f 8b`.
pub open spec fn is_gzip(data: Seq<u8>) -> bool {
    data.len() >= 2 && data[0] == 0x1fu8 && data[1] == 0x8bu8
}

/// The NBT held in a file's bytes: unpacked when they are gzip data, else as they are.
pub open spec fn spec_nbt_payload(data: Seq<u8>) -> Result<Seq<u8>, CoreErrorView> {
    if is_gzip(data) {
        match gunzipped(data) {
            Some(b) => Ok(b),
            None => Err(CoreErrorView::Runtime("failed to decompress nbt file: "@ + gunzip_error_text(data))),
        }
    } else {
        Ok(data)
    }
}

/// The NBT held in a file's bytes.
pub fn nbt_payload(data: &[u8]) -> (r: Result<Vec<u8>, CoreError>)
    ensures
        match r {
            Ok(b) => spec_nbt_payload(data@) == Ok::<Seq<u8>, CoreErrorView>(b@),
            Err(e) => spec_nbt_payload(data@) == Err::<Seq<u8>, CoreErrorView>(e@),
        },
{
    if data.len() >= 2 && data[0] == 0x1f && data[1] == 0x8b {
        match gunzip(data) {
            Ok(b) => Ok(b),
            Err(m) => Err(CoreError::Runtime(crate::text::concat2("failed to decompress nbt file: ", m.as_str()))),
        }
    } else {
        Ok(vstd::slice::slice_to_vec(data))
    }
}

// ---------------------------------------------------------------------------
// Litematica schematics
// ---------------------------------------------------------------------------

/// The size of a schematic's enclosing box, as stored.
pub struct LitematicaSizeNbt {
    pub x: NbtNumber,
    pub y: NbtNumber,
    pub z: NbtNumber,
}

/// The `Metadata` compound of a Litematica schematic, each field optional.
pub struct LitematicaMetadataNbt {
    pub name: Option<String>,
    pub author: Option<String>,
    pub description: Option<String>,
    pub version: Option<String>,
    pub region_count: Option<NbtNumber>,
    pub total_blocks: Option<NbtNumber>,
    pub time_created: Option<NbtNumber>,
    pub time_modified: Option<NbtNumber>,
    pub total_volume: Option<NbtNumber>,
    pub enclosing_size: Option<LitematicaSizeNbt>,
}

/// The size of a schematic's enclosing box.
pub struct LitematicaSize {
    pub x: i32,
    pub y: i32,
    pub z: i32,
}

/// Everything shown of a schematic, with defaults for what it leaves out.
pub struct LitematicaFullMetadata {
    pub name: String,
    pub author: String,
    pub description: String,
    pub time_created: i64,
    pub time_modified: i64,
    pub total_volume: i32,
    pub total_blocks: i32,
    pub enclosing_size: LitematicaSize,
    pub region_count: i32,
}

/// What a schematic's listing shows.
pub struct LitematicaMetadataSummary {
    pub author: Option<String>,
    pub description: Option<String>,
    pub version: Option<String>,
    pub region_count: Option<i32>,
    pub total_blocks: Option<i32>,
}

/// An optional number as an `i32`, 0 when absent.
pub open spec fn i32_or_zero(n: Option<NbtNumber>) -> i32 {
    match n {
        Some(v) => nbt_i32(v),
        None => 0,
    }
}

/// An optional number as an `i64`, 0 when absent.
pub open spec fn i64_or_zero(n: Option<NbtNumber>) -> i64 {
    match n {
        Some(v) => nbt_i64(v),
        None => 0,
    }
}

/// An optional number as an optional `i32`.
pub open spec fn opt_i32(n: Option<NbtNumber>) -> Option<i32> {
    match n {
        Some(v) => Some(nbt_i32(v)),
        None => None,
    }
}

/// A copy of an optional string.
fn copy_opt(o: &Option<String>) -> (r: Option<String>)
    ensures
        opt_text(r) == opt_text(*o),
{
    match o {
        Some(s) => Some(owned(s.as_str())),
        None => None,
    }
}

/// An optional string, or empty text.
fn text_or_empty(o: &Option<String>) -> (r: String)
    ensures
        r@ == match opt_text(*o) {
            Some(t) => t,
            None => Seq::<char>::empty(),
        },
{
    match o {
        Some(s) => owned(s.as_str()),
        None => String::new(),
    }
}

/// An optional number as an `i32`, 0 when absent.
fn number_i32(n: Option<NbtNumber>) -> (r: i32)
    ensures
        r == i32_or_zero(n),
{
    match n {
        Some(v) => v.as_i32(),
        None => 0,
    }
}

/// An optional number as an `i64`, 0 when absent.
fn number_i64(n: Option<NbtNumber>) -> (r: i64)
    ensures
        r == i64_or_zero(n),
{
    match n {
        Some(v) => v.as_i64(),
        None => 0,
    }
}

/// An optional number as an optional `i32`.
fn number_opt_i32(n: Option<NbtNumber>) -> (r: Option<i32>)
    ensures
        r == opt_i32(n),
{
    match n {
        Some(v) => Some(v.as_i32()),
        None => None,
    }
}

/// Everything shown of the schematic at `path`: its name, or the file's stem; its
/// author and description, or empty text; its numbers, or zero; its box, or an empty
/// one.
pub fn litematica_full_metadata(meta: &LitematicaMetadataNbt, path: &str) -> (r: LitematicaFullMetadata)
    ensures
        r.name@ == match opt_text(meta.name) {
            Some(n) => n,
            None => match path_file_stem(path@) {
                Some(s) => s,
                None => Seq::<char>::empty(),
            },
        },
        r.author@ == match opt_text(meta.author) {
            Some(t) => t,
            None => Seq::<char>::empty(),
        },
        r.description@ == match opt_text(meta.description) {
            Some(t) => t,
            None => Seq::<char>::empty(),
        },
        r.time_created == i64_or_zero(meta.time_created),
        r.time_modified == i64_or_zero(meta.time_modified),
        r.total_volume == i32_or_zero(meta.total_volume),
        r.total_blocks == i32_or_zero(meta.total_blocks),
        r.region_count == i32_or_zero(meta.region_count),
        match meta.enclosing_size {
            Some(size) => r.enclosing_size.x == nbt_i32(size.x) && r.enclosing_size.y == nbt_i32(size.y)
                && r.enclosing_size.z == nbt_i32(size.z),
            None => r.enclosing_size.x == 0 && r.enclosing_size.y == 0 && r.enclosing_size.z == 0,
        },
{
    let name = match &meta.name {
        Some(n) => owned(n.as_str()),
        None => default_name_from_path(path),
    };
    let enclosing_size = match &meta.enclosing_size {
        Some(size) => LitematicaSize { x: size.x.as_i32(), y: size.y.as_i32(), z: size.z.as_i32() },
        None => LitematicaSize { x: 0, y: 0, z: 0 },
    };
    LitematicaFullMetadata {
        name,
        author: text_or_empty(&meta.author),
        description: text_or_empty(&meta.description),
        time_created: number_i64(meta.time_created),
        time_modified: number_i64(meta.time_modified),
        total_volume: number_i32(meta.total_volume),
        total_blocks: number_i32(meta.total_blocks),
        enclosing_size,
        region_count: number_i32(meta.region_count),
    }
}

/// What a schematic's listing shows: its author, description and version as given,
/// its region and block counts as `i32`.
pub fn litematica_summary(meta: &LitematicaMetadataNbt) -> (r: LitematicaMetadataSummary)
    ensures
        opt_text(r.author) == opt_text(meta.author),
        opt_text(r.description) == opt_text(meta.description),
        opt_text(r.version) == opt_text(meta.version),
        r.region_count == opt_i32(meta.region_count),
        r.total_blocks == opt_i32(meta.total_blocks),
{
    LitematicaMetadataSummary {
        author: copy_opt(&meta.author),
        description: copy_opt(&meta.description),
        version: copy_opt(&meta.version),
        region_count: number_opt_i32(meta.region_count),
        total_blocks: number_opt_i32(meta.total_blocks),
    }
}

// ---------------------------------------------------------------------------
// Backups and file names
// ---------------------------------------------------------------------------

/// `s` without any number of leading copies of `p` (`str::trim_start_matches`).
pub open spec fn strip_leading(s: Seq<char>, p: Seq<char>) -> Seq<char>
    decreases s.len(),
{
    if p.len() > 0 && has_prefix(s, p) {
        strip_leading(s.skip(p.len() as int), p)
    } else {
        s
    }
}

/// The pieces of `parts` that are not empty, in order.
pub open spec fn non_empty(parts: Seq<Seq<char>>) -> Seq<Seq<char>>
    decreases parts.len(),
{
    if parts.len() == 0 {
        Seq::empty()
    } else if parts.last().len() == 0 {
        non_empty(parts.drop_last())
    } else {
        non_empty(parts.drop_last()).push(parts.last())
    }
}

/// The server a path inside a backup belongs to: the path, without leading `./`, must
/// name `servers/<name>/...` with a name that does not start with a dot.
pub open spec fn backup_server_name_seq(path: Seq<char>) -> Option<Seq<char>> {
    let parts = non_empty(split_seq(strip_leading(path, "./"@), '/'));
    if parts.len() >= 2 && parts[0] == "servers"@ && !has_prefix(parts[1], "."@) && parts[1] != ".DS_Store"@ {
        Some(parts[1])
    } else {
        None
    }
}

/// The position after the leading copies of `p` in `v`, from `i`.
pub(crate) fn skip_leading(v: &Vec<char>, p: &Vec<char>, i: usize) -> (r: usize)
    requires
        i <= v.len(),
        p@.len() > 0,
    ensures
        i <= r <= v.len(),
        strip_leading(v@.skip(i as int), p@) == v@.skip(r as int),
    decreases v.len() - i,
{
    if occurs_at_exec(v, p, i) {
        assert(v@.skip(i as int).subrange(0, p@.len() as int) =~= v@.subrange(i as int, i + p@.len()));
        assert(v@.skip(i as int).skip(p@.len() as int) =~= v@.skip(i + p@.len()));
        skip_leading(v, p, i + p.len())
    } else {
        assert(!has_prefix(v@.skip(i as int), p@)) by {
            if has_prefix(v@.skip(i as int), p@) {
                assert(v@.skip(i as int).subrange(0, p@.len() as int) =~= v@.subrange(i as int, i + p@.len()));
            }
        }
        i
    }
}

/// The server a path inside a backup belongs to.
pub fn backup_server_name_from_path(path: &str) -> (r: Option<String>)
    ensures
        ov(r) == backup_server_name_seq(path@),
{
    proof {
        reveal_strlit("./");
        reveal_strlit(".");
    }
    let cs = chars_of(path);
    let p = chars_of("./");
    let start = skip_leading(&cs, &p, 0);
    assert(cs@.skip(0) =~= cs@);
    let rest = string_of_range(&cs, start, cs.len());
    assert(rest@ == cs@.skip(start as int));
    let pieces = split_char(rest.as_str(), '/');
    let ghost ps = split_seq(rest@, '/');
    let mut parts: Vec<String> = Vec::new();
    let mut i: usize = 0;
    while i < pieces.len()
        invariant
            i <= pieces.len(),
            pieces@.len() == ps.len(),
            forall|j: int| 0 <= j < pieces@.len() ==> #[trigger] pieces@[j]@ == ps[j],
            crate::model::strings_view(parts@) == non_empty(ps.take(i as int)),
        decreases pieces.len() - i,
    {
        assert(ps.take(i + 1).drop_last() =~= ps.take(i as int));
        assert(ps.take(i + 1).last() == pieces@[i as int]@);
        if !pieces[i].as_str().is_empty() {
            let ghost before = parts@;
            parts.push(owned(pieces[i].as_str()));
            assert(crate::model::strings_view(parts@) =~= crate::model::strings_view(before).push(pieces@[i as int]@));
        }
        i += 1;
    }
    assert(ps.take(pieces.len() as int) =~= ps);
    if parts.len() < 2 || !str_eq(parts[0].as_str(), "servers") {
        return None;
    }
    let name = parts[1].as_str();
    if crate::text::starts_with(name, ".") || str_eq(name, ".DS_Store") {
        return None;
    }
    Some(owned(name))
}

/// The stem of the last component of a Unix path (`Path::file_stem`), when it has one
/// (on Windows `\\` separates too, and the result may differ).
pub uninterp spec fn path_file_stem(p: Seq<char>) -> Option<Seq<char>>;

/// `std::path::Path::file_stem`, read as text: the contract claims only that the result
/// is the named function of the path.
#[verifier::external_body]
fn file_stem(path: &str) -> (r: Option<String>)
    ensures
        ov(r) == path_file_stem(path@),
{
    match std::path::Path::new(path).file_stem() {
        Some(s) => Some(s.to_string_lossy().into_owned()),
        None => None,
    }
}

/// The name a file is given by default: the stem of its path, or empty text.
pub fn default_name_from_path(path: &str) -> (r: String)
    ensures
        r@ == match path_file_stem(path@) {
            Some(s) => s,
            None => Seq::<char>::empty(),
        },
{
    match file_stem(path) {
        Some(s) => s,
        None => String::new(),
    }
}

// ---------------------------------------------------------------------------
// Entries of archives
// ---------------------------------------------------------------------------

/// An archive entry's name with `\\` separators turned into `/`.
pub open spec fn normalized_entry(name: Seq<char>) -> Seq<char> {
    crate::text::replace_seq(name, "\\"@, "/"@)
}

/// Where an archive entry goes below a directory that takes the entries under `prefix`:
/// its normalized name without the leading copies of `prefix`; none for entries outside
/// the prefix, and for the prefix itself.
pub open spec fn entry_relative_seq(name: Seq<char>, prefix: Seq<char>) -> Option<Seq<char>> {
    let n = normalized_entry(name);
    if !has_prefix(n, prefix) {
        None
    } else {
        let rel = strip_leading(n, prefix);
        if rel.len() == 0 {
            None
        } else {
            Some(rel)
        }
    }
}

/// Where an archive entry goes below the directory that takes the entries under
/// `prefix`, if it is one of them.
pub fn archive_entry_relative(name: &str, prefix: &str) -> (r: Option<String>)
    ensures
        ov(r) == entry_relative_seq(name@, prefix@),
{
    proof {
        reveal_strlit("\\");
    }
    let n = crate::text::replace(name, "\\", "/");
    if !crate::text::starts_with(n.as_str(), prefix) {
        return None;
    }
    let cs = chars_of(n.as_str());
    let p = chars_of(prefix);
    let start = if p.len() == 0 {
        0
    } else {
        skip_leading(&cs, &p, 0)
    };
    assert(cs@.skip(0) =~= cs@);
    let rel = string_of_range(&cs, start, cs.len());
    if rel.as_str().is_empty() {
        None
    } else {
        Some(rel)
    }
}

/// The prefix of the entries of a server in a backup: `servers/<name>/`.
pub fn backup_entry_prefix(server_name: &str) -> (r: String)
    ensures
        r@ == "servers/"@ + server_name@ + "/"@,
{
    crate::text::concat3("servers/", server_name, "/")
}

/// Whether a path component names a Zulu Java runtime folder: it starts with `zulu-`
/// and contains `.jre`.
pub open spec fn is_zulu_component(c: Seq<char>) -> bool {
    has_prefix(c, "zulu-"@) && crate::text::contains_seq(c, ".jre"@)
}

/// The folder of the Java runtime that an entry name reaches: its non-empty components
/// up to the first Zulu runtime folder, joined by `/`, with a closing `/`.
pub open spec fn zulu_prefix_in(parts: Seq<Seq<char>>) -> Option<Seq<char>>
    decreases parts.len(),
{
    if parts.len() == 0 {
        None
    } else {
        let before = zulu_prefix_in(parts.drop_last());
        if before is Some {
            before
        } else if is_zulu_component(parts.last()) {
            Some(crate::text::join_with(parts, "/"@) + "/"@)
        } else {
            None
        }
    }
}

/// The Java runtime folder an archive entry lies in, if any.
pub open spec fn entry_zulu_prefix(name: Seq<char>) -> Option<Seq<char>> {
    zulu_prefix_in(non_empty(split_seq(normalized_entry(name), '/')))
}

/// The Java runtime folder of an archive: that of the first entry that lies in one.
pub open spec fn zulu_prefix_of(names: Seq<Seq<char>>) -> Option<Seq<char>>
    decreases names.len(),
{
    if names.len() == 0 {
        None
    } else {
        match zulu_prefix_of(names.drop_last()) {
            Some(p) => Some(p),
            None => entry_zulu_prefix(names.last()),
        }
    }
}

/// Once the first `k` components reach a runtime folder, all of them reach the same.
proof fn lemma_zulu_in_stays(ps: Seq<Seq<char>>, k: int)
    requires
        0 <= k <= ps.len(),
        zulu_prefix_in(ps.take(k)) is Some,
    ensures
        zulu_prefix_in(ps) == zulu_prefix_in(ps.take(k)),
    decreases ps.len() - k,
{
    if k < ps.len() {
        assert(ps.take(k + 1).drop_last() =~= ps.take(k));
        lemma_zulu_in_stays(ps, k + 1);
    } else {
        assert(ps.take(k) =~= ps);
    }
}

/// The Java runtime folder an entry lies in.
fn entry_zulu_prefix_exec(name: &str) -> (r: Option<String>)
    ensures
        ov(r) == entry_zulu_prefix(name@),
{
    proof {
        reveal_strlit("\\");
    }
    let n = crate::text::replace(name, "\\", "/");
    let pieces = split_char(n.as_str(), '/');
    let ghost ps = split_seq(n@, '/');
    let mut parts: Vec<String> = Vec::new();
    let mut i: usize = 0;
    while i < pieces.len()
        invariant
            i <= pieces.len(),
            pieces@.len() == ps.len(),
            forall|j: int| 0 <= j < pieces@.len() ==> #[trigger] pieces@[j]@ == ps[j],
            crate::model::strings_view(parts@) == non_empty(ps.take(i as int)),
        decreases pieces.len() - i,
    {
        assert(ps.take(i + 1).drop_last() =~= ps.take(i as int));
        assert(ps.take(i + 1).last() == pieces@[i as int]@);
        if !pieces[i].as_str().is_empty() {
            let ghost before = parts@;
            parts.push(owned(pieces[i].as_str()));
            assert(crate::model::strings_view(parts@) =~= crate::model::strings_view(before).push(pieces@[i as int]@));
        }
        i += 1;
    }
    assert(ps.take(pieces.len() as int) =~= ps);
    let ghost all = crate::model::strings_view(parts@);
    let mut k: usize = 0;
    assert(all.take(0) =~= Seq::<Seq<char>>::empty());
    while k < parts.len()
        invariant
            k <= parts@.len(),
            all == crate::model::strings_view(parts@),
            all == non_empty(split_seq(normalized_entry(name@), '/')),
            zulu_prefix_in(all.take(k as int)) is None,
        decreases parts@.len() - k,
    {
        assert(all.take(k + 1).drop_last() =~= all.take(k as int));
        assert(all.take(k + 1).last() == parts@[k as int]@);
        let c = parts[k].as_str();
        if crate::text::starts_with(c, "zulu-") && crate::text::contains(c, ".jre") {
            let ghost whole = parts@;
            parts.truncate(k + 1);
            assert(parts@ == whole.subrange(0, k as int + 1));
            let joined = crate::text::join_strings(&parts, "/");
            assert(parts@.map_values(|x: String| x@) =~= all.take(k as int + 1));
            assert(is_zulu_component(all.take(k as int + 1).last()));
            assert(zulu_prefix_in(all.take(k as int + 1)) == Some(crate::text::join_with(all.take(k as int + 1), "/"@) + "/"@));
            proof {
                lemma_zulu_in_stays(all, k as int + 1);
            }
            return Some(crate::text::concat2(joined.as_str(), "/"));
        }
        k += 1;
    }
    assert(all.take(k as int) =~= all);
    None
}

/// The Java runtime folder of an archive whose entries are named `names`, in order.
pub fn zulu_prefix(names: &Vec<String>) -> (r: Option<String>)
    ensures
        ov(r) == zulu_prefix_of(crate::model::strings_view(names@)),
{
    let ghost ns = crate::model::strings_view(names@);
    let mut i: usize = 0;
    while i < names.len()
        invariant
            i <= names@.len(),
            ns == crate::model::strings_view(names@),
            zulu_prefix_of(ns.take(i as int)) is None,
        decreases names@.len() - i,
    {
        assert(ns.take(i + 1).drop_last() =~= ns.take(i as int));
        assert(ns.take(i + 1).last() == names@[i as int]@);
        match entry_zulu_prefix_exec(names[i].as_str()) {
            Some(p) => {
                proof {
                    lemma_prefix_of_stays(ns, i as int + 1);
                }
                return Some(p);
            },
            None => {},
        }
        i += 1;
    }
    assert(ns.take(i as int) =~= ns);
    None
}

/// Once a prefix of the names finds a runtime folder, the whole list finds the same.
proof fn lemma_prefix_of_stays(ns: Seq<Seq<char>>, k: int)
    requires
        0 <= k <= ns.len(),
        zulu_prefix_of(ns.take(k)) is Some,
    ensures
        zulu_prefix_of(ns) == zulu_prefix_of(ns.take(k)),
    decreases ns.len() - k,
{
    if k < ns.len() {
        assert(ns.take(k + 1).drop_last() =~= ns.take(k));
        lemma_prefix_of_stays(ns, k + 1);
    } else {
        assert(ns.take(k) =~= ns);
    }
}

/// Whether a resource file is listed with its checksum: its extension, in ASCII lower
/// case, is `jar`, `zip` or `disable`.
pub open spec fn is_hashed_resource_seq(path: Seq<char>) -> bool {
    match crate::provision::path_extension(path) {
        Some(e) => {
            let l = crate::text::ascii_lower_seq(e);
            l == "jar"@ || l == "zip"@ || l == "disable"@
        },
        None => false,
    }
}

/// Whether a resource file is listed with its checksum.
pub fn is_hashed_resource(path: &str) -> (r: bool)
    ensures
        r == is_hashed_resource_seq(path@),
{
    match crate::provision::extension_of(path) {
        Some(e) => {
            let l = crate::text::to_ascii_lowercase(e.as_str());
            str_eq(l.as_str(), "jar") || str_eq(l.as_str(), "zip") || str_eq(l.as_str(), "disable")
        },
        None => false,
    }
}

/// Entries keyed by text, the keys taken by their view.
pub open spec fn keyed_view<V>(v: Seq<(String, V)>) -> Seq<(Seq<char>, V)> {
    v.map_values(|p: (String, V)| (p.0@, p.1))
}

/// Whether entries are in order of their key (their path).
pub open spec fn sorted_by_path<V>(s: Seq<(Seq<char>, V)>) -> bool {
    forall|a: int, b: int| 0 <= a < b < s.len() ==> !crate::versions::text_lt(#[trigger] s[b].0, #[trigger] s[a].0)
}

/// Puts `v` into entries kept in order of their path, after those whose path is not
/// greater.
fn insert_by_path<V>(r: &mut Vec<(String, V)>, v: (String, V))
    requires
        sorted_by_path(keyed_view(old(r)@)),
    ensures
        sorted_by_path(keyed_view(final(r)@)),
        keyed_view(final(r)@).to_multiset() == keyed_view(old(r)@).to_multiset().insert((v.0@, v.1)),
{
    let ghost s = keyed_view(r@);
    let ghost vv = (v.0@, v.1);
    let mut j: usize = 0;
    while j < r.len()
        invariant
            j <= r@.len(),
            s == keyed_view(r@),
            r@ == old(r)@,
            vv == (v.0@, v.1),
            forall|k: int| 0 <= k < j ==> !crate::versions::text_lt(vv.0, #[trigger] s[k].0),
        ensures
            j <= r@.len(),
            s == keyed_view(r@),
            r@ == old(r)@,
            forall|k: int| 0 <= k < j ==> !crate::versions::text_lt(vv.0, #[trigger] s[k].0),
            j < r@.len() ==> crate::versions::text_lt(vv.0, s[j as int].0),
        decreases r.len() - j,
    {
        assert(s[j as int].0 == r@[j as int].0@);
        if crate::versions::text_less(v.0.as_str(), r[j].0.as_str()) {
            break;
        }
        j += 1;
    }
    r.insert(j, v);
    let ghost t = keyed_view(r@);
    assert(t =~= s.insert(j as int, vv));
    assert forall|a: int, b: int| 0 <= a < b < t.len() implies !crate::versions::text_lt(#[trigger] t[b].0, #[trigger] t[a].0) by {
        if a == j as int {
            if crate::versions::text_lt(t[b].0, vv.0) {
                crate::versions::lemma_text_lt_transitive(t[b].0, vv.0, s[j as int].0);
                if b - 1 == j as int {
                    crate::versions::lemma_text_lt_irreflexive(s[j as int].0);
                }
            }
        }
    }
    proof {
        vstd::seq_lib::to_multiset_insert(s, j as int, vv);
    }
}

/// Entries keyed by path (the files of a directory with what is listed of each), put
/// in order of path.
pub fn sort_by_path<V>(entries: Vec<(String, V)>) -> (r: Vec<(String, V)>)
    ensures
        sorted_by_path(keyed_view(r@)),
        keyed_view(r@).to_multiset() == keyed_view(entries@).to_multiset(),
{
    let ghost all = keyed_view(entries@);
    let mut rest = entries;
    let mut out: Vec<(String, V)> = Vec::new();
    proof {
        assert(keyed_view(out@) =~= Seq::<(Seq<char>, V)>::empty());
        vstd::seq_lib::lemma_multiset_commutative(keyed_view(out@), all);
        assert(keyed_view(out@) + all =~= all);
    }
    while rest.len() > 0
        invariant
            sorted_by_path(keyed_view(out@)),
            keyed_view(out@).to_multiset().add(keyed_view(rest@).to_multiset()) == all.to_multiset(),
        decreases rest.len(),
    {
        let ghost before = keyed_view(rest@);
        let item = rest.pop().unwrap();
        proof {
            assert(before =~= keyed_view(rest@).push((item.0@, item.1)));
            vstd::seq_lib::to_multiset_build(keyed_view(rest@), (item.0@, item.1));
        }
        insert_by_path(&mut out, item);
    }
    proof {
        assert(keyed_view(rest@) =~= Seq::<(Seq<char>, V)>::empty());
    }
    out
}

} // verus!
