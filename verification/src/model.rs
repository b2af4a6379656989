//! The server model: server instances, their kinds, statuses and log snapshots.

use vstd::prelude::*;
use crate::text::{owned, str_eq};

verus! {

/// The kind of server software an instance runs.
#[derive(Debug, Clone, Copy, PartialEq, Eq, Structural)]
pub enum ServerType {
    Vanilla,
    Fabric,
    Forge,
    Paper,
    Custom,
}

/// How console commands reach a running server.
#[derive(Debug, Clone, Copy, PartialEq, Eq, Structural)]
pub enum ConsoleMode {
    Direct,
    Rcon,
}

/// The run state of a server.
#[derive(Debug, Clone, Copy, PartialEq, Eq, Structural)]
pub enum ServerStatus {
    Stopped,
    Running,
    Starting,
    Stopping,
}

/// Optional initial and maximal heap sizes, in megabytes.
#[derive(Debug, Clone, Copy, PartialEq, Eq, Default)]
pub struct MemorySettings {
    pub xms_mb: Option<u32>,
    pub xmx_mb: Option<u32>,
}

/// A configured server.
///
/// The last-played time, seconds since the Unix epoch as an IEEE-754 double, is kept as
/// the double's bit pattern in `last_played_bits`; nothing in this library reads it.
#[derive(Debug, PartialEq)]
pub struct ServerInstance {
    pub id: String,
    pub name: String,
    pub directory_name: String,
    pub icon_name: String,
    pub icon_image_file_name: Option<String>,
    pub server_type: ServerType,
    pub game_version: String,
    pub loader_version: String,
    pub server_jar: String,
    pub launch_command: String,
    pub last_played_bits: u64,
    pub java_path: String,
    pub jvm_arguments: String,
    pub xms: i32,
    pub xmx: i32,
    pub node_id: String,
    pub console_mode: ConsoleMode,
    pub rcon_port: i32,
    pub rcon_password: String,
}

/// The mathematical form of a [`ServerInstance`].
pub struct ServerInstanceView {
    pub id: Seq<char>,
    pub name: Seq<char>,
    pub directory_name: Seq<char>,
    pub icon_name: Seq<char>,
    pub icon_image_file_name: Option<Seq<char>>,
    pub server_type: ServerType,
    pub game_version: Seq<char>,
    pub loader_version: Seq<char>,
    pub server_jar: Seq<char>,
    pub launch_command: Seq<char>,
    pub last_played_bits: u64,
    pub java_path: Seq<char>,
    pub jvm_arguments: Seq<char>,
    pub xms: i32,
    pub xmx: i32,
    pub node_id: Seq<char>,
    pub console_mode: ConsoleMode,
    pub rcon_port: i32,
    pub rcon_password: Seq<char>,
}

/// The view of an optional string.
pub open spec fn opt_view(o: Option<String>) -> Option<Seq<char>> {
    match o {
        Some(s) => Some(s@),
        None => None,
    }
}

impl View for ServerInstance {
    type V = ServerInstanceView;

    open spec fn view(&self) -> ServerInstanceView {
        ServerInstanceView {
            id: self.id@,
            name: self.name@,
            directory_name: self.directory_name@,
            icon_name: self.icon_name@,
            icon_image_file_name: opt_view(self.icon_image_file_name),
            server_type: self.server_type,
            game_version: self.game_version@,
            loader_version: self.loader_version@,
            server_jar: self.server_jar@,
            launch_command: self.launch_command@,
            last_played_bits: self.last_played_bits,
            java_path: self.java_path@,
            jvm_arguments: self.jvm_arguments@,
            xms: self.xms,
            xmx: self.xmx,
            node_id: self.node_id@,
            console_mode: self.console_mode,
            rcon_port: self.rcon_port,
            rcon_password: self.rcon_password@,
        }
    }
}

/// The identifier of the local node, on which this library runs servers.
pub const LOCAL_NODE_ID: &'static str = "00000000-0000-0000-0000-000000000001";

/// The view of the local node's identifier.
pub open spec fn local_node_id_view() -> Seq<char> {
    LOCAL_NODE_ID@
}

/// Whether a server runs on the local node.
pub open spec fn server_is_local(s: ServerInstanceView) -> bool {
    s.node_id == local_node_id_view()
}

/// The icon name a new server gets.
pub fn default_icon_name() -> (r: String)
    ensures
        r@ == "server.rack"@,
{
    owned("server.rack")
}

/// The node identifier a new server gets: the local node.
pub fn default_local_node_id() -> (r: String)
    ensures
        r@ == local_node_id_view(),
{
    owned(LOCAL_NODE_ID)
}

/// The console mode a new server gets.
pub fn default_console_mode() -> (r: ConsoleMode)
    ensures
        r == ConsoleMode::Rcon,
{
    ConsoleMode::Rcon
}

/// The RCON port a new server gets.
pub fn default_rcon_port() -> (r: i32)
    ensures
        r == 25575,
{
    25575
}

/// A copy of an optional string.
pub fn clone_opt_string(o: &Option<String>) -> (r: Option<String>)
    ensures
        opt_view(r) == opt_view(*o),
{
    match o {
        Some(s) => Some(owned(s.as_str())),
        None => None,
    }
}

impl ServerInstance {
    /// A new local server with the given identity, kind, game version and jar, and the
    /// defaults for every other setting.
    pub fn new(
        id: &str,
        name: &str,
        directory_name: &str,
        server_type: ServerType,
        game_version: &str,
        server_jar: &str,
    ) -> (s: ServerInstance)
        ensures
            s@ == (ServerInstanceView {
                id: id@,
                name: name@,
                directory_name: directory_name@,
                icon_name: "server.rack"@,
                icon_image_file_name: None,
                server_type,
                game_version: game_version@,
                loader_version: Seq::empty(),
                server_jar: server_jar@,
                launch_command: Seq::empty(),
                last_played_bits: 0,
                java_path: Seq::empty(),
                jvm_arguments: Seq::empty(),
                xms: 0,
                xmx: 0,
                node_id: local_node_id_view(),
                console_mode: ConsoleMode::Rcon,
                rcon_port: 25575,
                rcon_password: Seq::empty(),
            }),
    {
        ServerInstance {
            id: owned(id),
            name: owned(name),
            directory_name: owned(directory_name),
            icon_name: default_icon_name(),
            icon_image_file_name: None,
            server_type,
            game_version: owned(game_version),
            loader_version: String::new(),
            server_jar: owned(server_jar),
            launch_command: String::new(),
            last_played_bits: 0,
            java_path: String::new(),
            jvm_arguments: String::new(),
            xms: 0,
            xmx: 0,
            node_id: default_local_node_id(),
            console_mode: default_console_mode(),
            rcon_port: default_rcon_port(),
            rcon_password: String::new(),
        }
    }

    /// Whether the server runs on the local node.
    pub fn is_local(&self) -> (r: bool)
        ensures
            r == server_is_local(self@),
    {
        str_eq(self.node_id.as_str(), LOCAL_NODE_ID)
    }

    /// A copy of the server.
    pub fn duplicate(&self) -> (r: ServerInstance)
        ensures
            r@ == self@,
    {
        ServerInstance {
            id: owned(self.id.as_str()),
            name: owned(self.name.as_str()),
            directory_name: owned(self.directory_name.as_str()),
            icon_name: owned(self.icon_name.as_str()),
            icon_image_file_name: clone_opt_string(&self.icon_image_file_name),
            server_type: self.server_type,
            game_version: owned(self.game_version.as_str()),
            loader_version: owned(self.loader_version.as_str()),
            server_jar: owned(self.server_jar.as_str()),
            launch_command: owned(self.launch_command.as_str()),
            last_played_bits: self.last_played_bits,
            java_path: owned(self.java_path.as_str()),
            jvm_arguments: owned(self.jvm_arguments.as_str()),
            xms: self.xms,
            xmx: self.xmx,
            node_id: owned(self.node_id.as_str()),
            console_mode: self.console_mode,
            rcon_port: self.rcon_port,
            rcon_password: owned(self.rcon_password.as_str()),
        }
    }
}

/// A server as stored, before defaults are given to the fields it may leave out.
pub struct ServerRecord {
    pub id: String,
    pub name: String,
    pub directory_name: Option<String>,
    pub icon_name: Option<String>,
    pub icon_image_file_name: Option<String>,
    pub server_type: ServerType,
    pub game_version: String,
    pub loader_version: Option<String>,
    pub server_jar: String,
    pub launch_command: Option<String>,
    pub last_played_bits: Option<u64>,
    pub java_path: Option<String>,
    pub jvm_arguments: Option<String>,
    pub xms: Option<i32>,
    pub xmx: Option<i32>,
    pub node_id: Option<String>,
    pub console_mode: Option<ConsoleMode>,
    pub rcon_port: Option<i32>,
    pub rcon_password: Option<String>,
}

/// An optional text, or `d` when absent.
pub open spec fn text_or(o: Option<String>, d: Seq<char>) -> Seq<char> {
    match o {
        Some(s) => s@,
        None => d,
    }
}

/// An optional value, or `d` when absent.
pub open spec fn or_default<T>(o: Option<T>, d: T) -> T {
    match o {
        Some(v) => v,
        None => d,
    }
}

/// The server a stored record describes: the directory defaults to the name, the icon
/// to `server.rack`, the node to the local one, the console to RCON on port 25575, and
/// every other left-out field to empty text or zero.
pub open spec fn record_view(r: ServerRecord) -> ServerInstanceView {
    ServerInstanceView {
        id: r.id@,
        name: r.name@,
        directory_name: text_or(r.directory_name, r.name@),
        icon_name: text_or(r.icon_name, "server.rack"@),
        icon_image_file_name: opt_view(r.icon_image_file_name),
        server_type: r.server_type,
        game_version: r.game_version@,
        loader_version: text_or(r.loader_version, Seq::empty()),
        server_jar: r.server_jar@,
        launch_command: text_or(r.launch_command, Seq::empty()),
        last_played_bits: or_default(r.last_played_bits, 0u64),
        java_path: text_or(r.java_path, Seq::empty()),
        jvm_arguments: text_or(r.jvm_arguments, Seq::empty()),
        xms: or_default(r.xms, 0i32),
        xmx: or_default(r.xmx, 0i32),
        node_id: text_or(r.node_id, local_node_id_view()),
        console_mode: or_default(r.console_mode, ConsoleMode::Rcon),
        rcon_port: or_default(r.rcon_port, 25575i32),
        rcon_password: text_or(r.rcon_password, Seq::empty()),
    }
}

/// A text, or empty text.
fn text_or_empty(o: Option<String>) -> (r: String)
    ensures
        r@ == text_or(o, Seq::empty()),
{
    match o {
        Some(s) => s,
        None => String::new(),
    }
}

impl ServerInstance {
    /// The server a stored record describes, with defaults for what it leaves out.
    pub fn from_record(record: ServerRecord) -> (s: ServerInstance)
        ensures
            s@ == record_view(record),
    {
        let ghost rv = record_view(record);
        let directory_name = match record.directory_name {
            Some(d) => d,
            None => owned(record.name.as_str()),
        };
        let icon_name = match record.icon_name {
            Some(i) => i,
            None => default_icon_name(),
        };
        let node_id = match record.node_id {
            Some(n) => n,
            None => default_local_node_id(),
        };
        let console_mode = match record.console_mode {
            Some(c) => c,
            None => default_console_mode(),
        };
        let rcon_port = match record.rcon_port {
            Some(p) => p,
            None => default_rcon_port(),
        };
        let s = ServerInstance {
            id: record.id,
            name: record.name,
            directory_name,
            icon_name,
            icon_image_file_name: record.icon_image_file_name,
            server_type: record.server_type,
            game_version: record.game_version,
            loader_version: text_or_empty(record.loader_version),
            server_jar: record.server_jar,
            launch_command: text_or_empty(record.launch_command),
            last_played_bits: match record.last_played_bits {
                Some(b) => b,
                None => 0,
            },
            java_path: text_or_empty(record.java_path),
            jvm_arguments: text_or_empty(record.jvm_arguments),
            xms: match record.xms {
                Some(v) => v,
                None => 0,
            },
            xmx: match record.xmx {
                Some(v) => v,
                None => 0,
            },
            node_id,
            console_mode,
            rcon_port,
            rcon_password: text_or_empty(record.rcon_password),
        };
        assert(s@ == rv);
        s
    }
}

/// How many of the most recent log lines to read.
#[derive(Debug, Clone, Copy, PartialEq, Eq)]
pub struct LogQuery {
    pub max_lines: usize,
}

impl LogQuery {
    /// A query for the last `max_lines` lines.
    pub fn tail(max_lines: usize) -> (q: LogQuery)
        ensures
            q.max_lines == max_lines,
    {
        LogQuery { max_lines }
    }
}

/// A server's status together with some of its log lines.
#[derive(Debug, Clone, PartialEq, Eq)]
pub struct LogSnapshot {
    pub status: ServerStatus,
    pub lines: Vec<String>,
}

/// The views of a vector of strings.
pub open spec fn strings_view(v: Seq<String>) -> Seq<Seq<char>> {
    v.map_values(|s: String| s@)
}

} // verus!
