//! Setting up local servers: the server made from a creation request, and the console
//! settings written into `server.properties` before a start.

use vstd::prelude::*;
use crate::cli_args::ov;
use crate::error::{CoreError, CoreErrorView};
use crate::game::text_map_view;
use crate::model::{local_node_id_view, ConsoleMode, ServerInstance, ServerInstanceView, ServerType};
use crate::numbers::{i32_of, parse_i32};
use crate::registry::Registry;
use crate::text::{i64_to_decimal, is_blank, owned, trim_seq};

verus! {

/// Where the jar of a new server comes from: a jar on disk, or a download.
pub enum ServerCreateSource {
    CustomJar { source_path: String },
    Download { url: String, file_name: String, sha1: Option<String> },
}

/// A request to create a local server.
pub struct ServerCreateRequest {
    pub id: String,
    pub name: String,
    pub directory_name: String,
    pub icon_name: String,
    pub icon_image_file_name: Option<String>,
    pub server_type: ServerType,
    pub game_version: String,
    pub loader_version: String,
    pub launch_command: Option<String>,
    pub java_path: String,
    pub jvm_arguments: Option<String>,
    pub xms: Option<i32>,
    pub xmx: Option<i32>,
    pub console_mode: Option<ConsoleMode>,
    pub rcon_port: Option<i32>,
    pub rcon_password: Option<String>,
    pub accept_eula: bool,
    pub source: ServerCreateSource,
}

/// The last component of a Unix path (`Path::file_name`), when it has one (on Windows
/// `\\` separates too, and the result may differ).
pub uninterp spec fn path_file_name(p: Seq<char>) -> Option<Seq<char>>;

/// `std::path::Path::file_name`, read as text of a Unix path (on Windows `\\` would
/// separate too): the contract claims that the result is the named function of the path
/// and, as std documents a file name to be the last component, that it holds no `/`.
#[verifier::external_body]
pub(crate) fn file_name_of(path: &str) -> (r: Option<String>)
    ensures
        ov(r) == path_file_name(path@),
        r matches Some(n) ==> !n@.contains('/'),
{
    match std::path::Path::new(path).file_name() {
        Some(s) => Some(s.to_string_lossy().into_owned()),
        None => None,
    }
}

/// The jar a new server starts with: the custom jar's file name (`server.jar` when the
/// path has none), or the download's file name.
pub open spec fn initial_jar_seq(source: ServerCreateSource) -> Seq<char> {
    match source {
        ServerCreateSource::CustomJar { source_path } => match path_file_name(source_path@) {
            Some(n) => n,
            None => "server.jar"@,
        },
        ServerCreateSource::Download { file_name, .. } => file_name@,
    }
}

/// The text of an optional string, empty when absent.
pub open spec fn text_or_empty(o: Option<String>) -> Seq<char> {
    match o {
        Some(s) => s@,
        None => Seq::empty(),
    }
}

/// The server a creation request describes: refused when its id, name or directory is
/// blank; otherwise a new local server with the request's settings, the defaults (no
/// memory settings, RCON console on port 25575) filling what it leaves out.
pub open spec fn spec_server_from_request(req: ServerCreateRequest) -> Result<ServerInstanceView, CoreErrorView> {
    if trim_seq(req.id@).len() == 0 || trim_seq(req.name@).len() == 0 || trim_seq(req.directory_name@).len() == 0 {
        Err(CoreErrorView::Validation("server create request is missing required fields"@))
    } else {
        Ok(
            ServerInstanceView {
                id: req.id@,
                name: req.name@,
                directory_name: req.directory_name@,
                icon_name: req.icon_name@,
                icon_image_file_name: ov(req.icon_image_file_name),
                server_type: req.server_type,
                game_version: req.game_version@,
                loader_version: req.loader_version@,
                server_jar: initial_jar_seq(req.source),
                launch_command: text_or_empty(req.launch_command),
                last_played_bits: 0,
                java_path: req.java_path@,
                jvm_arguments: text_or_empty(req.jvm_arguments),
                xms: match req.xms {
                    Some(v) => v,
                    None => 0,
                },
                xmx: match req.xmx {
                    Some(v) => v,
                    None => 0,
                },
                node_id: local_node_id_view(),
                console_mode: match req.console_mode {
                    Some(m) => m,
                    None => ConsoleMode::Rcon,
                },
                rcon_port: match req.rcon_port {
                    Some(p) => p,
                    None => 25575,
                },
                rcon_password: text_or_empty(req.rcon_password),
            },
        )
    }
}

/// The owned text of an optional string, empty when absent.
fn owned_or_empty(o: &Option<String>) -> (r: String)
    ensures
        r@ == text_or_empty(*o),
{
    match o {
        Some(s) => owned(s.as_str()),
        None => String::new(),
    }
}

/// The server a creation request describes.
pub fn server_from_create_request(request: &ServerCreateRequest) -> (r: Result<ServerInstance, CoreError>)
    ensures
        match r {
            Ok(s) => spec_server_from_request(*request) == Ok::<ServerInstanceView, CoreErrorView>(s@),
            Err(e) => spec_server_from_request(*request) == Err::<ServerInstanceView, CoreErrorView>(e@),
        },
{
    if is_blank(request.id.as_str()) || is_blank(request.name.as_str()) || is_blank(request.directory_name.as_str()) {
        return Err(CoreError::Validation(owned("server create request is missing required fields")));
    }
    let initial_jar = match &request.source {
        ServerCreateSource::CustomJar { source_path } => match file_name_of(source_path.as_str()) {
            Some(n) => n,
            None => owned("server.jar"),
        },
        ServerCreateSource::Download { file_name, .. } => owned(file_name.as_str()),
    };
    let mut server = ServerInstance::new(
        request.id.as_str(),
        request.name.as_str(),
        request.directory_name.as_str(),
        request.server_type,
        request.game_version.as_str(),
        initial_jar.as_str(),
    );
    server.icon_name = owned(request.icon_name.as_str());
    server.icon_image_file_name = crate::model::clone_opt_string(&request.icon_image_file_name);
    server.loader_version = owned(request.loader_version.as_str());
    server.launch_command = owned_or_empty(&request.launch_command);
    server.java_path = owned(request.java_path.as_str());
    server.jvm_arguments = owned_or_empty(&request.jvm_arguments);
    server.xms = match request.xms {
        Some(v) => v,
        None => 0,
    };
    server.xmx = match request.xmx {
        Some(v) => v,
        None => 0,
    };
    server.console_mode = match request.console_mode {
        Some(m) => m,
        None => ConsoleMode::Rcon,
    };
    server.rcon_port = match request.rcon_port {
        Some(p) => p,
        None => 25575,
    };
    server.rcon_password = owned_or_empty(&request.rcon_password);
    Ok(server)
}

/// The properties with the console settings of a local start: RCON off, the server's
/// RCON port, and its RCON password when it has one.
pub open spec fn console_properties_seq(
    props: Map<Seq<char>, Seq<char>>,
    rcon_port: int,
    rcon_password: Seq<char>,
) -> Map<Seq<char>, Seq<char>> {
    let m = props.insert("enable-rcon"@, "false"@).insert("rcon.port"@, crate::text::int_decimal(rcon_port));
    if rcon_password.len() > 0 {
        m.insert("rcon.password"@, rcon_password)
    } else {
        m
    }
}

/// Writes the console settings of a local start into a server's properties.
pub fn apply_local_console_properties(properties: &mut Registry<String>, server: &ServerInstance)
    requires
        old(properties).wf(),
    ensures
        final(properties).wf(),
        text_map_view(final(properties).map()) == console_properties_seq(
            text_map_view(old(properties).map()),
            server.rcon_port as int,
            server.rcon_password@,
        ),
{
    let ghost start = text_map_view(properties.map());
    let ghost m1 = properties.map();
    properties.insert(owned("enable-rcon"), owned("false"));
    assert(text_map_view(properties.map()) =~= text_map_view(m1).insert("enable-rcon"@, "false"@));
    let port = i64_to_decimal(server.rcon_port as i64);
    let ghost m2 = properties.map();
    let ghost port_text = port@;
    properties.insert(owned("rcon.port"), port);
    assert(text_map_view(properties.map()) =~= text_map_view(m2).insert("rcon.port"@, port_text));
    if !server.rcon_password.as_str().is_empty() {
        let ghost m3 = properties.map();
        properties.insert(owned("rcon.password"), owned(server.rcon_password.as_str()));
        assert(text_map_view(properties.map()) =~= text_map_view(m3).insert("rcon.password"@, server.rcon_password@));
    }
}

/// The port a server listens on: its `server-port` property when that reads as an
/// `i32`, otherwise 25565.
pub open spec fn server_port_seq(props: Map<Seq<char>, Seq<char>>) -> int {
    if props.contains_key("server-port"@) {
        match i32_of(props["server-port"@]) {
            Some(p) => p,
            None => 25565,
        }
    } else {
        25565
    }
}

/// The port a server listens on, from its properties.
pub fn server_port(properties: &Registry<String>) -> (r: i32)
    requires
        properties.wf(),
    ensures
        r as int == server_port_seq(text_map_view(properties.map())),
{
    match properties.get("server-port") {
        Some(value) => match parse_i32(value.as_str()) {
            Ok(p) => p,
            Err(_) => 25565,
        },
        None => 25565,
    }
}

// ---------------------------------------------------------------------------
// Server artifacts
// ---------------------------------------------------------------------------

/// The extension of a file name (`Path::extension`): what follows its last `.`; none
/// when it has no `.`, or only a leading one.
pub open spec fn extension_seq(name: Seq<char>) -> Option<Seq<char>> {
    match crate::text::last_occurrence(name, "."@) {
        Some(i) => if i == 0 {
            None
        } else {
            Some(name.skip(i + 1))
        },
        None => None,
    }
}

/// The extension of a path's last component.
pub open spec fn path_extension(p: Seq<char>) -> Option<Seq<char>> {
    match path_file_name(p) {
        Some(n) => extension_seq(n),
        None => None,
    }
}

/// The extension of a path's last component, if it has one.
pub fn extension_of(path: &str) -> (r: Option<String>)
    ensures
        ov(r) == path_extension(path@),
        r matches Some(e) ==> !e@.contains('/'),
{
    let name = match file_name_of(path) {
        Some(n) => n,
        None => return None,
    };
    let cs = crate::text::chars_of(name.as_str());
    let dot = crate::text::chars_of(".");
    proof {
        reveal_strlit(".");
        assert(dot@.len() == 1);
    }
    let n = cs.len();
    match crate::text::rfind(&cs, &dot) {
        Some(i) => if i == 0 {
            None
        } else {
            let e = crate::text::string_of_range(&cs, i + 1, n);
            proof {
                assert forall|k: int| 0 <= k < e@.len() implies e@[k] != '/' by {
                    assert(e@[k] == name@[i + 1 + k]);
                    if e@[k] == '/' {
                        assert(name@.contains('/'));
                    }
                }
            }
            Some(e)
        },
        None => None,
    }
}

/// Whether a path's extension is `ext`, ignoring ASCII case (`ext` is lowercase).
pub open spec fn has_extension(p: Seq<char>, ext: Seq<char>) -> bool {
    match path_extension(p) {
        Some(e) => crate::text::ascii_lower_seq(e) == ext,
        None => false,
    }
}

/// Whether a path's extension is `ext`, ignoring ASCII case.
fn extension_is(path: &str, ext: &str) -> (r: bool)
    requires
        crate::text::ascii_lower_seq(ext@) == ext@,
    ensures
        r == has_extension(path@, ext@),
{
    match extension_of(path) {
        Some(e) => {
            let lower = crate::text::to_ascii_lowercase(e.as_str());
            crate::text::str_eq(lower.as_str(), ext)
        },
        None => false,
    }
}

/// Whether a downloaded artifact is a zip archive, to be unpacked.
pub fn artifact_is_zip(path: &str) -> (r: bool)
    ensures
        r == has_extension(path@, "zip"@),
{
    proof {
        reveal_strlit("zip");
        assert(crate::text::ascii_lower_seq("zip"@) =~= "zip"@);
    }
    extension_is(path, "zip")
}

/// Whether a file found in an unpacked archive is a jar.
pub fn is_jar_file(path: &str) -> (r: bool)
    ensures
        r == has_extension(path@, "jar"@),
{
    proof {
        reveal_strlit("jar");
        assert(crate::text::ascii_lower_seq("jar"@) =~= "jar"@);
    }
    extension_is(path, "jar")
}

/// The name a downloaded artifact that is no archive is kept under: its file name;
/// refused when the path has none.
pub fn downloaded_jar_name(path: &str) -> (r: Result<String, CoreError>)
    ensures
        match r {
            Ok(n) => path_file_name(path@) == Some(n@),
            Err(e) => path_file_name(path@) is None
                && e@ == CoreErrorView::Runtime("downloaded artifact does not have a file name"@),
        },
{
    match file_name_of(path) {
        Some(n) => Ok(n),
        None => Err(CoreError::runtime("downloaded artifact does not have a file name")),
    }
}

/// The name a custom jar is copied under: its file name; refused when the path has
/// none.
pub fn custom_jar_name(source_path: &str) -> (r: Result<String, CoreError>)
    ensures
        match r {
            Ok(n) => path_file_name(source_path@) == Some(n@),
            Err(e) => path_file_name(source_path@) is None
                && e@ == CoreErrorView::Validation("custom jar path does not have a file name"@),
        },
{
    match file_name_of(source_path) {
        Some(n) => Ok(n),
        None => Err(CoreError::validation("custom jar path does not have a file name")),
    }
}

/// The jar an unpacked archive starts a server with: the first of the jars found, in
/// the order of their relative paths; refused when there is none.
pub fn extracted_server_jar(jars: &Vec<String>) -> (r: Result<String, CoreError>)
    ensures
        match r {
            Ok(j) => crate::model::strings_view(jars@).contains(j@)
                && forall|k: int| 0 <= k < jars@.len() ==> !crate::versions::text_lt(#[trigger] jars@[k]@, j@),
            Err(e) => jars@.len() == 0
                && e@ == CoreErrorView::Runtime("zip archive did not contain a server jar"@),
        },
{
    if jars.len() == 0 {
        return Err(CoreError::runtime("zip archive did not contain a server jar"));
    }
    let mut best: usize = 0;
    let mut i: usize = 1;
    proof {
        crate::versions::lemma_text_lt_irreflexive(jars@[0]@);
    }
    while i < jars.len()
        invariant
            1 <= i <= jars@.len(),
            best < i,
            forall|k: int| 0 <= k < i ==> !crate::versions::text_lt(#[trigger] jars@[k]@, jars@[best as int]@),
        decreases jars@.len() - i,
    {
        if crate::versions::text_less(jars[i].as_str(), jars[best].as_str()) {
            proof {
                assert forall|k: int| 0 <= k < i + 1 implies !crate::versions::text_lt(#[trigger] jars@[k]@, jars@[i as int]@) by {
                    if k < i {
                        if crate::versions::text_lt(jars@[k]@, jars@[i as int]@) {
                            crate::versions::lemma_text_lt_transitive(jars@[k]@, jars@[i as int]@, jars@[best as int]@);
                        }
                    } else {
                        crate::versions::lemma_text_lt_irreflexive(jars@[i as int]@);
                    }
                }
            }
            best = i;
        }
        i = i + 1;
    }
    assert(crate::model::strings_view(jars@)[best as int] == jars@[best as int]@);
    Ok(owned(jars[best].as_str()))
}

/// Whether every name is that of a server icon (`.scsl-server-icon.*`).
pub open spec fn only_icons(names: Seq<String>) -> bool {
    forall|k: int| 0 <= k < names.len() ==> crate::text::has_prefix(#[trigger] names[k]@, ".scsl-server-icon."@)
}

/// Whether a directory made before a server is created may be used for it: everything
/// in it is a server icon (`.scsl-server-icon.*`).
pub fn precreated_directory_allowed(entry_names: &Vec<String>) -> (r: bool)
    ensures
        r == only_icons(entry_names@),
{
    let mut i: usize = 0;
    while i < entry_names.len()
        invariant
            i <= entry_names@.len(),
            forall|k: int| 0 <= k < i ==> crate::text::has_prefix(#[trigger] entry_names@[k]@, ".scsl-server-icon."@),
        decreases entry_names@.len() - i,
    {
        if !crate::text::starts_with(entry_names[i].as_str(), ".scsl-server-icon.") {
            return false;
        }
        i = i + 1;
    }
    true
}

/// Whether a new server may use its directory: it must not exist yet, or hold nothing
/// but server icons; otherwise the creation is refused naming the directory.
pub fn check_server_directory(dir_exists: bool, entry_names: &Vec<String>, directory_name: &str) -> (r: Result<(), CoreError>)
    ensures
        r is Ok <==> (!dir_exists || only_icons(entry_names@)),
        r matches Err(e) ==> e@ == CoreErrorView::Validation("server directory already exists: "@ + directory_name@),
{
    if dir_exists && !precreated_directory_allowed(entry_names) {
        return Err(CoreError::Validation(crate::text::concat2("server directory already exists: ", directory_name)));
    }
    Ok(())
}


/// A creation request is refused exactly when its id, name or directory is blank, and a
/// server made from it keeps what it asks for: its id, name, directory, kind, game
/// version and Java path, and each heap size, console mode, RCON port, RCON password,
/// launch command and JVM argument text that it gives. The defaults (no heap sizes, the
/// RCON console on port 25575, empty texts) apply only to what the request leaves out,
/// and the server runs on the local node.
pub proof fn lemma_created_server_keeps_request(req: ServerCreateRequest)
    ensures
        spec_server_from_request(req) is Err <==> (trim_seq(req.id@).len() == 0 || trim_seq(
            req.name@,
        ).len() == 0 || trim_seq(req.directory_name@).len() == 0),
        match spec_server_from_request(req) {
            Ok(s) => {
                &&& s.id == req.id@
                &&& s.name == req.name@
                &&& s.directory_name == req.directory_name@
                &&& s.server_type == req.server_type
                &&& s.game_version == req.game_version@
                &&& s.java_path == req.java_path@
                &&& req.xms is Some ==> req.xms == Some(s.xms)
                &&& req.xms is None ==> s.xms == 0
                &&& req.xmx is Some ==> req.xmx == Some(s.xmx)
                &&& req.xmx is None ==> s.xmx == 0
                &&& req.console_mode is Some ==> req.console_mode == Some(s.console_mode)
                &&& req.console_mode is None ==> s.console_mode == ConsoleMode::Rcon
                &&& req.rcon_port is Some ==> req.rcon_port == Some(s.rcon_port)
                &&& req.rcon_port is None ==> s.rcon_port == 25575
                &&& req.rcon_password is None ==> s.rcon_password.len() == 0
                &&& req.launch_command is None ==> s.launch_command.len() == 0
                &&& req.jvm_arguments is None ==> s.jvm_arguments.len() == 0
                &&& forall|t: String| req.rcon_password == Some(t) ==> s.rcon_password == t@
                &&& forall|t: String| req.launch_command == Some(t) ==> s.launch_command == t@
                &&& forall|t: String| req.jvm_arguments == Some(t) ==> s.jvm_arguments == t@
                &&& s.node_id == local_node_id_view()
            },
            Err(_) => true,
        },
{
}

} // verus!
