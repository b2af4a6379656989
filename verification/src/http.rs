//! The HTTP service's own rules: status codes for errors, defaults of its requests,
//! the summary of a server, and the lines sent to a console stream.

use vstd::prelude::*;
use crate::error::{error_message, CoreError, CoreErrorView};
use crate::numbers::{parse_u16, u16_of, u16_parse_error_text};
use crate::text::concat2;
use crate::model::{strings_view, ServerInstance, ServerType};
use crate::saves::non_empty;
use crate::store::{app_data_dir_of, db_path_of, platform_paths, HostPlatform, PlatformEnv};
use crate::text::{owned, split_char, split_seq, str_eq, trim_end, trim_end_ws};

verus! {

/// The HTTP status code an error is answered with: 400 for a refused request, 404 for
/// something missing, 501 for something unsupported, 500 otherwise.
pub open spec fn status_of(e: CoreErrorView) -> int {
    match e {
        CoreErrorView::Validation(_) => 400,
        CoreErrorView::NotFound { .. } => 404,
        CoreErrorView::Unsupported(_) => 501,
        CoreErrorView::Storage(_) => 500,
        CoreErrorView::Runtime(_) => 500,
    }
}

/// The HTTP status code an error is answered with.
pub fn http_status(e: &CoreError) -> (r: u16)
    ensures
        r as int == status_of(e@),
{
    match e {
        CoreError::Validation(_) => 400,
        CoreError::NotFound { .. } => 404,
        CoreError::Unsupported(_) => 501,
        CoreError::Storage(_) => 500,
        CoreError::Runtime(_) => 500,
    }
}

/// The host the service listens on by default.
pub fn default_host() -> (r: String)
    ensures
        r@ == "127.0.0.1"@,
{
    owned("127.0.0.1")
}

/// The port the service listens on by default.
pub fn default_port() -> (r: u16)
    ensures
        r == 31800,
{
    31800
}

/// The name the service gives in its health answer.
pub fn service_name() -> (r: &'static str)
    ensures
        r@ == "scsl-http"@,
{
    "scsl-http"
}

/// How many log lines are answered: those asked for, else 200.
pub fn log_lines_or_default(lines: Option<usize>) -> (r: usize)
    ensures
        r == match lines {
            Some(n) => n,
            None => 200,
        },
{
    match lines {
        Some(n) => n,
        None => 200,
    }
}

/// What a server is listed with.
pub struct ServerSummary {
    pub id: String,
    pub name: String,
    pub directory_name: String,
    pub server_type: ServerType,
    pub game_version: String,
    pub node_id: String,
}

/// What a server is listed with: its id, name, directory, type, game version and node.
pub fn server_summary(server: ServerInstance) -> (r: ServerSummary)
    ensures
        r.id == server.id,
        r.name == server.name,
        r.directory_name == server.directory_name,
        r.server_type == server.server_type,
        r.game_version == server.game_version,
        r.node_id == server.node_id,
{
    ServerSummary {
        id: server.id,
        name: server.name,
        directory_name: server.directory_name,
        server_type: server.server_type,
        game_version: server.game_version,
        node_id: server.node_id,
    }
}

/// The non-empty lines of `input`, without trailing whitespace.
pub open spec fn split_lines_seq(input: Seq<char>) -> Seq<Seq<char>> {
    non_empty(split_seq(input, '\n').map_values(|l: Seq<char>| trim_end_ws(l)))
}

/// The non-empty lines of `input`, without trailing whitespace.
pub fn split_lines(input: &str) -> (r: Vec<String>)
    ensures
        strings_view(r@) == split_lines_seq(input@),
{
    let pieces = split_char(input, '\n');
    let ghost ts = split_seq(input@, '\n').map_values(|l: Seq<char>| trim_end_ws(l));
    let mut lines: Vec<String> = Vec::new();
    let mut i: usize = 0;
    while i < pieces.len()
        invariant
            i <= pieces.len(),
            pieces@.len() == ts.len(),
            ts == split_seq(input@, '\n').map_values(|l: Seq<char>| trim_end_ws(l)),
            forall|j: int| 0 <= j < pieces@.len() ==> #[trigger] pieces@[j]@ == split_seq(input@, '\n')[j],
            strings_view(lines@) == non_empty(ts.take(i as int)),
        decreases pieces.len() - i,
    {
        let t = trim_end(pieces[i].as_str());
        assert(ts.take(i + 1).drop_last() =~= ts.take(i as int));
        assert(ts.take(i + 1).last() == t@);
        if !t.as_str().is_empty() {
            let ghost before = lines@;
            lines.push(t);
            assert(strings_view(lines@) =~= strings_view(before).push(ts[i as int]));
        }
        i += 1;
    }
    assert(ts.take(pieces.len() as int) =~= ts);
    lines
}

/// A player list file's text as read: a missing or unreadable file reads as an empty
/// list; other errors stay.
pub fn player_list_or_empty(read: Result<String, CoreError>) -> (r: Result<String, CoreError>)
    ensures
        match read {
            Ok(s) => r == Ok::<String, CoreError>(s),
            Err(e) => match e {
                CoreError::NotFound { .. } | CoreError::Runtime(_) => r matches Ok(s) && s@ == "[]"@,
                _ => r matches Err(e2) && e2@ == e@,
            },
        },
{
    match read {
        Ok(s) => Ok(s),
        Err(CoreError::NotFound { .. }) => Ok(owned("[]")),
        Err(CoreError::Runtime(_)) => Ok(owned("[]")),
        Err(e) => Err(e),
    }
}

/// The service's state: the database and working directory it serves.
pub struct AppState {
    pub db_path: String,
    pub working_path: String,
}

impl AppState {
    /// The state for the platform's usual paths.
    pub fn for_platform(platform: HostPlatform, env: &PlatformEnv) -> (r: Result<AppState, CoreError>)
        ensures
            match r {
                Ok(s) => app_data_dir_of(platform, *env) == Ok::<Seq<char>, CoreErrorView>(s.working_path@)
                    && s.db_path@ == db_path_of(s.working_path@),
                Err(e) => app_data_dir_of(platform, *env) == Err::<Seq<char>, CoreErrorView>(e@),
            },
    {
        let paths = platform_paths(platform, env)?;
        Ok(AppState { db_path: paths.db_path, working_path: paths.working_path })
    }
}

/// An error answered over HTTP.
pub struct HttpError(pub CoreError);

impl HttpError {
    /// The status code and the `error` text of the answer.
    pub fn answer(&self) -> (r: (u16, String))
        ensures
            r.0 as int == status_of(self.0@),
            r.1@ == error_message(self.0@),
    {
        (http_status(&self.0), self.0.message())
    }
}

/// Where the service listens.
pub struct ListenAddressArgs {
    pub host: String,
    pub port: u16,
}

/// What the service's command line asks for: to listen, or to print its usage.
pub enum ListenRequest {
    Listen(ListenAddressArgs),
    Help,
}

/// The view of a [`ListenRequest`]: `Some((host, port))` to listen, `None` for usage.
pub open spec fn listen_request_view(r: ListenRequest) -> Option<(Seq<char>, int)> {
    match r {
        ListenRequest::Listen(a) => Some((a.host@, a.port as int)),
        ListenRequest::Help => None,
    }
}

/// The service's command line read from its arguments, with `host` and `port` as read
/// so far: `--host` and `--port` take the next argument, `--help` or `-h` asks for the
/// usage at once; anything else, a missing value or a port that is not a `u16` is an
/// error with its message.
pub open spec fn listen_args_seq(args: Seq<Seq<char>>, host: Seq<char>, port: int) -> Result<Option<(Seq<char>, int)>, Seq<char>>
    decreases args.len(),
{
    if args.len() == 0 {
        Ok(Some((host, port)))
    } else if args[0] == "--host"@ {
        if args.len() < 2 {
            Err("missing value for --host"@)
        } else {
            listen_args_seq(args.skip(2), args[1], port)
        }
    } else if args[0] == "--port"@ {
        if args.len() < 2 {
            Err("missing value for --port"@)
        } else {
            match u16_of(args[1]) {
                Some(p) => listen_args_seq(args.skip(2), host, p),
                None => Err(u16_parse_error_text(args[1])),
            }
        }
    } else if args[0] == "--help"@ || args[0] == "-h"@ {
        Ok(None)
    } else {
        Err("unexpected argument: "@ + args[0])
    }
}

/// The service's command line: listening on 127.0.0.1:31800 unless the arguments say
/// otherwise.
pub fn parse_listen_args(args: &Vec<String>) -> (r: Result<ListenRequest, String>)
    ensures
        match r {
            Ok(req) => listen_args_seq(strings_view(args@), "127.0.0.1"@, 31800) == Ok::<Option<(Seq<char>, int)>, Seq<char>>(listen_request_view(req)),
            Err(m) => listen_args_seq(strings_view(args@), "127.0.0.1"@, 31800) == Err::<Option<(Seq<char>, int)>, Seq<char>>(m@),
        },
{
    let mut host = default_host();
    let mut port = default_port();
    let mut i: usize = 0;
    assert(strings_view(args@).skip(0) =~= strings_view(args@));
    while i < args.len()
        invariant
            i <= args.len(),
            listen_args_seq(strings_view(args@), "127.0.0.1"@, 31800)
                == listen_args_seq(strings_view(args@).skip(i as int), host@, port as int),
        decreases args.len() - i,
    {
        let ghost rest = strings_view(args@).skip(i as int);
        assert(rest[0] == args@[i as int]@);
        let a = args[i].as_str();
        if str_eq(a, "--host") {
            if i + 1 >= args.len() {
                return Err(owned("missing value for --host"));
            }
            assert(rest[1] == args@[i + 1]@);
            assert(rest.skip(2) =~= strings_view(args@).skip(i + 2));
            host = owned(args[i + 1].as_str());
            i = i + 2;
        } else if str_eq(a, "--port") {
            if i + 1 >= args.len() {
                return Err(owned("missing value for --port"));
            }
            assert(rest[1] == args@[i + 1]@);
            assert(rest.skip(2) =~= strings_view(args@).skip(i + 2));
            match parse_u16(args[i + 1].as_str()) {
                Ok(p) => {
                    port = p;
                },
                Err(m) => {
                    return Err(m);
                },
            }
            i = i + 2;
        } else if str_eq(a, "--help") || str_eq(a, "-h") {
            return Ok(ListenRequest::Help);
        } else {
            return Err(concat2("unexpected argument: ", a));
        }
    }
    assert(strings_view(args@).skip(i as int).len() == 0);
    Ok(ListenRequest::Listen(ListenAddressArgs { host, port }))
}

} // verus!
