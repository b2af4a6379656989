//! The server service: validation and orchestration over a store and a runtime.

use vstd::prelude::*;
use crate::error::{CoreError, CoreErrorView, result_view};
use crate::model::{
    LogQuery, LogSnapshot, ServerInstance, ServerInstanceView, ServerStatus, server_is_local,
    strings_view,
};
use crate::text::{is_blank, trim_seq};

verus! {

/// Whether `o` is what a store holding `stored` has under `id`.
pub open spec fn lookup_matches(
    stored: Map<Seq<char>, ServerInstanceView>,
    id: Seq<char>,
    o: Option<ServerInstance>,
) -> bool {
    match o {
        Some(s) => stored.contains_key(id) && stored[id] == s@,
        None => !stored.contains_key(id),
    }
}

/// Whether `v` lists exactly the servers of `stored`.
pub open spec fn lists_exactly(stored: Map<Seq<char>, ServerInstanceView>, v: Seq<ServerInstance>) -> bool {
    &&& forall|i: int|
        0 <= i < v.len() ==> stored.contains_key(#[trigger] v[i].id@) && stored[v[i].id@] == v[i]@
    &&& forall|k: Seq<char>|
        #[trigger] stored.contains_key(k) ==> exists|i: int| 0 <= i < v.len() && v[i].id@ == k
}

/// Where servers are kept.
pub trait ServerStorePort {
    /// The servers held, by identifier. Each store of this library defines it; the
    /// default body stays hidden in this module.
    closed spec fn stored(&self) -> Map<Seq<char>, ServerInstanceView> {
        Map::empty()
    }

    /// Whether the store answers every request without an error (a store in memory
    /// does; one on disk may fail). Each store of this library defines it; the default
    /// body, hidden in this module, promises nothing.
    closed spec fn answers(&self) -> bool {
        false
    }

    /// Every server held.
    fn list_servers(&self) -> (r: Result<Vec<ServerInstance>, CoreError>)
        ensures
            r matches Ok(v) ==> lists_exactly(self.stored(), v@),
            self.answers() ==> r is Ok,
    ;

    /// The error a lookup of `id` meets, if any (none for a store in memory). Each store
    /// of this library defines it; the default body stays hidden in this module.
    closed spec fn lookup_error(&self, id: Seq<char>) -> Option<CoreErrorView> {
        None
    }

    /// The server held under `id`, if any.
    fn get_server(&self, id: &str) -> (r: Result<Option<ServerInstance>, CoreError>)
        ensures
            r matches Ok(o) ==> lookup_matches(self.stored(), id@, o),
            match r {
                Ok(_) => self.lookup_error(id@) is None,
                Err(e) => self.lookup_error(id@) == Some(e@),
            },
            self.answers() ==> r is Ok,
    ;

    /// Keeps `server` under its identifier, replacing any server held there.
    fn save_server(&mut self, server: ServerInstance) -> (r: Result<(), CoreError>)
        ensures
            r is Ok ==> final(self).stored() == old(self).stored().insert(server.id@, server@),
            old(self).answers() ==> r is Ok && final(self).answers(),
    ;

    /// Forgets the server held under `id`.
    fn delete_server(&mut self, id: &str) -> (r: Result<(), CoreError>)
        ensures
            r is Ok ==> final(self).stored() == old(self).stored().remove(id@),
            old(self).answers() ==> r is Ok && final(self).answers(),
    ;
}

/// A request a runtime carries out.
#[derive(Clone, Copy)]
pub enum RuntimeAction {
    Start,
    Stop,
}

/// What runs servers. What a server's process does is the runtime's affair; the library
/// states which requests it carried out and that its answers are what it reports.
pub trait ServerRuntimePort {
    /// Whether the runtime answers every request without an error (a runtime in
    /// memory does; one that runs processes may fail). Each runtime of this library
    /// defines it; the default body, hidden in this module, promises nothing.
    closed spec fn answers(&self) -> bool {
        false
    }

    /// The start and stop requests carried out so far, in order, with the server each
    /// was for. Each runtime of this library defines it; the default body stays hidden
    /// in this module.
    closed spec fn requests(&self) -> Seq<(RuntimeAction, ServerInstanceView)> {
        Seq::empty()
    }

    /// The status the runtime reports for `server`. Each runtime of this library
    /// defines it; the default body stays hidden in this module.
    closed spec fn reported_status(&self, server: ServerInstanceView) -> ServerStatus {
        ServerStatus::Stopped
    }

    /// The status and the last (at most `max_lines`) log lines the runtime reports for
    /// `server`. Each runtime of this library defines it; the default body stays hidden
    /// in this module.
    closed spec fn reported_logs(&self, server: ServerInstanceView, max_lines: nat) -> (ServerStatus, Seq<Seq<char>>) {
        (ServerStatus::Stopped, Seq::empty())
    }

    /// Starts `server`.
    fn start(&mut self, server: &ServerInstance) -> (r: Result<(), CoreError>)
        ensures
            old(self).answers() ==> r is Ok && final(self).answers(),
            r is Ok ==> final(self).requests() == old(self).requests().push((RuntimeAction::Start, server@)),
    ;

    /// Stops `server`.
    fn stop(&mut self, server: &ServerInstance) -> (r: Result<(), CoreError>)
        ensures
            old(self).answers() ==> r is Ok && final(self).answers(),
            r is Ok ==> final(self).requests() == old(self).requests().push((RuntimeAction::Stop, server@)),
    ;

    /// The status of `server`.
    fn status(&self, server: &ServerInstance) -> (r: Result<ServerStatus, CoreError>)
        ensures
            self.answers() ==> r is Ok,
            r matches Ok(st) ==> st == self.reported_status(server@),
    ;

    /// The status of `server` and its last log lines.
    fn logs(&self, server: &ServerInstance, query: LogQuery) -> (r: Result<LogSnapshot, CoreError>)
        ensures
            self.answers() ==> r is Ok,
            r matches Ok(snap) ==> (snap.status, strings_view(snap.lines@)) == self.reported_logs(
                server@,
                query.max_lines as nat,
            ),
    ;
}

/// The rule a saved server must follow: identifier, name, directory name and jar are
/// all non-blank, checked in that order.
pub open spec fn spec_validate_server(s: ServerInstanceView) -> Result<(), CoreErrorView> {
    if trim_seq(s.id).len() == 0 {
        Err(CoreErrorView::Validation("server id cannot be empty"@))
    } else if trim_seq(s.name).len() == 0 {
        Err(CoreErrorView::Validation("server name cannot be empty"@))
    } else if trim_seq(s.directory_name).len() == 0 {
        Err(CoreErrorView::Validation("server directory name cannot be empty"@))
    } else if trim_seq(s.server_jar).len() == 0 {
        Err(CoreErrorView::Validation("server jar cannot be empty"@))
    } else {
        Ok(())
    }
}

/// Checks the rule a saved server must follow.
pub fn validate_server(server: &ServerInstance) -> (r: Result<(), CoreError>)
    ensures
        result_view(r) == spec_validate_server(server@),
{
    if is_blank(server.id.as_str()) {
        return Err(CoreError::validation("server id cannot be empty"));
    }
    if is_blank(server.name.as_str()) {
        return Err(CoreError::validation("server name cannot be empty"));
    }
    if is_blank(server.directory_name.as_str()) {
        return Err(CoreError::validation("server directory name cannot be empty"));
    }
    if is_blank(server.server_jar.as_str()) {
        return Err(CoreError::validation("server jar cannot be empty"));
    }
    Ok(())
}

/// The message of the error for servers on other nodes.
pub open spec fn remote_unsupported_message() -> Seq<char> {
    "remote-node orchestration is intentionally deferred in the first Rust core milestone"@
}

/// Only local servers can be started, stopped or restarted.
pub open spec fn spec_ensure_local(s: ServerInstanceView) -> Result<(), CoreErrorView> {
    if server_is_local(s) {
        Ok(())
    } else {
        Err(CoreErrorView::Unsupported(remote_unsupported_message()))
    }
}

/// Checks that a server is local.
pub fn ensure_local_server(server: &ServerInstance) -> (r: Result<(), CoreError>)
    ensures
        result_view(r) == spec_ensure_local(server@),
{
    if server.is_local() {
        return Ok(());
    }
    Err(
        CoreError::unsupported(
            "remote-node orchestration is intentionally deferred in the first Rust core milestone",
        ),
    )
}

/// The server a lookup found, or the error: the lookup's own, or "server not found".
pub open spec fn spec_require_server(
    id: Seq<char>,
    lookup: Result<Option<ServerInstanceView>, CoreErrorView>,
) -> Result<ServerInstanceView, CoreErrorView> {
    match lookup {
        Err(e) => Err(e),
        Ok(None) => Err(CoreErrorView::NotFound { resource: "server"@, id }),
        Ok(Some(s)) => Ok(s),
    }
}

/// The view of a lookup result.
pub open spec fn lookup_view(r: Result<Option<ServerInstance>, CoreError>) -> Result<
    Option<ServerInstanceView>,
    CoreErrorView,
> {
    match r {
        Ok(Some(s)) => Ok(Some(s@)),
        Ok(None) => Ok(None),
        Err(e) => Err(e@),
    }
}

/// The view of a server result.
pub open spec fn server_result_view(r: Result<ServerInstance, CoreError>) -> Result<
    ServerInstanceView,
    CoreErrorView,
> {
    match r {
        Ok(s) => Ok(s@),
        Err(e) => Err(e@),
    }
}

/// The server a store lookup for `id` found, or the error to report.
pub fn require_server_from(id: &str, lookup: Result<Option<ServerInstance>, CoreError>) -> (r:
    Result<ServerInstance, CoreError>)
    ensures
        server_result_view(r) == spec_require_server(id@, lookup_view(lookup)),
{
    match lookup {
        Err(e) => Err(e),
        Ok(None) => Err(CoreError::not_found("server", id)),
        Ok(Some(s)) => Ok(s),
    }
}

/// The error for a server that is not stored.
pub open spec fn server_not_found(id: Seq<char>) -> CoreErrorView {
    CoreErrorView::NotFound { resource: "server"@, id }
}

/// The error for a server on another node.
pub open spec fn remote_unsupported() -> CoreErrorView {
    CoreErrorView::Unsupported(remote_unsupported_message())
}

/// What a service finds for `id` in `store`: the error its lookup meets, else the
/// server held there, else "server not found".
pub open spec fn stored_lookup<S: ServerStorePort>(store: S, id: Seq<char>) -> Result<ServerInstanceView, CoreErrorView> {
    match store.lookup_error(id) {
        Some(e) => Err(e),
        None => if store.stored().contains_key(id) {
            Ok(store.stored()[id])
        } else {
            Err(server_not_found(id))
        },
    }
}

/// The service: servers kept in a store and run by a runtime.
pub struct ScslCore<S, R> {
    pub store: S,
    pub runtime: R,
}

impl<S: ServerStorePort, R: ServerRuntimePort> ScslCore<S, R> {
    /// A service over `store` and `runtime`.
    pub fn new(store: S, runtime: R) -> (c: Self)
        ensures
            c.store == store,
            c.runtime == runtime,
    {
        ScslCore { store, runtime }
    }

    /// The runtime.
    pub fn runtime(&self) -> (r: &R)
        ensures
            *r == self.runtime,
    {
        &self.runtime
    }

    /// Every server.
    pub fn list_servers(&self) -> (r: Result<Vec<ServerInstance>, CoreError>)
        ensures
            r matches Ok(v) ==> lists_exactly(self.store.stored(), v@),
            self.store.answers() ==> r is Ok,
    {
        self.store.list_servers()
    }

    /// The server with identifier `id`, if any.
    pub fn get_server(&self, id: &str) -> (r: Result<Option<ServerInstance>, CoreError>)
        ensures
            r matches Ok(o) ==> lookup_matches(self.store.stored(), id@, o),
            self.store.answers() ==> r is Ok,
    {
        self.store.get_server(id)
    }

    /// Saves a server that follows the rule; a server that breaks it is refused with the
    /// rule's error and nothing is saved.
    pub fn save_server(&mut self, server: ServerInstance) -> (r: Result<(), CoreError>)
        ensures
            spec_validate_server(server@) is Err ==> result_view(r) == spec_validate_server(
                server@,
            ) && final(self).store == old(self).store,
            r is Ok ==> spec_validate_server(server@) is Ok && final(self).store.stored()
                == old(self).store.stored().insert(server.id@, server@),
            final(self).runtime == old(self).runtime,
    {
        validate_server(&server)?;
        self.store.save_server(server)
    }

    /// The stored server with identifier `id`, or the error to report.
    fn require_server(&self, id: &str) -> (r: Result<ServerInstance, CoreError>)
        ensures
            server_result_view(r) == stored_lookup(self.store, id@),
    {
        let lookup = self.store.get_server(id);
        require_server_from(id, lookup)
    }

    /// Deletes the server with identifier `id`; an unknown server is an error.
    pub fn delete_server(&mut self, id: &str) -> (r: Result<(), CoreError>)
        ensures
            stored_lookup(old(self).store, id@) matches Err(e) ==> (r matches Err(x) && x@ == e
                && final(self).store == old(self).store),
            r is Ok ==> old(self).store.stored().contains_key(id@) && final(self).store.stored()
                == old(self).store.stored().remove(id@),
            stored_lookup(old(self).store, id@) is Ok && old(self).store.answers() ==> r is Ok,
            final(self).runtime == old(self).runtime,
    {
        let _ = self.require_server(id)?;
        self.store.delete_server(id)
    }

    /// The status the runtime reports for the server with identifier `id`.
    pub fn server_status(&self, id: &str) -> (r: Result<ServerStatus, CoreError>)
        ensures
            stored_lookup(self.store, id@) matches Err(e) ==> (r matches Err(x) && x@ == e),
            r matches Ok(st) ==> (stored_lookup(self.store, id@) matches Ok(s) && st
                == self.runtime.reported_status(s)),
            stored_lookup(self.store, id@) is Ok && self.runtime.answers() ==> r is Ok,
    {
        let server = self.require_server(id)?;
        self.runtime.status(&server)
    }

    /// Starts the local server with identifier `id` and returns the status the runtime
    /// then reports; unknown and remote servers are errors and leave the runtime
    /// untouched.
    pub fn start_server(&mut self, id: &str) -> (r: Result<ServerStatus, CoreError>)
        ensures
            stored_lookup(old(self).store, id@) matches Err(e) ==> (r matches Err(x) && x@ == e
                && final(self).runtime == old(self).runtime),
            stored_lookup(old(self).store, id@) matches Ok(s) && !server_is_local(s) ==> (r matches Err(
                x,
            ) && x@ == remote_unsupported() && final(self).runtime == old(self).runtime),
            r matches Ok(st) ==> (stored_lookup(old(self).store, id@) matches Ok(s) && server_is_local(s)
                && final(self).runtime.requests() == old(self).runtime.requests().push(
                (RuntimeAction::Start, s),
            ) && st == final(self).runtime.reported_status(s)),
            stored_lookup(old(self).store, id@) matches Ok(s) && server_is_local(s)
                && old(self).runtime.answers() ==> r is Ok && final(self).runtime.answers(),
            final(self).store == old(self).store,
    {
        let server = self.require_server(id)?;
        ensure_local_server(&server)?;
        self.runtime.start(&server)?;
        self.runtime.status(&server)
    }

    /// Stops the local server with identifier `id` and returns the status the runtime
    /// then reports; unknown and remote servers are errors and leave the runtime
    /// untouched.
    pub fn stop_server(&mut self, id: &str) -> (r: Result<ServerStatus, CoreError>)
        ensures
            stored_lookup(old(self).store, id@) matches Err(e) ==> (r matches Err(x) && x@ == e
                && final(self).runtime == old(self).runtime),
            stored_lookup(old(self).store, id@) matches Ok(s) && !server_is_local(s) ==> (r matches Err(
                x,
            ) && x@ == remote_unsupported() && final(self).runtime == old(self).runtime),
            r matches Ok(st) ==> (stored_lookup(old(self).store, id@) matches Ok(s) && server_is_local(s)
                && final(self).runtime.requests() == old(self).runtime.requests().push(
                (RuntimeAction::Stop, s),
            ) && st == final(self).runtime.reported_status(s)),
            stored_lookup(old(self).store, id@) matches Ok(s) && server_is_local(s)
                && old(self).runtime.answers() ==> r is Ok && final(self).runtime.answers(),
            final(self).store == old(self).store,
    {
        let server = self.require_server(id)?;
        ensure_local_server(&server)?;
        self.runtime.stop(&server)?;
        self.runtime.status(&server)
    }

    /// Stops and then starts the local server with identifier `id`, and returns the
    /// status the runtime then reports; unknown and remote servers are errors and leave
    /// the runtime untouched.
    pub fn restart_server(&mut self, id: &str) -> (r: Result<ServerStatus, CoreError>)
        ensures
            stored_lookup(old(self).store, id@) matches Err(e) ==> (r matches Err(x) && x@ == e
                && final(self).runtime == old(self).runtime),
            stored_lookup(old(self).store, id@) matches Ok(s) && !server_is_local(s) ==> (r matches Err(
                x,
            ) && x@ == remote_unsupported() && final(self).runtime == old(self).runtime),
            r matches Ok(st) ==> (stored_lookup(old(self).store, id@) matches Ok(s) && server_is_local(s)
                && final(self).runtime.requests() == old(self).runtime.requests().push(
                (RuntimeAction::Stop, s),
            ).push((RuntimeAction::Start, s)) && st == final(self).runtime.reported_status(s)),
            stored_lookup(old(self).store, id@) matches Ok(s) && server_is_local(s)
                && old(self).runtime.answers() ==> r is Ok && final(self).runtime.answers(),
            final(self).store == old(self).store,
    {
        let server = self.require_server(id)?;
        ensure_local_server(&server)?;
        self.runtime.stop(&server)?;
        self.runtime.start(&server)?;
        self.runtime.status(&server)
    }

    /// The status and last log lines the runtime reports for the server with identifier
    /// `id`.
    pub fn server_logs(&self, id: &str, query: LogQuery) -> (r: Result<LogSnapshot, CoreError>)
        ensures
            stored_lookup(self.store, id@) matches Err(e) ==> (r matches Err(x) && x@ == e),
            r matches Ok(snap) ==> (stored_lookup(self.store, id@) matches Ok(s) && (
            snap.status,
            strings_view(snap.lines@),
            ) == self.runtime.reported_logs(s, query.max_lines as nat)),
            stored_lookup(self.store, id@) is Ok && self.runtime.answers() ==> r is Ok,
    {
        let server = self.require_server(id)?;
        self.runtime.logs(&server, query)
    }
}

/// Law: once a store has saved a server, looking up its identifier finds exactly it.
pub proof fn lemma_read_after_save(
    stored: Map<Seq<char>, ServerInstanceView>,
    server: ServerInstance,
)
    ensures
        lookup_matches(stored.insert(server.id@, server@), server.id@, Some(server)),
{
}

/// Law: once a store has deleted an identifier, looking it up finds nothing, and every
/// other server is still found.
pub proof fn lemma_read_after_delete(
    stored: Map<Seq<char>, ServerInstanceView>,
    id: Seq<char>,
    other: Seq<char>,
)
    requires
        other != id,
    ensures
        !stored.remove(id).contains_key(id),
        stored.remove(id).contains_key(other) == stored.contains_key(other),
        stored.contains_key(other) ==> stored.remove(id)[other] == stored[other],
{
}

} // verus!
