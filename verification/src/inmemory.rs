//! A store and a runtime that keep everything in memory.

use vstd::prelude::*;
use crate::error::CoreError;
use crate::model::{
    ConsoleMode, LOCAL_NODE_ID, LogQuery, LogSnapshot, ServerInstance, ServerInstanceView,
    ServerStatus, ServerType, strings_view,
};
use crate::registry::Registry;
use crate::service::{RuntimeAction, ServerRuntimePort, ServerStorePort, lists_exactly, lookup_matches};
use crate::text::owned;

verus! {

/// Servers kept in memory, by identifier.
pub struct InMemoryStore {
    servers: Registry<ServerInstance>,
}

/// The servers of a list as a map by identifier, a later server replacing an earlier
/// one with the same identifier.
pub open spec fn servers_by_id(s: Seq<ServerInstance>) -> Map<Seq<char>, ServerInstanceView>
    decreases s.len(),
{
    if s.len() == 0 {
        Map::empty()
    } else {
        servers_by_id(s.drop_last()).insert(s.last().id@, s.last()@)
    }
}

impl InMemoryStore {
    #[verifier::type_invariant]
    spec fn inv(&self) -> bool {
        &&& self.servers.wf()
        &&& forall|k: Seq<char>| #[trigger]
            self.servers.map().contains_key(k) ==> self.servers.map()[k].id@ == k
    }

    /// The servers held, by identifier.
    pub closed spec fn held(&self) -> Map<Seq<char>, ServerInstanceView> {
        self.servers.map().map_values(|s: ServerInstance| s@)
    }

    /// An empty store.
    pub fn new() -> (r: InMemoryStore)
        ensures
            r.held() == Map::<Seq<char>, ServerInstanceView>::empty(),
    {
        let r = InMemoryStore { servers: Registry::new() };
        assert(r.held() =~= Map::<Seq<char>, ServerInstanceView>::empty());
        r
    }

    /// A store holding `servers`; a later server replaces an earlier one with the same
    /// identifier.
    pub fn with_servers(servers: Vec<ServerInstance>) -> (r: InMemoryStore)
        ensures
            r.held() == servers_by_id(servers@),
    {
        let mut store = InMemoryStore::new();
        let mut rest = servers;
        let ghost all = rest@;
        let mut taken: Vec<ServerInstance> = Vec::new();
        // Move the servers out in reverse, then insert them in their original order.
        while rest.len() > 0
            invariant
                rest@ + taken@.reverse() == all,
            decreases rest.len(),
        {
            let s = rest.pop().unwrap();
            assert(taken@.push(s).reverse() == seq![s] + taken@.reverse());
            assert(rest@.push(s) + taken@.reverse() == rest@ + (seq![s] + taken@.reverse()));
            taken.push(s);
        }
        assert(rest@ == Seq::<ServerInstance>::empty());
        assert(taken@.reverse() =~= all);
        assert forall|i: int| 0 <= i < taken@.len() implies taken@[i] == all[taken@.len() - 1 - i] by {
            assert(taken@.reverse()[taken@.len() - 1 - i] == taken@[i]);
        }
        let ghost n = taken@.len();
        while taken.len() > 0
            invariant
                n == all.len(),
                taken@.len() <= n,
                forall|i: int| 0 <= i < taken@.len() ==> taken@[i] == all[n - 1 - i],
                store.held() == servers_by_id(all.take(n - taken@.len())),
            decreases taken.len(),
        {
            let s = taken.pop().unwrap();
            let ghost k = n - taken@.len() - 1;
            assert(s == all[k]);
            assert(all.take(k + 1).drop_last() == all.take(k));
            proof {
                use_type_invariant(&store);
            }
            let mut reg = Registry::new();
            std::mem::swap(&mut reg, &mut store.servers);
            let key = owned(s.id.as_str());
            let ghost held_before = reg.map().map_values(|x: ServerInstance| x@);
            reg.insert(key, s);
            assert(reg.map().map_values(|x: ServerInstance| x@) =~= held_before.insert(s.id@, s@));
            store = InMemoryStore { servers: reg };
        }
        assert(all.take(n as int) == all);
        store
    }
}

impl Default for InMemoryStore {
    /// An empty store.
    fn default() -> (r: InMemoryStore)
        ensures
            r.held() == Map::<Seq<char>, ServerInstanceView>::empty(),
    {
        InMemoryStore::new()
    }
}

impl ServerStorePort for InMemoryStore {
    open spec fn stored(&self) -> Map<Seq<char>, ServerInstanceView> {
        self.held()
    }

    /// A store in memory answers every request.
    open spec fn answers(&self) -> bool {
        true
    }

    /// A lookup in memory meets no error.
    open spec fn lookup_error(&self, id: Seq<char>) -> Option<crate::error::CoreErrorView> {
        None
    }

    fn list_servers(&self) -> (r: Result<Vec<ServerInstance>, CoreError>)
        ensures
            r is Ok,
    {
        proof {
            use_type_invariant(self);
        }
        let entries = &self.servers.entries;
        let mut out: Vec<ServerInstance> = Vec::new();
        let mut i: usize = 0;
        while i < entries.len()
            invariant
                entries == &self.servers.entries,
                i <= entries@.len(),
                out@.len() == i,
                forall|j: int| 0 <= j < i ==> #[trigger] out@[j]@ == entries@[j].1@,
            decreases entries.len() - i,
        {
            out.push(entries[i].1.duplicate());
            i += 1;
        }
        proof {
            let reg = self.servers;
            assert forall|i: int| 0 <= i < out@.len() implies self.held().contains_key(
                #[trigger] out@[i].id@,
            ) && self.held()[out@[i].id@] == out@[i]@ by {
                let k = reg.entries@[i].0@;
                assert(reg.has(k));
                let c = reg.index_of(k);
                assert(reg.entries@[c].0@ == k);
                assert(c == i);
                assert(reg.map().contains_key(k));
                assert(reg.map()[k] == reg.entries@[i].1);
                assert(reg.map()[k].id@ == k);
                assert(out@[i]@ == reg.entries@[i].1@);
                assert(self.held()[k] == reg.map()[k]@);
            }
            assert forall|k: Seq<char>| #[trigger]
                self.held().contains_key(k) implies exists|i: int|
                0 <= i < out@.len() && out@[i].id@ == k by {
                assert(reg.map().contains_key(k));
                let c = reg.index_of(k);
                assert(reg.entries@[c].0@ == k);
                assert(reg.map()[k].id@ == k);
                assert(out@[c].id@ == k);
            }
        }
        Ok(out)
    }

    fn get_server(&self, id: &str) -> (r: Result<Option<ServerInstance>, CoreError>)
        ensures
            r is Ok,
    {
        proof {
            use_type_invariant(self);
        }
        match self.servers.get(id) {
            Some(s) => Ok(Some(s.duplicate())),
            None => Ok(None),
        }
    }

    fn save_server(&mut self, server: ServerInstance) -> (r: Result<(), CoreError>)
        ensures
            r is Ok,
    {
        proof {
            use_type_invariant(&*self);
        }
        let mut reg = Registry::new();
        std::mem::swap(&mut reg, &mut self.servers);
        let ghost held_before = reg.map().map_values(|x: ServerInstance| x@);
        let key = owned(server.id.as_str());
        let ghost sv = server@;
        reg.insert(key, server);
        assert(reg.map().map_values(|x: ServerInstance| x@) =~= held_before.insert(sv.id, sv));
        std::mem::swap(&mut reg, &mut self.servers);
        Ok(())
    }

    fn delete_server(&mut self, id: &str) -> (r: Result<(), CoreError>)
        ensures
            r is Ok,
    {
        proof {
            use_type_invariant(&*self);
        }
        let mut reg = Registry::new();
        std::mem::swap(&mut reg, &mut self.servers);
        let ghost held_before = reg.map().map_values(|x: ServerInstance| x@);
        reg.remove(id);
        assert(reg.map().map_values(|x: ServerInstance| x@) =~= held_before.remove(id@));
        std::mem::swap(&mut reg, &mut self.servers);
        Ok(())
    }
}

/// The status a runtime table gives a server: the one recorded, or stopped.
pub open spec fn status_or_stopped(t: Map<Seq<char>, ServerStatus>, id: Seq<char>) -> ServerStatus {
    if t.contains_key(id) {
        t[id]
    } else {
        ServerStatus::Stopped
    }
}

/// The log lines a runtime table holds for a server: the ones recorded, or none.
pub open spec fn log_or_empty(t: Map<Seq<char>, Seq<Seq<char>>>, id: Seq<char>) -> Seq<Seq<char>> {
    if t.contains_key(id) {
        t[id]
    } else {
        Seq::empty()
    }
}

/// The last `n` lines of `lines` (all of them when there are fewer).
pub open spec fn tail_lines(lines: Seq<Seq<char>>, n: nat) -> Seq<Seq<char>> {
    if lines.len() <= n {
        lines
    } else {
        lines.subrange(lines.len() - n, lines.len() as int)
    }
}

/// Server statuses and logs kept in memory.
pub struct InMemoryRuntime {
    statuses: Registry<ServerStatus>,
    logs: Registry<Vec<String>>,
    carried_out: Ghost<Seq<(RuntimeAction, ServerInstanceView)>>,
    initial_statuses: Ghost<Map<Seq<char>, ServerStatus>>,
    initial_logs: Ghost<Map<Seq<char>, Seq<Seq<char>>>>,
}

/// The status a request leaves its server in: running after a start, stopped after a
/// stop.
pub open spec fn action_status(a: RuntimeAction) -> ServerStatus {
    match a {
        RuntimeAction::Start => ServerStatus::Running,
        RuntimeAction::Stop => ServerStatus::Stopped,
    }
}

/// The log line a request adds for its server.
pub open spec fn action_line(a: RuntimeAction) -> Seq<char> {
    match a {
        RuntimeAction::Start => "[SCSL] started"@,
        RuntimeAction::Stop => "[SCSL] stopped"@,
    }
}

/// The status of server `id` after `requests`, starting from the statuses `initial`:
/// that of the last request for it, else the initial one, else stopped.
pub open spec fn status_after(
    initial: Map<Seq<char>, ServerStatus>,
    requests: Seq<(RuntimeAction, ServerInstanceView)>,
    id: Seq<char>,
) -> ServerStatus
    decreases requests.len(),
{
    if requests.len() == 0 {
        status_or_stopped(initial, id)
    } else if requests.last().1.id == id {
        action_status(requests.last().0)
    } else {
        status_after(initial, requests.drop_last(), id)
    }
}

/// The log of server `id` after `requests`, starting from the logs `initial`: the
/// initial lines followed by one line per request for it.
pub open spec fn log_after(
    initial: Map<Seq<char>, Seq<Seq<char>>>,
    requests: Seq<(RuntimeAction, ServerInstanceView)>,
    id: Seq<char>,
) -> Seq<Seq<char>>
    decreases requests.len(),
{
    if requests.len() == 0 {
        log_or_empty(initial, id)
    } else if requests.last().1.id == id {
        log_after(initial, requests.drop_last(), id).push(action_line(requests.last().0))
    } else {
        log_after(initial, requests.drop_last(), id)
    }
}

/// `statuses` and `logs` with `status` recorded for `id` and `line` added to its log.
fn record_in(
    statuses: Registry<ServerStatus>,
    logs: Registry<Vec<String>>,
    id: &str,
    status: ServerStatus,
    line: &str,
) -> (r: (Registry<ServerStatus>, Registry<Vec<String>>))
    requires
        statuses.wf(),
        logs.wf(),
    ensures
        r.0.wf(),
        r.1.wf(),
        r.0.map() == statuses.map().insert(id@, status),
        r.1.map().map_values(|v: Vec<String>| strings_view(v@)) == logs.map().map_values(
            |v: Vec<String>| strings_view(v@),
        ).insert(
            id@,
            log_or_empty(logs.map().map_values(|v: Vec<String>| strings_view(v@)), id@).push(line@),
        ),
{
    let mut statuses = statuses;
    let mut logs = logs;
    statuses.insert(owned(id), status);
    let ghost before = logs.map().map_values(|v: Vec<String>| strings_view(v@));
    let mut lines = match logs.get(id) {
        Some(v) => copy_strings(v),
        None => Vec::new(),
    };
    assert(strings_view(lines@) == log_or_empty(before, id@));
    let ghost prev = lines@;
    lines.push(owned(line));
    assert(strings_view(lines@) == strings_view(prev).push(line@));
    let ghost lv = strings_view(lines@);
    logs.insert(owned(id), lines);
    assert(logs.map().map_values(|v: Vec<String>| strings_view(v@)) =~= before.insert(id@, lv));
    (statuses, logs)
}

/// A copy of a list of strings.
pub fn copy_strings(v: &Vec<String>) -> (r: Vec<String>)
    ensures
        strings_view(r@) == strings_view(v@),
{
    let mut r: Vec<String> = Vec::new();
    let mut i: usize = 0;
    while i < v.len()
        invariant
            i <= v.len(),
            strings_view(r@) == strings_view(v@).take(i as int),
        decreases v.len() - i,
    {
        let ghost before = r@;
        r.push(owned(v[i].as_str()));
        assert(strings_view(r@) == strings_view(before).push(v@[i as int]@));
        assert(strings_view(v@).take(i + 1) == strings_view(v@).take(i as int).push(v@[i as int]@));
        i += 1;
    }
    assert(strings_view(v@).take(v.len() as int) == strings_view(v@));
    r
}

impl InMemoryRuntime {
    #[verifier::type_invariant]
    spec fn inv(&self) -> bool {
        &&& self.statuses.wf()
        &&& self.logs.wf()
        &&& forall|id: Seq<char>|
            #![trigger status_or_stopped(self.statuses.map(), id)]
            #![trigger status_after(self.initial_statuses@, self.carried_out@, id)]
            status_or_stopped(self.statuses.map(), id) == status_after(
                self.initial_statuses@,
                self.carried_out@,
                id,
            )
        &&& forall|id: Seq<char>|
            #![trigger log_or_empty(self.log_table(), id)]
            #![trigger log_after(self.initial_logs@, self.carried_out@, id)]
            log_or_empty(self.log_table(), id)
                == log_after(self.initial_logs@, self.carried_out@, id)
    }

    /// The statuses the runtime started with, by server identifier.
    pub closed spec fn initial_status_table(&self) -> Map<Seq<char>, ServerStatus> {
        self.initial_statuses@
    }

    /// The log lines the runtime started with, by server identifier.
    pub closed spec fn initial_log_table(&self) -> Map<Seq<char>, Seq<Seq<char>>> {
        self.initial_logs@
    }

    /// The recorded statuses, by server identifier.
    pub closed spec fn status_table(&self) -> Map<Seq<char>, ServerStatus> {
        self.statuses.map()
    }

    /// The recorded log lines, by server identifier.
    pub closed spec fn log_table(&self) -> Map<Seq<char>, Seq<Seq<char>>> {
        self.logs.map().map_values(|v: Vec<String>| strings_view(v@))
    }

    /// A runtime that knows nothing yet.
    pub fn new() -> (r: InMemoryRuntime)
        ensures
            r.requests() == Seq::<(RuntimeAction, ServerInstanceView)>::empty(),
            r.initial_status_table() == Map::<Seq<char>, ServerStatus>::empty(),
            r.initial_log_table() == Map::<Seq<char>, Seq<Seq<char>>>::empty(),
            r.status_table() == Map::<Seq<char>, ServerStatus>::empty(),
            r.log_table() == Map::<Seq<char>, Seq<Seq<char>>>::empty(),
    {
        let statuses = Registry::new();
        let logs = Registry::new();
        let ghost lt = logs.map().map_values(|v: Vec<String>| strings_view(v@));
        assert(lt =~= Map::<Seq<char>, Seq<Seq<char>>>::empty());
        let r = InMemoryRuntime {
            statuses,
            logs,
            carried_out: Ghost(Seq::empty()),
            initial_statuses: Ghost(Map::empty()),
            initial_logs: Ghost(Map::empty()),
        };
        assert(r.log_table() =~= Map::<Seq<char>, Seq<Seq<char>>>::empty());
        r
    }

    /// A runtime that knows one server, with the given status and log lines.
    pub fn with_server(server_id: &str, status: ServerStatus, logs: Vec<String>) -> (r:
        InMemoryRuntime)
        ensures
            r.requests() == Seq::<(RuntimeAction, ServerInstanceView)>::empty(),
            r.initial_status_table() == Map::<Seq<char>, ServerStatus>::empty().insert(server_id@, status),
            r.initial_log_table() == Map::<Seq<char>, Seq<Seq<char>>>::empty().insert(
                server_id@,
                strings_view(logs@),
            ),
            r.status_table() == Map::<Seq<char>, ServerStatus>::empty().insert(server_id@, status),
            r.log_table() == Map::<Seq<char>, Seq<Seq<char>>>::empty().insert(
                server_id@,
                strings_view(logs@),
            ),
    {
        let mut statuses = Registry::new();
        statuses.insert(owned(server_id), status);
        let mut log_reg = Registry::new();
        let ghost lv = strings_view(logs@);
        log_reg.insert(owned(server_id), logs);
        let ghost lt = log_reg.map().map_values(|v: Vec<String>| strings_view(v@));
        assert(lt =~= Map::<Seq<char>, Seq<Seq<char>>>::empty().insert(server_id@, lv));
        let r = InMemoryRuntime {
            statuses,
            logs: log_reg,
            carried_out: Ghost(Seq::empty()),
            initial_statuses: Ghost(Map::empty().insert(server_id@, status)),
            initial_logs: Ghost(lt),
        };
        r
    }

    /// Carries out `action` for `server`: records the status it leaves the server in,
    /// adds its line to the server's log and notes the request.
    fn carry_out(&mut self, server: &ServerInstance, action: RuntimeAction)
        ensures
            final(self).status_table() == old(self).status_table().insert(server.id@, action_status(action)),
            final(self).log_table() == old(self).log_table().insert(
                server.id@,
                log_or_empty(old(self).log_table(), server.id@).push(action_line(action)),
            ),
            final(self).requests() == old(self).requests().push((action, server@)),
            final(self).initial_status_table() == old(self).initial_status_table(),
            final(self).initial_log_table() == old(self).initial_log_table(),
    {
        proof {
            use_type_invariant(&*self);
            reveal_strlit("[SCSL] started");
            reveal_strlit("[SCSL] stopped");
        }
        let mut taken = InMemoryRuntime::new();
        std::mem::swap(&mut taken, self);
        proof {
            use_type_invariant(&taken);
        }
        let InMemoryRuntime { statuses, logs, carried_out, initial_statuses, initial_logs } = taken;
        let (status, line) = match action {
            RuntimeAction::Start => (ServerStatus::Running, "[SCSL] started"),
            RuntimeAction::Stop => (ServerStatus::Stopped, "[SCSL] stopped"),
        };
        assert(status == action_status(action) && line@ == action_line(action));
        let ghost old_logs = logs.map().map_values(|v: Vec<String>| strings_view(v@));
        let (statuses, logs) = record_in(statuses, logs, server.id.as_str(), status, line);
        let ghost reqs = carried_out@.push((action, server@));
        proof {
            let new_logs = logs.map().map_values(|v: Vec<String>| strings_view(v@));
            assert forall|id: Seq<char>|
                status_or_stopped(statuses.map(), id) == status_after(initial_statuses@, reqs, id) by {
                assert(reqs.drop_last() =~= carried_out@);
                if id != server.id@ {
                    assert(status_or_stopped(statuses.map(), id) == status_or_stopped(
                        taken.statuses.map(),
                        id,
                    ));
                }
            }
            assert forall|id: Seq<char>|
                log_or_empty(new_logs, id) == log_after(initial_logs@, reqs, id) by {
                assert(reqs.drop_last() =~= carried_out@);
                assert(log_or_empty(old_logs, id) == log_after(initial_logs@, carried_out@, id));
                if id != server.id@ {
                    assert(log_or_empty(new_logs, id) == log_or_empty(old_logs, id));
                }
            }
        }
        *self = InMemoryRuntime {
            statuses,
            logs,
            carried_out: Ghost(reqs),
            initial_statuses,
            initial_logs,
        };
    }
}

impl Default for InMemoryRuntime {
    /// A runtime that knows nothing yet.
    fn default() -> (r: InMemoryRuntime)
        ensures
            r.status_table() == Map::<Seq<char>, ServerStatus>::empty(),
            r.log_table() == Map::<Seq<char>, Seq<Seq<char>>>::empty(),
    {
        InMemoryRuntime::new()
    }
}

impl ServerRuntimePort for InMemoryRuntime {
    /// A runtime in memory answers every request.
    open spec fn answers(&self) -> bool {
        true
    }

    /// The start and stop requests carried out so far.
    closed spec fn requests(&self) -> Seq<(RuntimeAction, ServerInstanceView)> {
        self.carried_out@
    }

    /// The status the last request for the server left it in, else the one it started
    /// with, else stopped.
    open spec fn reported_status(&self, server: ServerInstanceView) -> ServerStatus {
        status_after(self.initial_status_table(), self.requests(), server.id)
    }

    /// That status and the last `max_lines` lines of the server's log: the lines it
    /// started with, then one per request for it.
    open spec fn reported_logs(&self, server: ServerInstanceView, max_lines: nat) -> (ServerStatus, Seq<Seq<char>>) {
        (
            status_after(self.initial_status_table(), self.requests(), server.id),
            tail_lines(log_after(self.initial_log_table(), self.requests(), server.id), max_lines),
        )
    }

    /// Records the server as running and logs `[SCSL] started`.
    fn start(&mut self, server: &ServerInstance) -> (r: Result<(), CoreError>)
        ensures
            r is Ok,
            final(self).status_table() == old(self).status_table().insert(
                server.id@,
                ServerStatus::Running,
            ),
            final(self).log_table() == old(self).log_table().insert(
                server.id@,
                log_or_empty(old(self).log_table(), server.id@).push("[SCSL] started"@),
            ),
    {
        self.carry_out(server, RuntimeAction::Start);
        proof {
            reveal_strlit("[SCSL] started");
        }
        Ok(())
    }

    /// Records the server as stopped and logs `[SCSL] stopped`.
    fn stop(&mut self, server: &ServerInstance) -> (r: Result<(), CoreError>)
        ensures
            r is Ok,
            final(self).status_table() == old(self).status_table().insert(
                server.id@,
                ServerStatus::Stopped,
            ),
            final(self).log_table() == old(self).log_table().insert(
                server.id@,
                log_or_empty(old(self).log_table(), server.id@).push("[SCSL] stopped"@),
            ),
    {
        self.carry_out(server, RuntimeAction::Stop);
        proof {
            reveal_strlit("[SCSL] stopped");
        }
        Ok(())
    }

    /// The recorded status, or stopped.
    fn status(&self, server: &ServerInstance) -> (r: Result<ServerStatus, CoreError>)
        ensures
            r == Ok::<ServerStatus, CoreError>(status_or_stopped(self.status_table(), server.id@)),
    {
        proof {
            use_type_invariant(self);
        }
        match self.statuses.get(server.id.as_str()) {
            Some(s) => Ok(*s),
            None => Ok(ServerStatus::Stopped),
        }
    }

    /// The status and the last `query.max_lines` recorded log lines.
    fn logs(&self, server: &ServerInstance, query: LogQuery) -> (r: Result<LogSnapshot, CoreError>)
        ensures
            r matches Ok(snap) && snap.status == status_or_stopped(self.status_table(), server.id@)
                && strings_view(snap.lines@) == tail_lines(
                log_or_empty(self.log_table(), server.id@),
                query.max_lines as nat,
            ),
    {
        proof {
            use_type_invariant(self);
        }
        let status = match self.statuses.get(server.id.as_str()) {
            Some(s) => *s,
            None => ServerStatus::Stopped,
        };
        let lines = match self.logs.get(server.id.as_str()) {
            Some(v) => copy_strings(v),
            None => Vec::new(),
        };
        let ghost all = strings_view(lines@);
        let start: usize = if lines.len() > query.max_lines {
            lines.len() - query.max_lines
        } else {
            0
        };
        let mut out: Vec<String> = Vec::new();
        let mut i = start;
        while i < lines.len()
            invariant
                start <= i <= lines.len(),
                all == strings_view(lines@),
                strings_view(out@) == all.subrange(start as int, i as int),
            decreases lines.len() - i,
        {
            let ghost before = out@;
            out.push(owned(lines[i].as_str()));
            assert(strings_view(out@) == strings_view(before).push(lines@[i as int]@));
            assert(all.subrange(start as int, i + 1) == all.subrange(start as int, i as int).push(
                all[i as int],
            ));
            i += 1;
        }
        assert(start == 0 ==> all.subrange(0, all.len() as int) == all);
        Ok(LogSnapshot { status, lines: out })
    }
}

/// A local Paper demo server.
pub fn sample_local_server() -> (s: ServerInstance)
    ensures
        s.id@ == "local-demo"@,
        s.name@ == "Local Demo"@,
        s.directory_name@ == "Local Demo"@,
        s.icon_name@ == "server.rack"@,
        s.icon_image_file_name is None,
        s.server_type == ServerType::Paper,
        s.game_version@ == "1.21.1"@,
        s.loader_version@ == Seq::<char>::empty(),
        s.server_jar@ == "server.jar"@,
        s.launch_command@ == Seq::<char>::empty(),
        s.last_played_bits == 0,
        s.java_path@ == "java"@,
        s.jvm_arguments@ == "-Dfile.encoding=UTF-8"@,
        s.xms == 1024,
        s.xmx == 2048,
        s.console_mode == ConsoleMode::Direct,
        s.node_id@ == LOCAL_NODE_ID@,
        s.rcon_port == 25575,
        s.rcon_password@ == Seq::<char>::empty(),
{
    ServerInstance {
        id: owned("local-demo"),
        name: owned("Local Demo"),
        directory_name: owned("Local Demo"),
        icon_name: owned("server.rack"),
        icon_image_file_name: None,
        server_type: ServerType::Paper,
        game_version: owned("1.21.1"),
        loader_version: String::new(),
        server_jar: owned("server.jar"),
        launch_command: String::new(),
        last_played_bits: 0,
        java_path: owned("java"),
        jvm_arguments: owned("-Dfile.encoding=UTF-8"),
        xms: 1024,
        xmx: 2048,
        console_mode: ConsoleMode::Direct,
        node_id: owned(LOCAL_NODE_ID),
        rcon_port: 25575,
        rcon_password: String::new(),
    }
}

/// Law: a server the in-memory runtime has just started reports running, and its log
/// ends with the start line; one it has just stopped reports stopped.
pub proof fn lemma_start_stop_status(
    statuses: Map<Seq<char>, ServerStatus>,
    logs: Map<Seq<char>, Seq<Seq<char>>>,
    id: Seq<char>,
)
    ensures
        status_or_stopped(statuses.insert(id, ServerStatus::Running), id) == ServerStatus::Running,
        status_or_stopped(statuses.insert(id, ServerStatus::Stopped), id) == ServerStatus::Stopped,
        log_or_empty(logs.insert(id, log_or_empty(logs, id).push("[SCSL] started"@)), id).last()
            == "[SCSL] started"@,
{
}

/// Law: a log tail holds `min(n, len)` lines and they are the last lines of the log.
pub proof fn lemma_tail_is_suffix(lines: Seq<Seq<char>>, n: nat)
    ensures
        tail_lines(lines, n).len() == if lines.len() <= n {
            lines.len()
        } else {
            n
        },
        forall|i: int|
            0 <= i < tail_lines(lines, n).len() ==> #[trigger] tail_lines(lines, n)[i] == lines[lines.len()
                - tail_lines(lines, n).len() + i],
{
}

} // verus!
