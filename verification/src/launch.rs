//! Launch planning: the shell command that starts a server, and the scripts that start
//! and stop it in the background.

use vstd::prelude::*;
use crate::download::server_dir_path;
use crate::error::{CoreError, CoreErrorView};
use crate::model::{ServerInstance, ServerType, server_is_local, strings_view};
use crate::paths::{join_seq, path_join, path_join2};
use crate::text::{
    concat2, concat3, has_prefix, i64_to_decimal, int_decimal, is_blank, owned, push_char,
    replace, replace_seq, str_eq, strip_prefix, trim, trim_seq,
};

verus! {

// ---------------------------------------------------------------------------
// Splitting arguments
// ---------------------------------------------------------------------------

/// Whether `c` opens or closes a quoted span.
pub open spec fn is_quote(c: char) -> bool {
    c == '"' || c == '\''
}

/// The state of the argument splitter: the finished arguments, the argument being read,
/// and the quote character of the span being read, if any.
pub struct SplitState {
    pub done: Seq<Seq<char>>,
    pub cur: Seq<char>,
    pub quote: Option<char>,
}

/// The splitter before any character.
pub open spec fn split_init() -> SplitState {
    SplitState { done: Seq::empty(), cur: Seq::empty(), quote: None }
}

/// One character of the splitter: a quote character opens a span, the same character
/// closes it, an unquoted space ends a non-empty argument, and anything else is kept.
pub open spec fn split_step(st: SplitState, c: char) -> SplitState {
    match st.quote {
        None => if is_quote(c) {
            SplitState { quote: Some(c), ..st }
        } else if c == ' ' {
            if st.cur.len() > 0 {
                SplitState { done: st.done.push(st.cur), cur: Seq::empty(), quote: None }
            } else {
                st
            }
        } else {
            SplitState { cur: st.cur.push(c), ..st }
        },
        Some(q) => if c == q {
            SplitState { quote: None, ..st }
        } else {
            SplitState { cur: st.cur.push(c), ..st }
        },
    }
}

/// The splitter after reading all of `s`.
pub open spec fn split_state(s: Seq<char>) -> SplitState
    decreases s.len(),
{
    if s.len() == 0 {
        split_init()
    } else {
        split_step(split_state(s.drop_last()), s.last())
    }
}

/// The arguments of `s`: those finished, and the last one if it is not empty.
pub open spec fn split_args_seq(s: Seq<char>) -> Seq<Seq<char>> {
    let st = split_state(s);
    if st.cur.len() > 0 {
        st.done.push(st.cur)
    } else {
        st.done
    }
}

/// The arguments of a command line: separated by unquoted spaces, with single or double
/// quotes grouping text and removed.
pub fn split_args(input: &str) -> (r: Vec<String>)
    ensures
        strings_view(r@) == split_args_seq(input@),
{
    let mut done: Vec<String> = Vec::new();
    let mut cur = String::new();
    let mut quote: Option<char> = None;
    for c in it: input.chars()
        invariant
            it.seq() == input@,
            strings_view(done@) == split_state(input@.take(it.index() as int)).done,
            cur@ == split_state(input@.take(it.index() as int)).cur,
            quote == split_state(input@.take(it.index() as int)).quote,
    {
        assert(input@.take(it.index() + 1).drop_last() == input@.take(it.index() as int));
        assert(input@.take(it.index() + 1).last() == c);
        match quote {
            None => {
                if c == '"' || c == '\'' {
                    quote = Some(c);
                } else if c == ' ' {
                    if !cur.as_str().is_empty() {
                        let ghost before = done@;
                        let piece = cur;
                        done.push(piece);
                        assert(strings_view(done@) == strings_view(before).push(piece@));
                        cur = String::new();
                    }
                } else {
                    push_char(&mut cur, c);
                }
            },
            Some(q) => {
                if c == q {
                    quote = None;
                } else {
                    push_char(&mut cur, c);
                }
            },
        }
    }
    assert(input@.take(input@.len() as int) == input@);
    if !cur.as_str().is_empty() {
        let ghost before = done@;
        let piece = cur;
        done.push(piece);
        assert(strings_view(done@) == strings_view(before).push(piece@));
    }
    done
}

// ---------------------------------------------------------------------------
// Quoting and joining
// ---------------------------------------------------------------------------

/// `value` quoted for a POSIX shell: wrapped in single quotes, each single quote written
/// as `'"'"'`.
pub open spec fn shell_quote_seq(value: Seq<char>) -> Seq<char> {
    "'"@ + replace_seq(value, "'"@, "'\"'\"'"@) + "'"@
}

/// `value` quoted for a POSIX shell.
pub fn shell_quote(value: &str) -> (r: String)
    ensures
        r@ == shell_quote_seq(value@),
{
    proof {
        reveal_strlit("'");
    }
    let inner = replace(value, "'", "'\"'\"'");
    concat3("'", inner.as_str(), "'")
}

/// The words of `ws` separated by single spaces.
pub open spec fn join_words(ws: Seq<Seq<char>>) -> Seq<char>
    decreases ws.len(),
{
    if ws.len() == 0 {
        Seq::empty()
    } else if ws.len() == 1 {
        ws[0]
    } else {
        join_words(ws.drop_last()) + " "@ + ws.last()
    }
}

/// Each value quoted, then joined by spaces.
pub open spec fn shell_join_seq(values: Seq<Seq<char>>) -> Seq<char> {
    join_words(values.map_values(|v: Seq<char>| shell_quote_seq(v)))
}

/// The values quoted for a shell and joined by spaces.
pub fn shell_join(values: Vec<String>) -> (r: String)
    ensures
        r@ == shell_join_seq(strings_view(values@)),
{
    let ghost vs = strings_view(values@);
    let ghost qs = vs.map_values(|v: Seq<char>| shell_quote_seq(v));
    let mut out = String::new();
    let mut i: usize = 0;
    while i < values.len()
        invariant
            i <= values.len(),
            vs == strings_view(values@),
            qs == vs.map_values(|v: Seq<char>| shell_quote_seq(v)),
            out@ == join_words(qs.take(i as int)),
        decreases values.len() - i,
    {
        let q = shell_quote(values[i].as_str());
        assert(qs.take(i + 1).drop_last() == qs.take(i as int));
        assert(qs.take(i + 1).last() == q@);
        if i == 0 {
            out = q;
            assert(join_words(qs.take(1)) == qs.take(1)[0]);
        } else {
            out = concat3(out.as_str(), " ", q.as_str());
        }
        i += 1;
    }
    assert(qs.take(values.len() as int) == qs);
    out
}

// ---------------------------------------------------------------------------
// Custom launch commands
// ---------------------------------------------------------------------------

/// A command with ` nogui` appended unless one of its arguments already is `nogui`.
pub open spec fn with_no_gui(command: Seq<char>) -> Seq<char> {
    if split_args_seq(command).contains("nogui"@) {
        command
    } else {
        command + " nogui"@
    }
}

/// Whether some string of `v` equals `x`.
pub fn contains_str(v: &Vec<String>, x: &str) -> (r: bool)
    ensures
        r == strings_view(v@).contains(x@),
{
    let mut i: usize = 0;
    while i < v.len()
        invariant
            i <= v.len(),
            forall|j: int| 0 <= j < i ==> v@[j]@ != x@,
        decreases v.len() - i,
    {
        if str_eq(v[i].as_str(), x) {
            assert(strings_view(v@)[i as int] == x@);
            return true;
        }
        i += 1;
    }
    assert(!strings_view(v@).contains(x@)) by {
        if strings_view(v@).contains(x@) {
            let k = choose|k: int| 0 <= k < strings_view(v@).len() && strings_view(v@)[k] == x@;
            assert(v@[k]@ == x@);
        }
    }
    false
}

/// The command with ` nogui` appended unless it already has a `nogui` argument.
pub fn append_no_gui_if_needed(command: &str) -> (r: String)
    ensures
        r@ == with_no_gui(command@),
{
    let tokens = split_args(command);
    if contains_str(&tokens, "nogui") {
        owned(command)
    } else {
        concat2(command, " nogui")
    }
}

/// A custom launch command in canonical form: `nogui` ensured; when it starts with the
/// (trimmed, non-blank) executable hint, the hint followed by the remaining arguments;
/// otherwise all its arguments; each argument quoted, joined by spaces.
pub open spec fn normalized_command(command: Seq<char>, hint: Seq<char>) -> Seq<char> {
    let w = with_no_gui(command);
    let h = trim_seq(hint);
    if h.len() > 0 && has_prefix(w, h) {
        shell_join_seq(seq![h] + split_args_seq(trim_seq(w.subrange(h.len() as int, w.len() as int))))
    } else if split_args_seq(w).len() == 0 {
        w
    } else {
        shell_join_seq(split_args_seq(w))
    }
}

/// A custom launch command in canonical form.
pub fn normalize_launch_command(command: &str, executable_hint: &str) -> (r: String)
    ensures
        r@ == normalized_command(command@, executable_hint@),
{
    let with = append_no_gui_if_needed(command);
    let hint = trim(executable_hint);
    if !hint.as_str().is_empty() {
        match strip_prefix(with.as_str(), hint.as_str()) {
            Some(rest) => {
                let rest_trimmed = trim(rest.as_str());
                let rest_tokens = split_args(rest_trimmed.as_str());
                let mut all: Vec<String> = Vec::new();
                all.push(hint);
                let ghost first = all@;
                assert(strings_view(first) =~= seq![trim_seq(executable_hint@)]);
                let mut k: usize = 0;
                while k < rest_tokens.len()
                    invariant
                        k <= rest_tokens.len(),
                        strings_view(all@) == strings_view(first) + strings_view(
                            rest_tokens@,
                        ).take(k as int),
                    decreases rest_tokens.len() - k,
                {
                    let ghost before = all@;
                    all.push(owned(rest_tokens[k].as_str()));
                    assert(strings_view(rest_tokens@).take(k + 1) == strings_view(
                        rest_tokens@,
                    ).take(k as int).push(rest_tokens@[k as int]@));
                    assert(strings_view(all@) == strings_view(before).push(rest_tokens@[k as int]@));
                    k += 1;
                }
                assert(strings_view(rest_tokens@).take(rest_tokens.len() as int) == strings_view(
                    rest_tokens@,
                ));
                return shell_join(all);
            },
            None => {},
        }
    }
    let tokens = split_args(with.as_str());
    if tokens.len() == 0 {
        with
    } else {
        shell_join(tokens)
    }
}

// ---------------------------------------------------------------------------
// Launch plans
// ---------------------------------------------------------------------------

/// How a server is launched.
#[derive(Debug, Clone, PartialEq, Eq, Structural)]
pub enum ServerLaunchKind {
    CustomCommand,
    ForgeRunScript,
    ForgeUnixArgs,
    ForgeServerJar,
    Jar,
}

/// A server's launch command and the directory it runs in.
#[derive(Debug, Clone, PartialEq, Eq)]
pub struct ServerLaunchPlan {
    pub server_id: String,
    pub server_dir: String,
    pub launch_command: String,
    pub kind: ServerLaunchKind,
}

/// The script that starts a server in the background, unless it already runs.
pub open spec fn start_script(server_dir: Seq<char>, launch_command: Seq<char>) -> Seq<char> {
    "cd "@ + shell_quote_seq(server_dir) + START_SCRIPT_MIDDLE@ + launch_command
        + START_SCRIPT_END@
}

/// The script that asks a server to stop and then ends its processes.
pub open spec fn stop_script(server_dir: Seq<char>) -> Seq<char> {
    "cd "@ + shell_quote_seq(server_dir) + STOP_SCRIPT_END@
}

/// The start script between the directory and the launch command.
pub const START_SCRIPT_MIDDLE: &'static str = " && if test -f .scsl.pid && kill -0 $(cat .scsl.pid) 2>/dev/null; then echo __SCSL_ALREADY_RUNNING__; else rm -f .scsl.pid .scsl.stdin .scsl.launch.command .scsl.launch.wrapper; cat > .scsl.launch.command <<'__SCSL_CMD__'\nexec ";

/// The start script after the launch command.
pub const START_SCRIPT_END: &'static str = "\n__SCSL_CMD__\n              cat > .scsl.launch.wrapper <<'__SCSL_WRAPPER__'\n#!/bin/sh\necho $$ > .scsl.pid\nexec /bin/sh ./.scsl.launch.command\n__SCSL_WRAPPER__\n              chmod +x .scsl.launch.command .scsl.launch.wrapper && mkfifo .scsl.stdin && nohup /bin/sh -lc 'tail -f .scsl.stdin | ./.scsl.launch.wrapper' >> scsl-server.log 2>&1 & sleep 1; if test -f .scsl.pid && kill -0 $(cat .scsl.pid) 2>/dev/null; then echo __SCSL_STARTED__; else echo __SCSL_START_FAILED__; fi; fi";

/// The stop script after the directory.
pub const STOP_SCRIPT_END: &'static str = " && if test -p .scsl.stdin; then printf '%s\\n' 'stop' > .scsl.stdin || true; fi && sleep 8 && if test -f .scsl.pid; then pid=$(cat .scsl.pid); if kill -0 \"$pid\" 2>/dev/null; then pkill -TERM -P \"$pid\" 2>/dev/null || true; kill -TERM \"$pid\" 2>/dev/null || true; fi; rm -f .scsl.pid .scsl.stdin .scsl.launch.command .scsl.launch.wrapper; fi";

impl ServerLaunchPlan {
    /// The script that starts the server in the background, unless it already runs.
    pub fn direct_start_script(&self) -> (r: String)
        ensures
            r@ == start_script(self.server_dir@, self.launch_command@),
    {
        let dir = shell_quote(self.server_dir.as_str());
        let a = concat3("cd ", dir.as_str(), START_SCRIPT_MIDDLE);
        concat3(a.as_str(), self.launch_command.as_str(), START_SCRIPT_END)
    }

    /// The script that asks the server to stop and then ends its processes.
    pub fn graceful_stop_script(&self) -> (r: String)
        ensures
            r@ == stop_script(self.server_dir@),
    {
        let dir = shell_quote(self.server_dir.as_str());
        concat3("cd ", dir.as_str(), STOP_SCRIPT_END)
    }
}

/// What a Forge server directory holds that decides how it is launched: a `run.sh`
/// script, the Forge `unix_args.txt` file and a `forge-*-server.jar`.
pub struct ForgeLaunchArtifacts {
    pub run_script_exists: bool,
    pub unix_args_file: Option<String>,
    pub forge_server_jar: Option<String>,
}

/// What `Path::parent` returns for a Unix path: the path without its last component,
/// or nothing for a root or empty path (on Windows `\\` separates too, and the result
/// may differ).
pub uninterp spec fn path_parent_of(p: Seq<char>) -> Option<Seq<char>>;

/// `Path::parent`: the path without its last component. The contract names the result.
#[verifier::external_body]
pub(crate) fn path_parent(p: &str) -> (r: Option<String>)
    ensures
        crate::model::opt_view(r) == path_parent_of(p@),
{
    match std::path::Path::new(p).parent() {
        Some(q) => Some(q.to_string_lossy().into_owned()),
        None => None,
    }
}

/// The Java home of a Java executable: the parent of its parent directory, or the
/// executable path itself when it has no such ancestor.
pub open spec fn java_home_of(java_path: Seq<char>) -> Seq<char> {
    match path_parent_of(java_path) {
        Some(p) => match path_parent_of(p) {
            Some(h) => h,
            None => java_path,
        },
        None => java_path,
    }
}

/// The Java home of a Java executable.
pub fn java_home(java_path: &str) -> (r: String)
    ensures
        r@ == java_home_of(java_path@),
{
    match path_parent(java_path) {
        Some(p) => match path_parent(p.as_str()) {
            Some(h) => h,
            None => owned(java_path),
        },
        None => owned(java_path),
    }
}

/// The JVM arguments of a server: `-Xms<n>M` and `-Xmx<n>M` for positive sizes, then
/// its extra JVM arguments when they are not blank.
pub open spec fn spec_jvm_args(s: crate::model::ServerInstanceView) -> Seq<Seq<char>> {
    let xms = if s.xms > 0 {
        seq!["-Xms"@ + int_decimal(s.xms as int) + "M"@]
    } else {
        Seq::empty()
    };
    let xmx = if s.xmx > 0 {
        seq!["-Xmx"@ + int_decimal(s.xmx as int) + "M"@]
    } else {
        Seq::empty()
    };
    let extra = if trim_seq(s.jvm_arguments).len() > 0 {
        split_args_seq(s.jvm_arguments)
    } else {
        Seq::empty()
    };
    xms + xmx + extra
}

/// Appends copies of `extra` to `v`.
pub fn extend_strings(v: &mut Vec<String>, extra: &Vec<String>)
    ensures
        strings_view(final(v)@) == strings_view(old(v)@) + strings_view(extra@),
{
    let ghost start = strings_view(v@);
    let mut k: usize = 0;
    while k < extra.len()
        invariant
            k <= extra.len(),
            strings_view(v@) == start + strings_view(extra@).take(k as int),
        decreases extra.len() - k,
    {
        let ghost before = v@;
        v.push(owned(extra[k].as_str()));
        assert(strings_view(extra@).take(k + 1) == strings_view(extra@).take(k as int).push(
            extra@[k as int]@,
        ));
        assert(strings_view(v@) == strings_view(before).push(extra@[k as int]@));
        k += 1;
    }
    assert(strings_view(extra@).take(extra.len() as int) == strings_view(extra@));
}

/// Appends one string to `v`.
pub fn push_string(v: &mut Vec<String>, s: String)
    ensures
        strings_view(final(v)@) == strings_view(old(v)@).push(s@),
{
    v.push(s);
}

/// The JVM arguments of a server.
pub fn jvm_args(server: &ServerInstance) -> (r: Vec<String>)
    ensures
        strings_view(r@) == spec_jvm_args(server@),
{
    let mut args: Vec<String> = Vec::new();
    if server.xms > 0 {
        let n = i64_to_decimal(server.xms as i64);
        push_string(&mut args, concat3("-Xms", n.as_str(), "M"));
    }
    if server.xmx > 0 {
        let n = i64_to_decimal(server.xmx as i64);
        push_string(&mut args, concat3("-Xmx", n.as_str(), "M"));
    }
    if !is_blank(server.jvm_arguments.as_str()) {
        let extra = split_args(server.jvm_arguments.as_str());
        extend_strings(&mut args, &extra);
    }
    assert(strings_view(args@) =~= spec_jvm_args(server@));
    args
}

/// The Forge launch of a server directory, if its artifacts allow one: the `run.sh`
/// script with `JAVA_HOME` set; else Java with the base arguments and the
/// `unix_args.txt` argument file; else Java with the base arguments and the Forge jar.
pub open spec fn forge_launch(
    run_script_exists: bool,
    unix_args_file: Option<Seq<char>>,
    forge_server_jar: Option<Seq<char>>,
    java_path: Seq<char>,
    base_args: Seq<Seq<char>>,
) -> Option<(ServerLaunchKind, Seq<char>)> {
    if run_script_exists {
        Some(
            (
                ServerLaunchKind::ForgeRunScript,
                "env JAVA_HOME="@ + shell_quote_seq(java_home_of(java_path))
                    + " ./run.sh nogui"@,
            ),
        )
    } else {
        match unix_args_file {
            Some(f) => Some(
                (
                    ServerLaunchKind::ForgeUnixArgs,
                    shell_join_seq(seq![java_path] + base_args + seq!["@"@ + f, "nogui"@]),
                ),
            ),
            None => match forge_server_jar {
                Some(j) => Some(
                    (
                        ServerLaunchKind::ForgeServerJar,
                        shell_join_seq(seq![java_path] + base_args + seq!["-jar"@, j, "nogui"@]),
                    ),
                ),
                None => None,
            },
        }
    }
}

/// The view of a launch plan.
pub struct ServerLaunchPlanView {
    pub server_id: Seq<char>,
    pub server_dir: Seq<char>,
    pub launch_command: Seq<char>,
    pub kind: ServerLaunchKind,
}

impl View for ServerLaunchPlan {
    type V = ServerLaunchPlanView;

    open spec fn view(&self) -> ServerLaunchPlanView {
        ServerLaunchPlanView {
            server_id: self.server_id@,
            server_dir: self.server_dir@,
            launch_command: self.launch_command@,
            kind: self.kind,
        }
    }
}

/// The view of a launch-plan result.
pub open spec fn plan_result_view(r: Result<ServerLaunchPlan, CoreError>) -> Result<
    ServerLaunchPlanView,
    CoreErrorView,
> {
    match r {
        Ok(p) => Ok(p@),
        Err(e) => Err(e@),
    }
}

/// The launch plan of a server below a working directory, given what its directory
/// holds. Only local servers can be planned. A non-blank custom command is normalized;
/// a Forge server uses its Forge artifacts when there are any; any other server runs
/// its jar with Java (`java` when no Java path is set) and `nogui`.
pub open spec fn spec_plan(
    working_path: Seq<char>,
    s: crate::model::ServerInstanceView,
    run_script_exists: bool,
    unix_args_file: Option<Seq<char>>,
    forge_server_jar: Option<Seq<char>>,
) -> Result<ServerLaunchPlanView, CoreErrorView> {
    let dir = server_dir_path(working_path, s.directory_name);
    let custom = trim_seq(s.launch_command);
    let java = if trim_seq(s.java_path).len() == 0 {
        "java"@
    } else {
        trim_seq(s.java_path)
    };
    let args = spec_jvm_args(s);
    if !server_is_local(s) {
        Err(CoreErrorView::Unsupported("launch planning currently supports local servers only"@))
    } else if custom.len() > 0 {
        Ok(
            ServerLaunchPlanView {
                server_id: s.id,
                server_dir: dir,
                launch_command: normalized_command(custom, s.java_path),
                kind: ServerLaunchKind::CustomCommand,
            },
        )
    } else if s.server_type == ServerType::Forge && forge_launch(
        run_script_exists,
        unix_args_file,
        forge_server_jar,
        java,
        args,
    ) is Some {
        let (kind, command) = forge_launch(
            run_script_exists,
            unix_args_file,
            forge_server_jar,
            java,
            args,
        )->0;
        Ok(ServerLaunchPlanView { server_id: s.id, server_dir: dir, launch_command: command, kind })
    } else {
        Ok(
            ServerLaunchPlanView {
                server_id: s.id,
                server_dir: dir,
                launch_command: shell_join_seq(
                    seq![java] + args + seq!["-jar"@, join_seq(dir, s.server_jar), "nogui"@],
                ),
                kind: ServerLaunchKind::Jar,
            },
        )
    }
}

/// Plans how to launch servers below a working directory.
pub struct ServerLaunchPlanner {
    pub working_path: String,
}

/// The Forge launch command of a server directory, if its artifacts allow one.
pub fn forge_launch_command(
    artifacts: &ForgeLaunchArtifacts,
    java_path: &str,
    base_args: &Vec<String>,
) -> (r: Option<(ServerLaunchKind, String)>)
    ensures
        match r {
            Some((k, c)) => forge_launch(
                artifacts.run_script_exists,
                crate::model::opt_view(artifacts.unix_args_file),
                crate::model::opt_view(artifacts.forge_server_jar),
                java_path@,
                strings_view(base_args@),
            ) == Some((k, c@)),
            None => forge_launch(
                artifacts.run_script_exists,
                crate::model::opt_view(artifacts.unix_args_file),
                crate::model::opt_view(artifacts.forge_server_jar),
                java_path@,
                strings_view(base_args@),
            ) is None,
        },
{
    if artifacts.run_script_exists {
        let home = java_home(java_path);
        let quoted = shell_quote(home.as_str());
        return Some(
            (
                ServerLaunchKind::ForgeRunScript,
                concat3("env JAVA_HOME=", quoted.as_str(), " ./run.sh nogui"),
            ),
        );
    }
    let mut args: Vec<String> = Vec::new();
    push_string(&mut args, owned(java_path));
    extend_strings(&mut args, base_args);
    match &artifacts.unix_args_file {
        Some(f) => {
            push_string(&mut args, concat2("@", f.as_str()));
            push_string(&mut args, owned("nogui"));
            assert(strings_view(args@) =~= seq![java_path@] + strings_view(base_args@) + seq![
                "@"@ + f@,
                "nogui"@,
            ]);
            Some((ServerLaunchKind::ForgeUnixArgs, shell_join(args)))
        },
        None => match &artifacts.forge_server_jar {
            Some(j) => {
                push_string(&mut args, owned("-jar"));
                push_string(&mut args, owned(j.as_str()));
                push_string(&mut args, owned("nogui"));
                assert(strings_view(args@) =~= seq![java_path@] + strings_view(base_args@)
                    + seq!["-jar"@, j@, "nogui"@]);
                Some((ServerLaunchKind::ForgeServerJar, shell_join(args)))
            },
            None => None,
        },
    }
}

impl ServerLaunchPlanner {
    /// A planner for the given working directory.
    pub fn new(working_path: &str) -> (p: ServerLaunchPlanner)
        ensures
            p.working_path@ == working_path@,
    {
        ServerLaunchPlanner { working_path: owned(working_path) }
    }

    /// The directory of `server`: `<working>/servers/<directory>`.
    pub fn server_dir(&self, server: &ServerInstance) -> (r: String)
        ensures
            r@ == server_dir_path(self.working_path@, server.directory_name@),
    {
        path_join2(self.working_path.as_str(), "servers", server.directory_name.as_str())
    }

    /// The launch plan of `server`, given what its directory holds.
    pub fn plan(&self, server: &ServerInstance, artifacts: &ForgeLaunchArtifacts) -> (r: Result<
        ServerLaunchPlan,
        CoreError,
    >)
        ensures
            plan_result_view(r) == spec_plan(
                self.working_path@,
                server@,
                artifacts.run_script_exists,
                crate::model::opt_view(artifacts.unix_args_file),
                crate::model::opt_view(artifacts.forge_server_jar),
            ),
    {
        if !server.is_local() {
            return Err(
                CoreError::unsupported("launch planning currently supports local servers only"),
            );
        }
        let server_dir = self.server_dir(server);
        let custom = trim(server.launch_command.as_str());
        if !custom.as_str().is_empty() {
            let normalized = normalize_launch_command(custom.as_str(), server.java_path.as_str());
            return Ok(
                ServerLaunchPlan {
                    server_id: owned(server.id.as_str()),
                    server_dir,
                    launch_command: normalized,
                    kind: ServerLaunchKind::CustomCommand,
                },
            );
        }
        let java_path = if is_blank(server.java_path.as_str()) {
            owned("java")
        } else {
            trim(server.java_path.as_str())
        };
        let args = jvm_args(server);
        if server.server_type == ServerType::Forge {
            match forge_launch_command(artifacts, java_path.as_str(), &args) {
                Some((kind, command)) => {
                    return Ok(
                        ServerLaunchPlan {
                            server_id: owned(server.id.as_str()),
                            server_dir,
                            launch_command: command,
                            kind,
                        },
                    );
                },
                None => {},
            }
        }
        let mut all: Vec<String> = Vec::new();
        push_string(&mut all, owned(java_path.as_str()));
        extend_strings(&mut all, &args);
        push_string(&mut all, owned("-jar"));
        push_string(&mut all, path_join(server_dir.as_str(), server.server_jar.as_str()));
        push_string(&mut all, owned("nogui"));
        assert(strings_view(all@) =~= seq![java_path@] + strings_view(args@) + seq![
            "-jar"@,
            join_seq(server_dir@, server.server_jar@),
            "nogui"@,
        ]);
        Ok(
            ServerLaunchPlan {
                server_id: owned(server.id.as_str()),
                server_dir,
                launch_command: shell_join(all),
                kind: ServerLaunchKind::Jar,
            },
        )
    }
}


// ---------------------------------------------------------------------------
// Laws
// ---------------------------------------------------------------------------

/// Words joined by spaces start with the first word, a space and the second word.
pub proof fn lemma_join_words_leading_pair(ws: Seq<Seq<char>>)
    requires
        ws.len() >= 2,
    ensures
        (ws[0] + " "@ + ws[1]).is_prefix_of(join_words(ws)),
    decreases ws.len(),
{
    let lead = ws[0] + " "@ + ws[1];
    let init = ws.drop_last();
    if ws.len() == 2 {
        assert(init.len() == 1 && init[0] == ws[0]);
        assert(join_words(init) == ws[0]);
        assert(join_words(ws) =~= lead);
    } else {
        lemma_join_words_leading_pair(init);
        assert(init[0] == ws[0] && init[1] == ws[1]);
        let j = join_words(init);
        assert(join_words(ws) == j + " "@ + ws.last());
        assert((j + " "@ + ws.last()).subrange(0, lead.len() as int) =~= j.subrange(
            0,
            lead.len() as int,
        ));
    }
}

/// A shell command made of two or more words starts with the first two words, each
/// quoted, separated by a space.
pub proof fn lemma_shell_join_leading_pair(words: Seq<Seq<char>>)
    requires
        words.len() >= 2,
    ensures
        (shell_quote_seq(words[0]) + " "@ + shell_quote_seq(words[1])).is_prefix_of(
            shell_join_seq(words),
        ),
{
    let qs = words.map_values(|v: Seq<char>| shell_quote_seq(v));
    assert(qs[0] == shell_quote_seq(words[0]));
    assert(qs[1] == shell_quote_seq(words[1]));
    lemma_join_words_leading_pair(qs);
}

/// The heap sizes of a server are never dropped from its JVM arguments: a positive
/// minimum heap size is the first argument, `-Xms<size>M`; a positive maximum heap size
/// follows it as `-Xmx<size>M` (or comes first when there is no minimum).
pub proof fn lemma_jvm_args_heap_sizes(s: crate::model::ServerInstanceView)
    ensures
        s.xms > 0 ==> spec_jvm_args(s).len() >= 1 && spec_jvm_args(s)[0] == "-Xms"@
            + int_decimal(s.xms as int) + "M"@,
        s.xms > 0 && s.xmx > 0 ==> spec_jvm_args(s).len() >= 2 && spec_jvm_args(s)[1] == "-Xmx"@
            + int_decimal(s.xmx as int) + "M"@,
        s.xms <= 0 && s.xmx > 0 ==> spec_jvm_args(s).len() >= 1 && spec_jvm_args(s)[0] == "-Xmx"@
            + int_decimal(s.xmx as int) + "M"@,
        trim_seq(s.jvm_arguments).len() > 0 ==> split_args_seq(s.jvm_arguments).is_suffix_of(
            spec_jvm_args(s),
        ),
        spec_jvm_args(s).len() == (if s.xms > 0 {
            1int
        } else {
            0
        }) + (if s.xmx > 0 {
            1int
        } else {
            0
        }) + (if trim_seq(s.jvm_arguments).len() > 0 {
            split_args_seq(s.jvm_arguments).len() as int
        } else {
            0
        }),
{
    let a = spec_jvm_args(s);
    if trim_seq(s.jvm_arguments).len() > 0 {
        let e = split_args_seq(s.jvm_arguments);
        assert(a.subrange(a.len() - e.len(), a.len() as int) =~= e);
    }
}

/// Words joined by spaces end with the last two words and the space between them.
pub proof fn lemma_join_words_trailing_pair(ws: Seq<Seq<char>>)
    requires
        ws.len() >= 2,
    ensures
        (ws[ws.len() - 2] + " "@ + ws.last()).is_suffix_of(join_words(ws)),
    decreases ws.len(),
{
    let init = ws.drop_last();
    let tail = ws[ws.len() - 2] + " "@ + ws.last();
    let j = join_words(init);
    if init.len() == 1 {
        assert(j == init[0]);
    } else {
        assert(join_words(init) == join_words(init.drop_last()) + " "@ + init.last());
    }
    assert(init.last() == ws[ws.len() - 2]);
    assert(join_words(ws) == j + " "@ + ws.last());
    let all = j + " "@ + ws.last();
    assert(all.subrange(all.len() - tail.len(), all.len() as int) =~= tail);
}

/// A jar launch runs the server's jar below its directory and asks for no GUI: its
/// command ends with the quoted path `<working>/servers/<directory>/<jar>`, a space and
/// `'nogui'`.
pub proof fn lemma_jar_plan_ends_with_jar(
    working_path: Seq<char>,
    s: crate::model::ServerInstanceView,
    run_script_exists: bool,
    unix_args_file: Option<Seq<char>>,
    forge_server_jar: Option<Seq<char>>,
)
    ensures
        match spec_plan(working_path, s, run_script_exists, unix_args_file, forge_server_jar) {
            Ok(p) => p.kind == ServerLaunchKind::Jar ==> (shell_quote_seq(
                join_seq(server_dir_path(working_path, s.directory_name), s.server_jar),
            ) + " "@ + shell_quote_seq("nogui"@)).is_suffix_of(p.launch_command),
            Err(_) => true,
        },
{
    let dir = server_dir_path(working_path, s.directory_name);
    let java = if trim_seq(s.java_path).len() == 0 {
        "java"@
    } else {
        trim_seq(s.java_path)
    };
    let words = seq![java] + spec_jvm_args(s) + seq!["-jar"@, join_seq(dir, s.server_jar), "nogui"@];
    let qs = words.map_values(|v: Seq<char>| shell_quote_seq(v));
    assert(words[words.len() - 2] == join_seq(dir, s.server_jar));
    assert(words.last() == "nogui"@);
    assert(qs[qs.len() - 2] == shell_quote_seq(join_seq(dir, s.server_jar)));
    assert(qs.last() == shell_quote_seq("nogui"@));
    lemma_join_words_trailing_pair(qs);
}

/// Every launch that runs Java directly (a server jar, a Forge argument file or a Forge
/// jar) passes a server's positive minimum heap size right after the Java program: the
/// launch command starts with the quoted Java program (`java` when no Java path is set),
/// a space and the quoted `-Xms<size>M`.
pub proof fn lemma_plan_keeps_min_heap(
    working_path: Seq<char>,
    s: crate::model::ServerInstanceView,
    run_script_exists: bool,
    unix_args_file: Option<Seq<char>>,
    forge_server_jar: Option<Seq<char>>,
)
    requires
        s.xms > 0,
    ensures
        match spec_plan(working_path, s, run_script_exists, unix_args_file, forge_server_jar) {
            Ok(p) => (p.kind == ServerLaunchKind::Jar || p.kind == ServerLaunchKind::ForgeUnixArgs
                || p.kind == ServerLaunchKind::ForgeServerJar) ==> (shell_quote_seq(
                if trim_seq(s.java_path).len() == 0 {
                    "java"@
                } else {
                    trim_seq(s.java_path)
                },
            ) + " "@ + shell_quote_seq("-Xms"@ + int_decimal(s.xms as int) + "M"@)).is_prefix_of(
                p.launch_command,
            ),
            Err(_) => true,
        },
{
    let dir = server_dir_path(working_path, s.directory_name);
    let java = if trim_seq(s.java_path).len() == 0 {
        "java"@
    } else {
        trim_seq(s.java_path)
    };
    let args = spec_jvm_args(s);
    lemma_jvm_args_heap_sizes(s);
    let heap = "-Xms"@ + int_decimal(s.xms as int) + "M"@;
    let jar_words = seq![java] + args + seq!["-jar"@, join_seq(dir, s.server_jar), "nogui"@];
    assert(jar_words[0] == java && jar_words[1] == heap);
    lemma_shell_join_leading_pair(jar_words);
    if !run_script_exists {
        match unix_args_file {
            Some(f) => {
                let words = seq![java] + args + seq!["@"@ + f, "nogui"@];
                assert(words[0] == java && words[1] == heap);
                lemma_shell_join_leading_pair(words);
            },
            None => match forge_server_jar {
                Some(j) => {
                    let words = seq![java] + args + seq!["-jar"@, j, "nogui"@];
                    assert(words[0] == java && words[1] == heap);
                    lemma_shell_join_leading_pair(words);
                },
                None => {},
            },
        }
    }
}

} // verus!
