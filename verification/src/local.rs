//! Servers run on this machine: where their files are, the shell scripts that drive
//! them, their `server.properties`, and how their logs are followed.

use vstd::prelude::*;
use crate::download::server_dir_path;
use crate::error::{CoreError, CoreErrorView};
use crate::launch::{shell_quote, shell_quote_seq, ServerLaunchPlanner};
use crate::model::{strings_view, ServerInstance, ServerInstanceView};
use crate::paths::{join_seq, path_join};
use crate::registry::Registry;
use crate::text::{
    append, ascii_lower_seq, char_index, chars_of, concat2, contains, contains_seq, find_char,
    has_prefix, is_ws, join_with, lemma_split_concat, lemma_split_joined, owned, split_char,
    split_seq, starts_with, str_eq, string_of_range, to_ascii_lowercase, trim, trim_seq,
};

verus! {

// ---------------------------------------------------------------------------
// Paths inside a server directory
// ---------------------------------------------------------------------------

/// The parts of a relative path that name directories and files, dropping empty parts
/// and `.`; none when a `..` part climbs out.
pub open spec fn clean_parts(ps: Seq<Seq<char>>) -> Option<Seq<Seq<char>>>
    decreases ps.len(),
{
    if ps.len() == 0 {
        Some(Seq::empty())
    } else {
        match clean_parts(ps.drop_last()) {
            None => None,
            Some(acc) => {
                let p = ps.last();
                if p == ".."@ {
                    None
                } else if p.len() == 0 || p == "."@ {
                    Some(acc)
                } else {
                    Some(acc.push(p))
                }
            },
        }
    }
}

/// The parts of a server-relative path (the components of `Path::components` that are
/// names), or none when the path is absolute or climbs out with `..`.
pub open spec fn relative_parts(rel: Seq<char>) -> Option<Seq<Seq<char>>> {
    if has_prefix(rel, "/"@) {
        None
    } else {
        clean_parts(split_seq(rel, '/'))
    }
}

/// `base` extended by each of `parts` in turn.
pub open spec fn join_all(base: Seq<char>, parts: Seq<Seq<char>>) -> Seq<char>
    decreases parts.len(),
{
    if parts.len() == 0 {
        base
    } else {
        join_seq(join_all(base, parts.drop_last()), parts.last())
    }
}

/// A path inside a server directory: the relative path's names below the directory; an
/// absolute path or one with `..` is refused.
pub open spec fn spec_resolve_server_path(server_dir: Seq<char>, rel: Seq<char>) -> Result<Seq<char>, CoreErrorView> {
    match relative_parts(rel) {
        Some(parts) => Ok(join_all(server_dir, parts)),
        None => Err(CoreErrorView::Validation("invalid server-relative path: "@ + rel)),
    }
}

/// The log files of a server directory, in the order they are tried.
pub open spec fn log_candidates_seq(server_dir: Seq<char>) -> Seq<Seq<char>> {
    seq![
        join_seq(server_dir, "scsl-server.log"@),
        join_seq(server_dir, "logs/latest.log"@),
        join_seq(server_dir, "latest.log"@),
        join_seq(server_dir, "server.log"@),
    ]
}

/// The local runtime: it finds servers below a working directory.
pub struct LocalServerRuntime {
    pub planner: ServerLaunchPlanner,
}

impl LocalServerRuntime {
    /// A runtime for the servers below `working_path`.
    pub fn new(working_path: &str) -> (r: LocalServerRuntime)
        ensures
            r.planner.working_path@ == working_path@,
    {
        LocalServerRuntime { planner: ServerLaunchPlanner::new(working_path) }
    }

    /// The directory of a server.
    pub fn server_dir(&self, server: &ServerInstance) -> (r: String)
        ensures
            r@ == server_dir_path(self.planner.working_path@, server.directory_name@),
    {
        self.planner.server_dir(server)
    }

    /// A path inside a server's directory, which must not leave it.
    pub fn resolve_server_path(&self, server: &ServerInstance, relative_path: &str) -> (r: Result<String, CoreError>)
        ensures
            crate::mirror::string_result_view(r) == spec_resolve_server_path(
                server_dir_path(self.planner.working_path@, server.directory_name@),
                relative_path@,
            ),
    {
        let dir = self.server_dir(server);
        resolve_below(dir.as_str(), relative_path)
    }

    /// The log files of a server directory, in the order they are tried.
    pub fn local_log_candidates(&self, server_dir: &str) -> (r: [String; 4])
        ensures
            strings_view(r@) == log_candidates_seq(server_dir@),
    {
        let r = [
            path_join(server_dir, "scsl-server.log"),
            path_join(server_dir, "logs/latest.log"),
            path_join(server_dir, "latest.log"),
            path_join(server_dir, "server.log"),
        ];
        assert(strings_view(r@) =~= log_candidates_seq(server_dir@));
        r
    }
}

/// A path below `dir` given relative to it, which must not leave it.
pub fn resolve_below(dir: &str, relative_path: &str) -> (r: Result<String, CoreError>)
    ensures
        crate::mirror::string_result_view(r) == spec_resolve_server_path(dir@, relative_path@),
{
    proof {
        reveal_strlit("/");
    }
    if starts_with(relative_path, "/") {
        return Err(CoreError::Validation(concat2("invalid server-relative path: ", relative_path)));
    }
    let pieces = split_char(relative_path, '/');
    let ghost ps = split_seq(relative_path@, '/');
    let mut path = owned(dir);
    let ghost mut acc: Seq<Seq<char>> = Seq::empty();
    let mut i: usize = 0;
    assert(ps.take(0) =~= Seq::<Seq<char>>::empty());
    while i < pieces.len()
        invariant
            i <= pieces.len(),
            ps == split_seq(relative_path@, '/'),
            !has_prefix(relative_path@, "/"@),
            pieces@.len() == ps.len(),
            forall|j: int| 0 <= j < pieces@.len() ==> #[trigger] pieces@[j]@ == ps[j],
            clean_parts(ps.take(i as int)) == Some(acc),
            path@ == join_all(dir@, acc),
        decreases pieces.len() - i,
    {
        assert(ps.take(i + 1).drop_last() =~= ps.take(i as int));
        assert(ps.take(i + 1).last() == pieces@[i as int]@);
        let part = pieces[i].as_str();
        if str_eq(part, "..") {
            assert(clean_parts(ps.take(i + 1)) is None);
            assert(clean_parts(ps) is None) by {
                lemma_clean_parts_stays_none(ps, i as int + 1);
            }
            return Err(CoreError::Validation(concat2("invalid server-relative path: ", relative_path)));
        } else if part.is_empty() || str_eq(part, ".") {
        } else {
            path = path_join(path.as_str(), part);
            proof {
                assert(acc.push(part@).drop_last() =~= acc);
                acc = acc.push(part@);
            }
        }
        i += 1;
    }
    assert(ps.take(pieces.len() as int) =~= ps);
    Ok(path)
}

/// Once `..` has been met, the parts stay refused.
proof fn lemma_clean_parts_stays_none(ps: Seq<Seq<char>>, k: int)
    requires
        0 <= k <= ps.len(),
        clean_parts(ps.take(k)) is None,
    ensures
        clean_parts(ps) is None,
    decreases ps.len() - k,
{
    if k < ps.len() {
        assert(ps.take(k + 1).drop_last() =~= ps.take(k));
        lemma_clean_parts_stays_none(ps, k + 1);
    } else {
        assert(ps.take(k) =~= ps);
    }
}

/// Whether a file of a server directory is listed: hidden files and `eula.txt`, in any
/// ASCII case, are not.
pub open spec fn is_listed_file_name(name: Seq<char>) -> bool {
    !has_prefix(name, "."@) && ascii_lower_seq(name) != "eula.txt"@
}

/// Whether a file of a server directory is listed.
pub fn is_listed_server_file(name: &str) -> (r: bool)
    ensures
        r == is_listed_file_name(name@),
{
    let lower = to_ascii_lowercase(name);
    !starts_with(name, ".") && !str_eq(lower.as_str(), "eula.txt")
}

// ---------------------------------------------------------------------------
// server.properties
// ---------------------------------------------------------------------------

/// The property set by one line of `server.properties`: blank lines and comments set
/// none; otherwise the trimmed line split at its first `=`, both sides trimmed.
pub open spec fn property_entry(line: Seq<char>) -> Option<(Seq<char>, Seq<char>)> {
    let raw = trim_seq(line);
    if raw.len() == 0 || has_prefix(raw, "#"@) {
        None
    } else {
        match char_index(raw, '=') {
            Some(i) => Some((trim_seq(raw.take(i)), trim_seq(raw.skip(i + 1)))),
            None => None,
        }
    }
}

/// The properties set by `lines` in order, a later line overriding an earlier one.
pub open spec fn properties_of(lines: Seq<Seq<char>>) -> Map<Seq<char>, Seq<char>>
    decreases lines.len(),
{
    if lines.len() == 0 {
        Map::empty()
    } else {
        let m = properties_of(lines.drop_last());
        match property_entry(lines.last()) {
            Some((k, v)) => m.insert(k, v),
            None => m,
        }
    }
}

/// The property set by one line of `server.properties`.
fn property_line_entry(line: &str) -> (r: Option<(String, String)>)
    ensures
        match r {
            Some((k, v)) => property_entry(line@) == Some((k@, v@)),
            None => property_entry(line@) is None,
        },
{
    let raw = trim(line);
    if raw.as_str().is_empty() || starts_with(raw.as_str(), "#") {
        return None;
    }
    let cs = chars_of(raw.as_str());
    match find_char(&cs, '=') {
        Some(k) => {
            let key = string_of_range(&cs, 0, k);
            let value = string_of_range(&cs, k + 1, cs.len());
            assert(key@ == cs@.take(k as int));
            assert(value@ == cs@.skip(k + 1));
            Some((trim(key.as_str()), trim(value.as_str())))
        },
        None => None,
    }
}

/// The properties in the text of a `server.properties` file.
pub fn parse_server_properties(content: &str) -> (r: Registry<String>)
    ensures
        r.wf(),
        crate::game::text_map_view(r.map()) == properties_of(split_seq(content@, '\n')),
{
    let lines = split_char(content, '\n');
    let ghost pieces = split_seq(content@, '\n');
    let mut r: Registry<String> = Registry::new();
    assert(crate::game::text_map_view(r.map()) =~= properties_of(pieces.take(0)));
    let mut i: usize = 0;
    while i < lines.len()
        invariant
            r.wf(),
            i <= lines.len(),
            lines@.len() == pieces.len(),
            forall|j: int| 0 <= j < lines@.len() ==> #[trigger] lines@[j]@ == pieces[j],
            crate::game::text_map_view(r.map()) == properties_of(pieces.take(i as int)),
        decreases lines.len() - i,
    {
        assert(pieces.take(i + 1).drop_last() == pieces.take(i as int));
        assert(pieces.take(i + 1).last() == lines@[i as int]@);
        match property_line_entry(lines[i].as_str()) {
            Some((key, value)) => {
                let ghost before = r.map();
                r.insert(key, value);
                assert(crate::game::text_map_view(r.map()) =~= crate::game::text_map_view(before).insert(key@, value@));
            },
            None => {},
        }
        i += 1;
    }
    assert(pieces.take(lines.len() as int) == pieces);
    r
}

/// The lines `key=value` of properties, in order.
pub open spec fn property_lines(ps: Seq<(Seq<char>, Seq<char>)>) -> Seq<Seq<char>> {
    ps.map_values(|p: (Seq<char>, Seq<char>)| p.0 + "="@ + p.1)
}

/// The text of a `server.properties` file: one `key=value` line per property, each
/// ending with a line break.
pub open spec fn properties_text_seq(ps: Seq<(Seq<char>, Seq<char>)>) -> Seq<char> {
    if ps.len() == 0 {
        Seq::empty()
    } else {
        crate::text::join_with(property_lines(ps), "\n"@) + "\n"@
    }
}

/// The text of a `server.properties` file for properties given in key order.
pub fn server_properties_text(properties: &Vec<(String, String)>) -> (r: String)
    ensures
        r@ == properties_text_seq(crate::game::pairs_view(properties@)),
{
    let ghost pv = crate::game::pairs_view(properties@);
    let mut lines: Vec<String> = Vec::new();
    let mut i: usize = 0;
    while i < properties.len()
        invariant
            i <= properties.len(),
            pv == crate::game::pairs_view(properties@),
            strings_view(lines@) == property_lines(pv.take(i as int)),
        decreases properties.len() - i,
    {
        let mut line = owned(properties[i].0.as_str());
        append(&mut line, "=");
        append(&mut line, properties[i].1.as_str());
        let ghost before = lines@;
        lines.push(line);
        assert(strings_view(lines@) =~= strings_view(before).push(line@));
        assert(property_lines(pv.take(i + 1)) =~= property_lines(pv.take(i as int)).push(line@));
        i += 1;
    }
    assert(pv.take(properties.len() as int) =~= pv);
    assert(lines@.map_values(|x: String| x@) == strings_view(lines@));
    let content = crate::text::join_strings(&lines, "\n");
    if properties.len() == 0 {
        String::new()
    } else {
        concat2(content.as_str(), "\n")
    }
}

/// The map that properties given in order make, a later one overriding an earlier one
/// with the same key.
pub open spec fn pairs_map(ps: Seq<(Seq<char>, Seq<char>)>) -> Map<Seq<char>, Seq<char>>
    decreases ps.len(),
{
    if ps.len() == 0 {
        Map::empty()
    } else {
        pairs_map(ps.drop_last()).insert(ps.last().0, ps.last().1)
    }
}

/// Text that neither starts nor ends with whitespace.
pub open spec fn unpadded(s: Seq<char>) -> bool {
    s.len() == 0 || (!is_ws(s[0]) && !is_ws(s.last()))
}

/// A property that a `key=value` line holds as it is: a key that does not start a
/// comment and has no `=`, and neither side padded with whitespace nor holding a line
/// break. The key may be empty.
pub open spec fn storable_property(key: Seq<char>, value: Seq<char>) -> bool {
    &&& key.len() > 0 ==> key[0] != '#'
    &&& unpadded(key)
    &&& unpadded(value)
    &&& !key.contains('=')
    &&& !key.contains('\n')
    &&& !value.contains('\n')
}

/// Lemma: unpadded text is its own trimmed form.
proof fn lemma_unpadded_trim(s: Seq<char>)
    requires
        unpadded(s),
    ensures
        trim_seq(s) == s,
{
}

/// Lemma: the line of a storable property reads back as that property.
proof fn lemma_property_line_entry(key: Seq<char>, value: Seq<char>)
    requires
        storable_property(key, value),
    ensures
        property_entry(key + "="@ + value) == Some((key, value)),
{
    reveal_strlit("=");
    reveal_strlit("#");
    let line = key + "="@ + value;
    if key.len() > 0 {
        assert(line[0] == key[0]);
    } else {
        assert(line[0] == '=');
    }
    assert(!is_ws('='));
    if value.len() > 0 {
        assert(line.last() == value.last());
    } else {
        assert(line.last() == '=');
    }
    lemma_unpadded_trim(line);
    assert(line.subrange(0, 1) != "#"@) by {
        assert(line.subrange(0, 1)[0] == line[0]);
    }
    let n = key.len() as int;
    assert(line[n] == '=');
    assert(char_index(line, '=') == Some(n)) by {
        assert(0 <= n < line.len() && line[n] == '=');
        assert(forall|j: int| 0 <= j < n ==> line[j] == key[j]);
        assert forall|j: int| 0 <= j < n implies line[j] != '=' by {
            if line[j] == '=' {
                assert(key[j] == '=');
                assert(key.contains('='));
            }
        }
        let k = choose|k: int| 0 <= k < line.len() && line[k] == '=' && forall|j: int| 0 <= j < k ==> line[j] != '=';
        if k < n {
            assert(key[k] == '=');
            assert(key.contains('='));
        }
        if k > n {
            assert(line[n] != '=');
        }
    }
    assert(line.take(n) =~= key);
    assert(line.skip(n + 1) =~= value);
    lemma_unpadded_trim(key);
    lemma_unpadded_trim(value);
}

/// Lemma: the lines of storable properties read back as their map.
proof fn lemma_property_lines_read_back(ps: Seq<(Seq<char>, Seq<char>)>)
    requires
        forall|i: int| 0 <= i < ps.len() ==> storable_property(#[trigger] ps[i].0, ps[i].1),
    ensures
        properties_of(property_lines(ps)) == pairs_map(ps),
    decreases ps.len(),
{
    if ps.len() > 0 {
        let init = ps.drop_last();
        assert forall|i: int| 0 <= i < init.len() implies storable_property(#[trigger] init[i].0, init[i].1) by {
            assert(init[i] == ps[i]);
        }
        lemma_property_lines_read_back(init);
        assert(property_lines(ps).drop_last() =~= property_lines(init));
        lemma_property_line_entry(ps.last().0, ps.last().1);
    }
}

/// Writing properties to `server.properties` text and reading the text back gives each
/// key the value it was written with last, for properties that a line holds as they
/// are.
pub proof fn lemma_properties_read_back(ps: Seq<(Seq<char>, Seq<char>)>)
    requires
        forall|i: int| 0 <= i < ps.len() ==> storable_property(#[trigger] ps[i].0, ps[i].1),
    ensures
        properties_of(split_seq(properties_text_seq(ps), '\n')) == pairs_map(ps),
{
    reveal_strlit("\n");
    reveal_strlit("=");
    assert("\n"@ =~= seq!['\n']);
    if ps.len() == 0 {
        assert(split_seq(Seq::<char>::empty(), '\n') == seq![Seq::<char>::empty()]);
        assert(seq![Seq::<char>::empty()].drop_last() =~= Seq::<Seq<char>>::empty());
        assert(trim_seq(Seq::<char>::empty()) == Seq::<char>::empty());
        assert(property_entry(Seq::<char>::empty()) is None);
        assert(properties_of(seq![Seq::<char>::empty()]) == properties_of(Seq::<Seq<char>>::empty()));
        assert(properties_of(Seq::<Seq<char>>::empty()) =~= pairs_map(ps));
    } else {
        let lines = property_lines(ps);
        assert forall|i: int| 0 <= i < lines.len() implies !(#[trigger] lines[i]).contains('\n') by {
            let (k, v) = ps[i];
            assert(lines[i] == k + "="@ + v);
            if lines[i].contains('\n') {
                let j = choose|j: int| 0 <= j < lines[i].len() && lines[i][j] == '\n';
                if j < k.len() {
                    assert(k[j] == '\n');
                    assert(k.contains('\n'));
                } else if j > k.len() {
                    assert(v[j - k.len() - 1] == '\n');
                    assert(v.contains('\n'));
                }
            }
        }
        lemma_split_joined(lines, '\n');
        lemma_split_concat(join_with(lines, seq!['\n']), Seq::empty(), '\n');
        assert(join_with(lines, seq!['\n']) + seq!['\n'] + Seq::<char>::empty() =~= properties_text_seq(ps));
        let pieces = split_seq(properties_text_seq(ps), '\n');
        assert(split_seq(Seq::<char>::empty(), '\n') == seq![Seq::<char>::empty()]);
        assert(pieces.drop_last() =~= lines);
        assert(pieces.last() == Seq::<char>::empty());
        assert(trim_seq(Seq::<char>::empty()) == Seq::<char>::empty());
        assert(property_entry(Seq::<char>::empty()) is None);
        assert(properties_of(pieces) == properties_of(pieces.drop_last()));
        lemma_property_lines_read_back(ps);
    }
}

// ---------------------------------------------------------------------------
// Shell scripts and their output
// ---------------------------------------------------------------------------

/// The script that writes a command into a server's console pipe, if the pipe exists.
pub open spec fn send_command_script_seq(fifo_path: Seq<char>, command: Seq<char>) -> Seq<char> {
    "test -p "@ + shell_quote_seq(fifo_path) + " && printf '%s\\n' "@ + shell_quote_seq(command) + " > "@
        + shell_quote_seq(fifo_path)
}

/// The script that writes a command into a server's console pipe.
pub fn send_command_script(fifo_path: &str, command: &str) -> (r: String)
    ensures
        r@ == send_command_script_seq(fifo_path@, command@),
{
    let quoted_fifo = shell_quote(fifo_path);
    let mut out = owned("test -p ");
    append(&mut out, quoted_fifo.as_str());
    append(&mut out, " && printf '%s\\n' ");
    append(&mut out, shell_quote(command).as_str());
    append(&mut out, " > ");
    append(&mut out, quoted_fifo.as_str());
    out
}

/// The part of the forced interrupt script after the server directory.
pub open spec fn force_interrupt_tail() -> Seq<char> {
    " && if test -f .scsl.pid; then pid=$(cat .scsl.pid); pkill -KILL -P \"$pid\" 2>/dev/null || true; kill -KILL \"$pid\" 2>/dev/null || true; rm -f .scsl.pid .scsl.stdin; echo __SCSL_FORCE_INTERRUPTED__; else echo __SCSL_PID_MISSING__; fi"@
}

/// The part of the gentle interrupt script after the server directory.
pub open spec fn gentle_interrupt_tail() -> Seq<char> {
    " && if test -p .scsl.stdin; then printf '%s\\n' 'stop' > .scsl.stdin || true; fi && sleep 8 && if test -f .scsl.pid; then pid=$(cat .scsl.pid); if kill -0 \"$pid\" 2>/dev/null; then pkill -INT -P \"$pid\" 2>/dev/null || true; kill -INT \"$pid\" 2>/dev/null || true; sleep 2; fi; if kill -0 \"$pid\" 2>/dev/null; then pkill -TERM -P \"$pid\" 2>/dev/null || true; kill -TERM \"$pid\" 2>/dev/null || true; fi; rm -f .scsl.pid .scsl.stdin; echo __SCSL_INTERRUPTED__; else echo __SCSL_PID_MISSING__; fi"@
}

/// The script that interrupts a server: forced, it kills the process at once; gently,
/// it sends `stop`, waits, then interrupts and finally terminates what is left.
pub open spec fn interrupt_script_seq(server_dir: Seq<char>, force: bool) -> Seq<char> {
    "cd "@ + shell_quote_seq(server_dir) + if force {
        force_interrupt_tail()
    } else {
        gentle_interrupt_tail()
    }
}

/// The script that interrupts a server.
pub fn interrupt_script(server_dir: &str, force: bool) -> (r: String)
    ensures
        r@ == interrupt_script_seq(server_dir@, force),
{
    let mut out = owned("cd ");
    append(&mut out, shell_quote(server_dir).as_str());
    if force {
        append(
            &mut out,
            " && if test -f .scsl.pid; then pid=$(cat .scsl.pid); pkill -KILL -P \"$pid\" 2>/dev/null || true; kill -KILL \"$pid\" 2>/dev/null || true; rm -f .scsl.pid .scsl.stdin; echo __SCSL_FORCE_INTERRUPTED__; else echo __SCSL_PID_MISSING__; fi",
        );
    } else {
        append(
            &mut out,
            " && if test -p .scsl.stdin; then printf '%s\\n' 'stop' > .scsl.stdin || true; fi && sleep 8 && if test -f .scsl.pid; then pid=$(cat .scsl.pid); if kill -0 \"$pid\" 2>/dev/null; then pkill -INT -P \"$pid\" 2>/dev/null || true; kill -INT \"$pid\" 2>/dev/null || true; sleep 2; fi; if kill -0 \"$pid\" 2>/dev/null; then pkill -TERM -P \"$pid\" 2>/dev/null || true; kill -TERM \"$pid\" 2>/dev/null || true; fi; rm -f .scsl.pid .scsl.stdin; echo __SCSL_INTERRUPTED__; else echo __SCSL_PID_MISSING__; fi",
        );
    }
    out
}

/// What the output of a start script says: already running, started, or failed.
pub open spec fn spec_start_outcome(output: Seq<char>) -> Result<(), CoreErrorView> {
    if contains_seq(output, "__SCSL_ALREADY_RUNNING__"@) {
        Err(CoreErrorView::Runtime("server is already running"@))
    } else if contains_seq(output, "__SCSL_STARTED__"@) {
        Ok(())
    } else {
        Err(CoreErrorView::Runtime("local server start failed; check scsl-server.log"@))
    }
}

/// What the output of a start script says.
pub fn start_outcome(output: &str) -> (r: Result<(), CoreError>)
    ensures
        crate::error::result_view(r) == spec_start_outcome(output@),
{
    if contains(output, "__SCSL_ALREADY_RUNNING__") {
        return Err(CoreError::Runtime(owned("server is already running")));
    }
    if contains(output, "__SCSL_STARTED__") {
        return Ok(());
    }
    Err(CoreError::Runtime(owned("local server start failed; check scsl-server.log")))
}

/// The error for a failed copy, with the underlying error's message.
pub fn map_copy_error(error: &str, source: &str, destination: &str) -> (e: CoreError)
    ensures
        e@ == CoreErrorView::Runtime("failed to copy "@ + source@ + " to "@ + destination@ + ": "@ + error@),
{
    let mut message = owned("failed to copy ");
    append(&mut message, source);
    append(&mut message, " to ");
    append(&mut message, destination);
    append(&mut message, ": ");
    append(&mut message, error);
    CoreError::Runtime(message)
}

// ---------------------------------------------------------------------------
// Following logs
// ---------------------------------------------------------------------------

/// Bytes read as UTF-8, invalid sequences replaced by U+FFFD
/// (`String::from_utf8_lossy`).
pub uninterp spec fn utf8_lossy(bytes: Seq<u8>) -> Seq<char>;

/// `String::from_utf8_lossy`: the contract claims that the text is the named function
/// of the bytes, and, as the documentation says, that bytes which are valid UTF-8 come
/// back as the text they encode. What replaces invalid sequences is left unsaid.
#[verifier::external_body]
pub(crate) fn decode_utf8_lossy(bytes: &[u8]) -> (r: String)
    ensures
        r@ == utf8_lossy(bytes@),
        vstd::utf8::valid_utf8(bytes@) ==> r@ == vstd::utf8::decode_utf8(bytes@),
{
    String::from_utf8_lossy(bytes).into_owned()
}

/// The offset to read a log file from: the one given when the file is the one read
/// last time, otherwise its start.
pub open spec fn effective_offset_seq(current_file_path: Option<Seq<char>>, file_path: Seq<char>, offset: int) -> int {
    if current_file_path == Some(file_path) {
        offset
    } else {
        0
    }
}

/// The offset to read a log file from.
pub fn effective_log_offset(current_file_path: Option<&str>, file_path: &str, offset: u64) -> (r: u64)
    ensures
        r == effective_offset_seq(crate::game::opt_str_view(current_file_path), file_path@, offset as int),
{
    match current_file_path {
        Some(p) => if str_eq(p, file_path) {
            offset
        } else {
            0
        },
        None => 0,
    }
}

/// What a log file adds after `offset`: the text of its bytes from the offset (held
/// within the file's size), none when nothing follows, and the next offset, the file's
/// size.
pub open spec fn log_update_seq(bytes: Seq<u8>, file_size: int, offset: int) -> (Seq<char>, int) {
    let safe = if offset < file_size { offset } else { file_size };
    if safe >= bytes.len() {
        (Seq::empty(), file_size)
    } else {
        (utf8_lossy(bytes.skip(safe)), file_size)
    }
}

/// What a log file, whose content is `bytes` and size `file_size`, adds after `offset`.
pub fn read_local_log_update(bytes: &Vec<u8>, file_size: u64, offset: u64) -> (r: (String, u64))
    ensures
        (r.0@, r.1 as int) == log_update_seq(bytes@, file_size as int, offset as int),
{
    let safe_offset = if offset < file_size { offset } else { file_size };
    if safe_offset >= bytes.len() as u64 {
        return (String::new(), file_size);
    }
    let start = safe_offset as usize;
    let tail = vstd::slice::slice_subrange(bytes.as_slice(), start, bytes.len());
    (decode_utf8_lossy(tail), file_size)
}

/// A file of a server directory as listed: its path relative to the directory, whether
/// it is a directory, and its size when it is a file.
pub struct LocalServerFileEntry {
    pub relative_path: String,
    pub is_directory: bool,
    pub file_size: Option<u64>,
}

/// What a poll of a server's log found: the log file read (none when there is none),
/// the text it added since the last poll and the offset to read from next time.
pub struct LocalLogPollResult {
    pub file_path: Option<String>,
    pub appended_text: String,
    pub next_offset: u64,
}

/// The poll of the log file at `file_path`, whose content is `bytes` and size
/// `file_size`, when the last poll stopped at `offset` in `current_file_path`: the
/// offset counts only when the file is the same one.
pub fn poll_log_file(
    file_path: String,
    current_file_path: Option<&str>,
    offset: u64,
    bytes: &Vec<u8>,
    file_size: u64,
) -> (r: LocalLogPollResult)
    ensures
        crate::model::opt_view(r.file_path) == Some(file_path@),
        (r.appended_text@, r.next_offset as int) == log_update_seq(
            bytes@,
            file_size as int,
            effective_offset_seq(crate::game::opt_str_view(current_file_path), file_path@, offset as int),
        ),
{
    let start = effective_log_offset(current_file_path, file_path.as_str(), offset);
    let (appended_text, next_offset) = read_local_log_update(bytes, file_size, start);
    LocalLogPollResult { file_path: Some(file_path), appended_text, next_offset }
}


/// The names kept from relative path parts are among the parts, and none is empty, `.`
/// or `..`.
proof fn lemma_clean_parts_members(ps: Seq<Seq<char>>)
    ensures
        clean_parts(ps) matches Some(parts) ==> forall|k: int| 0 <= k < parts.len() ==> {
            &&& ps.contains(#[trigger] parts[k])
            &&& parts[k].len() > 0
            &&& parts[k] != "."@
            &&& parts[k] != ".."@
        },
    decreases ps.len(),
{
    if ps.len() > 0 {
        lemma_clean_parts_members(ps.drop_last());
        if let Some(parts) = clean_parts(ps) {
            let acc = clean_parts(ps.drop_last())->Some_0;
            assert forall|k: int| 0 <= k < parts.len() implies {
                &&& ps.contains(#[trigger] parts[k])
                &&& parts[k].len() > 0
                &&& parts[k] != "."@
                &&& parts[k] != ".."@
            } by {
                if k < acc.len() {
                    assert(parts[k] == acc[k]);
                    let w = choose|w: int| 0 <= w < ps.drop_last().len() && ps.drop_last()[w] == acc[k];
                    assert(ps[w] == acc[k]);
                } else {
                    assert(parts[k] == ps.last());
                    assert(ps[ps.len() - 1] == ps.last());
                }
            }
        }
    }
}

/// Joining names that do not start with `/` keeps the base in front.
proof fn lemma_join_all_keeps_base(base: Seq<char>, parts: Seq<Seq<char>>)
    requires
        forall|k: int| 0 <= k < parts.len() ==> !has_prefix(#[trigger] parts[k], "/"@),
    ensures
        has_prefix(join_all(base, parts), base),
    decreases parts.len(),
{
    if parts.len() == 0 {
        assert(base.subrange(0, base.len() as int) =~= base);
    } else {
        lemma_join_all_keeps_base(base, parts.drop_last());
        let b = join_all(base, parts.drop_last());
        let last = parts.last();
        assert(!has_prefix(last, "/"@)) by {
            assert(parts[parts.len() - 1] == last);
        }
        if b.len() == 0 {
            assert(base.len() == 0);
            assert(join_all(base, parts).subrange(0, 0) =~= base);
        } else if crate::text::has_suffix(b, "/"@) {
            assert((b + last).subrange(0, base.len() as int) =~= b.subrange(0, base.len() as int));
        } else {
            assert((b + "/"@ + last).subrange(0, base.len() as int) =~= b.subrange(0, base.len() as int));
        }
    }
}

/// A path resolved inside a server directory always begins with that directory: no
/// relative path, `..` and absolute paths included, leads out of it.
pub proof fn lemma_resolved_path_stays_inside(dir: Seq<char>, rel: Seq<char>)
    ensures
        spec_resolve_server_path(dir, rel) matches Ok(p) ==> has_prefix(p, dir),
{
    reveal_strlit("/");
    let ps = split_seq(rel, '/');
    if let Some(parts) = relative_parts(rel) {
        lemma_clean_parts_members(ps);
        crate::text::lemma_split_pieces_lack_separator(rel, '/');
        assert forall|k: int| 0 <= k < parts.len() implies !has_prefix(#[trigger] parts[k], "/"@) by {
            let w = choose|w: int| 0 <= w < ps.len() && ps[w] == parts[k];
            assert(ps[w].len() > 0);
            assert(ps[w][0] != '/');
            if has_prefix(parts[k], "/"@) {
                assert(parts[k].subrange(0, 1)[0] == parts[k][0]);
            }
        }
        lemma_join_all_keeps_base(dir, parts);
    }
}

// ---------------------------------------------------------------------------
// Processes listening on a port
// ---------------------------------------------------------------------------

/// A process that `lsof` lists as listening on a port.
pub struct PortProcessInfo {
    pub pid: i32,
    pub command: String,
    pub user: String,
}

/// A process as pid, command and user.
pub open spec fn port_process_entry(p: PortProcessInfo) -> (int, Seq<char>, Seq<char>) {
    (p.pid as int, p.command@, p.user@)
}

/// The process a line of `lsof` output lists: its first three words are the command,
/// the pid and the user; lines with fewer words or a pid that is no `i32` list none.
pub open spec fn port_line_entry(line: Seq<char>) -> Option<(int, Seq<char>, Seq<char>)> {
    let w = crate::text::words_seq(line);
    if w.len() < 3 {
        None
    } else {
        match crate::numbers::i32_of(w[1]) {
            Some(pid) => Some((pid, w[0], w[2])),
            None => None,
        }
    }
}

/// The processes the lines list, in order.
pub open spec fn port_line_entries(lines: Seq<Seq<char>>) -> Seq<(int, Seq<char>, Seq<char>)>
    decreases lines.len(),
{
    if lines.len() == 0 {
        Seq::empty()
    } else {
        let rest = port_line_entries(lines.drop_last());
        match port_line_entry(lines.last()) {
            Some(e) => rest.push(e),
            None => rest,
        }
    }
}

/// The processes an `lsof` listing shows: every line after the header.
pub open spec fn port_processes_seq(text: Seq<char>) -> Seq<(int, Seq<char>, Seq<char>)> {
    port_line_entries(split_seq(text, '\n').skip(1))
}

/// The processes listed in the output of `lsof -nP -iTCP:<port> -sTCP:LISTEN`.
pub fn parse_port_processes(output: &[u8]) -> (r: Vec<PortProcessInfo>)
    ensures
        r@.map_values(|p: PortProcessInfo| port_process_entry(p)) == port_processes_seq(utf8_lossy(output@)),
{
    let text = decode_utf8_lossy(output);
    let lines = split_char(text.as_str(), '\n');
    let ghost pieces = split_seq(text@, '\n');
    let mut out: Vec<PortProcessInfo> = Vec::new();
    let mut i: usize = 1;
    proof {
        crate::text::lemma_split_nonempty(text@, '\n');
        assert(pieces.skip(1).take(0) =~= Seq::<Seq<char>>::empty());
    }
    while i < lines.len()
        invariant
            1 <= i <= lines@.len(),
            lines@.len() == pieces.len(),
            pieces == split_seq(text@, '\n'),
            forall|k: int| 0 <= k < lines@.len() ==> #[trigger] lines@[k]@ == pieces[k],
            out@.map_values(|p: PortProcessInfo| port_process_entry(p)) == port_line_entries(pieces.skip(1).take(i - 1)),
        decreases lines@.len() - i,
    {
        let ghost prefix = pieces.skip(1).take(i - 1);
        let ghost next = pieces.skip(1).take(i as int);
        assert(next.drop_last() =~= prefix);
        assert(next.last() == lines@[i as int]@);
        let words = crate::text::split_whitespace(lines[i].as_str());
        if words.len() >= 3 {
            assert(crate::model::strings_view(words@)[1] == words@[1]@);
            assert(crate::model::strings_view(words@)[0] == words@[0]@);
            assert(crate::model::strings_view(words@)[2] == words@[2]@);
            match crate::numbers::parse_i32(words[1].as_str()) {
                Ok(pid) => {
                    out.push(PortProcessInfo { pid, command: owned(words[0].as_str()), user: owned(words[2].as_str()) });
                },
                Err(_) => {},
            }
        }
        i = i + 1;
        assert(out@.map_values(|p: PortProcessInfo| port_process_entry(p)) =~= port_line_entries(next));
    }
    proof {
        if lines@.len() >= 1 {
            assert(pieces.skip(1).take(i - 1) =~= pieces.skip(1));
        }
    }
    out
}

} // verus!
