//! Game launching: Maven library paths, launch plans and loader processor commands.

use vstd::prelude::*;
use crate::error::{CoreError, CoreErrorView};
use crate::launch::{split_args, split_args_seq};
use crate::model::strings_view;
use crate::paths::{join_seq, path_join};
use crate::registry::Registry;
use crate::text::{
    append, char_index, chars_of, concat2, contains, contains_seq, ends_with, find_char,
    has_prefix, has_suffix, i64_to_decimal, int_decimal, nat_decimal, join_strings, join_with, owned,
    lemma_replace_seq_at_pattern, lemma_replace_seq_mismatch, lemma_replace_seq_skips_text,
    replace, replace_seq, split_char, split_seq, starts_with, string_of_range, trim, trim_seq,
};

verus! {

// ---------------------------------------------------------------------------
// Command lines and environment text
// ---------------------------------------------------------------------------

/// The arguments of a command line: separated by unquoted spaces, with single or double
/// quotes grouping text and removed.
pub fn split_cli_args(input: &str) -> (r: Vec<String>)
    ensures
        strings_view(r@) == split_args_seq(input@),
{
    split_args(input)
}

/// The entry of one line of `KEY=VALUE` text: the trimmed line split at its first `=`.
/// Lines without `=`, blank ones among them, give none.
pub open spec fn env_entry(line: Seq<char>) -> Option<(Seq<char>, Seq<char>)> {
    let t = trim_seq(line);
    match char_index(t, '=') {
        Some(i) => Some((t.take(i), t.skip(i + 1))),
        None => None,
    }
}

/// The variables set by `lines` in order, a later line overriding an earlier one.
pub open spec fn env_map_of(lines: Seq<Seq<char>>) -> Map<Seq<char>, Seq<char>>
    decreases lines.len(),
{
    if lines.len() == 0 {
        Map::empty()
    } else {
        let m = env_map_of(lines.drop_last());
        match env_entry(lines.last()) {
            Some((k, v)) => m.insert(k, v),
            None => m,
        }
    }
}

/// The variables set by a text of `KEY=VALUE` lines.
pub open spec fn environment_map(input: Seq<char>) -> Map<Seq<char>, Seq<char>> {
    env_map_of(split_seq(input, '\n'))
}

/// The text values of a map.
pub open spec fn text_map_view(m: Map<Seq<char>, String>) -> Map<Seq<char>, Seq<char>> {
    m.map_values(|s: String| s@)
}

/// The entry of one line of `KEY=VALUE` text.
fn env_line_entry(line: &str) -> (r: Option<(String, String)>)
    ensures
        match r {
            Some((k, v)) => env_entry(line@) == Some((k@, v@)),
            None => env_entry(line@) is None,
        },
{
    let t = trim(line);
    let cs = chars_of(t.as_str());
    match find_char(&cs, '=') {
        Some(k) => {
            let key = string_of_range(&cs, 0, k);
            let value = string_of_range(&cs, k + 1, cs.len());
            assert(key@ == cs@.take(k as int));
            assert(value@ == cs@.skip(k + 1));
            Some((key, value))
        },
        None => None,
    }
}

/// The variables set by a text of `KEY=VALUE` lines.
pub fn parse_environment_variables(input: &str) -> (r: Registry<String>)
    ensures
        r.wf(),
        text_map_view(r.map()) == environment_map(input@),
{
    let lines = split_char(input, '\n');
    let ghost pieces = split_seq(input@, '\n');
    let mut r: Registry<String> = Registry::new();
    assert(text_map_view(r.map()) =~= env_map_of(pieces.take(0)));
    let mut i: usize = 0;
    while i < lines.len()
        invariant
            r.wf(),
            i <= lines.len(),
            pieces == split_seq(input@, '\n'),
            lines@.len() == pieces.len(),
            forall|j: int| 0 <= j < lines@.len() ==> #[trigger] lines@[j]@ == pieces[j],
            text_map_view(r.map()) == env_map_of(pieces.take(i as int)),
        decreases lines.len() - i,
    {
        assert(pieces.take(i + 1).drop_last() == pieces.take(i as int));
        assert(pieces.take(i + 1).last() == lines@[i as int]@);
        match env_line_entry(lines[i].as_str()) {
            Some((key, value)) => {
                let ghost before = r.map();
                r.insert(key, value);
                assert(text_map_view(r.map()) =~= text_map_view(before).insert(key@, value@));
            },
            None => {},
        }
        i += 1;
    }
    assert(pieces.take(lines.len() as int) == pieces);
    r
}

// ---------------------------------------------------------------------------
// Maven coordinates
// ---------------------------------------------------------------------------

/// The path of the jar of `group:artifact:version[:classifier]` (or
/// `group:artifact:classifier:version` with five parts), the group's dots turned into
/// directories; none for fewer than three parts.
pub open spec fn maven_relative_path_seq(c: Seq<char>) -> Option<Seq<char>> {
    let parts = split_seq(c, ':');
    if parts.len() < 3 {
        None
    } else {
        let group = replace_seq(parts[0], "."@, "/"@);
        let artifact = parts[1];
        let version = if parts.len() == 3 || parts.len() == 4 {
            parts[2]
        } else if parts.len() == 5 {
            parts[4]
        } else {
            Seq::empty()
        };
        let dir = group + "/"@ + artifact + "/"@ + version + "/"@ + artifact + "-"@ + version;
        if parts.len() == 4 || parts.len() == 5 {
            Some(dir + "-"@ + parts[3] + ".jar"@)
        } else {
            Some(dir + ".jar"@)
        }
    }
}

/// The library path of a Maven coordinate, if it has at least three parts.
pub fn maven_coordinate_to_relative_path(coordinate: &str) -> (r: Option<String>)
    ensures
        match r {
            Some(p) => maven_relative_path_seq(coordinate@) == Some(p@),
            None => maven_relative_path_seq(coordinate@) is None,
        },
{
    let parts = split_char(coordinate, ':');
    let n = parts.len();
    if n < 3 {
        return None;
    }
    proof {
        reveal_strlit(".");
    }
    let group = replace(parts[0].as_str(), ".", "/");
    let artifact = parts[1].as_str();
    let version: String = if n == 3 || n == 4 {
        owned(parts[2].as_str())
    } else if n == 5 {
        owned(parts[4].as_str())
    } else {
        String::new()
    };
    let mut out = group;
    append(&mut out, "/");
    append(&mut out, artifact);
    append(&mut out, "/");
    append(&mut out, version.as_str());
    append(&mut out, "/");
    append(&mut out, artifact);
    append(&mut out, "-");
    append(&mut out, version.as_str());
    if n == 4 || n == 5 {
        append(&mut out, "-");
        append(&mut out, parts[3].as_str());
    }
    append(&mut out, ".jar");
    Some(out)
}

/// The parts of a coordinate whose version or classifier carries an `@extension`:
/// the version, the extension and the classifier.
pub open spec fn maven_at_parts(parts: Seq<Seq<char>>) -> (Seq<char>, Seq<char>, Seq<char>) {
    let v0 = parts[2];
    if contains_seq(v0, "@"@) {
        let vparts = split_seq(v0, '@');
        if vparts.len() >= 2 {
            (vparts[0], vparts[1], Seq::empty())
        } else {
            (v0, Seq::empty(), Seq::empty())
        }
    } else if parts.len() > 3 {
        let cp = parts[3];
        if contains_seq(cp, "@"@) {
            let cps = split_seq(cp, '@');
            if cps.len() >= 2 {
                (v0, cps[1], cps[0])
            } else {
                (v0, Seq::empty(), Seq::empty())
            }
        } else {
            (v0, cp, Seq::empty())
        }
    } else {
        (v0, Seq::empty(), Seq::empty())
    }
}

/// The library path of a coordinate in the `group:artifact:version[@ext]` or
/// `group:artifact:version:classifier[@ext]` form: the extension defaults to `jar`; a
/// coordinate of fewer than three parts is its own path.
pub open spec fn maven_at_path_seq(c: Seq<char>) -> Seq<char> {
    let parts = split_seq(c, ':');
    if parts.len() < 3 {
        c
    } else {
        let (version, extension, classifier) = maven_at_parts(parts);
        let classifier_suffix = if classifier.len() == 0 { Seq::empty() } else { "-"@ + classifier };
        let extension_suffix = if extension.len() == 0 { ".jar"@ } else { "."@ + extension };
        let file_name = parts[1] + "-"@ + version + classifier_suffix + extension_suffix;
        replace_seq(parts[0], "."@, "/"@) + "/"@ + parts[1] + "/"@ + version + "/"@ + file_name
    }
}

/// The two pieces around the first `@` of `s`, when it has one.
fn at_pieces(s: &str) -> (r: Option<(String, String)>)
    ensures
        match r {
            Some((a, b)) => contains_seq(s@, "@"@) && split_seq(s@, '@').len() >= 2 && a@ == split_seq(s@, '@')[0] && b@
                == split_seq(s@, '@')[1],
            None => !(contains_seq(s@, "@"@) && split_seq(s@, '@').len() >= 2),
        },
{
    if contains(s, "@") {
        let pieces = split_char(s, '@');
        if pieces.len() >= 2 {
            return Some((owned(pieces[0].as_str()), owned(pieces[1].as_str())));
        }
    }
    None
}

/// The library path of a coordinate that may carry an `@extension`.
pub fn parse_maven_coordinate_with_at_symbol(coordinate: &str) -> (r: String)
    ensures
        r@ == maven_at_path_seq(coordinate@),
{
    let parts = split_char(coordinate, ':');
    if parts.len() < 3 {
        return owned(coordinate);
    }
    let ghost ps = split_seq(coordinate@, ':');
    let group_id = parts[0].as_str();
    let artifact_id = parts[1].as_str();
    let mut version = owned(parts[2].as_str());
    let mut extension = String::new();
    let mut classifier_name = String::new();
    if contains(parts[2].as_str(), "@") {
        if let Some((v, e)) = at_pieces(parts[2].as_str()) {
            version = v;
            extension = e;
        }
    } else if parts.len() > 3 {
        let classifier_part = parts[3].as_str();
        if contains(classifier_part, "@") {
            if let Some((c, e)) = at_pieces(classifier_part) {
                classifier_name = c;
                extension = e;
            }
        } else {
            extension = owned(classifier_part);
        }
    }
    assert((version@, extension@, classifier_name@) == maven_at_parts(ps));
    let mut file_name = owned(artifact_id);
    append(&mut file_name, "-");
    append(&mut file_name, version.as_str());
    if !classifier_name.as_str().is_empty() {
        append(&mut file_name, "-");
        append(&mut file_name, classifier_name.as_str());
    } else {
        assert(file_name@ + Seq::<char>::empty() == file_name@);
    }
    if extension.as_str().is_empty() {
        append(&mut file_name, ".jar");
    } else {
        append(&mut file_name, ".");
        append(&mut file_name, extension.as_str());
    }
    proof {
        reveal_strlit(".");
    }
    let mut out = replace(group_id, ".", "/");
    append(&mut out, "/");
    append(&mut out, artifact_id);
    append(&mut out, "/");
    append(&mut out, version.as_str());
    append(&mut out, "/");
    append(&mut out, file_name.as_str());
    out
}

/// The library path used for a coordinate when downloading: the `@extension` form when
/// it has an `@`, otherwise the plain form, otherwise the coordinate itself.
pub open spec fn maven_url_path_seq(c: Seq<char>) -> Seq<char> {
    if contains_seq(c, "@"@) {
        maven_at_path_seq(c)
    } else {
        match maven_relative_path_seq(c) {
            Some(p) => p,
            None => c,
        }
    }
}

/// The library path used for a coordinate when downloading.
pub fn maven_coordinate_to_relative_path_for_url(coordinate: &str) -> (r: String)
    ensures
        r@ == maven_url_path_seq(coordinate@),
{
    if contains(coordinate, "@") {
        parse_maven_coordinate_with_at_symbol(coordinate)
    } else {
        match maven_coordinate_to_relative_path(coordinate) {
            Some(p) => p,
            None => owned(coordinate),
        }
    }
}

/// The full path of a coordinate's library under `libraries_dir`.
pub fn maven_coordinate_to_full_path(coordinate: &str, libraries_dir: &str) -> (r: String)
    ensures
        r@ == join_seq(libraries_dir@, maven_url_path_seq(coordinate@)),
{
    let relative = maven_coordinate_to_relative_path_for_url(coordinate);
    path_join(libraries_dir, relative.as_str())
}


// ---------------------------------------------------------------------------
// Game launch plans
// ---------------------------------------------------------------------------

/// The player a game is launched for.
pub struct GameLaunchPlayer {
    pub id: String,
    pub name: String,
    pub access_token: String,
    pub xuid: String,
}

/// What a game launch is planned from.
pub struct GameLaunchRequest {
    pub java_path: String,
    pub launch_command: Vec<String>,
    pub xms: i32,
    pub xmx: i32,
    pub jvm_arguments: String,
    pub working_directory: String,
    pub environment_variables: String,
    pub player: Option<GameLaunchPlayer>,
}

/// A planned game launch: the Java executable, its arguments, the directory to run in
/// and the environment variables to set.
pub struct GameLaunchPlan {
    pub java_path: String,
    pub arguments: Vec<String>,
    pub working_directory: String,
    pub environment: Registry<String>,
}

/// The mathematical form of a planned game launch.
pub struct GameLaunchPlanView {
    pub java_path: Seq<char>,
    pub arguments: Seq<Seq<char>>,
    pub working_directory: Seq<char>,
    pub environment: Map<Seq<char>, Seq<char>>,
}

/// The view of a planned game launch.
pub open spec fn game_launch_plan_view(p: GameLaunchPlan) -> GameLaunchPlanView {
    GameLaunchPlanView {
        java_path: p.java_path@,
        arguments: strings_view(p.arguments@),
        working_directory: p.working_directory@,
        environment: text_map_view(p.environment.map()),
    }
}

/// A launch argument with the memory and player placeholders filled in.
pub open spec fn launch_placeholders_seq(input: Seq<char>, xms: int, xmx: int, player: Option<GameLaunchPlayer>) -> Seq<char> {
    let r = replace_seq(replace_seq(input, "${xms}"@, int_decimal(xms)), "${xmx}"@, int_decimal(xmx));
    match player {
        Some(p) => replace_seq(
            replace_seq(
                replace_seq(replace_seq(r, "${auth_player_name}"@, p.name@), "${auth_uuid}"@, p.id@),
                "${auth_access_token}"@,
                p.access_token@,
            ),
            "${auth_xuid}"@,
            p.xuid@,
        ),
        None => r,
    }
}

/// A launch argument with the memory and player placeholders of `request` filled in.
pub fn replace_game_launch_placeholders(input: String, request: &GameLaunchRequest) -> (r: String)
    ensures
        r@ == launch_placeholders_seq(input@, request.xms as int, request.xmx as int, request.player),
{
    proof {
        reveal_strlit("${xms}");
        reveal_strlit("${xmx}");
        reveal_strlit("${auth_player_name}");
        reveal_strlit("${auth_uuid}");
        reveal_strlit("${auth_access_token}");
        reveal_strlit("${auth_xuid}");
    }
    let xms = i64_to_decimal(request.xms as i64);
    let xmx = i64_to_decimal(request.xmx as i64);
    let first = replace(input.as_str(), "${xms}", xms.as_str());
    let mut replaced = replace(first.as_str(), "${xmx}", xmx.as_str());
    if let Some(player) = &request.player {
        let a = replace(replaced.as_str(), "${auth_player_name}", player.name.as_str());
        let b = replace(a.as_str(), "${auth_uuid}", player.id.as_str());
        let c = replace(b.as_str(), "${auth_access_token}", player.access_token.as_str());
        replaced = replace(c.as_str(), "${auth_xuid}", player.xuid.as_str());
    }
    replaced
}

/// The plan for a game launch: the trimmed Java path, which must not be empty; the extra
/// JVM arguments, when there are any, before the launch command with its placeholders
/// filled in; the working directory; and the environment variables.
pub open spec fn spec_game_launch_plan(request: GameLaunchRequest) -> Result<GameLaunchPlanView, CoreErrorView> {
    let java = trim_seq(request.java_path@);
    if java.len() == 0 {
        Err(CoreErrorView::Validation("game java path must not be empty"@))
    } else {
        let arguments = strings_view(request.launch_command@).map_values(
            |a: Seq<char>| launch_placeholders_seq(a, request.xms as int, request.xmx as int, request.player),
        );
        let all = if trim_seq(request.jvm_arguments@).len() > 0 {
            split_args_seq(request.jvm_arguments@) + arguments
        } else {
            arguments
        };
        Ok(
            GameLaunchPlanView {
                java_path: java,
                arguments: all,
                working_directory: request.working_directory@,
                environment: environment_map(request.environment_variables@),
            },
        )
    }
}

/// Plans a game launch.
pub fn build_game_launch_plan(request: GameLaunchRequest) -> (r: Result<GameLaunchPlan, CoreError>)
    ensures
        match r {
            Ok(p) => spec_game_launch_plan(request) == Ok::<GameLaunchPlanView, CoreErrorView>(game_launch_plan_view(p)),
            Err(e) => spec_game_launch_plan(request) == Err::<GameLaunchPlanView, CoreErrorView>(e@),
        },
{
    let java_path = trim(request.java_path.as_str());
    if java_path.as_str().is_empty() {
        return Err(CoreError::Validation(owned("game java path must not be empty")));
    }
    let ghost placeholders = |a: Seq<char>| launch_placeholders_seq(a, request.xms as int, request.xmx as int, request.player);
    let ghost target = strings_view(request.launch_command@).map_values(placeholders);
    let mut arguments: Vec<String> = Vec::new();
    let mut i: usize = 0;
    while i < request.launch_command.len()
        invariant
            i <= request.launch_command.len(),
            target == strings_view(request.launch_command@).map_values(placeholders),
            placeholders == (|a: Seq<char>| launch_placeholders_seq(a, request.xms as int, request.xmx as int, request.player)),
            strings_view(arguments@) == target.take(i as int),
        decreases request.launch_command.len() - i,
    {
        let a = replace_game_launch_placeholders(owned(request.launch_command[i].as_str()), &request);
        let ghost before = arguments@;
        arguments.push(a);
        assert(strings_view(arguments@) =~= strings_view(before).push(a@));
        assert(target.take(i + 1) =~= target.take(i as int).push(target[i as int]));
        i += 1;
    }
    assert(target.take(request.launch_command.len() as int) =~= target);
    let jvm = trim(request.jvm_arguments.as_str());
    if !jvm.as_str().is_empty() {
        let mut extra = split_args(request.jvm_arguments.as_str());
        let ghost extra_before = extra@;
        let ghost args_before = arguments@;
        extra.append(&mut arguments);
        assert(strings_view(extra@) =~= strings_view(extra_before) + strings_view(args_before));
        arguments = extra;
    }
    let environment = parse_environment_variables(request.environment_variables.as_str());
    Ok(GameLaunchPlan { java_path, arguments, working_directory: request.working_directory, environment })
}

// ---------------------------------------------------------------------------
// Loader processors
// ---------------------------------------------------------------------------

/// The value of a processor argument: a Maven coordinate (text with `:` not opening with
/// `[` or `{`) becomes its library path; a bracketed `[...]` becomes the library path of
/// its content when that is a coordinate, else the content; anything else stays.
pub open spec fn client_value_seq(value: Seq<char>, dir: Seq<char>) -> Seq<char> {
    if contains_seq(value, ":"@) && !has_prefix(value, "["@) && !has_prefix(value, "{"@) {
        join_seq(dir, maven_url_path_seq(value))
    } else if has_prefix(value, "["@) && has_suffix(value, "]"@) {
        let content = value.subrange(1, value.len() - 1);
        if contains_seq(content, ":"@) {
            join_seq(dir, maven_url_path_seq(content))
        } else {
            content
        }
    } else {
        value
    }
}

/// The value of a processor argument, relative to the libraries directory.
pub fn extract_processor_client_value(value: &str, libraries_dir: &str) -> (r: Option<String>)
    ensures
        r matches Some(x) && x@ == client_value_seq(value@, libraries_dir@),
{
    if contains(value, ":") && !starts_with(value, "[") && !starts_with(value, "{") {
        return Some(maven_coordinate_to_full_path(value, libraries_dir));
    }
    if starts_with(value, "[") && ends_with(value, "]") {
        proof {
            reveal_strlit("[");
            reveal_strlit("]");
        }
        let cs = chars_of(value);
        assert(cs@.len() >= 2) by {
            assert(value@.subrange(0, 1) == "["@);
            assert(value@.subrange(0, 1)[0] == '[');
            assert(value@.subrange(value@.len() - 1, value@.len() as int) == "]"@);
            assert(value@.subrange(value@.len() - 1, value@.len() as int)[0] == ']');
        }
        let content = string_of_range(&cs, 1, cs.len() - 1);
        if contains(content.as_str(), ":") {
            return Some(maven_coordinate_to_full_path(content.as_str(), libraries_dir));
        }
        return Some(content);
    }
    Some(owned(value))
}

/// The replacement for a processor data entry: a coordinate-like value that is not an
/// absolute path becomes its library path.
pub open spec fn data_value_seq(value: Seq<char>, dir: Seq<char>) -> Seq<char> {
    if contains_seq(value, ":"@) && !has_prefix(value, "/"@) {
        client_value_seq(value, dir)
    } else {
        value
    }
}

/// `s` with each `{key}` of `data`, in order, replaced by its value.
pub open spec fn data_replaced(s: Seq<char>, data: Seq<(Seq<char>, Seq<char>)>, dir: Seq<char>) -> Seq<char>
    decreases data.len(),
{
    if data.len() == 0 {
        s
    } else {
        let (k, v) = data.last();
        replace_seq(data_replaced(s, data.drop_last(), dir), "{"@ + k + "}"@, data_value_seq(v, dir))
    }
}

/// The text view of key-value pairs.
pub open spec fn pairs_view(v: Seq<(String, String)>) -> Seq<(Seq<char>, Seq<char>)> {
    v.map_values(|p: (String, String)| (p.0@, p.1@))
}

/// A processor argument with its placeholders filled in: none unless it has a `{`; then
/// the side, version, library and working directories, then each data entry in order.
pub open spec fn processor_placeholders_seq(
    arg: Seq<char>,
    game_version: Seq<char>,
    dir: Seq<char>,
    data: Option<Seq<(Seq<char>, Seq<char>)>>,
) -> Seq<char> {
    if !contains_seq(arg, "{"@) {
        arg
    } else {
        let base = replace_seq(
            replace_seq(
                replace_seq(
                    replace_seq(replace_seq(arg, "{SIDE}"@, "client"@), "{VERSION}"@, game_version),
                    "{VERSION_NAME}"@,
                    game_version,
                ),
                "{LIBRARY_DIR}"@,
                dir,
            ),
            "{WORKING_DIR}"@,
            dir,
        );
        match data {
            Some(d) => data_replaced(base, d, dir),
            None => base,
        }
    }
}

/// The view of optional processor data.
pub open spec fn data_view(data: Option<&Vec<(String, String)>>) -> Option<Seq<(Seq<char>, Seq<char>)>> {
    match data {
        Some(d) => Some(pairs_view(d@)),
        None => None,
    }
}

/// A processor argument with its placeholders filled in; `data` is in key order.
pub fn process_processor_placeholders(
    arg: &str,
    game_version: &str,
    libraries_dir: &str,
    data: Option<&Vec<(String, String)>>,
) -> (r: String)
    ensures
        r@ == processor_placeholders_seq(arg@, game_version@, libraries_dir@, data_view(data)),
{
    if !contains(arg, "{") {
        return owned(arg);
    }
    proof {
        reveal_strlit("{SIDE}");
        reveal_strlit("{VERSION}");
        reveal_strlit("{VERSION_NAME}");
        reveal_strlit("{LIBRARY_DIR}");
        reveal_strlit("{WORKING_DIR}");
        reveal_strlit("{");
    }
    let a = replace(arg, "{SIDE}", "client");
    let b = replace(a.as_str(), "{VERSION}", game_version);
    let c = replace(b.as_str(), "{VERSION_NAME}", game_version);
    let d = replace(c.as_str(), "{LIBRARY_DIR}", libraries_dir);
    let mut processed = replace(d.as_str(), "{WORKING_DIR}", libraries_dir);
    if let Some(entries) = data {
        let ghost base = processed@;
        let ghost pv = pairs_view(entries@);
        let mut i: usize = 0;
        while i < entries.len()
            invariant
                i <= entries.len(),
                pv == pairs_view(entries@),
                processed@ == data_replaced(base, pv.take(i as int), libraries_dir@),
            decreases entries.len() - i,
        {
            let key = entries[i].0.as_str();
            let value = entries[i].1.as_str();
            let replacement = if contains(value, ":") && !starts_with(value, "/") {
                match extract_processor_client_value(value, libraries_dir) {
                    Some(x) => x,
                    None => owned(value),
                }
            } else {
                owned(value)
            };
            proof {
                reveal_strlit("{");
            }
            let mut pattern = owned("{");
            append(&mut pattern, key);
            append(&mut pattern, "}");
            assert(pattern@.len() > 0);
            processed = replace(processed.as_str(), pattern.as_str(), replacement.as_str());
            assert(pv.take(i + 1).drop_last() =~= pv.take(i as int));
            assert(pv.take(i + 1).last() == (key@, value@));
            i += 1;
        }
        assert(pv.take(entries.len() as int) =~= pv);
    }
    processed
}

/// The arguments for running a processor: the class path joined by `:`, the main class,
/// then each argument's value with its placeholders filled in.
pub open spec fn processor_command_seq(
    classpath: Seq<Seq<char>>,
    main_class: Seq<char>,
    args: Option<Seq<Seq<char>>>,
    game_version: Seq<char>,
    dir: Seq<char>,
    data: Option<Seq<(Seq<char>, Seq<char>)>>,
) -> Seq<Seq<char>> {
    let head = seq!["-cp"@, join_with(classpath, ":"@), main_class];
    match args {
        Some(a) => head + a.map_values(
            |x: Seq<char>| processor_placeholders_seq(client_value_seq(x, dir), game_version, dir, data),
        ),
        None => head,
    }
}

/// The view of optional strings.
pub open spec fn opt_strings_view(v: Option<&Vec<String>>) -> Option<Seq<Seq<char>>> {
    match v {
        Some(a) => Some(strings_view(a@)),
        None => None,
    }
}

/// The arguments for running a processor.
pub fn build_processor_command(
    classpath: &Vec<String>,
    main_class: &str,
    args: Option<&Vec<String>>,
    game_version: &str,
    libraries_dir: &str,
    data: Option<&Vec<(String, String)>>,
) -> (r: Vec<String>)
    ensures
        strings_view(r@) == processor_command_seq(
            strings_view(classpath@),
            main_class@,
            opt_strings_view(args),
            game_version@,
            libraries_dir@,
            data_view(data),
        ),
{
    let mut command: Vec<String> = Vec::new();
    command.push(owned("-cp"));
    command.push(join_strings(classpath, ":"));
    command.push(owned(main_class));
    assert(classpath@.map_values(|x: String| x@) == strings_view(classpath@));
    let ghost head = strings_view(command@);
    if let Some(list) = args {
        let ghost f = |x: Seq<char>| processor_placeholders_seq(client_value_seq(x, libraries_dir@), game_version@, libraries_dir@, data_view(data));
        let ghost target = strings_view(list@).map_values(f);
        let mut i: usize = 0;
        while i < list.len()
            invariant
                i <= list.len(),
                f == (|x: Seq<char>| processor_placeholders_seq(client_value_seq(x, libraries_dir@), game_version@, libraries_dir@, data_view(data))),
                target == strings_view(list@).map_values(f),
                strings_view(command@) == head + target.take(i as int),
            decreases list.len() - i,
        {
            let extracted = match extract_processor_client_value(list[i].as_str(), libraries_dir) {
                Some(x) => x,
                None => owned(list[i].as_str()),
            };
            let p = process_processor_placeholders(extracted.as_str(), game_version, libraries_dir, data);
            let ghost before = command@;
            command.push(p);
            assert(strings_view(command@) =~= strings_view(before).push(p@));
            assert(target.take(i + 1) =~= target.take(i as int).push(target[i as int]));
            i += 1;
        }
        assert(target.take(list.len() as int) =~= target);
    }
    command
}

/// Where a processor's jar lies: the library path of its coordinate under the libraries
/// directory. A missing jar or a coordinate of fewer than three parts is refused.
pub open spec fn spec_processor_jar_candidate(jar: Option<Seq<char>>, dir: Seq<char>) -> Result<Seq<char>, CoreErrorView> {
    match jar {
        None => Err(CoreErrorView::Validation("processor jar is missing"@)),
        Some(j) => match maven_relative_path_seq(j) {
            None => Err(CoreErrorView::Validation("invalid processor maven coordinate: "@ + j)),
            Some(p) => Ok(join_seq(dir, p)),
        },
    }
}

/// The view of an optional text.
pub open spec fn opt_str_view(o: Option<&str>) -> Option<Seq<char>> {
    match o {
        Some(s) => Some(s@),
        None => None,
    }
}

/// Where a processor's jar lies; whether a file is there is for the caller to find out.
pub fn processor_jar_candidate(jar: Option<&str>, libraries_dir: &str) -> (r: Result<String, CoreError>)
    ensures
        match r {
            Ok(p) => spec_processor_jar_candidate(opt_str_view(jar), libraries_dir@) == Ok::<Seq<char>, CoreErrorView>(p@),
            Err(e) => spec_processor_jar_candidate(opt_str_view(jar), libraries_dir@) == Err::<Seq<char>, CoreErrorView>(e@),
        },
{
    match jar {
        None => Err(CoreError::Validation(owned("processor jar is missing"))),
        Some(j) => match maven_coordinate_to_relative_path(j) {
            None => Err(CoreError::Validation(concat2("invalid processor maven coordinate: ", j))),
            Some(relative) => Ok(path_join(libraries_dir, relative.as_str())),
        },
    }
}

/// Where a processor class path entry lies: a coordinate (text with `:`) as its library
/// path, anything else as a path, under the libraries directory.
pub open spec fn classpath_entry_seq(entry: Seq<char>, dir: Seq<char>) -> Seq<char> {
    if contains_seq(entry, ":"@) {
        join_seq(dir, maven_url_path_seq(entry))
    } else {
        join_seq(dir, entry)
    }
}

/// Where a processor class path entry lies; whether a file is there is for the caller
/// to find out.
pub fn processor_classpath_entry(entry: &str, libraries_dir: &str) -> (r: String)
    ensures
        r@ == classpath_entry_seq(entry@, libraries_dir@),
{
    if contains(entry, ":") {
        let relative = maven_coordinate_to_relative_path_for_url(entry);
        path_join(libraries_dir, relative.as_str())
    } else {
        path_join(libraries_dir, entry)
    }
}


// ---------------------------------------------------------------------------
// Loader libraries
// ---------------------------------------------------------------------------

/// What a loader's JSON says of one library: its Maven name, whether it belongs on the
/// class path (`include_in_classpath`, false when absent or not a boolean) and the
/// path of its downloaded artifact (`downloads.artifact.path`).
pub struct LoaderLibrary {
    pub name: Option<String>,
    pub include_in_classpath: bool,
    pub artifact_path: Option<String>,
}

/// The class path entry of one library, if it gives one: with `classpath_only`, the
/// artifact path of a library marked for the class path; otherwise the path of its
/// Maven name. Either is taken under `dir`.
pub open spec fn loader_entry_seq(lib: LoaderLibrary, dir: Seq<char>, classpath_only: bool) -> Option<Seq<char>> {
    if classpath_only {
        if !lib.include_in_classpath {
            None
        } else {
            match lib.artifact_path {
                Some(p) => Some(join_seq(dir, p@)),
                None => None,
            }
        }
    } else {
        match lib.name {
            Some(n) => match maven_relative_path_seq(n@) {
                Some(rel) => Some(join_seq(dir, rel)),
                None => None,
            },
            None => None,
        }
    }
}

/// The class path entries of the libraries, in order.
pub open spec fn loader_entries(libs: Seq<LoaderLibrary>, dir: Seq<char>, classpath_only: bool) -> Seq<Seq<char>>
    decreases libs.len(),
{
    if libs.len() == 0 {
        Seq::empty()
    } else {
        let rest = loader_entries(libs.drop_last(), dir, classpath_only);
        match loader_entry_seq(libs.last(), dir, classpath_only) {
            Some(e) => rest.push(e),
            None => rest,
        }
    }
}

/// The class path of a loader: its libraries' entries joined by `:`; refused when the
/// JSON has no `libraries` array (`libraries` is `None`).
pub open spec fn spec_loader_classpath(libs: Option<Seq<LoaderLibrary>>, dir: Seq<char>, classpath_only: bool) -> Result<Seq<char>, CoreErrorView> {
    match libs {
        Some(l) => Ok(join_with(loader_entries(l, dir, classpath_only), ":"@)),
        None => Err(CoreErrorView::Validation("loader json must contain libraries array"@)),
    }
}

/// The class path of a loader's libraries under `libraries_dir`.
pub fn build_loader_classpath(libraries: Option<&Vec<LoaderLibrary>>, libraries_dir: &str, include_in_classpath_only: bool) -> (r: Result<String, CoreError>)
    ensures
        ({
            let expected = spec_loader_classpath(
                match libraries { Some(l) => Some(l@), None => None },
                libraries_dir@,
                include_in_classpath_only,
            );
            match r {
                Ok(s) => expected == Ok::<Seq<char>, CoreErrorView>(s@),
                Err(e) => expected == Err::<Seq<char>, CoreErrorView>(e@),
            }
        }),
{
    let libs = match libraries {
        Some(l) => l,
        None => return Err(CoreError::validation("loader json must contain libraries array")),
    };
    let mut paths: Vec<String> = Vec::new();
    let mut i: usize = 0;
    while i < libs.len()
        invariant
            i <= libs@.len(),
            strings_view(paths@) == loader_entries(libs@.take(i as int), libraries_dir@, include_in_classpath_only),
        decreases libs@.len() - i,
    {
        let lib = &libs[i];
        proof {
            assert(libs@.take(i as int + 1).drop_last() =~= libs@.take(i as int));
        }
        if include_in_classpath_only {
            if lib.include_in_classpath {
                if let Some(p) = &lib.artifact_path {
                    paths.push(path_join(libraries_dir, p.as_str()));
                }
            }
        } else if let Some(n) = &lib.name {
            if let Some(rel) = maven_coordinate_to_relative_path(n.as_str()) {
                paths.push(path_join(libraries_dir, rel.as_str()));
            }
        }
        i = i + 1;
        proof {
            assert(strings_view(paths@) =~= loader_entries(libs@.take(i as int), libraries_dir@, include_in_classpath_only));
        }
    }
    proof {
        assert(libs@.take(i as int) =~= libs@);
        assert(paths@.map_values(|x: String| x@) =~= strings_view(paths@));
    }
    Ok(join_strings(&paths, ":"))
}

/// The game-version placeholder that loader library names may hold.
pub const GAME_VERSION_PLACEHOLDER: &'static str = "${modrinth.gameVersion}";

/// The library names of a loader with the game-version placeholder filled in; names
/// that are absent stay absent; refused when the JSON has no `libraries` array.
pub open spec fn spec_loader_names(names: Option<Seq<Option<Seq<char>>>>, game_version: Seq<char>) -> Result<Seq<Option<Seq<char>>>, CoreErrorView> {
    match names {
        Some(ns) => Ok(ns.map_values(|n: Option<Seq<char>>| filled_name(n, game_version))),
        None => Err(CoreErrorView::Validation("loader json must contain libraries array"@)),
    }
}

/// One library name with the game-version placeholder filled in.
pub open spec fn filled_name(n: Option<Seq<char>>, game_version: Seq<char>) -> Option<Seq<char>> {
    match n {
        Some(t) => Some(replace_seq(t, GAME_VERSION_PLACEHOLDER@, game_version)),
        None => None,
    }
}

/// The view of optional names.
pub open spec fn opt_names_view(v: Seq<Option<String>>) -> Seq<Option<Seq<char>>> {
    v.map_values(|n: Option<String>| match n {
        Some(t) => Some(t@),
        None => None,
    })
}

/// The names of a loader's libraries (`None` where a library's name is not text) with
/// `${modrinth.gameVersion}` replaced by `game_version`.
pub fn process_loader_placeholders(names: Option<&Vec<Option<String>>>, game_version: &str) -> (r: Result<Vec<Option<String>>, CoreError>)
    ensures
        match r {
            Ok(v) => spec_loader_names(
                match names { Some(n) => Some(opt_names_view(n@)), None => None },
                game_version@,
            ) == Ok::<Seq<Option<Seq<char>>>, CoreErrorView>(opt_names_view(v@)),
            Err(e) => names is None
                && e@ == CoreErrorView::Validation("loader json must contain libraries array"@),
        },
{
    let list = match names {
        Some(l) => l,
        None => return Err(CoreError::validation("loader json must contain libraries array")),
    };
    proof {
        reveal_strlit("${modrinth.gameVersion}");
    }
    let mut out: Vec<Option<String>> = Vec::new();
    let mut i: usize = 0;
    while i < list.len()
        invariant
            i <= list@.len(),
            out@.len() == i,
            GAME_VERSION_PLACEHOLDER@.len() > 0,
            forall|k: int| 0 <= k < i ==> opt_names_view(out@)[k] == filled_name(opt_names_view(list@)[k], game_version@),
        decreases list@.len() - i,
    {
        let item = match &list[i] {
            Some(t) => Some(replace(t.as_str(), GAME_VERSION_PLACEHOLDER, game_version)),
            None => None,
        };
        let ghost prev = out@;
        out.push(item);
        proof {
            assert forall|k: int| 0 <= k < i + 1 implies opt_names_view(out@)[k] == filled_name(
                opt_names_view(list@)[k],
                game_version@,
            ) by {
                if k < i {
                    assert(out@[k] == prev[k]);
                    assert(opt_names_view(prev)[k] == filled_name(opt_names_view(list@)[k], game_version@));
                }
            }
        }
        i = i + 1;
    }
    proof {
        assert(opt_names_view(out@) =~= opt_names_view(list@).map_values(|n: Option<Seq<char>>| filled_name(n, game_version@)));
    }
    Ok(out)
}

// ---------------------------------------------------------------------------
// Running processors
// ---------------------------------------------------------------------------

/// The main class a jar's manifest names: on the first line that, trimmed, starts with
/// `Main-Class:`, what follows, trimmed.
pub open spec fn manifest_main_class(lines: Seq<Seq<char>>) -> Option<Seq<char>>
    decreases lines.len(),
{
    if lines.len() == 0 {
        None
    } else {
        let t = trim_seq(lines[0]);
        if has_prefix(t, "Main-Class:"@) {
            Some(trim_seq(t.skip(11)))
        } else {
            manifest_main_class(lines.drop_first())
        }
    }
}

/// The main class named by a manifest; refused when no line names one.
pub open spec fn spec_main_class(content: Seq<char>) -> Result<Seq<char>, CoreErrorView> {
    match manifest_main_class(split_seq(content, '\n')) {
        Some(c) => Ok(c),
        None => Err(CoreErrorView::Runtime("processor manifest missing Main-Class"@)),
    }
}

/// The main class named by the text of a jar's `META-INF/MANIFEST.MF`.
pub fn main_class_from_manifest(content: &str) -> (r: Result<String, CoreError>)
    ensures
        match r {
            Ok(c) => spec_main_class(content@) == Ok::<Seq<char>, CoreErrorView>(c@),
            Err(e) => spec_main_class(content@) == Err::<Seq<char>, CoreErrorView>(e@),
        },
{
    let lines = split_char(content, '\n');
    let ghost ls = split_seq(content@, '\n');
    proof {
        reveal_strlit("Main-Class:");
        assert("Main-Class:"@.len() == 11);
    }
    let mut i: usize = 0;
    assert(ls.skip(0) =~= ls);
    while i < lines.len()
        invariant
            i <= lines@.len(),
            lines@.len() == ls.len(),
            ls == split_seq(content@, '\n'),
            forall|k: int| 0 <= k < lines@.len() ==> #[trigger] lines@[k]@ == ls[k],
            manifest_main_class(ls) == manifest_main_class(ls.skip(i as int)),
            "Main-Class:"@.len() == 11,
        decreases lines@.len() - i,
    {
        assert(ls.skip(i as int).drop_first() =~= ls.skip(i as int + 1));
        assert(ls.skip(i as int)[0] == lines@[i as int]@);
        let t = trim(lines[i].as_str());
        match crate::text::strip_prefix(t.as_str(), "Main-Class:") {
            Some(rest) => {
                assert(rest@ =~= t@.skip(11));
                return Ok(trim(rest.as_str()));
            },
            None => {},
        }
        i = i + 1;
    }
    Err(CoreError::runtime("processor manifest missing Main-Class"))
}

/// What a failed processor reported: its trimmed error output, its trimmed standard
/// output, or both on two lines (standard output first).
pub open spec fn processor_message(out: Seq<char>, err: Seq<char>) -> Seq<char> {
    let e = trim_seq(err);
    let o = trim_seq(out);
    if e.len() == 0 {
        o
    } else if o.len() == 0 {
        e
    } else {
        o + "\n"@ + e
    }
}

/// The error of a processor that exited with `code` (`-1` when it has none) after
/// printing `stdout` and `stderr`.
pub fn processor_failure(code: Option<i32>, stdout: &[u8], stderr: &[u8]) -> (e: CoreError)
    ensures
        e@ == CoreErrorView::Runtime(
            "processor execution failed (exit code "@ + int_decimal(match code {
                Some(c) => c as int,
                None => -1,
            }) + "): "@ + processor_message(crate::local::utf8_lossy(stdout@), crate::local::utf8_lossy(stderr@)),
        ),
{
    let err_text = crate::local::decode_utf8_lossy(stderr);
    let out_text = crate::local::decode_utf8_lossy(stdout);
    let e = trim(err_text.as_str());
    let o = trim(out_text.as_str());
    let message = if e.as_str().is_empty() {
        o
    } else if o.as_str().is_empty() {
        e
    } else {
        crate::text::concat3(o.as_str(), "\n", e.as_str())
    };
    let c: i64 = match code {
        Some(c) => c as i64,
        None => -1,
    };
    let digits = i64_to_decimal(c);
    let mut text = owned("processor execution failed (exit code ");
    append(&mut text, digits.as_str());
    append(&mut text, "): ");
    append(&mut text, message.as_str());
    CoreError::Runtime(text)
}


/// A placeholder `g` (a `$` followed by text without `$`) between two texts without `$`
/// is left alone by the replacement of another placeholder `f` that differs from it at
/// position `k`.
proof fn lemma_other_placeholder_kept(
    a: Seq<char>,
    g: Seq<char>,
    b: Seq<char>,
    f: Seq<char>,
    t: Seq<char>,
    k: int,
)
    requires
        !a.contains('$'),
        !b.contains('$'),
        g.len() > 0,
        g[0] == '$',
        !g.drop_first().contains('$'),
        f.len() > 0,
        f[0] == '$',
        0 <= k < f.len(),
        k < g.len(),
        f[k] != g[k],
    ensures
        replace_seq(a + g + b, f, t) == a + g + b,
{
    assert(a + g + b =~= a + (g + b));
    lemma_replace_seq_skips_text(a, g + b, f, t);
    lemma_replace_seq_mismatch(g, b, f, t, k);
    let tail = g.drop_first() + b;
    assert(!tail.contains('$')) by {
        if tail.contains('$') {
            let i = choose|i: int| 0 <= i < tail.len() && tail[i] == '$';
            if i < g.drop_first().len() {
                assert(g.drop_first()[i] == '$');
            } else {
                assert(b[i - g.drop_first().len()] == '$');
            }
        }
    }
    lemma_replace_seq_skips_text(tail, Seq::empty(), f, t);
    assert(tail + Seq::<char>::empty() =~= tail);
    assert(tail + replace_seq(Seq::<char>::empty(), f, t) =~= tail);
    assert(seq![g[0]] + tail =~= g + b);
}

/// Text without `$` is left alone by the replacement of a placeholder.
proof fn lemma_plain_text_kept(s: Seq<char>, f: Seq<char>, t: Seq<char>)
    requires
        !s.contains('$'),
        f.len() > 0,
        f[0] == '$',
    ensures
        replace_seq(s, f, t) == s,
{
    lemma_replace_seq_skips_text(s, Seq::empty(), f, t);
    assert(s + Seq::<char>::empty() =~= s);
    assert(s + replace_seq(Seq::<char>::empty(), f, t) =~= s);
}

/// Filling placeholder `g` (a `$` first) between two texts without `$` puts its value
/// in its place.
proof fn lemma_placeholder_replaced(a: Seq<char>, g: Seq<char>, b: Seq<char>, t: Seq<char>)
    requires
        !a.contains('$'),
        !b.contains('$'),
        g.len() > 0,
        g[0] == '$',
    ensures
        replace_seq(a + g + b, g, t) == a + t + b,
{
    assert(a + g + b =~= a + (g + b));
    lemma_replace_seq_skips_text(a, g + b, g, t);
    lemma_replace_seq_at_pattern(b, g, t);
    lemma_plain_text_kept(b, g, t);
    assert(a + (t + b) =~= a + t + b);
}

/// Three texts without `$` make a text without `$`.
proof fn lemma_plain_concat(a: Seq<char>, t: Seq<char>, b: Seq<char>)
    requires
        !a.contains('$'),
        !t.contains('$'),
        !b.contains('$'),
    ensures
        !(a + t + b).contains('$'),
{
    let s = a + t + b;
    if s.contains('$') {
        let i = choose|i: int| 0 <= i < s.len() && s[i] == '$';
        if i < a.len() {
            assert(a[i] == '$');
        } else if i < a.len() + t.len() {
            assert(t[i - a.len()] == '$');
        } else {
            assert(b[i - a.len() - t.len()] == '$');
        }
    }
}

/// Nothing after the first character of `g` is a `$`.
proof fn lemma_tail_plain(g: Seq<char>, tail: Seq<char>)
    requires
        g.drop_first() == tail,
        forall|i: int| 0 <= i < tail.len() ==> tail[i] != '$',
    ensures
        !g.drop_first().contains('$'),
{
}

/// With a player given, each player placeholder in a launch argument is filled with the
/// matching field of the player: an argument made of one `${auth_player_name}`,
/// `${auth_uuid}`, `${auth_access_token}` or `${auth_xuid}` between texts without `$`
/// keeps those texts and holds the player's name, id, access token or XUID (one without
/// `$`) in its place. An argument that is just `${auth_uuid}` becomes the player's id.
pub proof fn lemma_player_placeholders_filled(
    a: Seq<char>,
    b: Seq<char>,
    xms: int,
    xmx: int,
    p: GameLaunchPlayer,
)
    requires
        !a.contains('$'),
        !b.contains('$'),
    ensures
        !p.name@.contains('$') ==> launch_placeholders_seq(
            a + "${auth_player_name}"@ + b,
            xms,
            xmx,
            Some(p),
        ) == a + p.name@ + b,
        !p.id@.contains('$') ==> launch_placeholders_seq(a + "${auth_uuid}"@ + b, xms, xmx, Some(p))
            == a + p.id@ + b,
        !p.access_token@.contains('$') ==> launch_placeholders_seq(
            a + "${auth_access_token}"@ + b,
            xms,
            xmx,
            Some(p),
        ) == a + p.access_token@ + b,
        !p.xuid@.contains('$') ==> launch_placeholders_seq(a + "${auth_xuid}"@ + b, xms, xmx, Some(p))
            == a + p.xuid@ + b,
        !p.id@.contains('$') ==> launch_placeholders_seq("${auth_uuid}"@, xms, xmx, Some(p))
            == p.id@,
{
    reveal_strlit("${xms}");
    reveal_strlit("${xmx}");
    reveal_strlit("${auth_player_name}");
    reveal_strlit("${auth_uuid}");
    reveal_strlit("${auth_access_token}");
    reveal_strlit("${auth_xuid}");
    let f1 = "${xms}"@;
    let f2 = "${xmx}"@;
    let f3 = "${auth_player_name}"@;
    let f4 = "${auth_uuid}"@;
    let f5 = "${auth_access_token}"@;
    let f6 = "${auth_xuid}"@;
    let t1 = int_decimal(xms);
    let t2 = int_decimal(xmx);
    let g3 = seq!['{', 'a', 'u', 't', 'h', '_', 'p', 'l', 'a', 'y', 'e', 'r', '_', 'n', 'a', 'm', 'e', '}'];
    let g4 = seq!['{', 'a', 'u', 't', 'h', '_', 'u', 'u', 'i', 'd', '}'];
    let g5 = seq!['{', 'a', 'u', 't', 'h', '_', 'a', 'c', 'c', 'e', 's', 's', '_', 't', 'o', 'k', 'e', 'n', '}'];
    let g6 = seq!['{', 'a', 'u', 't', 'h', '_', 'x', 'u', 'i', 'd', '}'];
    assert(f3.drop_first() =~= g3);
    assert(f4.drop_first() =~= g4);
    assert(f5.drop_first() =~= g5);
    assert(f6.drop_first() =~= g6);
    lemma_tail_plain(f3, g3);
    lemma_tail_plain(f4, g4);
    lemma_tail_plain(f5, g5);
    lemma_tail_plain(f6, g6);
    if !p.name@.contains('$') {
        let v = p.name@;
        lemma_other_placeholder_kept(a, f3, b, f1, t1, 2);
        lemma_other_placeholder_kept(a, f3, b, f2, t2, 2);
        lemma_placeholder_replaced(a, f3, b, v);
        lemma_plain_concat(a, v, b);
        lemma_plain_text_kept(a + v + b, f4, p.id@);
        lemma_plain_text_kept(a + v + b, f5, p.access_token@);
        lemma_plain_text_kept(a + v + b, f6, p.xuid@);
    }
    if !p.id@.contains('$') {
        let v = p.id@;
        lemma_other_placeholder_kept(a, f4, b, f1, t1, 2);
        lemma_other_placeholder_kept(a, f4, b, f2, t2, 2);
        lemma_other_placeholder_kept(a, f4, b, f3, p.name@, 7);
        lemma_placeholder_replaced(a, f4, b, v);
        lemma_plain_concat(a, v, b);
        lemma_plain_text_kept(a + v + b, f5, p.access_token@);
        lemma_plain_text_kept(a + v + b, f6, p.xuid@);
        let e = Seq::<char>::empty();
        lemma_other_placeholder_kept(e, f4, e, f1, t1, 2);
        lemma_other_placeholder_kept(e, f4, e, f2, t2, 2);
        lemma_other_placeholder_kept(e, f4, e, f3, p.name@, 7);
        lemma_placeholder_replaced(e, f4, e, v);
        lemma_plain_concat(e, v, e);
        lemma_plain_text_kept(e + v + e, f5, p.access_token@);
        lemma_plain_text_kept(e + v + e, f6, p.xuid@);
        assert(e + f4 + e =~= f4);
        assert(e + v + e =~= v);
    }
    if !p.access_token@.contains('$') {
        let v = p.access_token@;
        lemma_other_placeholder_kept(a, f5, b, f1, t1, 2);
        lemma_other_placeholder_kept(a, f5, b, f2, t2, 2);
        lemma_other_placeholder_kept(a, f5, b, f3, p.name@, 7);
        lemma_other_placeholder_kept(a, f5, b, f4, p.id@, 7);
        lemma_placeholder_replaced(a, f5, b, v);
        lemma_plain_concat(a, v, b);
        lemma_plain_text_kept(a + v + b, f6, p.xuid@);
    }
    if !p.xuid@.contains('$') {
        let v = p.xuid@;
        lemma_other_placeholder_kept(a, f6, b, f1, t1, 2);
        lemma_other_placeholder_kept(a, f6, b, f2, t2, 2);
        lemma_other_placeholder_kept(a, f6, b, f3, p.name@, 7);
        lemma_other_placeholder_kept(a, f6, b, f4, p.id@, 7);
        lemma_other_placeholder_kept(a, f6, b, f5, p.access_token@, 7);
        lemma_placeholder_replaced(a, f6, b, v);
    }
}


/// A number in decimal holds no `$`.
proof fn lemma_decimal_plain(n: int)
    ensures
        !int_decimal(n).contains('$'),
{
    let m: nat = if n < 0 {
        (-n) as nat
    } else {
        n as nat
    };
    crate::saves::lemma_decimal_digits(m);
    let d = nat_decimal(m);
    let s = int_decimal(n);
    if s.contains('$') {
        let i = choose|i: int| 0 <= i < s.len() && s[i] == '$';
        if n < 0 {
            assert(s == seq!['-'] + d);
            if i > 0 {
                assert(s[i] == d[i - 1]);
                assert(crate::numbers::is_digit(d[i - 1]));
            }
        } else {
            assert(crate::numbers::is_digit(d[i]));
        }
    }
}

/// The heap-size placeholders of a launch argument are filled with the requested sizes
/// in decimal, with or without a player: an argument made of one `${xms}` or `${xmx}`
/// between texts without `$` keeps those texts and holds the minimum or maximum heap
/// size in its place.
pub proof fn lemma_heap_placeholders_filled(
    a: Seq<char>,
    b: Seq<char>,
    xms: int,
    xmx: int,
    player: Option<GameLaunchPlayer>,
)
    requires
        !a.contains('$'),
        !b.contains('$'),
    ensures
        launch_placeholders_seq(a + "${xms}"@ + b, xms, xmx, player) == a + int_decimal(xms) + b,
        launch_placeholders_seq(a + "${xmx}"@ + b, xms, xmx, player) == a + int_decimal(xmx) + b,
{
    reveal_strlit("${xms}");
    reveal_strlit("${xmx}");
    reveal_strlit("${auth_player_name}");
    reveal_strlit("${auth_uuid}");
    reveal_strlit("${auth_access_token}");
    reveal_strlit("${auth_xuid}");
    let f1 = "${xms}"@;
    let f2 = "${xmx}"@;
    let t1 = int_decimal(xms);
    let t2 = int_decimal(xmx);
    let g1 = seq!['{', 'x', 'm', 's', '}'];
    let g2 = seq!['{', 'x', 'm', 'x', '}'];
    assert(f1.drop_first() =~= g1);
    assert(f2.drop_first() =~= g2);
    lemma_tail_plain(f1, g1);
    lemma_tail_plain(f2, g2);
    lemma_decimal_plain(xms);
    lemma_decimal_plain(xmx);
    lemma_placeholder_replaced(a, f1, b, t1);
    lemma_plain_concat(a, t1, b);
    lemma_plain_text_kept(a + t1 + b, f2, t2);
    lemma_other_placeholder_kept(a, f2, b, f1, t1, 4);
    lemma_placeholder_replaced(a, f2, b, t2);
    lemma_plain_concat(a, t2, b);
    match player {
        Some(p) => {
            lemma_plain_text_kept(a + t1 + b, "${auth_player_name}"@, p.name@);
            lemma_plain_text_kept(a + t1 + b, "${auth_uuid}"@, p.id@);
            lemma_plain_text_kept(a + t1 + b, "${auth_access_token}"@, p.access_token@);
            lemma_plain_text_kept(a + t1 + b, "${auth_xuid}"@, p.xuid@);
            lemma_plain_text_kept(a + t2 + b, "${auth_player_name}"@, p.name@);
            lemma_plain_text_kept(a + t2 + b, "${auth_uuid}"@, p.id@);
            lemma_plain_text_kept(a + t2 + b, "${auth_access_token}"@, p.access_token@);
            lemma_plain_text_kept(a + t2 + b, "${auth_xuid}"@, p.xuid@);
        },
        None => {},
    }
}

} // verus!
