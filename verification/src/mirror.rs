//! Download mirrors for server cores: FastMirror, Polars and custom templates.

use vstd::prelude::*;
use crate::error::{CoreError, CoreErrorView};
use crate::model::ServerType;
use crate::text::{
    all_ascii, ascii_lower, ascii_lower_seq, concat2, concat3, concat4, contains, contains_seq, has_prefix,
    i64_to_decimal, int_decimal, lowercase_seq, owned, replace, replace_seq, starts_with,
    str_eq, strip_prefix, to_lowercase, trim, trim_end_char, trim_end_matches_char, trim_seq,
    trim_start_char, trim_start_matches_char,
};

verus! {

/// The FastMirror API root used when none is configured.
pub const FASTMIRROR_DEFAULT_BASE_URL: &'static str = "https://download.fastmirror.net/api/v3";

/// The Polars API root used when none is configured.
pub const POLARS_DEFAULT_BASE_URL: &'static str =
    "https://mirror.polars.cc/api/query/minecraft/core";

/// Where server cores are downloaded from.
#[derive(Debug, Clone, Copy, PartialEq, Eq)]
pub enum ServerMirrorSource {
    Official,
    FastMirror,
    Polars,
    Custom,
}

/// A core listed by FastMirror.
#[derive(Debug, Clone, PartialEq, Eq)]
pub struct FastMirrorCoreSummary {
    pub name: String,
    pub tag: Option<String>,
    pub recommend: bool,
    pub homepage: Option<String>,
    pub mc_versions: Option<Vec<String>>,
}

/// One downloadable build of a FastMirror core.
#[derive(Debug, Clone, PartialEq, Eq)]
pub struct FastMirrorCoreDetail {
    pub name: String,
    pub mc_version: String,
    pub core_version: String,
    pub update_time: Option<String>,
    pub sha1: Option<String>,
    pub filename: String,
    pub download_url: String,
}

/// A core type listed by Polars.
#[derive(Debug, Clone, PartialEq, Eq)]
pub struct PolarsCoreType {
    pub id: i64,
    pub name: String,
    pub description: Option<String>,
}

/// A downloadable Polars core.
#[derive(Debug, Clone, PartialEq, Eq)]
pub struct PolarsCoreItem {
    pub name: String,
    pub download_url: String,
}

/// A Polars download URL with surrounding whitespace removed and `http://` upgraded to
/// `https://`.
pub open spec fn polars_download_url(value: Seq<char>) -> Seq<char> {
    let t = trim_seq(value);
    if has_prefix(t, "http://"@) {
        "https://"@ + t.subrange(7, t.len() as int)
    } else {
        t
    }
}

impl PolarsCoreItem {
    /// An item whose download URL is normalized.
    pub fn new(name: &str, download_url: &str) -> (r: PolarsCoreItem)
        ensures
            r.name@ == name@,
            r.download_url@ == polars_download_url(download_url@),
    {
        PolarsCoreItem { name: owned(name), download_url: normalize_polars_download_url(download_url) }
    }
}

/// The FastMirror core name of a server kind.
pub open spec fn spec_fastmirror_core_name(t: ServerType) -> Seq<char> {
    match t {
        ServerType::Vanilla => "Vanilla"@,
        ServerType::Paper => "Paper"@,
        ServerType::Fabric => "Fabric"@,
        ServerType::Forge => "Forge"@,
        ServerType::Custom => "Custom"@,
    }
}

/// The FastMirror core name of a server kind.
pub fn fastmirror_core_name(server_type: ServerType) -> (r: &'static str)
    ensures
        r@ == spec_fastmirror_core_name(server_type),
{
    match server_type {
        ServerType::Vanilla => "Vanilla",
        ServerType::Paper => "Paper",
        ServerType::Fabric => "Fabric",
        ServerType::Forge => "Forge",
        ServerType::Custom => "Custom",
    }
}

/// The server kind of a FastMirror core name, compared without case; custom cores have none.
pub open spec fn spec_fastmirror_server_type(core_name: Seq<char>) -> Option<ServerType> {
    let l = lowercase_seq(core_name);
    if l == "vanilla"@ {
        Some(ServerType::Vanilla)
    } else if l == "paper"@ {
        Some(ServerType::Paper)
    } else if l == "fabric"@ {
        Some(ServerType::Fabric)
    } else if l == "forge"@ {
        Some(ServerType::Forge)
    } else {
        None
    }
}

/// The server kind of a FastMirror core name, compared without case.
pub fn fastmirror_server_type(core_name: &str) -> (r: Option<ServerType>)
    ensures
        r == spec_fastmirror_server_type(core_name@),
{
    let l = to_lowercase(core_name);
    if str_eq(l.as_str(), "vanilla") {
        Some(ServerType::Vanilla)
    } else if str_eq(l.as_str(), "paper") {
        Some(ServerType::Paper)
    } else if str_eq(l.as_str(), "fabric") {
        Some(ServerType::Fabric)
    } else if str_eq(l.as_str(), "forge") {
        Some(ServerType::Forge)
    } else {
        None
    }
}

/// A configured URL with surrounding whitespace removed, or `default` when it is absent
/// or blank.
pub open spec fn configured_or(value: Option<Seq<char>>, default: Seq<char>) -> Seq<char> {
    match value {
        Some(v) => if trim_seq(v).len() > 0 {
            trim_seq(v)
        } else {
            default
        },
        None => default,
    }
}

/// The view of an optional string slice.
pub open spec fn opt_str_view(value: Option<&str>) -> Option<Seq<char>> {
    match value {
        Some(v) => Some(v@),
        None => None,
    }
}

/// The trimmed configured URL, or the default when it is absent or blank.
fn configured_url_or(value: Option<&str>, default: &str) -> (r: String)
    ensures
        r@ == configured_or(opt_str_view(value), default@),
{
    match value {
        Some(v) => {
            let t = trim(v);
            if t.as_str().is_empty() {
                owned(default)
            } else {
                t
            }
        },
        None => owned(default),
    }
}

/// The FastMirror API root: the configured or default root without trailing slashes,
/// with `/api/v3` appended unless it already holds it (compared without case).
pub open spec fn fastmirror_base(value: Option<Seq<char>>) -> Seq<char> {
    let trimmed = trim_end_char(configured_or(value, FASTMIRROR_DEFAULT_BASE_URL@), '/');
    if contains_seq(lowercase_seq(trimmed), "/api/v3"@) {
        trimmed
    } else {
        trimmed + "/api/v3"@
    }
}

/// The FastMirror API root for a configured base URL.
pub fn normalize_fastmirror_base_url(value: Option<&str>) -> (r: String)
    ensures
        r@ == fastmirror_base(opt_str_view(value)),
{
    let raw = configured_url_or(value, FASTMIRROR_DEFAULT_BASE_URL);
    let trimmed = trim_end_matches_char(raw.as_str(), '/');
    let lower = to_lowercase(trimmed.as_str());
    if contains(lower.as_str(), "/api/v3") {
        trimmed
    } else {
        concat2(trimmed.as_str(), "/api/v3")
    }
}

/// The FastMirror URL that describes one build of a core.
pub open spec fn fastmirror_detail_url(
    base: Option<Seq<char>>,
    core_name: Seq<char>,
    game_version: Seq<char>,
    core_version: Seq<char>,
) -> Seq<char> {
    fastmirror_base(base) + "/"@ + core_name + "/"@ + game_version + "/"@ + core_version
}

/// The FastMirror URL that describes one build of a core.
pub fn fastmirror_core_detail_url(
    base_url: Option<&str>,
    core_name: &str,
    game_version: &str,
    core_version: &str,
) -> (r: String)
    ensures
        r@ == fastmirror_detail_url(opt_str_view(base_url), core_name@, game_version@, core_version@),
{
    let base = normalize_fastmirror_base_url(base_url);
    let a = concat4(base.as_str(), "/", core_name, "/");
    concat4(a.as_str(), game_version, "/", core_version)
}

/// The FastMirror URL that lists the game versions of a core (the core's name trimmed).
pub fn fastmirror_game_versions_url(base_url: Option<&str>, core_name: &str) -> (r: String)
    ensures
        r@ == fastmirror_base(opt_str_view(base_url)) + "/"@ + trim_seq(core_name@),
{
    let base = normalize_fastmirror_base_url(base_url);
    let core = crate::text::trim(core_name);
    concat3(base.as_str(), "/", core.as_str())
}

/// The FastMirror URL that lists the first 25 builds of a core for a game version (both
/// names trimmed).
pub fn fastmirror_core_versions_url(base_url: Option<&str>, core_name: &str, game_version: &str) -> (r: String)
    ensures
        r@ == fastmirror_base(opt_str_view(base_url)) + "/"@ + trim_seq(core_name@) + "/"@ + trim_seq(game_version@)
            + "?offset=0&limit=25"@,
{
    let base = normalize_fastmirror_base_url(base_url);
    let core = crate::text::trim(core_name);
    let game = crate::text::trim(game_version);
    let a = concat4(base.as_str(), "/", core.as_str(), "/");
    concat3(a.as_str(), game.as_str(), "?offset=0&limit=25")
}

/// The Polars API root: the configured or default root without trailing slashes.
pub open spec fn polars_base(value: Option<Seq<char>>) -> Seq<char> {
    trim_end_char(configured_or(value, POLARS_DEFAULT_BASE_URL@), '/')
}

/// The Polars API root for a configured base URL.
pub fn normalize_polars_base_url(value: Option<&str>) -> (r: String)
    ensures
        r@ == polars_base(opt_str_view(value)),
{
    let raw = configured_url_or(value, POLARS_DEFAULT_BASE_URL);
    trim_end_matches_char(raw.as_str(), '/')
}

/// The Polars URL that lists the items of a core type.
pub open spec fn polars_items_url(base: Option<Seq<char>>, core_type_id: i64) -> Seq<char> {
    trim_end_char(polars_base(base), '/') + "/"@ + int_decimal(core_type_id as int)
}

/// The Polars URL that lists the items of a core type.
pub fn polars_core_items_url(base_url: Option<&str>, core_type_id: i64) -> (r: String)
    ensures
        r@ == polars_items_url(opt_str_view(base_url), core_type_id),
{
    let base = normalize_polars_base_url(base_url);
    let trimmed = trim_end_matches_char(base.as_str(), '/');
    let id = i64_to_decimal(core_type_id);
    concat3(trimmed.as_str(), "/", id.as_str())
}

/// A Polars download URL with surrounding whitespace removed and `http://` upgraded.
pub fn normalize_polars_download_url(value: &str) -> (r: String)
    ensures
        r@ == polars_download_url(value@),
{
    let trimmed = trim(value);
    proof {
        reveal_strlit("http://");
    }
    match strip_prefix(trimmed.as_str(), "http://") {
        Some(rest) => concat2("https://", rest.as_str()),
        None => trimmed,
    }
}

/// A custom mirror template with its `{core}`, `{mc_version}` and `{core_version}`
/// placeholders filled in, in that order.
pub open spec fn resolve_template(
    template: Seq<char>,
    core: Seq<char>,
    game_version: Seq<char>,
    core_version: Seq<char>,
) -> Seq<char> {
    replace_seq(
        replace_seq(replace_seq(template, "{core}"@, core), "{mc_version}"@, game_version),
        "{core_version}"@,
        core_version,
    )
}

/// The URL a custom mirror template resolves to: the filled template when it is an
/// absolute HTTP(S) URL (compared without case), otherwise the path joined to the base
/// URL; an empty path or base is an error.
pub open spec fn spec_custom_mirror_url(
    base_url: Seq<char>,
    template: Seq<char>,
    core: Seq<char>,
    game_version: Seq<char>,
    core_version: Seq<char>,
) -> Result<Seq<char>, CoreErrorView> {
    let resolved = resolve_template(template, core, game_version, core_version);
    let lower = lowercase_seq(resolved);
    if has_prefix(lower, "http://"@) || has_prefix(lower, "https://"@) {
        Ok(resolved)
    } else if trim_start_char(resolved, '/').len() == 0 {
        Err(CoreErrorView::Validation("custom mirror path cannot be empty"@))
    } else if trim_end_char(base_url, '/').len() == 0 {
        Err(CoreErrorView::Validation("custom mirror base url cannot be empty"@))
    } else {
        Ok(trim_end_char(base_url, '/') + "/"@ + trim_start_char(resolved, '/'))
    }
}

/// The view of a string result.
pub open spec fn string_result_view(r: Result<String, CoreError>) -> Result<
    Seq<char>,
    CoreErrorView,
> {
    match r {
        Ok(s) => Ok(s@),
        Err(e) => Err(e@),
    }
}

/// The URL a custom mirror template resolves to.
pub fn custom_mirror_url(
    base_url: &str,
    template: &str,
    core: &str,
    game_version: &str,
    core_version: &str,
) -> (r: Result<String, CoreError>)
    ensures
        string_result_view(r) == spec_custom_mirror_url(
            base_url@,
            template@,
            core@,
            game_version@,
            core_version@,
        ),
{
    proof {
        reveal_strlit("{core}");
        reveal_strlit("{mc_version}");
        reveal_strlit("{core_version}");
    }
    let a = replace(template, "{core}", core);
    let b = replace(a.as_str(), "{mc_version}", game_version);
    let resolved = replace(b.as_str(), "{core_version}", core_version);
    let lower = to_lowercase(resolved.as_str());
    if starts_with(lower.as_str(), "http://") || starts_with(lower.as_str(), "https://") {
        return Ok(resolved);
    }
    let trimmed_path = trim_start_matches_char(resolved.as_str(), '/');
    if trimmed_path.as_str().is_empty() {
        return Err(CoreError::validation("custom mirror path cannot be empty"));
    }
    let base = trim_end_matches_char(base_url, '/');
    if base.as_str().is_empty() {
        return Err(CoreError::validation("custom mirror base url cannot be empty"));
    }
    Ok(concat3(base.as_str(), "/", trimmed_path.as_str()))
}

/// The strings of `s[..n]` without repetitions, each kept where it first occurs.
pub open spec fn unique_prefix(s: Seq<Seq<char>>, n: nat) -> Seq<Seq<char>>
    decreases n,
{
    if n == 0 {
        Seq::empty()
    } else {
        let prev = unique_prefix(s, (n - 1) as nat);
        if prev.contains(s[n - 1]) {
            prev
        } else {
            prev.push(s[n - 1])
        }
    }
}

/// The strings of `s` without repetitions, each kept where it first occurs.
pub open spec fn unique_seq(s: Seq<Seq<char>>) -> Seq<Seq<char>> {
    unique_prefix(s, s.len())
}

/// Whether some string of `v` equals `x`.
fn contains_string(v: &Vec<String>, x: &str) -> (r: bool)
    ensures
        r == crate::model::strings_view(v@).contains(x@),
{
    let mut i: usize = 0;
    while i < v.len()
        invariant
            i <= v.len(),
            forall|j: int| 0 <= j < i ==> v@[j]@ != x@,
        decreases v.len() - i,
    {
        if str_eq(v[i].as_str(), x) {
            assert(crate::model::strings_view(v@)[i as int] == x@);
            return true;
        }
        i += 1;
    }
    assert(!crate::model::strings_view(v@).contains(x@)) by {
        if crate::model::strings_view(v@).contains(x@) {
            let k = choose|k: int|
                0 <= k < crate::model::strings_view(v@).len() && crate::model::strings_view(
                    v@,
                )[k] == x@;
            assert(v@[k]@ == x@);
        }
    }
    false
}

/// The strings of `values` without repetitions, each kept where it first occurs.
pub fn unique_strings(values: Vec<String>) -> (r: Vec<String>)
    ensures
        crate::model::strings_view(r@) == unique_seq(crate::model::strings_view(values@)),
{
    let ghost sv = crate::model::strings_view(values@);
    let mut seen: Vec<String> = Vec::new();
    let mut i: usize = 0;
    while i < values.len()
        invariant
            i <= values.len(),
            sv == crate::model::strings_view(values@),
            crate::model::strings_view(seen@) == unique_prefix(sv, i as nat),
        decreases values.len() - i,
    {
        let present = contains_string(&seen, values[i].as_str());
        if !present {
            let ghost before = seen@;
            seen.push(owned(values[i].as_str()));
            assert(crate::model::strings_view(seen@) == crate::model::strings_view(before).push(
                sv[i as int],
            ));
        }
        i += 1;
    }
    seen
}

/// Law: the result of removing repetitions holds no string twice.
pub proof fn lemma_unique_no_duplicates(s: Seq<Seq<char>>)
    ensures
        unique_seq(s).no_duplicates(),
{
    lemma_unique_prefix_props(s, s.len());
}

/// Law: removing repetitions keeps exactly the strings that occur.
pub proof fn lemma_unique_same_elements(s: Seq<Seq<char>>, x: Seq<char>)
    ensures
        unique_seq(s).contains(x) <==> s.contains(x),
{
    lemma_unique_prefix_props(s, s.len());
    if s.contains(x) {
        let k = choose|k: int| 0 <= k < s.len() && s[k] == x;
        assert(s.take(s.len() as int) == s);
    }
}

/// Law: removing repetitions twice is removing them once.
pub proof fn lemma_unique_idempotent(s: Seq<Seq<char>>)
    ensures
        unique_seq(unique_seq(s)) == unique_seq(s),
{
    lemma_unique_no_duplicates(s);
    lemma_unique_of_no_duplicates(unique_seq(s), unique_seq(s).len());
}

/// The basic facts of `unique_prefix`: no duplicates, and its elements are those of the
/// first `n` strings.
proof fn lemma_unique_prefix_props(s: Seq<Seq<char>>, n: nat)
    requires
        n <= s.len(),
    ensures
        unique_prefix(s, n).no_duplicates(),
        forall|x: Seq<char>| #[trigger]
            unique_prefix(s, n).contains(x) <==> s.take(n as int).contains(x),
    decreases n,
{
    if n > 0 {
        lemma_unique_prefix_props(s, (n - 1) as nat);
        let prev = unique_prefix(s, (n - 1) as nat);
        assert(s.take(n as int) == s.take(n - 1).push(s[n - 1]));
        broadcast use vstd::seq_lib::group_seq_properties;
        if !prev.contains(s[n - 1]) {
            let q = prev.push(s[n - 1]);
            assert forall|i: int, j: int| 0 <= i < q.len() && 0 <= j < q.len() && i != j implies q[i]
                != q[j] by {
                if i < prev.len() && j < prev.len() {
                } else if i == prev.len() {
                    assert(prev[j] == q[j]);
                } else {
                    assert(prev[i] == q[i]);
                }
            }
        }
    }
}

/// Removing repetitions from a sequence that has none changes nothing.
proof fn lemma_unique_of_no_duplicates(s: Seq<Seq<char>>, n: nat)
    requires
        n <= s.len(),
        s.no_duplicates(),
    ensures
        unique_prefix(s, n) == s.take(n as int),
    decreases n,
{
    if n > 0 {
        lemma_unique_of_no_duplicates(s, (n - 1) as nat);
        let prev = unique_prefix(s, (n - 1) as nat);
        assert(!prev.contains(s[n - 1])) by {
            if prev.contains(s[n - 1]) {
                let k = choose|k: int| 0 <= k < prev.len() && prev[k] == s[n - 1];
                assert(s[k] == s[n - 1]);
            }
        }
        assert(s.take(n as int) == s.take(n - 1).push(s[n - 1]));
    } else {
        assert(s.take(0) == Seq::<Seq<char>>::empty());
    }
    if n == s.len() {
        assert(s.take(n as int) == s);
    }
}

/// Law: a core kind's FastMirror name maps back to the kind, for every kind FastMirror
/// serves; the name of custom cores maps to no kind.
pub proof fn lemma_fastmirror_name_round_trip(t: ServerType)
    ensures
        spec_fastmirror_server_type(spec_fastmirror_core_name(t)) == if t == ServerType::Custom {
            None
        } else {
            Some(t)
        },
{
    reveal_strlit("Custom");
    reveal_strlit("custom");
    reveal_strlit("Vanilla");
    reveal_strlit("vanilla");
    reveal_strlit("Paper");
    reveal_strlit("paper");
    reveal_strlit("Fabric");
    reveal_strlit("fabric");
    reveal_strlit("Forge");
    reveal_strlit("forge");
    assert(ascii_lower_seq("Vanilla"@) =~= "vanilla"@);
    assert(ascii_lower_seq("Paper"@) =~= "paper"@);
    assert(ascii_lower_seq("Fabric"@) =~= "fabric"@);
    assert(ascii_lower_seq("Forge"@) =~= "forge"@);
    assert("paper"@ != "vanilla"@);
    assert("fabric"@ != "vanilla"@ && "fabric"@ != "paper"@);
    assert("forge"@[0] != "paper"@[0]);
    assert("forge"@ != "vanilla"@ && "forge"@ != "paper"@ && "forge"@ != "fabric"@);
    assert(ascii_lower_seq("Custom"@) =~= "custom"@);
    assert("custom"@[0] != "vanilla"@[0] && "custom"@[0] != "paper"@[0]);
    assert("custom"@[0] != "fabric"@[0] && "custom"@[0] != "forge"@[0]);
}

/// Lemma: ASCII lower-casing keeps text ASCII, and lower-casing it again changes nothing.
proof fn lemma_ascii_lower_twice(s: Seq<char>)
    requires
        all_ascii(s),
    ensures
        all_ascii(ascii_lower_seq(s)),
        ascii_lower_seq(ascii_lower_seq(s)) == ascii_lower_seq(s),
{
    assert forall|i: int| 0 <= i < s.len() implies (ascii_lower_seq(s)[i] as u32) < 128
        && ascii_lower(ascii_lower(s[i])) == ascii_lower(s[i]) by {
        let c = s[i];
        if 'A' <= c <= 'Z' {
            assert(((c as u32) + 32) as char as u32 == (c as u32) + 32);
        }
    }
    assert(ascii_lower_seq(ascii_lower_seq(s)) =~= ascii_lower_seq(s));
}

/// Law: the server kind of a FastMirror core name does not change when the name is
/// lower-cased first, for ASCII names (beyond ASCII, lower-casing is the named Unicode
/// mapping).
pub proof fn lemma_fastmirror_type_ignores_case(core_name: Seq<char>)
    requires
        all_ascii(core_name),
    ensures
        spec_fastmirror_server_type(lowercase_seq(core_name)) == spec_fastmirror_server_type(core_name),
{
    lemma_ascii_lower_twice(core_name);
}

/// Text without whitespace characters.
pub open spec fn no_whitespace(s: Seq<char>) -> bool {
    forall|i: int| 0 <= i < s.len() ==> !crate::text::is_ws(#[trigger] s[i])
}

/// Lemma: text without whitespace is its own trimmed form.
proof fn lemma_trim_no_whitespace(s: Seq<char>)
    requires
        no_whitespace(s),
    ensures
        trim_seq(s) == s,
{
    if s.len() > 0 {
        assert(!crate::text::is_ws(s[0]));
        assert(!crate::text::is_ws(s.last()));
    }
}

/// Lemma: removing a trailing character leaves a prefix that does not end with it.
proof fn lemma_trim_end_char_prefix(s: Seq<char>, c: char)
    ensures
        trim_end_char(s, c).len() <= s.len(),
        s.take(trim_end_char(s, c).len() as int) == trim_end_char(s, c),
        trim_end_char(s, c).len() > 0 ==> trim_end_char(s, c).last() != c,
    decreases s.len(),
{
    if s.len() > 0 && s.last() == c {
        lemma_trim_end_char_prefix(s.drop_last(), c);
        let t = trim_end_char(s.drop_last(), c);
        assert(s.take(t.len() as int) =~= s.drop_last().take(t.len() as int));
    } else {
        assert(s.take(s.len() as int) =~= s);
    }
}

/// Lemma: the lower-case form of ASCII text followed by `/api/v3` holds `/api/v3`.
proof fn lemma_api_suffix_found(t: Seq<char>)
    requires
        all_ascii(t),
    ensures
        contains_seq(lowercase_seq(t + "/api/v3"@), "/api/v3"@),
{
    reveal_strlit("/api/v3");
    let x = t + "/api/v3"@;
    assert(all_ascii(x)) by {
        assert forall|i: int| 0 <= i < x.len() implies (x[i] as u32) < 128 by {
            if i < t.len() {
                assert(x[i] == t[i]);
            }
        }
    }
    let l = ascii_lower_seq(x);
    assert(l.subrange(t.len() as int, t.len() + 7int) =~= "/api/v3"@);
    assert(crate::text::occurs_at(l, "/api/v3"@, t.len() as int));
}

/// Lemma: the API root for configured text without whitespace, all ASCII and not empty.
proof fn lemma_fastmirror_base_of_text(v: Seq<char>)
    requires
        v.len() > 0,
        all_ascii(v),
        no_whitespace(v),
    ensures
        fastmirror_base(Some(v)).len() > 0,
        fastmirror_base(Some(v)).last() != '/',
        all_ascii(fastmirror_base(Some(v))),
        no_whitespace(fastmirror_base(Some(v))),
        contains_seq(lowercase_seq(fastmirror_base(Some(v))), "/api/v3"@),
{
    reveal_strlit("/api/v3");
    lemma_trim_no_whitespace(v);
    assert(configured_or(Some(v), FASTMIRROR_DEFAULT_BASE_URL@) == v);
    let t = trim_end_char(v, '/');
    lemma_trim_end_char_prefix(v, '/');
    assert forall|i: int| 0 <= i < t.len() implies (t[i] as u32) < 128 && !crate::text::is_ws(#[trigger] t[i]) by {
        assert(t[i] == v[i]);
    }
    let r = fastmirror_base(Some(v));
    if contains_seq(lowercase_seq(t), "/api/v3"@) {
        assert(r == t);
        assert(lowercase_seq(t).len() == t.len());
        assert(t.len() > 0);
    } else {
        assert(r == t + "/api/v3"@);
        lemma_api_suffix_found(t);
        assert(r.last() == '3');
        assert forall|i: int| 0 <= i < r.len() implies (r[i] as u32) < 128 && !crate::text::is_ws(#[trigger] r[i]) by {
            if i < t.len() {
                assert(r[i] == t[i]);
            }
        }
    }
}

/// Lemma: the default FastMirror root is ASCII text without whitespace that ends with
/// `/api/v3`.
proof fn lemma_fastmirror_default_text()
    ensures
        FASTMIRROR_DEFAULT_BASE_URL@.len() > 0,
        all_ascii(FASTMIRROR_DEFAULT_BASE_URL@),
        no_whitespace(FASTMIRROR_DEFAULT_BASE_URL@),
        fastmirror_base(Some(FASTMIRROR_DEFAULT_BASE_URL@)) == FASTMIRROR_DEFAULT_BASE_URL@,
{
    reveal_strlit("https://download.fastmirror.net/api/v3");
    reveal_strlit("https://download.fastmirror.net");
    reveal_strlit("/api/v3");
    let d = FASTMIRROR_DEFAULT_BASE_URL@;
    let h = "https://download.fastmirror.net"@;
    assert(d =~= h + "/api/v3"@);
    assert(all_ascii(h));
    assert(no_whitespace(d));
    assert(all_ascii(d));
    lemma_trim_no_whitespace(d);
    assert(trim_end_char(d, '/') == d);
    lemma_api_suffix_found(h);
}

/// Law: the FastMirror API root is normal: normalizing it again gives it back, it does
/// not end with `/`, and its lower-case form holds `/api/v3`; an absent or empty
/// configuration gives the default root. This holds for configured text without
/// whitespace that is all ASCII (beyond ASCII, lower-casing is the named Unicode
/// mapping).
pub proof fn lemma_fastmirror_base_normal(value: Option<Seq<char>>)
    requires
        value matches Some(v) ==> all_ascii(v) && no_whitespace(v),
    ensures
        fastmirror_base(Some(fastmirror_base(value))) == fastmirror_base(value),
        fastmirror_base(value).len() > 0 && fastmirror_base(value).last() != '/',
        contains_seq(lowercase_seq(fastmirror_base(value)), "/api/v3"@),
        fastmirror_base(None) == fastmirror_base(Some(Seq::empty())),
        fastmirror_base(None) == FASTMIRROR_DEFAULT_BASE_URL@,
{
    lemma_fastmirror_default_text();
    let d = FASTMIRROR_DEFAULT_BASE_URL@;
    assert(trim_seq(Seq::<char>::empty()) =~= Seq::<char>::empty());
    assert(configured_or(None, d) == d);
    assert(configured_or(Some(Seq::empty()), d) == d);
    assert(configured_or(Some(d), d) == d);
    lemma_fastmirror_base_of_text(d);
    let text = match value {
        Some(v) => if trim_seq(v).len() > 0 {
            v
        } else {
            d
        },
        None => d,
    };
    if let Some(v) = value {
        lemma_trim_no_whitespace(v);
    }
    assert(fastmirror_base(value) == fastmirror_base(Some(text)));
    lemma_fastmirror_base_of_text(text);
    let r = fastmirror_base(Some(text));
    lemma_trim_no_whitespace(r);
    assert(trim_end_char(r, '/') == r);
}

/// The position where `x` first occurs in `s`.
pub open spec fn first_index(s: Seq<Seq<char>>, x: Seq<char>) -> int {
    choose|j: int| 0 <= j < s.len() && s[j] == x && forall|k: int| 0 <= k < j ==> s[k] != x
}

/// Lemma: a position holding `x` with no `x` before it is where `x` first occurs.
proof fn lemma_first_index_is(s: Seq<Seq<char>>, x: Seq<char>, j: int)
    requires
        0 <= j < s.len(),
        s[j] == x,
        forall|k: int| 0 <= k < j ==> s[k] != x,
    ensures
        first_index(s, x) == j,
{
    let c = first_index(s, x);
    assert(0 <= c < s.len() && s[c] == x && forall|k: int| 0 <= k < c ==> s[k] != x);
    if c < j {
        assert(s[c] != x);
    }
    if c > j {
        assert(s[j] != x);
    }
}

/// Lemma: in `unique_prefix(s, n)`, the strings come in the order of their first
/// occurrences in `s`, all of them before `n`.
proof fn lemma_unique_prefix_order(s: Seq<Seq<char>>, n: nat)
    requires
        n <= s.len(),
    ensures
        forall|i: int| 0 <= i < unique_prefix(s, n).len() ==> first_index(s, #[trigger] unique_prefix(s, n)[i]) < n,
        forall|i1: int, i2: int|
            0 <= i1 < i2 < unique_prefix(s, n).len() ==> first_index(s, #[trigger] unique_prefix(s, n)[i1])
                < first_index(s, #[trigger] unique_prefix(s, n)[i2]),
    decreases n,
{
    if n > 0 {
        lemma_unique_prefix_order(s, (n - 1) as nat);
        lemma_unique_prefix_props(s, (n - 1) as nat);
        let prev = unique_prefix(s, (n - 1) as nat);
        let x = s[n - 1];
        if !prev.contains(x) {
            assert(!s.take(n - 1).contains(x));
            assert forall|k: int| 0 <= k < n - 1 implies s[k] != x by {
                if s[k] == x {
                    assert(s.take(n - 1)[k] == x);
                }
            }
            lemma_first_index_is(s, x, n - 1);
            let u = unique_prefix(s, n);
            assert(u == prev.push(x));
            assert forall|i: int| 0 <= i < u.len() implies first_index(s, #[trigger] u[i]) < n by {
                if i < prev.len() {
                    assert(u[i] == prev[i]);
                }
            }
            assert forall|i1: int, i2: int|
                0 <= i1 < i2 < u.len() implies first_index(s, #[trigger] u[i1]) < first_index(s, #[trigger] u[i2]) by {
                assert(u[i1] == prev[i1]);
                if i2 < prev.len() {
                    assert(u[i2] == prev[i2]);
                }
            }
        }
    }
}

/// Law: `unique_strings` keeps each string where it first occurs: the strings it keeps
/// come in the order of their first occurrences in the input.
pub proof fn lemma_unique_first_occurrence_order(s: Seq<Seq<char>>)
    ensures
        forall|i1: int, i2: int|
            0 <= i1 < i2 < unique_seq(s).len() ==> first_index(s, #[trigger] unique_seq(s)[i1]) < first_index(
                s,
                #[trigger] unique_seq(s)[i2],
            ),
{
    lemma_unique_prefix_order(s, s.len());
}

} // verus!
