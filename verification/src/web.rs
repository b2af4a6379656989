//! Web addresses: percent-encoding, the Modrinth search address and version filter, and
//! file names taken from download addresses.

use vstd::prelude::*;
use vstd::utf8::encode_utf8;
use crate::error::{CoreError, CoreErrorView};
use crate::model::strings_view;
use crate::text::{
    append, chars_of, contains_seq, i64_to_decimal, int_decimal, last_occurrence, owned,
    push_char, rfind, str_eq, string_of_range, trim, trim_seq,
};

verus! {

// ---------------------------------------------------------------------------
// Percent-encoding
// ---------------------------------------------------------------------------

/// Whether a byte stands for itself in an encoded address: a letter, a digit, `-`, `_`,
/// `.` or `~`.
pub open spec fn is_unreserved(b: u8) -> bool {
    (65 <= b <= 90) || (97 <= b <= 122) || (48 <= b <= 57) || b == 45 || b == 95 || b == 46 || b == 126
}

/// The upper-case hexadecimal digit of a value below 16.
pub open spec fn hex_upper(d: int) -> char {
    if d < 10 {
        (48 + d) as char
    } else {
        (55 + d) as char
    }
}

/// A byte encoded for an address: itself when unreserved, `%20` for a space, otherwise
/// `%` and two upper-case hexadecimal digits.
pub open spec fn encode_byte(b: u8) -> Seq<char> {
    if is_unreserved(b) {
        seq![b as char]
    } else if b == 32 {
        "%20"@
    } else {
        seq!['%', hex_upper((b / 16) as int), hex_upper((b % 16) as int)]
    }
}

/// Bytes encoded for an address, one after the other.
pub open spec fn encode_bytes(bs: Seq<u8>) -> Seq<char>
    decreases bs.len(),
{
    if bs.len() == 0 {
        Seq::empty()
    } else {
        encode_bytes(bs.drop_last()) + encode_byte(bs.last())
    }
}

/// Text encoded for an address: its UTF-8 bytes, each encoded.
pub open spec fn url_encode_seq(s: Seq<char>) -> Seq<char> {
    encode_bytes(encode_utf8(s))
}

/// The upper-case hexadecimal digit of `d`.
fn hex_digit(d: u8) -> (c: char)
    requires
        d < 16,
    ensures
        c == hex_upper(d as int),
{
    if d < 10 {
        (48 + d) as char
    } else {
        (55 + d) as char
    }
}

/// `value` percent-encoded byte by byte.
pub fn url_encode(value: &str) -> (r: String)
    ensures
        r@ == url_encode_seq(value@),
{
    let bs = value.as_bytes();
    let mut encoded = String::new();
    let mut i: usize = 0;
    while i < bs.len()
        invariant
            i <= bs@.len(),
            bs@ == encode_utf8(value@),
            encoded@ == encode_bytes(bs@.take(i as int)),
        decreases bs.len() - i,
    {
        let b = bs[i];
        assert(bs@.take(i + 1).drop_last() == bs@.take(i as int));
        assert(bs@.take(i + 1).last() == b);
        if (65 <= b && b <= 90) || (97 <= b && b <= 122) || (48 <= b && b <= 57) || b == 45 || b == 95 || b == 46
            || b == 126 {
            push_char(&mut encoded, b as char);
        } else if b == 32 {
            append(&mut encoded, "%20");
        } else {
            let ghost before = encoded@;
            push_char(&mut encoded, '%');
            push_char(&mut encoded, hex_digit(b / 16));
            push_char(&mut encoded, hex_digit(b % 16));
            assert(encoded@ =~= before + encode_byte(b));
        }
        i += 1;
    }
    assert(bs@.take(bs@.len() as int) == bs@);
    encoded
}

// ---------------------------------------------------------------------------
// Modrinth
// ---------------------------------------------------------------------------

/// `n` held between `lo` and `hi`.
pub open spec fn clamp_int(n: int, lo: int, hi: int) -> int {
    if n < lo {
        lo
    } else if n > hi {
        hi
    } else {
        n
    }
}

/// The part of a search address for an optional parameter: none when it is absent or
/// blank, otherwise `&name=` and the encoded value.
pub open spec fn optional_param(name: Seq<char>, value: Option<Seq<char>>) -> Seq<char> {
    match value {
        Some(v) => if trim_seq(v).len() > 0 {
            "&"@ + name + "="@ + url_encode_seq(v)
        } else {
            Seq::empty()
        },
        None => Seq::empty(),
    }
}

/// The address of a Modrinth search: the sort index, the offset, the limit held between
/// 1 and 100, and the query and facets when they are not blank.
pub open spec fn modrinth_search_url_seq(
    index: Seq<char>,
    offset: int,
    limit: int,
    query: Option<Seq<char>>,
    facets_json: Option<Seq<char>>,
) -> Seq<char> {
    "https://api.modrinth.com/v2/search?index="@ + url_encode_seq(index) + "&offset="@ + int_decimal(offset)
        + "&limit="@ + int_decimal(clamp_int(limit, 1, 100)) + optional_param("query"@, query) + optional_param(
        "facets"@,
        facets_json,
    )
}

/// Appends the part of a search address for an optional parameter.
fn append_optional_param(url: &mut String, name: &str, value: &Option<String>)
    ensures
        final(url)@ == old(url)@ + optional_param(name@, crate::cli_args::ov(*value)),
{
    if let Some(v) = value {
        let t = trim(v.as_str());
        if !t.as_str().is_empty() {
            let ghost before = url@;
            append(url, "&");
            append(url, name);
            append(url, "=");
            append(url, url_encode(v.as_str()).as_str());
            assert(url@ =~= before + ("&"@ + name@ + "="@ + url_encode_seq(v@)));
            return;
        }
    }
    assert(url@ =~= url@ + Seq::<char>::empty());
}

/// The address of a Modrinth search.
pub fn modrinth_search_url(index: &str, offset: i32, limit: i32, query: &Option<String>, facets_json: &Option<String>) -> (r:
    String)
    ensures
        r@ == modrinth_search_url_seq(
            index@,
            offset as int,
            limit as int,
            crate::cli_args::ov(*query),
            crate::cli_args::ov(*facets_json),
        ),
{
    let clamped: i32 = if limit < 1 {
        1
    } else if limit > 100 {
        100
    } else {
        limit
    };
    let mut url = owned("https://api.modrinth.com/v2/search?index=");
    append(&mut url, url_encode(index).as_str());
    append(&mut url, "&offset=");
    append(&mut url, i64_to_decimal(offset as i64).as_str());
    append(&mut url, "&limit=");
    append(&mut url, i64_to_decimal(clamped as i64).as_str());
    append_optional_param(&mut url, "query", query);
    append_optional_param(&mut url, "facets", facets_json);
    url
}

/// Whether two lists of names share one.
pub open spec fn shares_name(a: Seq<Seq<char>>, b: Seq<Seq<char>>) -> bool {
    exists|i: int| 0 <= i < a.len() && b.contains(#[trigger] a[i])
}

/// The loaders a project type is looked up with: `datapack` for data packs, `minecraft`
/// for resource packs, otherwise those selected.
pub open spec fn effective_loaders(project_type: Seq<char>, selected: Seq<Seq<char>>) -> Seq<Seq<char>> {
    if project_type == "datapack"@ {
        seq!["datapack"@]
    } else if project_type == "resourcepack"@ {
        seq!["minecraft"@]
    } else {
        selected
    }
}

/// Whether a Modrinth version suits the selection: it supports a selected game version,
/// or none is selected; and, unless the project is a shader or a resource pack, it
/// supports one of the loaders looked up, or none is.
pub open spec fn version_matches_seq(
    game_versions: Seq<Seq<char>>,
    version_loaders: Seq<Seq<char>>,
    selected_versions: Seq<Seq<char>>,
    selected_loaders: Seq<Seq<char>>,
    project_type: Seq<char>,
) -> bool {
    let loaders = effective_loaders(project_type, selected_loaders);
    let version_match = selected_versions.len() == 0 || shares_name(game_versions, selected_versions);
    let loader_match = project_type == "shader"@ || project_type == "resourcepack"@ || loaders.len() == 0 || shares_name(
        version_loaders,
        loaders,
    );
    version_match && loader_match
}

/// Whether some string of `a` is also in `b`.
fn any_shared(a: &Vec<String>, b: &Vec<String>) -> (r: bool)
    ensures
        r == shares_name(strings_view(a@), strings_view(b@)),
{
    let mut i: usize = 0;
    while i < a.len()
        invariant
            i <= a.len(),
            forall|k: int| 0 <= k < i ==> !strings_view(b@).contains(#[trigger] strings_view(a@)[k]),
        decreases a.len() - i,
    {
        if crate::launch::contains_str(b, a[i].as_str()) {
            assert(strings_view(a@)[i as int] == a@[i as int]@);
            return true;
        }
        i += 1;
    }
    false
}

/// Whether a Modrinth version, which supports `game_versions` and `version_loaders`,
/// suits the selected game versions and loaders for a project of type `project_type`.
pub fn modrinth_version_matches(
    game_versions: &Vec<String>,
    version_loaders: &Vec<String>,
    selected_versions: &Vec<String>,
    selected_loaders: &Vec<String>,
    project_type: &str,
) -> (r: bool)
    ensures
        r == version_matches_seq(
            strings_view(game_versions@),
            strings_view(version_loaders@),
            strings_view(selected_versions@),
            strings_view(selected_loaders@),
            project_type@,
        ),
{
    let version_match = selected_versions.len() == 0 || any_shared(game_versions, selected_versions);
    let loader_match = if str_eq(project_type, "shader") || str_eq(project_type, "resourcepack") {
        true
    } else if str_eq(project_type, "datapack") {
        let loaders = vec![owned("datapack")];
        assert(strings_view(loaders@) =~= seq!["datapack"@]);
        any_shared(version_loaders, &loaders)
    } else {
        selected_loaders.len() == 0 || any_shared(version_loaders, selected_loaders)
    };
    version_match && loader_match
}

// ---------------------------------------------------------------------------
// Modrinth requests
// ---------------------------------------------------------------------------

/// How a Modrinth command is answered.
pub enum ModrinthRequest {
    /// The JSON at the address, as it is.
    Fetch(String),
    /// The versions listed at the address that suit the selection.
    FilteredVersions(String),
    /// The required dependencies of the first suitable version listed at the address.
    Dependencies(String),
    /// The game versions listed at the address; releases only, unless snapshots are
    /// included.
    GameVersions(String, bool),
}

/// The mathematical form of a [`ModrinthRequest`].
pub enum ModrinthRequestView {
    Fetch(Seq<char>),
    FilteredVersions(Seq<char>),
    Dependencies(Seq<char>),
    GameVersions(Seq<char>, bool),
}

impl View for ModrinthRequest {
    type V = ModrinthRequestView;

    open spec fn view(&self) -> ModrinthRequestView {
        match self {
            ModrinthRequest::Fetch(u) => ModrinthRequestView::Fetch(u@),
            ModrinthRequest::FilteredVersions(u) => ModrinthRequestView::FilteredVersions(u@),
            ModrinthRequest::Dependencies(u) => ModrinthRequestView::Dependencies(u@),
            ModrinthRequest::GameVersions(u, s) => ModrinthRequestView::GameVersions(u@, *s),
        }
    }
}

/// The address of the versions of a Modrinth project.
pub open spec fn project_versions_url_seq(id: Seq<char>) -> Seq<char> {
    "https://api.modrinth.com/v2/project/"@ + id + "/version"@
}

/// The address of a document of Modrinth's launcher metadata for `project` (the game
/// or a loader): `<document>.json` under the project's `v0` folder.
pub open spec fn launcher_meta_url_seq(project: Seq<char>, document: Seq<char>) -> Seq<char> {
    "https://launcher-meta.modrinth.com/"@ + project + "/v0/"@ + document + ".json"@
}

/// The address of a document of Modrinth's launcher metadata.
pub fn launcher_meta_url(project: &str, document: &str) -> (r: String)
    ensures
        r@ == launcher_meta_url_seq(project@, document@),
{
    crate::text::concat5("https://launcher-meta.modrinth.com/", project, "/v0/", document, ".json")
}

/// The address of one Modrinth version.
pub open spec fn version_url_seq(version_id: Seq<char>) -> Seq<char> {
    "https://api.modrinth.com/v2/version/"@ + version_id
}

/// How each Modrinth command is answered: the address it reads, and what is done with
/// the reply.
pub open spec fn modrinth_request_seq(c: crate::cli_args::ModrinthCommand) -> ModrinthRequestView {
    match c {
        crate::cli_args::ModrinthCommand::Search(a) => ModrinthRequestView::Fetch(modrinth_search_url_seq(
            a.index@,
            a.offset as int,
            a.limit as int,
            crate::cli_args::ov(a.query),
            crate::cli_args::ov(a.facets_json),
        )),
        crate::cli_args::ModrinthCommand::Project(a) => ModrinthRequestView::Fetch("https://api.modrinth.com/v2/project/"@ + a.id@),
        crate::cli_args::ModrinthCommand::Versions(a) => ModrinthRequestView::Fetch(project_versions_url_seq(a.id@)),
        crate::cli_args::ModrinthCommand::Version(a) => ModrinthRequestView::Fetch(version_url_seq(a.version_id@)),
        crate::cli_args::ModrinthCommand::FileByHash(a) => ModrinthRequestView::Fetch("https://api.modrinth.com/v2/version_file/"@ + a.hash@),
        crate::cli_args::ModrinthCommand::VersionInfo(a) => ModrinthRequestView::Fetch(
            launcher_meta_url_seq("minecraft"@, "versions/"@ + a.version@),
        ),
        crate::cli_args::ModrinthCommand::LoaderManifest(a) => ModrinthRequestView::Fetch(
            launcher_meta_url_seq(a.loader@, "manifest"@),
        ),
        crate::cli_args::ModrinthCommand::LoaderProfile(a) => ModrinthRequestView::Fetch(
            launcher_meta_url_seq(a.loader@, "versions/"@ + a.version@),
        ),
        crate::cli_args::ModrinthCommand::VersionsFilter(a) => ModrinthRequestView::FilteredVersions(project_versions_url_seq(a.id@)),
        crate::cli_args::ModrinthCommand::Dependencies(a) => ModrinthRequestView::Dependencies(project_versions_url_seq(a.id@)),
        crate::cli_args::ModrinthCommand::Loaders => ModrinthRequestView::Fetch("https://api.modrinth.com/v2/tag/loader"@),
        crate::cli_args::ModrinthCommand::Categories => ModrinthRequestView::Fetch("https://api.modrinth.com/v2/tag/category"@),
        crate::cli_args::ModrinthCommand::GameVersions(a) => ModrinthRequestView::GameVersions(
            "https://api.modrinth.com/v2/tag/game_version"@,
            a.include_snapshots,
        ),
    }
}

/// The address of the versions of a Modrinth project.
pub fn project_versions_url(id: &str) -> (r: String)
    ensures
        r@ == project_versions_url_seq(id@),
{
    crate::text::concat3("https://api.modrinth.com/v2/project/", id, "/version")
}

/// The address of one Modrinth version.
pub fn version_url(version_id: &str) -> (r: String)
    ensures
        r@ == version_url_seq(version_id@),
{
    crate::text::concat2("https://api.modrinth.com/v2/version/", version_id)
}

/// How a Modrinth command is answered.
pub fn modrinth_request(command: &crate::cli_args::ModrinthCommand) -> (r: ModrinthRequest)
    ensures
        r@ == modrinth_request_seq(*command),
{
    match command {
        crate::cli_args::ModrinthCommand::Search(a) => ModrinthRequest::Fetch(modrinth_search_url(
            a.index.as_str(),
            a.offset,
            a.limit,
            &a.query,
            &a.facets_json,
        )),
        crate::cli_args::ModrinthCommand::Project(a) => ModrinthRequest::Fetch(
            crate::text::concat2("https://api.modrinth.com/v2/project/", a.id.as_str()),
        ),
        crate::cli_args::ModrinthCommand::Versions(a) => ModrinthRequest::Fetch(project_versions_url(a.id.as_str())),
        crate::cli_args::ModrinthCommand::Version(a) => ModrinthRequest::Fetch(version_url(a.version_id.as_str())),
        crate::cli_args::ModrinthCommand::FileByHash(a) => ModrinthRequest::Fetch(
            crate::text::concat2("https://api.modrinth.com/v2/version_file/", a.hash.as_str()),
        ),
        crate::cli_args::ModrinthCommand::VersionInfo(a) => {
            let document = crate::text::concat2("versions/", a.version.as_str());
            ModrinthRequest::Fetch(launcher_meta_url("minecraft", document.as_str()))
        },
        crate::cli_args::ModrinthCommand::LoaderManifest(a) => ModrinthRequest::Fetch(
            launcher_meta_url(a.loader.as_str(), "manifest"),
        ),
        crate::cli_args::ModrinthCommand::LoaderProfile(a) => {
            let document = crate::text::concat2("versions/", a.version.as_str());
            ModrinthRequest::Fetch(launcher_meta_url(a.loader.as_str(), document.as_str()))
        },
        crate::cli_args::ModrinthCommand::VersionsFilter(a) => ModrinthRequest::FilteredVersions(project_versions_url(a.id.as_str())),
        crate::cli_args::ModrinthCommand::Dependencies(a) => ModrinthRequest::Dependencies(project_versions_url(a.id.as_str())),
        crate::cli_args::ModrinthCommand::Loaders => ModrinthRequest::Fetch(owned("https://api.modrinth.com/v2/tag/loader")),
        crate::cli_args::ModrinthCommand::Categories => ModrinthRequest::Fetch(owned("https://api.modrinth.com/v2/tag/category")),
        crate::cli_args::ModrinthCommand::GameVersions(a) => ModrinthRequest::GameVersions(
            owned("https://api.modrinth.com/v2/tag/game_version"),
            a.include_snapshots,
        ),
    }
}

// ---------------------------------------------------------------------------
// Download file names
// ---------------------------------------------------------------------------

/// The file name of a download: what follows the last `/` of its address, or
/// `server.jar` when that is empty.
pub open spec fn download_file_name_seq(url: Seq<char>) -> Seq<char> {
    let tail = match last_occurrence(url, "/"@) {
        Some(i) => url.skip(i + 1),
        None => url,
    };
    if tail.len() > 0 {
        tail
    } else {
        "server.jar"@
    }
}

/// The file name of a download.
pub fn download_file_name(url: &str) -> (r: String)
    ensures
        r@ == download_file_name_seq(url@),
{
    let cs = chars_of(url);
    let slash = chars_of("/");
    let tail = match rfind(&cs, &slash) {
        Some(i) => {
            proof {
                reveal_strlit("/");
            }
            let n = cs.len();
            assert(i + 1 <= n);
            let t = string_of_range(&cs, i + 1, cs.len());
            assert(t@ == cs@.skip(i + 1));
            t
        },
        None => owned(url),
    };
    if tail.as_str().is_empty() {
        owned("server.jar")
    } else {
        tail
    }
}


/// The address a custom mirror's template resolves to for a core and versions.
pub fn custom_url(
    base_url: &str,
    template: &str,
    core_name: &str,
    game_version: &str,
    core_version: &str,
) -> (r: Result<String, CoreError>)
    ensures
        crate::mirror::string_result_view(r) == crate::mirror::spec_custom_mirror_url(
            base_url@,
            template@,
            core_name@,
            game_version@,
            core_version@,
        ),
{
    crate::mirror::custom_mirror_url(base_url, template, core_name, game_version, core_version)
}

} // verus!
