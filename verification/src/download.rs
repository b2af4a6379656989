//! What to download and where to put it: server jars, loader installers and resources.

use vstd::prelude::*;
use std::collections::BTreeMap;
use crate::error::{CoreError, CoreErrorView};
use crate::model::ServerInstance;
use crate::paths::{join_seq, path_join, path_join2};
use crate::text::{
    ascii_lower_seq, concat2, concat3, concat4, concat5, ends_with, has_prefix, has_suffix,
    owned, starts_with, str_eq, to_ascii_lowercase, trim, trim_seq,
};

verus! {

/// A file to download: its URL, optional SHA-1, file name and request headers.
#[derive(Debug, Clone, PartialEq, Eq)]
pub struct DownloadTarget {
    pub url: String,
    pub sha1: Option<String>,
    pub file_name: String,
    pub headers: BTreeMap<String, String>,
}

/// A Java runtime component and its major version.
#[derive(Debug, Clone, PartialEq, Eq)]
pub struct JavaVersion {
    pub component: String,
    pub major_version: u32,
}

/// The kinds of game resources that can be installed into a profile.
#[derive(Debug, Clone, Copy, PartialEq, Eq, Structural)]
pub enum ResourceType {
    Mod,
    Datapack,
    Shader,
    Resourcepack,
}

/// The resource kind named by `value`, ignoring surrounding whitespace and ASCII case.
pub open spec fn spec_resource_type(value: Seq<char>) -> Option<ResourceType> {
    let v = ascii_lower_seq(trim_seq(value));
    if v == "mod"@ {
        Some(ResourceType::Mod)
    } else if v == "datapack"@ {
        Some(ResourceType::Datapack)
    } else if v == "shader"@ {
        Some(ResourceType::Shader)
    } else if v == "resourcepack"@ {
        Some(ResourceType::Resourcepack)
    } else {
        None
    }
}

/// The profile directory that holds a resource of kind `t` named `file_name`: jar files
/// of data and resource packs are mods.
pub open spec fn spec_directory_name(t: ResourceType, file_name: Seq<char>) -> Seq<char> {
    let is_jar = has_suffix(ascii_lower_seq(file_name), ".jar"@);
    match t {
        ResourceType::Mod => "mods"@,
        ResourceType::Datapack => if is_jar {
            "mods"@
        } else {
            "datapacks"@
        },
        ResourceType::Shader => "shaderpacks"@,
        ResourceType::Resourcepack => if is_jar {
            "mods"@
        } else {
            "resourcepacks"@
        },
    }
}

impl ResourceType {
    /// The resource kind named by `value`, ignoring surrounding whitespace and ASCII case.
    pub fn parse(value: &str) -> (r: Option<ResourceType>)
        ensures
            r == spec_resource_type(value@),
    {
        let t = trim(value);
        let v = to_ascii_lowercase(t.as_str());
        if str_eq(v.as_str(), "mod") {
            Some(ResourceType::Mod)
        } else if str_eq(v.as_str(), "datapack") {
            Some(ResourceType::Datapack)
        } else if str_eq(v.as_str(), "shader") {
            Some(ResourceType::Shader)
        } else if str_eq(v.as_str(), "resourcepack") {
            Some(ResourceType::Resourcepack)
        } else {
            None
        }
    }

    /// The profile directory that holds a resource of this kind named `file_name`.
    pub fn directory_name(self, file_name: &str) -> (r: &'static str)
        ensures
            r@ == spec_directory_name(self, file_name@),
    {
        let lower = to_ascii_lowercase(file_name);
        let is_jar = ends_with(lower.as_str(), ".jar");
        match self {
            ResourceType::Mod => "mods",
            ResourceType::Datapack => if is_jar {
                "mods"
            } else {
                "datapacks"
            },
            ResourceType::Shader => "shaderpacks",
            ResourceType::Resourcepack => if is_jar {
                "mods"
            } else {
                "resourcepacks"
            },
        }
    }
}

/// The directory of a server below a working directory: `<working>/servers/<directory>`.
pub open spec fn server_dir_path(working_path: Seq<char>, directory_name: Seq<char>) -> Seq<
    char,
> {
    join_seq(join_seq(working_path, "servers"@), directory_name)
}

/// Plans where server files live below a working directory.
pub struct ServerDownloadPlanner {
    pub working_path: String,
}

impl ServerDownloadPlanner {
    /// A planner for the given working directory.
    pub fn new(working_path: &str) -> (p: ServerDownloadPlanner)
        ensures
            p.working_path@ == working_path@,
    {
        ServerDownloadPlanner { working_path: owned(working_path) }
    }

    /// The directory of `server`.
    pub fn server_dir(&self, server: &ServerInstance) -> (r: String)
        ensures
            r@ == server_dir_path(self.working_path@, server.directory_name@),
    {
        path_join2(self.working_path.as_str(), "servers", server.directory_name.as_str())
    }

    /// The path of the jar of `server`.
    pub fn server_jar_path(&self, server: &ServerInstance) -> (r: String)
        ensures
            r@ == join_seq(
                server_dir_path(self.working_path@, server.directory_name@),
                server.server_jar@,
            ),
    {
        let dir = self.server_dir(server);
        path_join(dir.as_str(), server.server_jar.as_str())
    }
}

/// Plans where game resources are installed below a working directory.
pub struct ResourceDownloadPlanner {
    pub working_path: String,
}

/// Where a resource goes: `<working>/profiles/<game>/<kind directory>/<file>`, with the
/// game and file names trimmed; blank names are errors.
pub open spec fn spec_resource_destination(
    working_path: Seq<char>,
    game_name: Seq<char>,
    t: ResourceType,
    file_name: Seq<char>,
) -> Result<Seq<char>, CoreErrorView> {
    let game = trim_seq(game_name);
    let file = trim_seq(file_name);
    if game.len() == 0 {
        Err(CoreErrorView::Validation("game name cannot be empty"@))
    } else if file.len() == 0 {
        Err(CoreErrorView::Validation("resource file name cannot be empty"@))
    } else {
        Ok(
            join_seq(
                join_seq(join_seq(join_seq(working_path, "profiles"@), game), spec_directory_name(t, file)),
                file,
            ),
        )
    }
}

impl ResourceDownloadPlanner {
    /// A planner for the given working directory.
    pub fn new(working_path: &str) -> (p: ResourceDownloadPlanner)
        ensures
            p.working_path@ == working_path@,
    {
        ResourceDownloadPlanner { working_path: owned(working_path) }
    }

    /// Where a resource of kind `resource_type` named `file_name` is installed for the
    /// game profile `game_name`.
    pub fn resource_destination(
        &self,
        game_name: &str,
        resource_type: ResourceType,
        file_name: &str,
    ) -> (r: Result<String, CoreError>)
        ensures
            crate::mirror::string_result_view(r) == spec_resource_destination(
                self.working_path@,
                game_name@,
                resource_type,
                file_name@,
            ),
    {
        let game = trim(game_name);
        let file = trim(file_name);
        if game.as_str().is_empty() {
            return Err(CoreError::validation("game name cannot be empty"));
        }
        if file.as_str().is_empty() {
            return Err(CoreError::validation("resource file name cannot be empty"));
        }
        let profile = path_join2(self.working_path.as_str(), "profiles", game.as_str());
        let dir = path_join(profile.as_str(), resource_type.directory_name(file.as_str()));
        Ok(path_join(dir.as_str(), file.as_str()))
    }
}

/// Whether a URL is an HTTP or HTTPS URL.
pub open spec fn spec_is_http_url(value: Seq<char>) -> bool {
    has_prefix(value, "https://"@) || has_prefix(value, "http://"@)
}

/// Whether a URL is an HTTP or HTTPS URL.
pub fn is_http_url(value: &str) -> (r: bool)
    ensures
        r == spec_is_http_url(value@),
{
    starts_with(value, "https://") || starts_with(value, "http://")
}

/// The view of a download target: URL, SHA-1, file name and header map.
pub struct DownloadTargetView {
    pub url: Seq<char>,
    pub sha1: Option<Seq<char>>,
    pub file_name: Seq<char>,
    pub headers: Map<String, String>,
}

impl View for DownloadTarget {
    type V = DownloadTargetView;

    open spec fn view(&self) -> DownloadTargetView {
        DownloadTargetView {
            url: self.url@,
            sha1: crate::model::opt_view(self.sha1),
            file_name: self.file_name@,
            headers: self.headers@,
        }
    }
}

/// A target with no checksum and no headers.
pub open spec fn plain_target(url: Seq<char>, file_name: Seq<char>) -> DownloadTargetView {
    DownloadTargetView { url, sha1: None, file_name, headers: Map::empty() }
}

/// The view of a target result.
pub open spec fn target_result_view(r: Result<DownloadTarget, CoreError>) -> Result<
    DownloadTargetView,
    CoreErrorView,
> {
    match r {
        Ok(t) => Ok(t@),
        Err(e) => Err(e@),
    }
}

/// A direct mirror download: the file name must not be blank and the URL must be HTTP(S).
pub open spec fn spec_mirror_direct_target(file_name: Seq<char>, url: Seq<char>) -> Result<
    DownloadTargetView,
    CoreErrorView,
> {
    if trim_seq(file_name).len() == 0 {
        Err(CoreErrorView::Validation("download file name cannot be empty"@))
    } else if !spec_is_http_url(url) {
        Err(CoreErrorView::Validation("invalid download url"@))
    } else {
        Ok(plain_target(url, file_name))
    }
}

/// A direct mirror download of `download_url` saved as `file_name`.
pub fn mirror_direct_target(file_name: &str, download_url: &str) -> (r: Result<
    DownloadTarget,
    CoreError,
>)
    ensures
        target_result_view(r) == spec_mirror_direct_target(file_name@, download_url@),
{
    let name = trim(file_name);
    if name.as_str().is_empty() {
        return Err(CoreError::validation("download file name cannot be empty"));
    }
    if !is_http_url(download_url) {
        return Err(CoreError::validation("invalid download url"));
    }
    Ok(
        DownloadTarget {
            url: owned(download_url),
            sha1: None,
            file_name: owned(file_name),
            headers: BTreeMap::new(),
        },
    )
}

/// The Forge installer of a game and loader version (both trimmed, neither blank).
pub open spec fn spec_forge_installer_target(game_version: Seq<char>, loader_version: Seq<char>) -> Result<
    DownloadTargetView,
    CoreErrorView,
> {
    let g = trim_seq(game_version);
    let l = trim_seq(loader_version);
    let file_name = "forge-"@ + g + "-"@ + l + "-installer.jar"@;
    if g.len() == 0 {
        Err(CoreErrorView::Validation("game version cannot be empty"@))
    } else if l.len() == 0 {
        Err(CoreErrorView::Validation("forge loader version cannot be empty"@))
    } else {
        Ok(
            plain_target(
                "https://maven.minecraftforge.net/net/minecraftforge/forge/"@ + g + "-"@ + l
                    + "/"@ + file_name,
                file_name,
            ),
        )
    }
}

/// The Forge installer download for a game and loader version.
pub fn forge_installer_target(game_version: &str, loader_version: &str) -> (r: Result<
    DownloadTarget,
    CoreError,
>)
    ensures
        target_result_view(r) == spec_forge_installer_target(game_version@, loader_version@),
{
    let g = trim(game_version);
    let l = trim(loader_version);
    if g.as_str().is_empty() {
        return Err(CoreError::validation("game version cannot be empty"));
    }
    if l.as_str().is_empty() {
        return Err(CoreError::validation("forge loader version cannot be empty"));
    }
    let file_name = concat5("forge-", g.as_str(), "-", l.as_str(), "-installer.jar");
    let url = concat5(
        "https://maven.minecraftforge.net/net/minecraftforge/forge/",
        g.as_str(),
        "-",
        l.as_str(),
        "/",
    );
    let url = concat2(url.as_str(), file_name.as_str());
    Ok(DownloadTarget { url, sha1: None, file_name, headers: BTreeMap::new() })
}

/// The Fabric server launcher jar of a game, loader and installer version (all
/// trimmed, none blank).
pub open spec fn spec_fabric_server_jar_target(
    game_version: Seq<char>,
    loader_version: Seq<char>,
    installer_version: Seq<char>,
) -> Result<DownloadTargetView, CoreErrorView> {
    let g = trim_seq(game_version);
    let l = trim_seq(loader_version);
    let i = trim_seq(installer_version);
    if g.len() == 0 {
        Err(CoreErrorView::Validation("game version cannot be empty"@))
    } else if l.len() == 0 {
        Err(CoreErrorView::Validation("fabric loader version cannot be empty"@))
    } else if i.len() == 0 {
        Err(CoreErrorView::Validation("fabric installer version cannot be empty"@))
    } else {
        Ok(
            plain_target(
                "https://meta.fabricmc.net/v2/versions/loader/"@ + g + "/"@ + l + "/"@ + i
                    + "/server/jar"@,
                "fabric-server-"@ + g + "-"@ + l + ".jar"@,
            ),
        )
    }
}

/// The Fabric server launcher download for a game, loader and installer version.
pub fn fabric_server_jar_target(
    game_version: &str,
    loader_version: &str,
    installer_version: &str,
) -> (r: Result<DownloadTarget, CoreError>)
    ensures
        target_result_view(r) == spec_fabric_server_jar_target(
            game_version@,
            loader_version@,
            installer_version@,
        ),
{
    let g = trim(game_version);
    let l = trim(loader_version);
    let i = trim(installer_version);
    if g.as_str().is_empty() {
        return Err(CoreError::validation("game version cannot be empty"));
    }
    if l.as_str().is_empty() {
        return Err(CoreError::validation("fabric loader version cannot be empty"));
    }
    if i.as_str().is_empty() {
        return Err(CoreError::validation("fabric installer version cannot be empty"));
    }
    let a = concat5("https://meta.fabricmc.net/v2/versions/loader/", g.as_str(), "/", l.as_str(), "/");
    let url = concat3(a.as_str(), i.as_str(), "/server/jar");
    let file_name = concat5("fabric-server-", g.as_str(), "-", l.as_str(), ".jar");
    Ok(DownloadTarget { url, sha1: None, file_name, headers: BTreeMap::new() })
}

/// The Java runtime component that provides a Java major version.
pub open spec fn spec_java_component(major_version: u32) -> Option<Seq<char>> {
    if major_version == 8 {
        Some("java-runtime-alpha"@)
    } else if major_version == 16 {
        Some("java-runtime-gamma"@)
    } else if major_version == 17 {
        Some("java-runtime-beta"@)
    } else if major_version == 21 {
        Some("java-runtime-delta"@)
    } else if major_version == 25 {
        Some("java-runtime-epsilon"@)
    } else {
        None
    }
}

/// The view of an optional static string.
pub open spec fn opt_static_view(o: Option<&'static str>) -> Option<Seq<char>> {
    match o {
        Some(s) => Some(s@),
        None => None,
    }
}

/// The Java runtime component that provides a Java major version.
pub fn java_component_for_major(major_version: u32) -> (r: Option<&'static str>)
    ensures
        opt_static_view(r) == spec_java_component(major_version),
{
    match major_version {
        8 => Some("java-runtime-alpha"),
        16 => Some("java-runtime-gamma"),
        17 => Some("java-runtime-beta"),
        21 => Some("java-runtime-delta"),
        25 => Some("java-runtime-epsilon"),
        _ => None,
    }
}

// ---------------------------------------------------------------------------
// Checking downloaded files
// ---------------------------------------------------------------------------

/// The Java command a server's jar is checked with: its own Java path, trimmed, or
/// `java` when that is blank.
pub open spec fn integrity_java_seq(java_path: Seq<char>) -> Seq<char> {
    let t = trim_seq(java_path);
    if t.len() == 0 {
        "java"@
    } else {
        t
    }
}

/// The Java command a server's jar is checked with.
pub fn integrity_java_path(server: &ServerInstance) -> (r: String)
    ensures
        r@ == integrity_java_seq(server.java_path@),
{
    let t = trim(server.java_path.as_str());
    if t.as_str().is_empty() {
        owned("java")
    } else {
        t
    }
}

/// Whether what `java -jar <jar> --help` printed leaves the jar intact: its standard
/// output and standard error, joined by a line break and lowercased, do not say
/// `invalid or corrupt jarfile`.
pub open spec fn jar_output_intact_seq(out: Seq<char>, err: Seq<char>) -> bool {
    !crate::text::contains_seq(crate::text::lowercase_seq(out + "\n"@ + err), "invalid or corrupt jarfile"@)
}

/// Whether the output of running a jar with `--help` leaves it intact.
pub fn jar_help_output_intact(stdout: &[u8], stderr: &[u8]) -> (r: bool)
    ensures
        r == jar_output_intact_seq(crate::local::utf8_lossy(stdout@), crate::local::utf8_lossy(stderr@)),
{
    let out = crate::local::decode_utf8_lossy(stdout);
    let err = crate::local::decode_utf8_lossy(stderr);
    let merged = concat3(out.as_str(), "\n", err.as_str());
    let lower = crate::text::to_lowercase(merged.as_str());
    !crate::text::contains(lower.as_str(), "invalid or corrupt jarfile")
}

/// The SHA-1 that `shasum -a 1` printed: refused with its trimmed error output when it
/// failed, or when it printed no word; otherwise its first word.
pub open spec fn spec_sha1_outcome(success: bool, out: Seq<char>, err: Seq<char>) -> Result<Seq<char>, CoreErrorView> {
    if !success {
        Err(CoreErrorView::Runtime(trim_seq(err)))
    } else {
        let w = crate::text::words_seq(out);
        if w.len() == 0 {
            Err(CoreErrorView::Runtime("sha1 command returned empty output"@))
        } else {
            Ok(w[0])
        }
    }
}

/// The SHA-1 read from what `shasum -a 1` printed, given whether it succeeded.
pub fn sha1_from_shasum(success: bool, stdout: &[u8], stderr: &[u8]) -> (r: Result<String, CoreError>)
    ensures
        ({
            let expected = spec_sha1_outcome(success, crate::local::utf8_lossy(stdout@), crate::local::utf8_lossy(stderr@));
            match r {
                Ok(s) => expected == Ok::<Seq<char>, CoreErrorView>(s@),
                Err(e) => expected == Err::<Seq<char>, CoreErrorView>(e@),
            }
        }),
{
    if !success {
        let err = crate::local::decode_utf8_lossy(stderr);
        let t = trim(err.as_str());
        return Err(CoreError::Runtime(t));
    }
    let out = crate::local::decode_utf8_lossy(stdout);
    let mut words = crate::text::split_whitespace(out.as_str());
    if words.len() == 0 {
        return Err(CoreError::runtime("sha1 command returned empty output"));
    }
    assert(words@[0]@ == crate::model::strings_view(words@)[0]);
    Ok(words.swap_remove(0))
}

// ---------------------------------------------------------------------------
// Downloading with curl
// ---------------------------------------------------------------------------

/// What `Path::with_extension` gives for the Unix path `p` and the extension `ext` (on
/// Windows `\\` separates too, and the result may differ).
pub uninterp spec fn path_with_extension(p: Seq<char>, ext: Seq<char>) -> Seq<char>;

/// `std::path::Path::with_extension`, read as text of a Unix path: the contract claims
/// only that the result is the named function of the path and the extension. std panics
/// on an extension that holds a path separator, so such an extension is not admitted.
#[verifier::external_body]
fn with_extension(path: &str, ext: &str) -> (r: String)
    requires
        !ext@.contains('/'),
    ensures
        r@ == path_with_extension(path@, ext@),
{
    std::path::Path::new(path).with_extension(ext).to_string_lossy().into_owned()
}

/// The directory a download is written into: refused when the URL is not HTTP(S), or
/// the destination has no parent directory.
pub open spec fn spec_download_parent(url: Seq<char>, destination: Seq<char>) -> Result<Seq<char>, CoreErrorView> {
    if !spec_is_http_url(url) {
        Err(CoreErrorView::Validation("invalid download url"@))
    } else {
        match crate::launch::path_parent_of(destination) {
            Some(p) => Ok(p),
            None => Err(CoreErrorView::Validation("download destination must have a parent directory"@)),
        }
    }
}

/// The directory a download of `url` to `destination` is written into.
pub fn download_parent(url: &str, destination: &str) -> (r: Result<String, CoreError>)
    ensures
        match r {
            Ok(p) => spec_download_parent(url@, destination@) == Ok::<Seq<char>, CoreErrorView>(p@),
            Err(e) => spec_download_parent(url@, destination@) == Err::<Seq<char>, CoreErrorView>(e@),
        },
{
    if !is_http_url(url) {
        return Err(CoreError::validation("invalid download url"));
    }
    match crate::launch::path_parent(destination) {
        Some(p) => Ok(p),
        None => Err(CoreError::validation("download destination must have a parent directory")),
    }
}

/// The file a download goes to until it is complete: the destination with
/// `.download` after its extension.
pub open spec fn download_temp_seq(destination: Seq<char>) -> Seq<char> {
    let ext = match crate::provision::path_extension(destination) {
        Some(e) => e,
        None => Seq::empty(),
    };
    path_with_extension(destination, ext + ".download"@)
}

/// The file a download goes to until it is complete.
pub fn download_temp_path(destination: &str) -> (r: String)
    ensures
        r@ == download_temp_seq(destination@),
{
    let ext = match crate::provision::extension_of(destination) {
        Some(e) => e,
        None => String::new(),
    };
    let with_suffix = concat2(ext.as_str(), ".download");
    proof {
        reveal_strlit(".download");
        assert forall|k: int| 0 <= k < with_suffix@.len() implies with_suffix@[k] != '/' by {
            if k < ext@.len() {
                assert(with_suffix@[k] == ext@[k]);
                if ext@[k] == '/' {
                    assert(ext@.contains('/'));
                }
            } else {
                assert(with_suffix@[k] == ".download"@[k - ext@.len()]);
            }
        }
    }
    with_extension(destination, with_suffix.as_str())
}

/// The headers as curl's `-H` arguments, in order.
pub open spec fn header_args(headers: Seq<(String, String)>) -> Seq<Seq<char>>
    decreases headers.len(),
{
    if headers.len() == 0 {
        Seq::empty()
    } else {
        header_args(headers.drop_last()).push("-H"@).push(headers.last().0@ + ": "@ + headers.last().1@)
    }
}

/// The fixed options of every download: follow redirects, fail on HTTP errors, print
/// only errors.
pub open spec fn curl_flags() -> Seq<Seq<char>> {
    seq!["-L"@, "--fail"@, "--silent"@, "--show-error"@]
}

/// The arguments of a resource download: the fixed options, the output file, the
/// headers, then the URL.
pub open spec fn resource_curl_args_seq(temp_path: Seq<char>, headers: Seq<(String, String)>, url: Seq<char>) -> Seq<Seq<char>> {
    curl_flags() + seq!["--output"@, temp_path] + header_args(headers) + seq![url]
}

/// The arguments of a file download: the fixed options, the headers, the output file,
/// then the URL.
pub open spec fn file_curl_args_seq(temp_path: Seq<char>, headers: Seq<(String, String)>, url: Seq<char>) -> Seq<Seq<char>> {
    curl_flags() + header_args(headers) + seq!["--output"@, temp_path, url]
}

/// `args` followed by the `-H` arguments of the headers.
fn push_header_args(args: &mut Vec<String>, headers: &Vec<(String, String)>)
    ensures
        crate::model::strings_view(final(args)@) == crate::model::strings_view(old(args)@) + header_args(headers@),
{
    let ghost start = crate::model::strings_view(args@);
    let mut i: usize = 0;
    while i < headers.len()
        invariant
            i <= headers@.len(),
            crate::model::strings_view(args@) == start + header_args(headers@.take(i as int)),
        decreases headers@.len() - i,
    {
        assert(headers@.take(i as int + 1).drop_last() =~= headers@.take(i as int));
        assert(headers@.take(i as int + 1).last() == headers@[i as int]);
        let ghost before = crate::model::strings_view(args@);
        args.push(owned("-H"));
        let h = concat3(headers[i].0.as_str(), ": ", headers[i].1.as_str());
        let ghost hv = h@;
        args.push(h);
        assert(crate::model::strings_view(args@) =~= before.push("-H"@).push(hv));
        i = i + 1;
        assert(crate::model::strings_view(args@) =~= start + header_args(headers@.take(i as int)));
    }
    assert(headers@.take(i as int) =~= headers@);
}

/// The fixed options of every download.
fn curl_flag_args() -> (r: Vec<String>)
    ensures
        crate::model::strings_view(r@) == curl_flags(),
{
    let mut args: Vec<String> = Vec::new();
    args.push(owned("-L"));
    args.push(owned("--fail"));
    args.push(owned("--silent"));
    args.push(owned("--show-error"));
    assert(crate::model::strings_view(args@) =~= curl_flags());
    args
}

/// The curl arguments that download a resource to `temp_path`.
pub fn resource_curl_args(temp_path: &str, headers: &Vec<(String, String)>, url: &str) -> (r: Vec<String>)
    ensures
        crate::model::strings_view(r@) == resource_curl_args_seq(temp_path@, headers@, url@),
{
    let mut args = curl_flag_args();
    args.push(owned("--output"));
    args.push(owned(temp_path));
    assert(crate::model::strings_view(args@) =~= curl_flags() + seq!["--output"@, temp_path@]);
    push_header_args(&mut args, headers);
    let ghost before = args@;
    args.push(owned(url));
    assert(crate::model::strings_view(args@) =~= crate::model::strings_view(before) + seq![url@]);
    args
}

/// The curl arguments that download a file to `temp_path`.
pub fn file_curl_args(temp_path: &str, headers: &Vec<(String, String)>, url: &str) -> (r: Vec<String>)
    ensures
        crate::model::strings_view(r@) == file_curl_args_seq(temp_path@, headers@, url@),
{
    let mut args = curl_flag_args();
    push_header_args(&mut args, headers);
    let ghost before = args@;
    args.push(owned("--output"));
    args.push(owned(temp_path));
    args.push(owned(url));
    assert(crate::model::strings_view(args@) =~= crate::model::strings_view(before) + seq!["--output"@, temp_path@, url@]);
    args
}

/// The checksum a download is checked against: the expected one when given and not
/// blank.
pub fn sha1_to_check(expected: Option<&str>) -> (r: bool)
    ensures
        r == match expected {
            Some(e) => trim_seq(e@).len() > 0,
            None => false,
        },
{
    match expected {
        Some(e) => !crate::text::is_blank(e),
        None => false,
    }
}

/// Whether a download's checksum `actual` is the `expected` one: equal to it trimmed,
/// ignoring ASCII case; otherwise refused naming both.
pub fn verify_sha1(expected: &str, actual: &str) -> (r: Result<(), CoreError>)
    ensures
        r is Ok <==> ascii_lower_seq(actual@) == ascii_lower_seq(trim_seq(expected@)),
        r matches Err(e) ==> e@ == CoreErrorView::Runtime("sha1 mismatch: expected "@ + expected@ + ", got "@ + actual@),
{
    let want = trim(expected);
    let a = to_ascii_lowercase(actual);
    let b = to_ascii_lowercase(want.as_str());
    if str_eq(a.as_str(), b.as_str()) {
        Ok(())
    } else {
        let mut m = owned("sha1 mismatch: expected ");
        crate::text::append(&mut m, expected);
        crate::text::append(&mut m, ", got ");
        crate::text::append(&mut m, actual);
        Err(CoreError::Runtime(m))
    }
}


/// Shader packs always go to the profile's `shaderpacks` directory, whatever the file is
/// named, and no other kind of resource goes there: a shader pack with a non-blank game
/// and file name lands at `<working>/profiles/<game>/shaderpacks/<file>`.
pub proof fn lemma_shader_destination(
    working_path: Seq<char>,
    game_name: Seq<char>,
    file_name: Seq<char>,
)
    ensures
        spec_directory_name(ResourceType::Shader, file_name) == "shaderpacks"@,
        forall|t: ResourceType|
            t != ResourceType::Shader ==> #[trigger] spec_directory_name(t, file_name)
                != "shaderpacks"@,
        trim_seq(game_name).len() > 0 && trim_seq(file_name).len() > 0
            ==> spec_resource_destination(working_path, game_name, ResourceType::Shader, file_name)
            == Ok::<Seq<char>, CoreErrorView>(
            join_seq(
                join_seq(join_seq(join_seq(working_path, "profiles"@), trim_seq(game_name)), "shaderpacks"@),
                trim_seq(file_name),
            ),
        ),
{
    reveal_strlit("shaderpacks");
    reveal_strlit("mods");
    reveal_strlit("datapacks");
    reveal_strlit("resourcepacks");
    assert forall|t: ResourceType|
        t != ResourceType::Shader implies #[trigger] spec_directory_name(t, file_name)
            != "shaderpacks"@ by {
        let d = spec_directory_name(t, file_name);
        assert(d.len() == 4 || d.len() == 9 || d.len() == 13);
    }
}


/// Each kind of resource has a directory of its own, except that jar files of data and
/// resource packs go with the mods: for a file that is not a jar the four kinds go to four
/// different directories, and for a jar file data and resource packs go where mods go
/// while shader packs stay apart.
pub proof fn lemma_resource_directories(file_name: Seq<char>)
    ensures
        !has_suffix(ascii_lower_seq(file_name), ".jar"@) ==> forall|t: ResourceType, u: ResourceType|
            t != u ==> #[trigger] spec_directory_name(t, file_name) != #[trigger] spec_directory_name(
                u,
                file_name,
            ),
        has_suffix(ascii_lower_seq(file_name), ".jar"@) ==> {
            &&& spec_directory_name(ResourceType::Datapack, file_name) == spec_directory_name(
                ResourceType::Mod,
                file_name,
            )
            &&& spec_directory_name(ResourceType::Resourcepack, file_name) == spec_directory_name(
                ResourceType::Mod,
                file_name,
            )
            &&& spec_directory_name(ResourceType::Shader, file_name) != spec_directory_name(
                ResourceType::Mod,
                file_name,
            )
        },
{
    reveal_strlit("shaderpacks");
    reveal_strlit("mods");
    reveal_strlit("datapacks");
    reveal_strlit("resourcepacks");
    if !has_suffix(ascii_lower_seq(file_name), ".jar"@) {
        assert forall|t: ResourceType, u: ResourceType|
            t != u implies #[trigger] spec_directory_name(t, file_name)
                != #[trigger] spec_directory_name(u, file_name) by {
            assert(spec_directory_name(t, file_name).len() != spec_directory_name(u, file_name).len());
        }
    }
}

} // verus!
