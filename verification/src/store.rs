//! Where the application keeps its data on each platform, and the server store's
//! location in it.

use vstd::prelude::*;
use crate::cli_args::ov;
use crate::error::{CoreError, CoreErrorView};
use crate::paths::{join_seq, path_join, path_join2};
use crate::text::{concat2, owned, str_eq};

verus! {

/// The name of the application's data directory.
pub open spec fn app_name_seq() -> Seq<char> {
    "SwiftCraftServerLauncher"@
}

/// The name of the application's data directory.
pub fn app_name() -> (r: &'static str)
    ensures
        r@ == app_name_seq(),
{
    "SwiftCraftServerLauncher"
}

/// The platform the application runs on, as far as its data directory depends on it.
#[derive(Clone, Copy, PartialEq, Eq, Structural)]
pub enum HostPlatform {
    MacOs,
    Windows,
    Other,
}

/// The environment variables the data directory depends on.
pub struct PlatformEnv {
    pub home: Option<String>,
    pub appdata: Option<String>,
    pub local_appdata: Option<String>,
    pub xdg_data_home: Option<String>,
}

/// A variable's value when it is set and not empty.
pub open spec fn set_value(value: Option<Seq<char>>) -> Option<Seq<char>> {
    match value {
        Some(v) => if v.len() > 0 {
            Some(v)
        } else {
            None
        },
        None => None,
    }
}

/// A variable's value when it is set and not empty.
pub fn optional_env_path(value: &Option<String>) -> (r: Option<String>)
    ensures
        ov(r) == set_value(ov(*value)),
{
    match value {
        Some(v) => if v.as_str().is_empty() {
            None
        } else {
            Some(owned(v.as_str()))
        },
        None => None,
    }
}

/// The value of the required variable `key`, which must be set and not empty.
pub open spec fn spec_env_path(key: Seq<char>, value: Option<Seq<char>>) -> Result<Seq<char>, CoreErrorView> {
    match set_value(value) {
        Some(v) => Ok(v),
        None => Err(CoreErrorView::Storage("failed to resolve required environment variable: "@ + key)),
    }
}

/// The value of the required variable `key`.
pub fn env_path(key: &str, value: &Option<String>) -> (r: Result<String, CoreError>)
    ensures
        crate::mirror::string_result_view(r) == spec_env_path(key@, ov(*value)),
{
    match optional_env_path(value) {
        Some(v) => Ok(v),
        None => Err(CoreError::Storage(concat2("failed to resolve required environment variable: ", key))),
    }
}

/// The application's data directory: under `~/Library/Application Support` on macOS;
/// under `%APPDATA%`, else `%LOCALAPPDATA%`, on Windows; elsewhere under
/// `$XDG_DATA_HOME`, else `~/.local/share`.
pub open spec fn spec_app_data_dir(platform: HostPlatform, home: Option<Seq<char>>, appdata: Option<Seq<char>>, local_appdata: Option<Seq<char>>, xdg: Option<Seq<char>>) -> Result<Seq<char>, CoreErrorView> {
    match platform {
        HostPlatform::MacOs => match spec_env_path("HOME"@, home) {
            Ok(h) => Ok(join_seq(join_seq(join_seq(h, "Library"@), "Application Support"@), app_name_seq())),
            Err(e) => Err(e),
        },
        HostPlatform::Windows => match set_value(appdata) {
            Some(a) => Ok(join_seq(a, app_name_seq())),
            None => match set_value(local_appdata) {
                Some(l) => Ok(join_seq(l, app_name_seq())),
                None => Err(CoreErrorView::Storage("failed to resolve Windows app data directory"@)),
            },
        },
        HostPlatform::Other => match set_value(xdg) {
            Some(x) => Ok(join_seq(x, app_name_seq())),
            None => match spec_env_path("HOME"@, home) {
                Ok(h) => Ok(join_seq(join_seq(join_seq(h, ".local"@), "share"@), app_name_seq())),
                Err(e) => Err(e),
            },
        },
    }
}

/// The data directory for a platform and its environment.
pub open spec fn app_data_dir_of(platform: HostPlatform, env: PlatformEnv) -> Result<Seq<char>, CoreErrorView> {
    spec_app_data_dir(platform, ov(env.home), ov(env.appdata), ov(env.local_appdata), ov(env.xdg_data_home))
}

/// The application's data directory.
pub fn platform_app_data_dir(platform: HostPlatform, env: &PlatformEnv) -> (r: Result<String, CoreError>)
    ensures
        crate::mirror::string_result_view(r) == app_data_dir_of(platform, *env),
{
    match platform {
        HostPlatform::MacOs => {
            let home = env_path("HOME", &env.home)?;
            let a = path_join2(home.as_str(), "Library", "Application Support");
            Ok(path_join(a.as_str(), app_name()))
        },
        HostPlatform::Windows => {
            if let Some(appdata) = optional_env_path(&env.appdata) {
                return Ok(path_join(appdata.as_str(), app_name()));
            }
            if let Some(local) = optional_env_path(&env.local_appdata) {
                return Ok(path_join(local.as_str(), app_name()));
            }
            Err(CoreError::Storage(owned("failed to resolve Windows app data directory")))
        },
        HostPlatform::Other => {
            if let Some(xdg) = optional_env_path(&env.xdg_data_home) {
                return Ok(path_join(xdg.as_str(), app_name()));
            }
            let home = env_path("HOME", &env.home)?;
            let a = path_join2(home.as_str(), ".local", "share");
            Ok(path_join(a.as_str(), app_name()))
        },
    }
}

/// Where the application keeps its database and its servers.
pub struct LocalAppPaths {
    pub db_path: String,
    pub working_path: String,
}

/// The database file below a data directory.
pub open spec fn db_path_of(app_dir: Seq<char>) -> Seq<char> {
    join_seq(join_seq(app_dir, "data"@), "data.db"@)
}

/// Where the application keeps its database (`data/data.db` in its data directory) and
/// its servers (the data directory itself).
pub fn platform_paths(platform: HostPlatform, env: &PlatformEnv) -> (r: Result<LocalAppPaths, CoreError>)
    ensures
        match r {
            Ok(p) => app_data_dir_of(platform, *env) == Ok::<Seq<char>, CoreErrorView>(p.working_path@)
                && p.db_path@ == db_path_of(p.working_path@),
            Err(e) => app_data_dir_of(platform, *env) == Err::<Seq<char>, CoreErrorView>(e@),
        },
{
    let app_support = platform_app_data_dir(platform, env)?;
    let db_path = path_join2(app_support.as_str(), "data", "data.db");
    Ok(LocalAppPaths { db_path, working_path: app_support })
}

/// The store of servers kept in the application's database, for one working directory.
pub struct LocalAppServerStore {
    pub db_path: String,
    pub working_path: String,
}

impl LocalAppServerStore {
    /// A store in the database at `db_path` for the servers of `working_path`.
    pub fn new(db_path: &str, working_path: &str) -> (r: LocalAppServerStore)
        ensures
            r.db_path@ == db_path@,
            r.working_path@ == working_path@,
    {
        LocalAppServerStore { db_path: owned(db_path), working_path: owned(working_path) }
    }

    /// The store at the platform's usual place.
    pub fn for_platform(platform: HostPlatform, env: &PlatformEnv) -> (r: Result<LocalAppServerStore, CoreError>)
        ensures
            match r {
                Ok(s) => app_data_dir_of(platform, *env) == Ok::<Seq<char>, CoreErrorView>(s.working_path@)
                    && s.db_path@ == db_path_of(s.working_path@),
                Err(e) => app_data_dir_of(platform, *env) == Err::<Seq<char>, CoreErrorView>(e@),
            },
    {
        let paths = platform_paths(platform, env)?;
        Ok(LocalAppServerStore::new(paths.db_path.as_str(), paths.working_path.as_str()))
    }

    /// The platform's usual database and working paths.
    pub fn platform_paths(platform: HostPlatform, env: &PlatformEnv) -> (r: Result<LocalAppPaths, CoreError>)
        ensures
            match r {
                Ok(p) => app_data_dir_of(platform, *env) == Ok::<Seq<char>, CoreErrorView>(p.working_path@)
                    && p.db_path@ == db_path_of(p.working_path@),
                Err(e) => app_data_dir_of(platform, *env) == Err::<Seq<char>, CoreErrorView>(e@),
            },
    {
        platform_paths(platform, env)
    }

    /// The database file.
    pub fn db_path(&self) -> (r: &str)
        ensures
            r@ == self.db_path@,
    {
        self.db_path.as_str()
    }

    /// The working directory whose servers the store holds.
    pub fn working_path(&self) -> (r: &str)
        ensures
            r@ == self.working_path@,
    {
        self.working_path.as_str()
    }
}


/// The working directory used: the one given on the command line, else the one saved in
/// the settings when it is not blank, else the store's.
pub open spec fn chosen_working_path(given: Option<Seq<char>>, saved: Option<Seq<char>>, default: Seq<char>) -> Seq<char> {
    match given {
        Some(w) => w,
        None => match saved {
            Some(s) => if crate::text::trim_seq(s).len() > 0 {
                s
            } else {
                default
            },
            None => default,
        },
    }
}

/// The database and working directory an application run uses: those given on the
/// command line, else the saved working directory, else the store's usual ones.
pub fn resolve_app_paths(
    given_db: Option<String>,
    given_working_path: Option<String>,
    saved_working_path: Option<String>,
    default_store: &LocalAppServerStore,
) -> (r: LocalAppPaths)
    ensures
        r.db_path@ == match given_db {
            Some(d) => d@,
            None => default_store.db_path@,
        },
        r.working_path@ == chosen_working_path(ov(given_working_path), ov(saved_working_path), default_store.working_path@),
{
    let db_path = match given_db {
        Some(d) => d,
        None => owned(default_store.db_path()),
    };
    let working_path = match given_working_path {
        Some(w) => w,
        None => match saved_working_path {
            Some(s) => if crate::text::is_blank(s.as_str()) {
                owned(default_store.working_path())
            } else {
                s
            },
            None => owned(default_store.working_path()),
        },
    };
    LocalAppPaths { db_path, working_path }
}

// ---------------------------------------------------------------------------
// The command line's settings file
// ---------------------------------------------------------------------------

/// A part of the settings that is read or written on its own.
#[derive(PartialEq, Eq, Structural, Clone, Copy)]
pub enum SettingsScope {
    General,
    Game,
    Theme,
    Ai,
    Mirror,
}

/// The part of the settings a scope names, trimmed and in ASCII lower case; other
/// names are refused.
pub open spec fn spec_settings_scope(scope: Seq<char>) -> Result<SettingsScope, CoreErrorView> {
    let k = crate::versions::type_key(scope);
    if k == "general"@ {
        Ok(SettingsScope::General)
    } else if k == "game"@ {
        Ok(SettingsScope::Game)
    } else if k == "theme"@ {
        Ok(SettingsScope::Theme)
    } else if k == "ai"@ {
        Ok(SettingsScope::Ai)
    } else if k == "mirror"@ {
        Ok(SettingsScope::Mirror)
    } else {
        Err(CoreErrorView::Validation("unknown settings scope: "@ + k))
    }
}

/// The part of the settings a scope names.
pub fn settings_scope(scope: &str) -> (r: Result<SettingsScope, CoreError>)
    ensures
        crate::error::result_view(r) == spec_settings_scope(scope@),
{
    let k = crate::versions::normalized_type(scope);
    let t = k.as_str();
    if str_eq(t, "general") {
        Ok(SettingsScope::General)
    } else if str_eq(t, "game") {
        Ok(SettingsScope::Game)
    } else if str_eq(t, "theme") {
        Ok(SettingsScope::Theme)
    } else if str_eq(t, "ai") {
        Ok(SettingsScope::Ai)
    } else if str_eq(t, "mirror") {
        Ok(SettingsScope::Mirror)
    } else {
        Err(CoreError::Validation(crate::text::concat2("unknown settings scope: ", t)))
    }
}

/// Where the settings are written: `data/settings.json` under the working directory.
pub fn settings_file_path(working_path: &str) -> (r: String)
    ensures
        r@ == join_seq(join_seq(working_path@, "data"@), "settings.json"@),
{
    crate::paths::path_join2(working_path, "data", "settings.json")
}

/// Where older versions kept the settings: `data/cli_settings.json` under the working
/// directory.
pub fn legacy_settings_file_path(working_path: &str) -> (r: String)
    ensures
        r@ == join_seq(join_seq(working_path@, "data"@), "cli_settings.json"@),
{
    crate::paths::path_join2(working_path, "data", "cli_settings.json")
}

/// The settings file that is read: the current one when it exists, else the older one
/// when that exists; none when neither does (the defaults apply).
pub fn settings_file_to_read(working_path: &str, current_exists: bool, legacy_exists: bool) -> (r: Option<String>)
    ensures
        crate::model::opt_view(r) == if current_exists {
            Some(join_seq(join_seq(working_path@, "data"@), "settings.json"@))
        } else if legacy_exists {
            Some(join_seq(join_seq(working_path@, "data"@), "cli_settings.json"@))
        } else {
            None
        },
{
    if current_exists {
        Some(settings_file_path(working_path))
    } else if legacy_exists {
        Some(legacy_settings_file_path(working_path))
    } else {
        None
    }
}

} // verus!
